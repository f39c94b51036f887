//! Screen pictures, and pasting decoded pieces into them.

use vstd::prelude::*;

verus! {

/// Height of both screens in pixels.
pub const SCREEN_HEIGHT: usize = 240;

/// Brightness of a screen that nothing was pasted into yet.
pub const BLANK: u8 = 20;

/// An opaque colour.
#[derive(Debug, Clone, Copy, PartialEq, Eq, Structural)]
pub struct Pixel {
    pub r: u8,
    pub g: u8,
    pub b: u8,
}

/// A raster of pixels, row by row from the top left.
#[derive(Debug, PartialEq, Eq)]
pub struct Image {
    pub width: usize,
    pub height: usize,
    pub pixels: Vec<Pixel>,
}

/// An image's contents.
#[verifier::ext_equal]
pub struct ImageView {
    pub width: nat,
    pub height: nat,
    pub pixels: Seq<Pixel>,
}

impl View for Image {
    type V = ImageView;

    open spec fn view(&self) -> ImageView {
        ImageView {
            width: self.width as nat,
            height: self.height as nat,
            pixels: self.pixels@,
        }
    }
}

impl ImageView {
    /// Whether there is one pixel for each place of the raster.
    pub open spec fn wf(self) -> bool {
        self.pixels.len() == self.width * self.height
    }

    /// The pixel in column `x` of row `y`.
    pub open spec fn at(self, x: int, y: int) -> Pixel {
        self.pixels[y * self.width + x]
    }
}

impl Image {
    /// Whether there is one pixel for each place of the raster.
    pub open spec fn wf(self) -> bool {
        self@.wf()
    }
}

impl Clone for Image {
    fn clone(&self) -> (copy: Image)
        ensures
            copy@ == self@,
    {
        Image { width: self.width, height: self.height, pixels: self.pixels.clone() }
    }
}

/// A blank screen of this width.
pub open spec fn blank(width: nat) -> ImageView {
    ImageView {
        width,
        height: SCREEN_HEIGHT as nat,
        pixels: Seq::new(
            width * SCREEN_HEIGHT as nat,
            |i: int| Pixel { r: BLANK, g: BLANK, b: BLANK },
        ),
    }
}

/// The pixel in column `c` of row `r` of decoded rows of `iw` pixels. The 3DS
/// framebuffer is blue first and is encoded as if red came first, so the two are
/// swapped back.
pub open spec fn source(rgb: Seq<u8>, iw: int, r: int, c: int) -> Pixel {
    let i = (r * iw + c) * 3;
    Pixel { r: rgb[i + 2], g: rgb[i + 1], b: rgb[i] }
}

/// How many screen pixels a run of `n` decoded pixels takes: a downscaled piece was
/// halved along both axes, and each of its pixels is shown as two by two.
pub open spec fn spread(n: int, downscaled: bool) -> int {
    if downscaled {
        2 * n
    } else {
        n
    }
}

/// The decoded pixel that pixel `n` of a spread run shows.
pub open spec fn origin(n: int, downscaled: bool) -> int {
    if downscaled {
        n / 2
    } else {
        n
    }
}

/// How many screen rows one source pixel covers.
pub open spec fn step(interlaced: bool) -> int {
    if interlaced {
        2
    } else {
        1
    }
}

/// The source column that fills screen row `y`, counted without regard to how wide
/// the source is.
pub open spec fn nominal_column(y: int, interlaced: bool) -> int {
    (SCREEN_HEIGHT - 1 - y) / step(interlaced)
}

/// The source column that fills screen row `y`: the one that belongs there; for the
/// top row, which also takes what would lie above it, the last one.
pub open spec fn column_for(y: int, iw: int, interlaced: bool) -> int {
    if y == 0 {
        iw - 1
    } else {
        nominal_column(y, interlaced)
    }
}

/// A screen's pixel at (`x`, `y`) once a piece has been pasted into it from column
/// `row_offset` on. One row of the piece, spread to full size where it is downscaled,
/// is one screen column, from the bottom up; an interlaced piece holds every other
/// pixel of it and each is doubled.
pub open spec fn pasted_pixel(
    old: ImageView,
    rgb: Seq<u8>,
    iw: int,
    ih: int,
    row_offset: int,
    interlaced: bool,
    downscaled: bool,
    x: int,
    y: int,
) -> Pixel {
    let span = spread(iw, downscaled);
    if row_offset <= x < row_offset + spread(ih, downscaled) && nominal_column(y, interlaced)
        < span {
        source(
            rgb,
            iw,
            origin(x - row_offset, downscaled),
            origin(column_for(y, span, interlaced), downscaled),
        )
    } else {
        old.at(x, y)
    }
}

/// A screen once a piece has been pasted into it.
pub open spec fn pasted(
    old: ImageView,
    rgb: Seq<u8>,
    iw: int,
    ih: int,
    row_offset: int,
    interlaced: bool,
    downscaled: bool,
) -> ImageView {
    ImageView {
        pixels: Seq::new(
            old.pixels.len(),
            |i: int|
                pasted_pixel(
                    old,
                    rgb,
                    iw,
                    ih,
                    row_offset,
                    interlaced,
                    downscaled,
                    i % old.width as int,
                    i / old.width as int,
                ),
        ),
        ..old
    }
}

/// How many columns of a screen of width `w` a piece of `span` columns covers.
pub open spec fn visible_columns(w: int, span: int, row_offset: int) -> int {
    if row_offset >= w {
        0
    } else if span < w - row_offset {
        span
    } else {
        w - row_offset
    }
}

/// How many rows of a piece fall on a screen of width `w`, wholly or in part.
pub open spec fn visible_rows(w: int, ih: int, row_offset: int, downscaled: bool) -> int {
    let columns = visible_columns(w, spread(ih, downscaled), row_offset);
    if downscaled {
        (columns + 1) / 2
    } else {
        columns
    }
}

/// A persistent screen that the decoded pieces are pasted into: strips,
/// interlaced fields and full frames all update the same image.
#[derive(Debug, PartialEq, Eq)]
pub struct ScreenBuf {
    pub image: Image,
}

impl ScreenBuf {
    /// Whether this is a screen of full height.
    pub open spec fn wf(self) -> bool {
        self.image.wf() && self.image@.height == SCREEN_HEIGHT
    }

    /// A blank screen.
    pub fn new(width: usize) -> (buf: ScreenBuf)
        requires
            width * SCREEN_HEIGHT <= usize::MAX,
        ensures
            buf.wf(),
            buf.image@ == blank(width as nat),
    {
        let n: usize = width * SCREEN_HEIGHT;
        let mut pixels: Vec<Pixel> = Vec::new();
        while pixels.len() < n
            invariant
                pixels@.len() <= n,
                forall|i: int|
                    0 <= i < pixels@.len() ==> pixels@[i] == (Pixel {
                        r: BLANK,
                        g: BLANK,
                        b: BLANK,
                    }),
            decreases n - pixels@.len(),
        {
            pixels.push(Pixel { r: BLANK, g: BLANK, b: BLANK });
        }
        let buf = ScreenBuf { image: Image { width, height: SCREEN_HEIGHT, pixels } };
        proof {
            assert(buf.image@ =~= blank(width as nat));
        }
        buf
    }

    /// Sets one pixel.
    fn put(&mut self, x: usize, y: usize, px: Pixel)
        requires
            old(self).wf(),
            x < old(self).image@.width,
            y < SCREEN_HEIGHT,
        ensures
            final(self).wf(),
            final(self).image@.width == old(self).image@.width,
            forall|x2: int, y2: int|
                0 <= x2 < old(self).image@.width && 0 <= y2 < SCREEN_HEIGHT ==> (
                #[trigger] final(self).image@.at(x2, y2)) == (if x2 == x && y2 == y {
                    px
                } else {
                    old(self).image@.at(x2, y2)
                }),
    {
        let w: usize = self.image.width;
        proof {
            lemma_place(x as int, y as int, w as int);
            assert(self.image.pixels.len() == w * SCREEN_HEIGHT);
        }
        let at: usize = y * w + x;
        self.image.pixels.set(at, px);
        proof {
            assert forall|x2: int, y2: int| 0 <= x2 < w && 0 <= y2 < SCREEN_HEIGHT implies (
            #[trigger] self.image@.at(x2, y2)) == (if x2 == x && y2 == y {
                px
            } else {
                old(self).image@.at(x2, y2)
            }) by {
                lemma_place(x2, y2, w as int);
                if y * w + x == y2 * w + x2 {
                    lemma_places_differ(x as int, y as int, x2, y2, w as int);
                }
            }
        }
    }

    /// Pastes one decoded image: `ih` rows of `iw` pixels of three bytes each. What
    /// falls outside the screen is ignored.
    pub fn paste(
        &mut self,
        rgb: &[u8],
        iw: usize,
        ih: usize,
        row_offset: usize,
        interlaced: bool,
        downscaled: bool,
    )
        requires
            old(self).wf(),
            3 * (iw * visible_rows(
                old(self).image@.width as int,
                ih as int,
                row_offset as int,
                downscaled,
            )) <= rgb@.len(),
        ensures
            final(self).wf(),
            final(self).image@ == pasted(
                old(self).image@,
                rgb@,
                iw as int,
                ih as int,
                row_offset as int,
                interlaced,
                downscaled,
            ),
    {
        let ghost before = self.image@;
        let w: usize = self.image.width;
        let columns: usize = columns_covered(w, ih, row_offset, downscaled);
        let ghost rows = visible_rows(w as int, ih as int, row_offset as int, downscaled);
        let ghost span = spread(iw as int, downscaled);
        let mut n: usize = 0;
        while n < columns
            invariant
                self.wf(),
                before.wf(),
                before.height == SCREEN_HEIGHT,
                w == self.image@.width,
                w == before.width,
                columns == visible_columns(
                    w as int,
                    spread(ih as int, downscaled),
                    row_offset as int,
                ),
                rows == visible_rows(w as int, ih as int, row_offset as int, downscaled),
                span == spread(iw as int, downscaled),
                3 * (iw * rows) <= rgb@.len(),
                n <= columns,
                forall|x: int, y: int|
                    0 <= x < w && 0 <= y < SCREEN_HEIGHT ==> (#[trigger] self.image@.at(x, y)) == (
                    if row_offset <= x < row_offset + n && nominal_column(y, interlaced) < span {
                        source(
                            rgb@,
                            iw as int,
                            origin(x - row_offset, downscaled),
                            origin(column_for(y, span, interlaced), downscaled),
                        )
                    } else {
                        before.at(x, y)
                    }),
            decreases columns - n,
        {
            let r: usize = if downscaled {
                n / 2
            } else {
                n
            };
            proof {
                assert(iw * (r + 1) <= iw * rows) by (nonlinear_arith)
                    requires
                        r + 1 <= rows,
                        0 <= iw,
                ;
            }
            self.paste_row(rgb, iw, r, row_offset + n, interlaced, downscaled);
            n = n + 1;
        }
        proof {
            assert forall|i: int| 0 <= i < before.pixels.len() implies self.image@.pixels[i]
                == pasted_pixel(
                before,
                rgb@,
                iw as int,
                ih as int,
                row_offset as int,
                interlaced,
                downscaled,
                i % w as int,
                i / w as int,
            ) by {
                lemma_place_of_index(i, w as int);
                assert(self.image@.pixels[i] == self.image@.at(i % w as int, i / w as int));
            }
            assert(self.image@ =~= pasted(
                before,
                rgb@,
                iw as int,
                ih as int,
                row_offset as int,
                interlaced,
                downscaled,
            ));
        }
    }

    /// Pastes decoded row `r` into screen column `x`.
    fn paste_row(
        &mut self,
        rgb: &[u8],
        iw: usize,
        r: usize,
        x: usize,
        interlaced: bool,
        downscaled: bool,
    )
        requires
            old(self).wf(),
            x < old(self).image@.width,
            3 * (iw * (r + 1)) <= rgb@.len(),
        ensures
            final(self).wf(),
            final(self).image@.width == old(self).image@.width,
            forall|x2: int, y: int|
                0 <= x2 < old(self).image@.width && 0 <= y < SCREEN_HEIGHT ==> (
                #[trigger] final(self).image@.at(x2, y)) == (if x2 == x && nominal_column(
                    y,
                    interlaced,
                ) < spread(iw as int, downscaled) {
                    source(
                        rgb@,
                        iw as int,
                        r as int,
                        origin(
                            column_for(y, spread(iw as int, downscaled), interlaced),
                            downscaled,
                        ),
                    )
                } else {
                    old(self).image@.at(x2, y)
                }),
    {
        let ghost before = self.image@;
        let w: usize = self.image.width;
        let len: usize = rgb.len();
        proof {
            lemma_row_fits(iw as int, r as int);
        }
        let span: usize = if downscaled {
            2 * iw
        } else {
            iw
        };
        let mut c: usize = 0;
        while c < span
            invariant
                self.wf(),
                w == self.image@.width,
                w == before.width,
                x < w,
                c <= span,
                span == spread(iw as int, downscaled),
                len == rgb@.len(),
                3 * (iw * (r + 1)) <= len,
                forall|x2: int, y: int|
                    0 <= x2 < w && 0 <= y < SCREEN_HEIGHT ==> (#[trigger] self.image@.at(x2, y))
                        == (if x2 == x && nominal_column(y, interlaced) < c {
                        source(
                            rgb@,
                            iw as int,
                            r as int,
                            origin(column_for(y, c as int, interlaced), downscaled),
                        )
                    } else {
                        before.at(x2, y)
                    }),
            decreases span - c,
        {
            let from: usize = if downscaled {
                c / 2
            } else {
                c
            };
            proof {
                lemma_source_index(iw as int, r as int, from as int);
            }
            let i: usize = (r * iw + from) * 3;
            let px = Pixel { r: rgb[i + 2], g: rgb[i + 1], b: rgb[i] };
            let y: usize = if c >= 239 || (interlaced && c >= 120) {
                0
            } else if interlaced {
                239 - 2 * c
            } else {
                239 - c
            };
            let ghost earlier = self.image@;
            self.put(x, y, px);
            if interlaced && y > 0 {
                self.put(x, y - 1, px);
            }
            proof {
                assert forall|x2: int, y2: int| 0 <= x2 < w && 0 <= y2 < SCREEN_HEIGHT implies (
                #[trigger] self.image@.at(x2, y2)) == (if x2 == x && nominal_column(y2, interlaced)
                    < c + 1 {
                    source(
                        rgb@,
                        iw as int,
                        r as int,
                        origin(column_for(y2, c + 1, interlaced), downscaled),
                    )
                } else {
                    before.at(x2, y2)
                }) by {
                    assert(earlier.at(x2, y2) == (if x2 == x && nominal_column(y2, interlaced) < c {
                        source(
                            rgb@,
                            iw as int,
                            r as int,
                            origin(column_for(y2, c as int, interlaced), downscaled),
                        )
                    } else {
                        before.at(x2, y2)
                    }));
                }
            }
            c = c + 1;
        }
    }
}

/// How many columns of a screen of width `w` a piece of `ih` rows covers.
fn columns_covered(w: usize, ih: usize, row_offset: usize, downscaled: bool) -> (n: usize)
    ensures
        n == visible_columns(w as int, spread(ih as int, downscaled), row_offset as int),
{
    if row_offset >= w {
        return 0;
    }
    let room: usize = w - row_offset;
    if ih >= room || (downscaled && ih >= room - ih) {
        room
    } else if downscaled {
        2 * ih
    } else {
        ih
    }
}

/// A place of the raster has an index.
proof fn lemma_place(x: int, y: int, w: int)
    requires
        0 <= x < w,
        0 <= y < SCREEN_HEIGHT,
    ensures
        0 <= y * w,
        y * w + x < w * SCREEN_HEIGHT,
{
    assert(0 <= y * w && y * w + x < w * 240) by (nonlinear_arith)
        requires
            0 <= x < w,
            0 <= y < 240,
    ;
}

/// Two places of the raster have two indices.
proof fn lemma_places_differ(x: int, y: int, x2: int, y2: int, w: int)
    requires
        0 <= x < w,
        0 <= x2 < w,
        y * w + x == y2 * w + x2,
    ensures
        x == x2,
        y == y2,
{
    assert(x == x2 && y == y2) by (nonlinear_arith)
        requires
            0 <= x < w,
            0 <= x2 < w,
            y * w + x == y2 * w + x2,
    ;
}

/// An index has a place of the raster.
proof fn lemma_place_of_index(i: int, w: int)
    requires
        0 <= i < w * SCREEN_HEIGHT,
    ensures
        0 <= i % w < w,
        0 <= i / w < SCREEN_HEIGHT,
        (i / w) * w + i % w == i,
{
    assert(0 < w) by (nonlinear_arith)
        requires
            0 <= i < w * 240,
    ;
    assert(0 <= i % w < w && 0 <= i / w < 240 && (i / w) * w + i % w == i) by (nonlinear_arith)
        requires
            0 < w,
            0 <= i < w * 240,
    ;
}

/// A row is no longer than the rows up to it.
proof fn lemma_row_fits(iw: int, r: int)
    requires
        0 <= r,
        0 <= iw,
    ensures
        iw <= iw * (r + 1),
{
    assert(iw <= iw * (r + 1)) by (nonlinear_arith)
        requires
            0 <= r,
            0 <= iw,
    ;
}

/// The bytes of a source pixel lie inside the decoded rows.
proof fn lemma_source_index(iw: int, r: int, c: int)
    requires
        0 <= r,
        0 <= c < iw,
    ensures
        0 <= r * iw,
        (r * iw + c) * 3 + 3 <= 3 * (iw * (r + 1)),
{
    assert(0 <= r * iw && r * iw + c + 1 <= iw * (r + 1)) by (nonlinear_arith)
        requires
            0 <= r,
            0 <= c < iw,
    ;
}

/// The pixels of a screen that a piece was pasted into, place by place.
pub proof fn pasted_place_by_place(
    old: ImageView,
    rgb: Seq<u8>,
    iw: int,
    ih: int,
    row_offset: int,
    interlaced: bool,
    downscaled: bool,
    x: int,
    y: int,
)
    requires
        old.wf(),
        old.height == SCREEN_HEIGHT,
        0 <= x < old.width,
        0 <= y < SCREEN_HEIGHT,
    ensures
        pasted(old, rgb, iw, ih, row_offset, interlaced, downscaled).at(x, y) == pasted_pixel(
            old,
            rgb,
            iw,
            ih,
            row_offset,
            interlaced,
            downscaled,
            x,
            y,
        ),
{
    let w = old.width as int;
    lemma_place(x, y, w);
    lemma_place_of_index(y * w + x, w);
    lemma_places_differ(x, y, (y * w + x) % w, (y * w + x) / w, w);
}

/// A piece that starts beyond the screen changes nothing.
pub proof fn piece_outside_changes_nothing(
    old: ImageView,
    rgb: Seq<u8>,
    iw: int,
    ih: int,
    row_offset: int,
    interlaced: bool,
    downscaled: bool,
)
    requires
        old.wf(),
        old.height == SCREEN_HEIGHT,
    ensures
        row_offset >= old.width ==> pasted(old, rgb, iw, ih, row_offset, interlaced, downscaled)
            == old,
{
    if row_offset >= old.width {
        let new = pasted(old, rgb, iw, ih, row_offset, interlaced, downscaled);
        assert forall|i: int| 0 <= i < old.pixels.len() implies new.pixels[i] == old.pixels[i] by {
            lemma_place_of_index(i, old.width as int);
        }
        assert(new =~= old);
    }
}

/// Two screens of one size that agree place by place are the same.
proof fn lemma_same_places(a: ImageView, b: ImageView)
    requires
        a.wf(),
        b.wf(),
        a.height == SCREEN_HEIGHT,
        b.height == SCREEN_HEIGHT,
        a.width == b.width,
        forall|x: int, y: int|
            0 <= x < a.width && 0 <= y < SCREEN_HEIGHT ==> #[trigger] a.at(x, y) == b.at(x, y),
    ensures
        a == b,
{
    let w = a.width as int;
    assert forall|i: int| 0 <= i < a.pixels.len() implies a.pixels[i] == b.pixels[i] by {
        lemma_place_of_index(i, w);
        assert(a.at(i % w, i / w) == b.at(i % w, i / w));
    }
    assert(a =~= b);
}

/// A piece that reaches over the whole screen leaves nothing of what was there: the
/// result is the same whatever screen it was pasted into.
pub proof fn full_frame_replaces_all(
    old: ImageView,
    other: ImageView,
    rgb: Seq<u8>,
    iw: int,
    ih: int,
    interlaced: bool,
    downscaled: bool,
)
    requires
        old.wf(),
        other.wf(),
        old.height == SCREEN_HEIGHT,
        other.height == SCREEN_HEIGHT,
        old.width == other.width,
        spread(ih, downscaled) >= old.width,
        spread(iw, downscaled) * step(interlaced) >= SCREEN_HEIGHT,
    ensures
        pasted(old, rgb, iw, ih, 0, interlaced, downscaled) == pasted(
            other,
            rgb,
            iw,
            ih,
            0,
            interlaced,
            downscaled,
        ),
{
    let a = pasted(old, rgb, iw, ih, 0, interlaced, downscaled);
    let b = pasted(other, rgb, iw, ih, 0, interlaced, downscaled);
    assert forall|x: int, y: int|
        0 <= x < a.width && 0 <= y < SCREEN_HEIGHT implies #[trigger] a.at(x, y) == b.at(x, y) by {
        pasted_place_by_place(old, rgb, iw, ih, 0, interlaced, downscaled, x, y);
        pasted_place_by_place(other, rgb, iw, ih, 0, interlaced, downscaled, x, y);
    }
    lemma_same_places(a, b);
}

/// Pasting a piece a second time changes nothing.
pub proof fn pasting_twice_is_pasting_once(
    old: ImageView,
    rgb: Seq<u8>,
    iw: int,
    ih: int,
    row_offset: int,
    interlaced: bool,
    downscaled: bool,
)
    requires
        old.wf(),
        old.height == SCREEN_HEIGHT,
    ensures
        ({
            let once = pasted(old, rgb, iw, ih, row_offset, interlaced, downscaled);
            pasted(once, rgb, iw, ih, row_offset, interlaced, downscaled) == once
        }),
{
    let once = pasted(old, rgb, iw, ih, row_offset, interlaced, downscaled);
    let twice = pasted(once, rgb, iw, ih, row_offset, interlaced, downscaled);
    assert forall|x: int, y: int|
        0 <= x < once.width && 0 <= y < SCREEN_HEIGHT implies #[trigger] twice.at(x, y) == once.at(
        x,
        y,
    ) by {
        pasted_place_by_place(old, rgb, iw, ih, row_offset, interlaced, downscaled, x, y);
        pasted_place_by_place(once, rgb, iw, ih, row_offset, interlaced, downscaled, x, y);
    }
    lemma_same_places(twice, once);
}

/// Strips that cover different columns can be pasted in either order.
pub proof fn strips_commute(
    old: ImageView,
    rgb1: Seq<u8>,
    iw1: int,
    ih1: int,
    off1: int,
    interlaced1: bool,
    downscaled1: bool,
    rgb2: Seq<u8>,
    iw2: int,
    ih2: int,
    off2: int,
    interlaced2: bool,
    downscaled2: bool,
)
    requires
        old.wf(),
        old.height == SCREEN_HEIGHT,
        off1 + spread(ih1, downscaled1) <= off2 || off2 + spread(ih2, downscaled2) <= off1,
    ensures
        pasted(
            pasted(old, rgb1, iw1, ih1, off1, interlaced1, downscaled1),
            rgb2,
            iw2,
            ih2,
            off2,
            interlaced2,
            downscaled2,
        ) == pasted(
            pasted(old, rgb2, iw2, ih2, off2, interlaced2, downscaled2),
            rgb1,
            iw1,
            ih1,
            off1,
            interlaced1,
            downscaled1,
        ),
{
    let one = pasted(old, rgb1, iw1, ih1, off1, interlaced1, downscaled1);
    let two = pasted(old, rgb2, iw2, ih2, off2, interlaced2, downscaled2);
    let a = pasted(one, rgb2, iw2, ih2, off2, interlaced2, downscaled2);
    let b = pasted(two, rgb1, iw1, ih1, off1, interlaced1, downscaled1);
    assert forall|x: int, y: int|
        0 <= x < a.width && 0 <= y < SCREEN_HEIGHT implies #[trigger] a.at(x, y) == b.at(x, y) by {
        pasted_place_by_place(old, rgb1, iw1, ih1, off1, interlaced1, downscaled1, x, y);
        pasted_place_by_place(old, rgb2, iw2, ih2, off2, interlaced2, downscaled2, x, y);
        pasted_place_by_place(one, rgb2, iw2, ih2, off2, interlaced2, downscaled2, x, y);
        pasted_place_by_place(two, rgb1, iw1, ih1, off1, interlaced1, downscaled1, x, y);
    }
    lemma_same_places(a, b);
}

/// Decoded rows with each pixel written as two by two.
pub open spec fn doubled(rgb: Seq<u8>, iw: int, ih: int) -> Seq<u8> {
    Seq::new(
        (3 * ((2 * iw) * (2 * ih))) as nat,
        |i: int|
            {
                let (r, c) = ((i / 3) / (2 * iw), (i / 3) % (2 * iw));
                rgb[((r / 2) * iw + c / 2) * 3 + i % 3]
            },
    )
}

/// Each pixel of the doubled rows is the one it was written from.
proof fn lemma_doubled_source(rgb: Seq<u8>, iw: int, ih: int, r: int, c: int)
    requires
        0 <= r < 2 * ih,
        0 <= c < 2 * iw,
    ensures
        source(doubled(rgb, iw, ih), 2 * iw, r, c) == source(rgb, iw, r / 2, c / 2),
{
    let w = 2 * iw;
    let place = r * w + c;
    assert(0 <= place < w * (2 * ih) && place / w == r && place % w == c) by (nonlinear_arith)
        requires
            place == r * w + c,
            0 <= c < w,
            0 <= r < 2 * ih,
    ;
}

/// A downscaled piece is shown as the piece of full size in which each of its pixels
/// is written as two by two.
pub proof fn downscaled_pixels_are_doubled(
    old: ImageView,
    rgb: Seq<u8>,
    iw: int,
    ih: int,
    row_offset: int,
    interlaced: bool,
)
    requires
        old.wf(),
        old.height == SCREEN_HEIGHT,
    ensures
        pasted(old, rgb, iw, ih, row_offset, interlaced, true) == pasted(
            old,
            doubled(rgb, iw, ih),
            2 * iw,
            2 * ih,
            row_offset,
            interlaced,
            false,
        ),
{
    let full = doubled(rgb, iw, ih);
    let a = pasted(old, rgb, iw, ih, row_offset, interlaced, true);
    let b = pasted(old, full, 2 * iw, 2 * ih, row_offset, interlaced, false);
    assert forall|x: int, y: int|
        0 <= x < a.width && 0 <= y < SCREEN_HEIGHT implies #[trigger] a.at(x, y) == b.at(x, y) by {
        pasted_place_by_place(old, rgb, iw, ih, row_offset, interlaced, true, x, y);
        pasted_place_by_place(old, full, 2 * iw, 2 * ih, row_offset, interlaced, false, x, y);
        if row_offset <= x < row_offset + 2 * ih && nominal_column(y, interlaced) < 2 * iw {
            let c = column_for(y, 2 * iw, interlaced);
            lemma_doubled_source(rgb, iw, ih, x - row_offset, c);
        }
    }
    lemma_same_places(a, b);
}

} // verus!
