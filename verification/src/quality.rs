//! Image quality as far as it can be told without a reference.
//!
//! The 3DS never sends a pristine frame and the content moves, so there is nothing
//! to compare with. What is measured here is comparable across configurations that
//! show the same scene: how steep the luma is on average (interlacing and
//! quarter resolution lower it), and how much steeper it is at the borders of the
//! 8-pixel blocks than inside them (quantisation raises it).

use crate::picture::{Image, ImageView, Pixel};
use crate::wire;
use vstd::prelude::*;

verus! {

/// Below this many pixels in either direction nothing is measured.
pub const SMALLEST: usize = 16;

/// Brightness of a pixel (an integer approximation of BT.601).
pub open spec fn luma(p: Pixel) -> int {
    (77 * p.r + 150 * p.g + 29 * p.b) / 256
}

/// How far two pixels differ in brightness.
pub open spec fn step(a: Pixel, b: Pixel) -> nat {
    if luma(a) < luma(b) {
        (luma(b) - luma(a)) as nat
    } else {
        (luma(a) - luma(b)) as nat
    }
}

/// Whether a block starts at this row or column.
pub open spec fn at_border(i: int) -> bool {
    i % 8 == 0
}

/// The steps from one column to the next in row `y`, up to column `n`, added up:
/// those at block borders, or the others.
pub open spec fn row_steps(img: ImageView, y: int, n: nat, border: bool) -> nat
    decreases n,
{
    if n <= 1 {
        0
    } else {
        row_steps(img, y, (n - 1) as nat, border) + if at_border(n - 1) == border {
            step(img.at(n - 1, y), img.at(n - 2, y))
        } else {
            0
        }
    }
}

/// The steps from one column to the next in the first `n` rows.
pub open spec fn steps_across(img: ImageView, n: nat, border: bool) -> nat
    decreases n,
{
    if n == 0 {
        0
    } else {
        steps_across(img, (n - 1) as nat, border) + row_steps(img, n - 1, img.width, border)
    }
}

/// The steps from row `y - 1` to row `y` in the first `n` columns.
pub open spec fn column_steps(img: ImageView, y: int, n: nat) -> nat
    decreases n,
{
    if n == 0 {
        0
    } else {
        column_steps(img, y, (n - 1) as nat) + step(img.at(n - 1, y), img.at(n - 1, y - 1))
    }
}

/// The steps from one row to the next in the first `n` rows.
pub open spec fn steps_down(img: ImageView, n: nat, border: bool) -> nat
    decreases n,
{
    if n <= 1 {
        0
    } else {
        steps_down(img, (n - 1) as nat, border) + if at_border(n - 1) == border {
            column_steps(img, n - 1, img.width)
        } else {
            0
        }
    }
}

/// All steps of an image, added up: those at block borders, or the others.
pub open spec fn all_steps(img: ImageView, border: bool) -> nat {
    steps_across(img, img.height, border) + steps_down(img, img.height, border)
}

/// How many steps an image has.
pub open spec fn step_count(w: int, h: int) -> int {
    h * (w - 1) + w * (h - 1)
}

/// How many steps of an image are at block borders.
pub open spec fn border_count(w: int, h: int) -> int {
    h * ((w - 1) / 8) + w * ((h - 1) / 8)
}

/// The steps of an image, added up and counted.
#[derive(Debug, Clone, Copy, PartialEq, Eq, Structural)]
pub struct Measured {
    /// All steps.
    pub grad_sum: u128,
    pub grad_n: u128,
    /// Steps at block borders.
    pub edge_sum: u128,
    pub edge_n: u128,
    /// Steps inside blocks.
    pub inner_sum: u128,
    pub inner_n: u128,
}

/// The brightness of a pixel.
fn luma_of(p: Pixel) -> (y: u8)
    ensures
        y == luma(p),
{
    ((77 * (p.r as u32) + 150 * (p.g as u32) + 29 * (p.b as u32)) / 256) as u8
}

/// The pixel in column `x` of row `y`.
fn pixel(img: &Image, x: usize, y: usize) -> (p: Pixel)
    requires
        img.wf(),
        x < img@.width,
        y < img@.height,
    ensures
        p == img@.at(x as int, y as int),
{
    proof {
        assert(img.pixels.len() == img@.width * img@.height);
        assert(0 <= y * img.width && y * img.width + x < img.width * img.height)
            by (nonlinear_arith)
            requires
                0 <= x < img.width,
                0 <= y < img.height,
        ;
    }
    img.pixels[y * img.width + x]
}

/// How far two pixels differ in brightness.
fn step_of(a: Pixel, b: Pixel) -> (d: u8)
    ensures
        d == step(a, b),
{
    let p: u8 = luma_of(a);
    let q: u8 = luma_of(b);
    if p < q {
        q - p
    } else {
        p - q
    }
}

/// No step is greater than the greatest brightness.
proof fn lemma_row_bound(img: ImageView, y: int, n: nat, border: bool)
    ensures
        row_steps(img, y, n, border) <= 255 * n,
    decreases n,
{
    if n > 1 {
        lemma_row_bound(img, y, (n - 1) as nat, border);
    }
}

proof fn lemma_column_bound(img: ImageView, y: int, n: nat)
    ensures
        column_steps(img, y, n) <= 255 * n,
    decreases n,
{
    if n > 0 {
        lemma_column_bound(img, y, (n - 1) as nat);
    }
}

proof fn lemma_bounds(img: ImageView, n: nat, border: bool)
    ensures
        steps_across(img, n, border) <= 255 * (img.width * n),
        steps_down(img, n, border) <= 255 * (img.width * n),
    decreases n,
{
    if n > 0 {
        lemma_bounds(img, (n - 1) as nat, border);
        lemma_row_bound(img, n - 1, img.width, border);
        lemma_column_bound(img, n - 1, img.width);
        assert(img.width * n == img.width * (n - 1) + img.width) by (nonlinear_arith)
            requires
                n > 0,
        ;
    } else {
        assert(img.width * n == 0) by (nonlinear_arith)
            requires
                n == 0,
        ;
    }
}

/// Adds up the steps of one row, apart for borders and for the rest.
fn add_row(img: &Image, y: usize) -> (sums: (u128, u128))
    requires
        img.wf(),
        img@.width >= 1,
        y < img@.height,
    ensures
        sums.0 == row_steps(img@, y as int, img@.width, true),
        sums.1 == row_steps(img@, y as int, img@.width, false),
{
    let w: usize = img.width;
    let mut edge: u128 = 0;
    let mut inner: u128 = 0;
    let mut x: usize = 1;
    while x < w
        invariant
            img.wf(),
            w == img@.width,
            1 <= x <= w,
            y < img@.height,
            edge == row_steps(img@, y as int, x as nat, true),
            inner == row_steps(img@, y as int, x as nat, false),
        decreases w - x,
    {
        let d: u8 = step_of(pixel(img, x, y), pixel(img, x - 1, y));
        proof {
            lemma_row_bound(img@, y as int, x as nat, true);
            lemma_row_bound(img@, y as int, x as nat, false);
        }
        if x % 8 == 0 {
            edge = edge + d as u128;
        } else {
            inner = inner + d as u128;
        }
        x = x + 1;
    }
    (edge, inner)
}

/// Adds up the steps from one row to the next.
fn add_columns(img: &Image, y: usize) -> (sum: u128)
    requires
        img.wf(),
        1 <= y < img@.height,
    ensures
        sum == column_steps(img@, y as int, img@.width),
{
    let w: usize = img.width;
    let mut sum: u128 = 0;
    let mut x: usize = 0;
    while x < w
        invariant
            img.wf(),
            w == img@.width,
            x <= w,
            1 <= y < img@.height,
            sum == column_steps(img@, y as int, x as nat),
        decreases w - x,
    {
        let d: u8 = step_of(pixel(img, x, y), pixel(img, x, y - 1));
        proof {
            lemma_column_bound(img@, y as int, x as nat);
        }
        sum = sum + d as u128;
        x = x + 1;
    }
    sum
}

/// Measures an image. Nothing is measured of one that is too small.
pub fn measure(img: &Image) -> (res: Option<Measured>)
    requires
        img.wf(),
    ensures
        res is Some <==> img@.width >= SMALLEST && img@.height >= SMALLEST,
        res is Some <==> img@.width >= 16 && img@.height >= 16,
        res matches Some(m) ==> {
            let (w, h) = (img@.width as int, img@.height as int);
            &&& m.edge_sum == all_steps(img@, true)
            &&& m.inner_sum == all_steps(img@, false)
            &&& m.grad_sum == m.edge_sum + m.inner_sum
            &&& m.edge_n == border_count(w, h)
            &&& m.grad_n == step_count(w, h)
            &&& m.inner_n == m.grad_n - m.edge_n
        },
{
    let w: usize = img.width;
    let h: usize = img.height;
    if w < SMALLEST || h < SMALLEST {
        return None;
    }
    let area: usize = img.pixels.len();
    let mut edge: u128 = 0;
    let mut inner: u128 = 0;
    let mut y: usize = 0;
    while y < h
        invariant
            img.wf(),
            w == img@.width,
            h == img@.height,
            w >= 1,
            area == w * h,
            y <= h,
            edge == steps_across(img@, y as nat, true),
            inner == steps_across(img@, y as nat, false),
        decreases h - y,
    {
        let (e, i) = add_row(img, y);
        proof {
            lemma_bounds(img@, (y + 1) as nat, true);
            lemma_bounds(img@, (y + 1) as nat, false);
            lemma_area(w as int, y + 1, h as int);
        }
        edge = edge + e;
        inner = inner + i;
        y = y + 1;
    }
    let mut down_edge: u128 = 0;
    let mut down_inner: u128 = 0;
    y = 1;
    while y < h
        invariant
            img.wf(),
            w == img@.width,
            h == img@.height,
            area == w * h,
            1 <= y <= h,
            down_edge == steps_down(img@, y as nat, true),
            down_inner == steps_down(img@, y as nat, false),
        decreases h - y,
    {
        let d: u128 = add_columns(img, y);
        proof {
            lemma_bounds(img@, (y + 1) as nat, true);
            lemma_bounds(img@, (y + 1) as nat, false);
            lemma_area(w as int, y + 1, h as int);
        }
        if y % 8 == 0 {
            down_edge = down_edge + d;
        } else {
            down_inner = down_inner + d;
        }
        y = y + 1;
    }
    proof {
        lemma_bounds(img@, h as nat, true);
        lemma_bounds(img@, h as nat, false);
        lemma_counts(w as int, h as int);
    }
    let edge_sum: u128 = edge + down_edge;
    let inner_sum: u128 = inner + down_inner;
    let (wide, high): (u128, u128) = (w as u128, h as u128);
    let edge_n: u128 = high * ((wide - 1) / 8) + wide * ((high - 1) / 8);
    let grad_n: u128 = high * (wide - 1) + wide * (high - 1);
    Some(
        Measured {
            grad_sum: edge_sum + inner_sum,
            grad_n,
            edge_sum,
            edge_n,
            inner_sum,
            inner_n: grad_n - edge_n,
        },
    )
}

/// Some rows have no more pixels than all.
proof fn lemma_area(w: int, n: int, h: int)
    requires
        0 <= w,
        0 <= n <= h,
    ensures
        w * n <= w * h,
{
    assert(w * n <= w * h) by (nonlinear_arith)
        requires
            0 <= w,
            0 <= n <= h,
    ;
}

/// The numbers of steps are no greater than twice the number of pixels.
proof fn lemma_counts(w: int, h: int)
    requires
        1 <= w,
        1 <= h,
    ensures
        0 <= h * ((w - 1) / 8) <= h * (w - 1) <= w * h,
        0 <= w * ((h - 1) / 8) <= w * (h - 1) <= w * h,
{
    let a = (w - 1) / 8;
    let b = (h - 1) / 8;
    assert(0 <= a <= w - 1 && 0 <= b <= h - 1);
    assert(0 <= h * a <= h * (w - 1) <= w * h) by (nonlinear_arith)
        requires
            1 <= h,
            1 <= w,
            0 <= a <= w - 1,
    ;
    assert(0 <= w * b <= w * (h - 1) <= w * h) by (nonlinear_arith)
        requires
            1 <= h,
            1 <= w,
            0 <= b <= h - 1,
    ;
}

/// How many of the columns 1 to `n - 1` start a block, or do not.
pub open spec fn counted_before(n: nat, border: bool) -> nat
    decreases n,
{
    if n <= 1 {
        0
    } else {
        counted_before((n - 1) as nat, border) + if at_border(n - 1) == border {
            1nat
        } else {
            0
        }
    }
}

/// Every eighth column starts a block, so the count of block borders is the count of
/// the columns that do, and the other columns make up the rest.
pub proof fn borders_are_every_eighth(n: nat)
    requires
        n >= 1,
    ensures
        counted_before(n, true) == (n - 1) / 8,
        counted_before(n, true) + counted_before(n, false) == n - 1,
    decreases n,
{
    if n > 1 {
        borders_are_every_eighth((n - 1) as nat);
    }
}

/// Steps of an image that is the same all over add up to nothing, so it measures
/// as neither sharp nor blocky.
pub proof fn flat_image_has_no_steps(img: ImageView, p: Pixel, border: bool)
    requires
        img.wf(),
        forall|i: int| 0 <= i < img.pixels.len() ==> img.pixels[i] == p,
    ensures
        all_steps(img, border) == 0,
{
    assert forall|x: int, y: int|
        0 <= x < img.width && 0 <= y < img.height implies #[trigger] img.at(x, y) == p by {
        assert(0 <= y * img.width && y * img.width + x < img.width * img.height)
            by (nonlinear_arith)
            requires
                0 <= x < img.width,
                0 <= y < img.height,
        ;
    }
    lemma_flat(img, p, img.height, border);
}

proof fn lemma_flat(img: ImageView, p: Pixel, n: nat, border: bool)
    requires
        n <= img.height,
        forall|x: int, y: int|
            0 <= x < img.width && 0 <= y < img.height ==> #[trigger] img.at(x, y) == p,
    ensures
        steps_across(img, n, border) == 0,
        steps_down(img, n, border) == 0,
    decreases n,
{
    if n > 0 {
        lemma_flat(img, p, (n - 1) as nat, border);
        lemma_flat_row(img, p, n - 1, img.width, border);
        if n > 1 {
            lemma_flat_columns(img, p, n - 1, img.width);
        }
    }
}

proof fn lemma_flat_row(img: ImageView, p: Pixel, y: int, n: nat, border: bool)
    requires
        0 <= y < img.height,
        n <= img.width,
        forall|x: int, y: int|
            0 <= x < img.width && 0 <= y < img.height ==> #[trigger] img.at(x, y) == p,
    ensures
        row_steps(img, y, n, border) == 0,
    decreases n,
{
    if n > 1 {
        lemma_flat_row(img, p, y, (n - 1) as nat, border);
    }
}

proof fn lemma_flat_columns(img: ImageView, p: Pixel, y: int, n: nat)
    requires
        1 <= y < img.height,
        n <= img.width,
        forall|x: int, y: int|
            0 <= x < img.width && 0 <= y < img.height ==> #[trigger] img.at(x, y) == p,
    ensures
        column_steps(img, y, n) == 0,
    decreases n,
{
    if n > 0 {
        lemma_flat_columns(img, p, y, (n - 1) as nat);
    }
}

/// An image with rows and columns exchanged.
pub open spec fn transposed(img: ImageView) -> ImageView {
    ImageView {
        width: img.height,
        height: img.width,
        pixels: Seq::new(
            img.pixels.len(),
            |i: int| img.at(i / img.height as int, i % img.height as int),
        ),
    }
}

/// The pixels of a transposed image, place by place.
proof fn lemma_transposed_at(img: ImageView, x: int, y: int)
    requires
        img.wf(),
        0 <= x < img.height,
        0 <= y < img.width,
    ensures
        transposed(img).at(x, y) == img.at(y, x),
{
    let h = img.height as int;
    let i = y * h + x;
    assert(0 <= i < img.width * img.height && i / h == y && i % h == x) by (nonlinear_arith)
        requires
            h == img.height,
            i == y * h + x,
            0 <= x < h,
            0 <= y < img.width,
    ;
}

/// The steps down the first `n` columns of the first `m` rows.
spec fn steps_down_part(img: ImageView, m: nat, n: nat, border: bool) -> nat
    decreases m,
{
    if m <= 1 {
        0
    } else {
        steps_down_part(img, (m - 1) as nat, n, border) + if at_border(m - 1) == border {
            column_steps(img, m - 1, n)
        } else {
            0
        }
    }
}

/// One column more down the transposed image is one row more across the image.
proof fn lemma_one_more(img: ImageView, m: nat, n: nat, border: bool)
    requires
        img.wf(),
        m <= img.width,
        n < img.height,
    ensures
        steps_down_part(transposed(img), m, n + 1, border) == steps_down_part(
            transposed(img),
            m,
            n,
            border,
        ) + row_steps(img, n as int, m, border),
    decreases m,
{
    if m > 1 {
        lemma_one_more(img, (m - 1) as nat, n, border);
        lemma_transposed_at(img, n as int, m - 1);
        lemma_transposed_at(img, n as int, m - 2);
    }
}

/// The steps across some rows are the steps down as many columns of the transposed
/// image.
proof fn lemma_across_is_down(img: ImageView, n: nat, border: bool)
    requires
        img.wf(),
        n <= img.height,
    ensures
        steps_across(img, n, border) == steps_down_part(transposed(img), img.width, n, border),
    decreases n,
{
    if n == 0 {
        lemma_no_columns(transposed(img), img.width, border);
    } else {
        lemma_across_is_down(img, (n - 1) as nat, border);
        lemma_one_more(img, img.width, (n - 1) as nat, border);
    }
}

proof fn lemma_no_columns(img: ImageView, m: nat, border: bool)
    ensures
        steps_down_part(img, m, 0, border) == 0,
    decreases m,
{
    if m > 1 {
        lemma_no_columns(img, (m - 1) as nat, border);
    }
}

/// The steps down all columns are the steps down.
proof fn lemma_all_columns(img: ImageView, m: nat, border: bool)
    ensures
        steps_down_part(img, m, img.width, border) == steps_down(img, m, border),
    decreases m,
{
    if m > 1 {
        lemma_all_columns(img, (m - 1) as nat, border);
    }
}

/// Transposing twice gives the image back.
proof fn lemma_transposed_twice(img: ImageView)
    requires
        img.wf(),
    ensures
        transposed(img).wf(),
        transposed(transposed(img)) == img,
{
    let t = transposed(img);
    let w = img.width as int;
    assert(img.width * img.height == img.height * img.width) by (nonlinear_arith);
    assert forall|i: int| 0 <= i < img.pixels.len() implies transposed(t).pixels[i]
        == img.pixels[i] by {
        assert(0 < w) by (nonlinear_arith)
            requires
                0 <= i < w * img.height,
        ;
        assert(0 <= i % w < w && 0 <= i / w < img.height && (i / w) * w + i % w == i)
            by (nonlinear_arith)
            requires
                0 < w,
                0 <= i < w * img.height,
        ;
        lemma_transposed_at(img, i / w, i % w);
    }
    assert(transposed(t) =~= img);
}

/// An image measures the same whichever way it lies: exchanging rows and columns changes
/// neither the steps nor their numbers, at block borders as elsewhere.
pub proof fn transposing_changes_no_measure(img: ImageView, border: bool)
    requires
        img.wf(),
    ensures
        transposed(img).wf(),
        all_steps(transposed(img), border) == all_steps(img, border),
        step_count(img.height as int, img.width as int) == step_count(
            img.width as int,
            img.height as int,
        ),
        border_count(img.height as int, img.width as int) == border_count(
            img.width as int,
            img.height as int,
        ),
{
    let t = transposed(img);
    lemma_transposed_twice(img);
    lemma_across_is_down(img, img.height, border);
    lemma_all_columns(t, t.height, border);
    lemma_across_is_down(t, t.height, border);
    lemma_all_columns(img, img.height, border);
}

proof fn lemma_row_steps_bound(img: ImageView, y: int, n: nat, border: bool)
    ensures
        row_steps(img, y, n, border) <= 255 * counted_before(n, border),
    decreases n,
{
    if n > 1 {
        lemma_row_steps_bound(img, y, (n - 1) as nat, border);
    }
}

proof fn lemma_step_bounds(img: ImageView, n: nat, border: bool)
    ensures
        steps_across(img, n, border) <= 255 * (n * counted_before(img.width, border)),
        steps_down(img, n, border) <= 255 * (img.width * counted_before(n, border)),
    decreases n,
{
    let c = counted_before(img.width, border);
    if n == 0 {
        assert(n * c == 0 && img.width * counted_before(n, border) == 0) by (nonlinear_arith)
            requires
                n == 0,
                counted_before(n, border) == 0,
        ;
    } else {
        let m = (n - 1) as nat;
        lemma_step_bounds(img, m, border);
        lemma_row_steps_bound(img, n - 1, img.width, border);
        lemma_column_bound(img, n - 1, img.width);
        assert(n * c == m * c + c) by (nonlinear_arith)
            requires
                n == m + 1,
        ;
        let (d, e) = (counted_before(m, border), counted_before(n, border));
        if n > 1 && at_border(n - 1) == border {
            assert(img.width * e == img.width * d + img.width) by (nonlinear_arith)
                requires
                    e == d + 1,
            ;
        } else {
            assert(e == d);
        }
    }
}

/// No step is greater than the greatest brightness: the steps at block borders and the
/// others, and so all of them, come to 255 on average at most.
pub proof fn steps_are_bounded(img: ImageView)
    requires
        img.width >= 1,
        img.height >= 1,
    ensures
        ({
            let (w, h) = (img.width as int, img.height as int);
            &&& all_steps(img, true) <= 255 * border_count(w, h)
            &&& all_steps(img, false) <= 255 * (step_count(w, h) - border_count(w, h))
        }),
{
    let (w, h) = (img.width as int, img.height as int);
    lemma_step_bounds(img, img.height, true);
    lemma_step_bounds(img, img.height, false);
    borders_are_every_eighth(img.width);
    borders_are_every_eighth(img.height);
    let (a, b) = ((w - 1) / 8, (h - 1) / 8);
    let c = counted_before(img.width, false) as int;
    let d = counted_before(img.height, false) as int;
    assert(h * c + w * d == h * (w - 1) + w * (h - 1) - (h * a + w * b)) by (nonlinear_arith)
        requires
            a + c == w - 1,
            b + d == h - 1,
    ;
}

/// The bytes of pixels: red, green, blue, and full opacity.
pub open spec fn rgba(pixels: Seq<Pixel>) -> Seq<u8> {
    Seq::new(
        4 * pixels.len(),
        |i: int|
            {
                let p = pixels[i / 4];
                if i % 4 == 0 {
                    p.r
                } else if i % 4 == 1 {
                    p.g
                } else if i % 4 == 2 {
                    p.b
                } else {
                    255
                }
            },
    )
}

/// The file that `png` encodes such an image to, or the text of its error.
pub uninterp spec fn png_encoded(width: u32, height: u32, rgba: Seq<u8>) -> Result<
    Seq<u8>,
    Seq<char>,
>;

/// Calls `png::Encoder` for 8-bit RGBA with its default options: `write_header`,
/// then `write_image_data`. Trusted: the outcome is a function of the arguments,
/// and it is a file exactly where neither side is zero and there are four bytes
/// for each pixel. Nothing is said here of the bytes of the file.
#[verifier::external_body]
pub(crate) fn encode_png(width: u32, height: u32, rgba: &[u8]) -> (res: Result<Vec<u8>, String>)
    requires
        4 * width * height <= usize::MAX,
    ensures
        match res {
            Ok(file) => png_encoded(width, height, rgba@) == Ok::<Seq<u8>, Seq<char>>(file@),
            Err(e) => png_encoded(width, height, rgba@) == Err::<Seq<u8>, Seq<char>>(e@),
        },
        (res is Ok) == (0 < width && 0 < height && rgba@.len() == 4 * width * height),
{
    let mut file: Vec<u8> = Vec::new();
    let mut encoder = png::Encoder::new(&mut file, width, height);
    encoder.set_color(png::ColorType::Rgba);
    encoder.set_depth(png::BitDepth::Eight);
    match encoder.write_header() {
        Ok(mut writer) => match writer.write_image_data(rgba) {
            Ok(()) => {},
            Err(e) => return Err(format!("{e}")),
        },
        Err(e) => return Err(format!("{e}")),
    }
    Ok(file)
}

/// The bytes of an image's pixels.
fn rgba_of(img: &Image) -> (out: Vec<u8>)
    ensures
        out@ == rgba(img.pixels@),
{
    let mut out: Vec<u8> = Vec::new();
    let mut i: usize = 0;
    while i < img.pixels.len()
        invariant
            i <= img.pixels@.len(),
            out@ == rgba(img.pixels@.take(i as int)),
        decreases img.pixels@.len() - i,
    {
        let p = img.pixels[i];
        out.push(p.r);
        out.push(p.g);
        out.push(p.b);
        out.push(255);
        i = i + 1;
        proof {
            assert(out@ =~= rgba(img.pixels@.take(i as int)));
        }
    }
    proof {
        assert(img.pixels@.take(i as int) =~= img.pixels@);
    }
    out
}

/// Encodes an image as a PNG file, or says why it cannot be one. Of each side the low 32
/// bits count, and there has to be one pixel for each place.
pub fn to_png(img: &Image) -> (res: Result<Vec<u8>, String>)
    requires
        4 * img@.pixels.len() <= usize::MAX,
        4 * ((img@.width % 0x1_0000_0000) * (img@.height % 0x1_0000_0000)) <= usize::MAX,
    ensures
        ({
            let w = (img@.width % 0x1_0000_0000) as u32;
            let h = (img@.height % 0x1_0000_0000) as u32;
            let encoded = png_encoded(w, h, rgba(img@.pixels));
            &&& match res {
                Ok(file) => encoded == Ok::<Seq<u8>, Seq<char>>(file@),
                Err(e) => encoded == Err::<Seq<u8>, Seq<char>>(e@),
            }
            &&& res is Ok <==> w > 0 && h > 0 && img@.pixels.len() == w * h
        }),
{
    let w: u32 = wire::low_u32(img.width);
    let h: u32 = wire::low_u32(img.height);
    let data = rgba_of(img);
    proof {
        assert(4 * w * h == 4 * (w * h)) by (nonlinear_arith);
    }
    encode_png(w, h, data.as_slice())
}

/// Brightness weighs red, green and blue by 77, 150 and 29 in 256 and is rounded down. It runs
/// from 0 to 255, is the gray of a gray pixel, and grows with each colour.
pub proof fn brightness_weighs_the_colours(p: Pixel, q: Pixel, v: u8)
    ensures
        256 * luma(p) <= 77 * p.r + 150 * p.g + 29 * p.b < 256 * luma(p) + 256,
        0 <= luma(p) <= 255,
        p.r == v && p.g == v && p.b == v ==> luma(p) == v,
        p.r <= q.r && p.g <= q.g && p.b <= q.b ==> luma(p) <= luma(q),
        step(p, q) == step(q, p),
        step(p, q) == luma(p) - luma(q) || step(p, q) == luma(q) - luma(p),
{
}

/// The steps of a row add up one by one: one more column adds the step to it from its left
/// neighbour, to the sum of the borders where its number is a multiple of eight, and to the
/// other sum where it is not.
pub proof fn rows_add_up_step_by_step(img: ImageView, y: int, n: nat)
    requires
        n >= 1,
    ensures
        row_steps(img, y, 1, true) == 0,
        row_steps(img, y, 1, false) == 0,
        ({
            let at = y * img.width + n;
            let (a, b) = (luma(img.pixels[at]), luma(img.pixels[at - 1]));
            let d = if a < b {
                b - a
            } else {
                a - b
            };
            let edge = row_steps(img, y, n + 1, true) - row_steps(img, y, n, true);
            let inner = row_steps(img, y, n + 1, false) - row_steps(img, y, n, false);
            &&& n % 8 == 0 ==> edge == d && inner == 0
            &&& n % 8 != 0 ==> edge == 0 && inner == d
        }),
{
}

/// The steps down add up one by one: one more column adds the step to its pixel in row `y`
/// from the one above.
pub proof fn columns_add_up_step_by_step(img: ImageView, y: int, n: nat)
    ensures
        column_steps(img, y, 0) == 0,
        ({
            let (here, above) = (y * img.width + n, (y - 1) * img.width + n);
            let (a, b) = (luma(img.pixels[here]), luma(img.pixels[above]));
            column_steps(img, y, n + 1) - column_steps(img, y, n) == (if a < b {
                b - a
            } else {
                a - b
            })
        }),
{
}

/// The steps of an image add up row by row: one more row adds its own steps across, and the
/// steps down to it from the row above, to the sum of the borders where its number is a
/// multiple of eight and to the other sum where it is not.
pub proof fn images_add_up_row_by_row(img: ImageView, n: nat, border: bool)
    ensures
        steps_across(img, 0, border) == 0,
        steps_across(img, n + 1, border) == steps_across(img, n, border) + row_steps(
            img,
            n as int,
            img.width,
            border,
        ),
        steps_down(img, 1, border) == 0,
        n >= 1 ==> steps_down(img, n + 1, border) == steps_down(img, n, border) + (if (n % 8 == 0)
            == border {
            column_steps(img, n as int, img.width)
        } else {
            0
        }),
        all_steps(img, border) == steps_across(img, img.height, border) + steps_down(
            img,
            img.height,
            border,
        ),
{
}

/// How many steps there are: one more column brings one step across for every row, and one
/// step down for every row but the first. Those at borders are counted alike, every eighth.
pub proof fn steps_are_counted_one_by_one(w: int, h: int)
    requires
        w >= 1,
        h >= 1,
    ensures
        step_count(1, 1) == 0,
        step_count(w + 1, h) == step_count(w, h) + h + (h - 1),
        step_count(w, h) == step_count(h, w),
        border_count(1, 1) == 0,
        border_count(w + 1, h) == border_count(w, h) + (if w % 8 == 0 {
            h
        } else {
            0
        }) + (h - 1) / 8,
        border_count(w, h) == border_count(h, w),
{
    assert(h * w == h * (w - 1) + h && (w + 1) * (h - 1) == w * (h - 1) + (h - 1))
        by (nonlinear_arith);
    let (a, b) = ((w - 1) / 8, (h - 1) / 8);
    let c = w / 8;
    assert(c == (if w % 8 == 0 {
        a + 1
    } else {
        a
    }));
    assert(h * (a + 1) == h * a + h && (w + 1) * b == w * b + b) by (nonlinear_arith);
}

/// The bytes of a picture file: four for each pixel, its red, green and blue, and full
/// opacity.
pub proof fn pixels_are_four_bytes(pixels: Seq<Pixel>, i: int)
    requires
        0 <= i < pixels.len(),
    ensures
        rgba(pixels).len() == 4 * pixels.len(),
        rgba(pixels)[4 * i] == pixels[i].r,
        rgba(pixels)[4 * i + 1] == pixels[i].g,
        rgba(pixels)[4 * i + 2] == pixels[i].b,
        rgba(pixels)[4 * i + 3] == 255,
{
}

} // verus!
