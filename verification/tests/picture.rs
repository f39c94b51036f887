use flurry::picture::{Pixel, ScreenBuf};

fn gray(v: u8) -> Pixel {
    Pixel { r: v, g: v, b: v }
}

fn at(buf: &ScreenBuf, x: usize, y: usize) -> Pixel {
    buf.image.pixels[y * buf.image.width + x]
}

/// `rows` rows of `cols` gray pixels, each with the value of `f`.
fn raster(cols: usize, rows: usize, f: impl Fn(usize, usize) -> u8) -> Vec<u8> {
    let mut out = Vec::new();
    for r in 0..rows {
        for c in 0..cols {
            out.extend_from_slice(&[f(r, c); 3]);
        }
    }
    out
}

#[test]
fn new_screens_are_blank() {
    let buf = ScreenBuf::new(3);
    assert_eq!((buf.image.width, buf.image.height), (3, 240));
    assert_eq!(buf.image.pixels, vec![gray(20); 720]);
}

#[test]
fn rows_become_columns_from_the_bottom() {
    let mut buf = ScreenBuf::new(4);
    buf.paste(&raster(240, 2, |r, c| (100 * r + c % 100) as u8), 240, 2, 1, false, false);
    for y in 0..240 {
        let c = 239 - y;
        assert_eq!(at(&buf, 0, y), gray(20));
        assert_eq!(at(&buf, 1, y), gray((c % 100) as u8));
        assert_eq!(at(&buf, 2, y), gray((100 + c % 100) as u8));
        assert_eq!(at(&buf, 3, y), gray(20));
    }
}

#[test]
fn interlaced_rows_are_doubled() {
    let mut buf = ScreenBuf::new(1);
    buf.paste(&raster(120, 1, |_, c| c as u8 + 100), 120, 1, 0, true, false);
    for y in 0..240 {
        assert_eq!(at(&buf, 0, y), gray(((239 - y) / 2) as u8 + 100));
    }
}

#[test]
fn what_is_too_high_ends_in_the_top_row() {
    let mut buf = ScreenBuf::new(1);
    buf.paste(&raster(250, 1, |_, c| c as u8), 250, 1, 0, false, false);
    assert_eq!(at(&buf, 0, 0), gray(249));
    assert_eq!(at(&buf, 0, 1), gray(238));
    let mut buf = ScreenBuf::new(1);
    buf.paste(&raster(130, 1, |_, c| c as u8), 130, 1, 0, true, false);
    assert_eq!(at(&buf, 0, 0), gray(129));
    assert_eq!(at(&buf, 0, 1), gray(119));
    assert_eq!(at(&buf, 0, 2), gray(118));
}

#[test]
fn what_is_beside_the_screen_is_ignored() {
    let mut buf = ScreenBuf::new(2);
    // Only one of the three rows is visible, so only that one has to be there.
    buf.paste(&raster(1, 1, |_, _| 7), 1, 3, 1, false, false);
    assert_eq!(at(&buf, 1, 239), gray(7));
    assert_eq!(at(&buf, 0, 239), gray(20));
    let before = buf.image.clone();
    buf.paste(&[], 5, usize::MAX, 2, false, false);
    buf.paste(&[], 5, 5, usize::MAX, true, false);
    assert_eq!(buf.image, before);
}

#[test]
fn full_frames_replace_everything() {
    let frame = raster(240, 2, |r, c| (r * 3 + c) as u8);
    let mut a = ScreenBuf::new(2);
    let mut b = ScreenBuf::new(2);
    b.paste(&raster(240, 2, |_, _| 99), 240, 2, 0, false, false);
    a.paste(&frame, 240, 2, 0, false, false);
    b.paste(&frame, 240, 2, 0, false, false);
    assert_eq!(a, b);
    b.paste(&frame, 240, 2, 0, false, false);
    assert_eq!(a, b);
}

#[test]
fn strips_commute() {
    let one = raster(9, 2, |r, c| (r + c) as u8);
    let two = raster(120, 1, |_, c| c as u8);
    let mut a = ScreenBuf::new(3);
    let mut b = ScreenBuf::new(3);
    a.paste(&one, 9, 2, 0, false, false);
    a.paste(&two, 120, 1, 2, true, false);
    b.paste(&two, 120, 1, 2, true, false);
    b.paste(&one, 9, 2, 0, false, false);
    assert_eq!(a, b);
}

#[test]
fn downscaled_pixels_become_two_by_two() {
    let mut buf = ScreenBuf::new(6);
    let piece = raster(2, 2, |r, c| (10 * r + c) as u8 + 1);
    buf.paste(&piece, 2, 2, 1, false, true);
    for x in 0..6 {
        for y in 0..240 {
            let expected = if (1..5).contains(&x) && y >= 236 {
                gray((10 * ((x - 1) / 2) + (239 - y) / 2) as u8 + 1)
            } else {
                gray(20)
            };
            assert_eq!(at(&buf, x, y), expected, "({x}, {y})");
        }
    }
}

#[test]
fn downscaled_piece_is_cut_at_the_edge() {
    let mut buf = ScreenBuf::new(4);
    buf.paste(&raster(1, 2, |r, _| r as u8 + 1), 1, usize::MAX, 1, false, true);
    assert_eq!(at(&buf, 0, 239), gray(20));
    assert_eq!(at(&buf, 1, 239), gray(1));
    assert_eq!(at(&buf, 2, 238), gray(1));
    assert_eq!(at(&buf, 3, 239), gray(2));
    assert_eq!(at(&buf, 3, 237), gray(20));
}

#[test]
fn downscaled_piece_is_the_doubled_piece() {
    let half = raster(70, 3, |r, c| (50 * r + c) as u8);
    let full = raster(140, 6, |r, c| (50 * (r / 2) + c / 2) as u8);
    for interlaced in [false, true] {
        let (mut a, mut b) = (ScreenBuf::new(8), ScreenBuf::new(8));
        a.paste(&half, 70, 3, 2, interlaced, true);
        b.paste(&full, 140, 6, 2, interlaced, false);
        assert_eq!(a, b);
    }
}
