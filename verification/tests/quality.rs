use flurry::picture::{Image, Pixel};
use flurry::quality::{measure, to_png, Measured};

fn image(width: usize, height: usize, f: impl Fn(usize, usize) -> Pixel) -> Image {
    let mut pixels = Vec::new();
    for y in 0..height {
        for x in 0..width {
            pixels.push(f(x, y));
        }
    }
    Image {
        width,
        height,
        pixels,
    }
}

fn gray(v: u8) -> Pixel {
    Pixel { r: v, g: v, b: v }
}

#[test]
fn small_images_are_not_measured() {
    assert_eq!(measure(&image(15, 40, |_, _| gray(1))), None);
    assert_eq!(measure(&image(40, 15, |_, _| gray(1))), None);
    assert!(measure(&image(16, 16, |_, _| gray(1))).is_some());
}

#[test]
fn flat_images_have_no_steps() {
    assert_eq!(
        measure(&image(24, 17, |_, _| gray(77))),
        Some(Measured {
            grad_sum: 0,
            grad_n: 17 * 23 + 16 * 24,
            edge_sum: 0,
            edge_n: 17 * 2 + 24 * 2,
            inner_sum: 0,
            inner_n: 17 * 21 + 14 * 24,
        })
    );
}

#[test]
fn blocks_show_at_their_borders() {
    // Blocks of eight columns, ten apart in brightness.
    let m = measure(&image(32, 16, |x, _| gray(10 * (x / 8) as u8))).unwrap();
    assert_eq!(m.edge_sum, 16 * 3 * 10);
    assert_eq!(m.inner_sum, 0);
    assert_eq!(m.grad_sum, 480);
    // Blocks of eight rows.
    let m = measure(&image(16, 32, |_, y| gray(200 - 10 * (y / 8) as u8))).unwrap();
    assert_eq!((m.edge_sum, m.inner_sum), (480, 0));
    // A ramp has its steps everywhere.
    let m = measure(&image(16, 16, |x, _| gray(x as u8))).unwrap();
    assert_eq!((m.edge_sum, m.inner_sum, m.grad_sum), (16, 16 * 14, 16 * 15));
}

#[test]
fn luma_weighs_the_colours() {
    // Columns of black and one colour in turn: every step across is its luma.
    let step = |p: Pixel| {
        let m = measure(&image(16, 16, |x, _| if x % 2 == 0 { gray(0) } else { p })).unwrap();
        m.grad_sum / (16 * 15)
    };
    assert_eq!(step(Pixel { r: 255, g: 0, b: 0 }), 76);
    assert_eq!(step(Pixel { r: 0, g: 255, b: 0 }), 149);
    assert_eq!(step(Pixel { r: 0, g: 0, b: 255 }), 28);
    assert_eq!(step(gray(255)), 255);
}

#[test]
fn png_files_hold_the_image() {
    let img = image(3, 2, |x, y| Pixel {
        r: x as u8,
        g: y as u8,
        b: 200,
    });
    let file = to_png(&img).unwrap();
    assert_eq!(&file[1..4], b"PNG");
    let mut reader = png::Decoder::new(std::io::Cursor::new(&file[..]))
        .read_info()
        .unwrap();
    let mut data = vec![0; reader.output_buffer_size().unwrap()];
    let info = reader.next_frame(&mut data).unwrap();
    assert_eq!((info.width, info.height), (3, 2));
    assert_eq!(info.color_type, png::ColorType::Rgba);
    assert_eq!(
        data,
        vec![
            0, 0, 200, 255, 1, 0, 200, 255, 2, 0, 200, 255, //
            0, 1, 200, 255, 1, 1, 200, 255, 2, 1, 200, 255,
        ]
    );
}

#[test]
fn transposed_images_measure_the_same() {
    let shade = |x: usize, y: usize| gray((x * 31 + y * y * 7 + x * y) as u8);
    let a = measure(&image(40, 23, shade)).unwrap();
    let b = measure(&image(23, 40, |x, y| shade(y, x))).unwrap();
    assert_eq!(a, b);
    assert!(a.edge_sum <= 255 * a.edge_n && a.inner_sum <= 255 * a.inner_n);
    assert!(a.edge_sum > 0 && a.inner_sum > 0);
}

#[test]
fn miscounted_images_are_no_png() {
    let mut img = image(4, 4, |_, _| gray(0));
    img.pixels.pop();
    assert!(to_png(&img).is_err());
}

#[test]
fn empty_images_are_no_png() {
    assert_eq!(
        to_png(&image(0, 4, |_, _| gray(0))),
        Err("Zero width not allowed".to_string())
    );
    assert_eq!(
        to_png(&image(4, 0, |_, _| gray(0))),
        Err("Zero height not allowed".to_string())
    );
}
