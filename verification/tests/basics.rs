use flurry::legacy::ScreenSet;
use flurry::meter::Meter;
use flurry::order::{greatest_of, order_of};
use flurry::settings::{Settings, DEFAULT_QUALITY};
use flurry::single::{Single, HALF, INFINITY, LEAST, THREE_QUARTERS};
use flurry::text;
use flurry::wire;

fn single(x: f32) -> Single {
    Single::from_bits(x.to_bits())
}

const NUMBERS: [f32; 12] = [
    f32::NEG_INFINITY,
    f32::MIN,
    -1.5,
    -f32::MIN_POSITIVE,
    -0.0,
    0.0,
    1.0e-45,
    0.5,
    0.75,
    24.0,
    f32::MAX,
    f32::INFINITY,
];

#[test]
fn singles_compare_as_numbers() {
    for a in NUMBERS {
        for b in NUMBERS {
            assert_eq!(single(a).less(single(b)), a < b, "{a} < {b}");
            assert_eq!(single(a) == single(b), a == b, "{a} == {b}");
        }
        assert!(!single(a).is_nan());
        for nan in [f32::NAN, -f32::NAN] {
            assert!(single(nan).is_nan());
            assert!(!single(a).less(single(nan)) && !single(nan).less(single(a)));
            assert!(single(a) != single(nan) && single(nan) != single(nan));
        }
    }
    assert_eq!(f32::from_bits(HALF), 0.5);
    assert_eq!(f32::from_bits(THREE_QUARTERS), 0.75);
    assert_eq!(f32::from_bits(LEAST), f32::MIN);
    assert_eq!(f32::from_bits(INFINITY), f32::INFINITY);
}

#[test]
fn orders_are_sorted_and_stable() {
    let keys: Vec<Single> = [3.0, 1.0, 2.0, 1.0, -4.0].map(single).to_vec();
    assert_eq!(order_of(&keys, false), vec![4, 1, 3, 2, 0]);
    assert_eq!(order_of(&keys, true), vec![0, 2, 1, 3, 4]);
    assert_eq!(order_of(&[], true), Vec::<usize>::new());
}

#[test]
fn greatest_is_the_first_of_its_kind() {
    let keys: Vec<Single> = [0.1, 0.7, f32::NAN, 0.7, 0.2].map(single).to_vec();
    let (at, best) = greatest_of(&keys);
    assert_eq!((at, f32::from_bits(best.bits)), (1, 0.7));
    let none: Vec<Single> = [f32::NAN, f32::MIN, f32::NEG_INFINITY].map(single).to_vec();
    let (at, best) = greatest_of(&none);
    assert_eq!((at, f32::from_bits(best.bits)), (0, f32::MIN));
    assert_eq!(greatest_of(&[]).0, 0);
}

#[test]
fn first_settings() {
    let s = Settings::default();
    assert_eq!(f32::from_bits(s.master.bits), 0.5);
    assert_eq!(DEFAULT_QUALITY as f32, (40.0f32 + 0.5 * 55.0).round());
    assert_eq!((s.custom, s.quality, s.screen), (false, 68, 1));
    assert_eq!((s.interlace, s.strip_skip), (false, true));
    assert_eq!((s.refresh_interval, s.fps_cap), (32, 0));
    assert_eq!((s.strip_sleep, s.chunks, s.downscale), (0, 4, false));
    assert_eq!((s.grid_cols, s.grid_rows), (16, 1));
}

#[test]
fn master_drives_the_knobs() {
    let at = |m: f32, q: u8| {
        let mut s = Settings {
            master: single(m),
            strip_skip: false,
            ..Settings::default()
        };
        s.apply_master(q);
        assert_eq!(s.quality, q);
        assert!(s.strip_skip);
        (s.interlace, s.fps_cap, s.refresh_interval)
    };
    assert_eq!(at(0.0, 40), (true, 0, 64));
    assert_eq!(at(0.49, 67), (true, 0, 64));
    assert_eq!(at(0.5, 68), (false, 0, 32));
    assert_eq!(at(0.74, 81), (false, 0, 32));
    assert_eq!(at(0.75, 81), (false, 24, 32));
    assert_eq!(at(1.0, 95), (false, 24, 32));
    assert_eq!(at(f32::NAN, 0), (false, 24, 32));
    let mut s = Settings::default();
    s.apply_master(DEFAULT_QUALITY);
    assert!(s == Settings::default());
}

#[test]
fn screen_selections() {
    let select = |screen: u8| {
        let s = Settings {
            screen,
            ..Settings::default()
        };
        (s.screen_set(), s.screen_label())
    };
    assert_eq!(select(1), (ScreenSet::Top, "Top"));
    assert_eq!(select(2), (ScreenSet::Bottom, "Bottom"));
    assert_eq!(select(3), (ScreenSet::Both, "Both"));
    assert_eq!(select(0), (ScreenSet::Top, "Top"));
    assert_eq!(select(9), (ScreenSet::Top, "Top"));
}

#[test]
fn settings_compare_field_by_field() {
    let s = Settings::default();
    assert!(s == s);
    assert!(s != Settings { grid_rows: 2, ..s });
    assert!(s != Settings { master: single(0.6), ..s });
    let zero = Settings { master: single(0.0), ..s };
    assert!(zero == Settings { master: single(-0.0), ..s });
    let nan = Settings { master: single(f32::NAN), ..s };
    assert!(nan != nan);
}

#[test]
fn meter_covers_one_second() {
    let mut m = Meter::default();
    assert_eq!(m.rates(5), (0, 0));
    m.push(1_000_000_000, 10);
    m.push(1_500_000_000, 20);
    m.push(2_000_000_000, 30);
    assert_eq!(m.rates(2_000_000_000), (3, 60));
    assert_eq!(m.rates(2_000_000_001), (2, 50));
    assert_eq!(m.rates(2_000_000_001), (2, 50));
    assert_eq!(m.rates(9_000_000_000), (0, 0));
}

#[test]
fn early_samples_are_kept() {
    let mut m = Meter::default();
    m.push(0, usize::MAX);
    m.push(7, usize::MAX);
    assert_eq!(m.rates(999_999_999), (2, 2 * usize::MAX as u128));
}

#[test]
fn texts_are_trimmed_as_usual() {
    let all: String = (0..0x11_0000u32)
        .filter_map(char::from_u32)
        .filter(|c| text::is_whitespace(*c))
        .collect();
    assert!(all.chars().all(char::is_whitespace));
    let n = (0..0x11_0000u32)
        .filter_map(char::from_u32)
        .filter(|c| c.is_whitespace())
        .count();
    assert_eq!(all.chars().count(), n);
    for s in ["", "  ", " a b\t", "x", "\u{3000}ä\u{85}", "a ", "\n\na"] {
        assert_eq!(text::trim(s), s.trim());
    }
    let s = format!("{all}core{all}");
    assert_eq!(text::trim(&s), "core");
}

#[test]
fn numbers_become_text() {
    let mut s = String::from("n=");
    for n in [0u64, 7, 10, 458753, u64::MAX] {
        text::put_decimal(&mut s, n);
        s.push(' ');
    }
    assert_eq!(s, "n=0 7 10 458753 18446744073709551615 ");
    let mut s = String::new();
    for b in [0x00, 0x0A, 0x9F, 0xFF] {
        text::put_hex2(&mut s, b);
    }
    assert_eq!(s, "000a9fff");
    assert_eq!(text::underscore("a b=c_d"), "a_b_c_d");
    assert!(text::contains_char("a:b", ':') && !text::contains_char("ab", ':'));
    assert!(text::same_text("a", "a") && !text::same_text("a", "b"));
}

#[test]
fn integers_are_little_endian() {
    let mut out = vec![9];
    wire::put_u16(&mut out, 0xBEEF);
    wire::put_u32(&mut out, 0x0102_0304);
    assert_eq!(out, vec![9, 0xEF, 0xBE, 4, 3, 2, 1]);
    assert_eq!(wire::get_u16(&out, 1), 0xBEEF);
    assert_eq!(wire::get_u32(&out, 3), 0x0102_0304);
    assert_eq!(wire::tail(&out, 5), &[2, 1]);
    assert_eq!(wire::low_u32(7), 7);
}
