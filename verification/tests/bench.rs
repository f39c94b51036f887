use flurry::bench::{
    cfg_label, mode_name, mode_weight, plan_configs, trim_extremes, Bench, Motion, Options,
    Outcome, Rate, Sample, StatsSnap, Tick, MEASURE, SAMPLE_EVERY, SETTLE,
};
use flurry::legacy::{feature, feature2, Announce};
use flurry::settings::Settings;
use flurry::single::Single;

fn single(x: f32) -> Single {
    Single::from_bits(x.to_bits())
}

fn value(s: Single) -> f32 {
    f32::from_bits(s.bits)
}

fn sample(top: f32, bottom: f32) -> Sample {
    Sample {
        top: single(top),
        bottom: single(bottom),
        quality: (single(1.0), single(2.0)),
        stats: StatsSnap::default(),
    }
}

fn outcome(fps: f32, bot: f32, sharp: f32) -> Outcome {
    Outcome {
        fps: single(fps),
        bot: single(bot),
        stats: StatsSnap::default(),
        sharp: single(sharp),
        block: single(1.0),
    }
}

fn everything() -> Announce {
    Announce {
        revision: 1,
        features: 0xFF,
        features2: 0xFF,
    }
}

fn options(depth: u8, motion: Motion) -> Options {
    Options {
        goal: single(0.5),
        depth,
        motion,
    }
}

fn labels(depth: u8, caps: Option<Announce>) -> Vec<String> {
    plan_configs(depth, Settings::default(), caps)
        .iter()
        .map(cfg_label)
        .collect()
}

#[test]
fn plans_by_depth() {
    let all = [
        "progressive q=90",
        "progressive q=70",
        "interlace q=90",
        "quarter-res q=90",
        "progressive q=90 rows=8",
        "progressive q=50",
        "interlace q=70",
        "quarter-res q=70",
        "progressive q=90 cols=8",
        "progressive q=90 rows=4",
        "progressive q=90 rows=8 cols=8",
        "progressive q=90 ch=8",
        "interlace q=50",
        "quarter-res q=50",
    ];
    let caps = Some(everything());
    assert_eq!(labels(0, caps), all[..2]);
    assert_eq!(labels(1, caps), all[..5]);
    assert_eq!(labels(2, caps), all[..9]);
    assert_eq!(labels(3, caps), all);
    assert_eq!(labels(200, caps), all);
    assert_eq!(
        labels(3, None),
        [
            "progressive q=90",
            "progressive q=70",
            "interlace q=90",
            "progressive q=50",
            "interlace q=70",
            "interlace q=50",
        ]
    );
}

#[test]
fn plans_leave_unannounced_knobs_alone() {
    let current = Settings {
        strip_skip: false,
        strip_sleep: 9,
        chunks: 2,
        fps_cap: 30,
        interlace: true,
        downscale: true,
        grid_rows: 2,
        ..Settings::default()
    };
    for c in plan_configs(3, current, None) {
        assert_eq!((c.strip_skip, c.strip_sleep, c.chunks), (false, 9, 2));
        assert_eq!((c.screen, c.fps_cap, c.downscale, c.grid_rows), (3, 0, false, 2));
    }
    let caps = Announce {
        revision: 1,
        features: feature::STRIP_SKIP | feature::STRIP_SLEEP | feature::CHUNKS,
        features2: feature2::CAPTURE,
    };
    let first = plan_configs(0, current, Some(caps))[0];
    assert_eq!((first.strip_skip, first.strip_sleep, first.chunks), (true, 0, 4));
}

#[test]
fn modes_have_names_and_weights() {
    let s = Settings::default();
    assert_eq!((mode_name(&s), mode_weight(&s)), ("progressive", 100));
    let s = Settings { interlace: true, ..s };
    assert_eq!((mode_name(&s), mode_weight(&s)), ("interlace", 70));
    let s = Settings { downscale: true, ..s };
    assert_eq!((mode_name(&s), mode_weight(&s)), ("quarter-res", 45));
}

#[test]
fn extremes_are_trimmed() {
    let trim = |v: &[f32]| -> Vec<f32> {
        let v: Vec<Single> = v.iter().map(|x| single(*x)).collect();
        trim_extremes(&v).into_iter().map(value).collect()
    };
    assert_eq!(trim(&[]), []);
    assert_eq!(trim(&[4.0]), [4.0]);
    assert_eq!(trim(&[4.0, 2.0]), [2.0, 4.0]);
    assert_eq!(trim(&[4.0, 2.0, 9.0]), [4.0]);
    assert_eq!(trim(&[5.0, 4.0, 3.0, 2.0, 1.0]), [2.0, 3.0, 4.0]);
    let ten: Vec<f32> = (0..10).rev().map(|x| x as f32).collect();
    assert_eq!(trim(&ten), [2.0, 3.0, 4.0, 5.0, 6.0, 7.0]);
}

#[test]
fn bursts_and_hiccups_do_not_count() {
    let trim = |v: &[f32]| -> Vec<f32> {
        let v: Vec<Single> = v.iter().map(|x| single(*x)).collect();
        trim_extremes(&v).into_iter().map(value).collect()
    };
    let steady = [20.0, 24.0, 22.0, 21.0, 23.0];
    let upset = [23.0, 1.0e9, 21.0, -7.0, 22.0];
    assert_eq!(trim(&steady), [21.0, 22.0, 23.0]);
    assert_eq!(trim(&upset), trim(&steady));
}

#[test]
fn runs_settle_and_then_measure() {
    let mut b = Bench::start(options(0, Motion::TopMoves), Settings::default(), None, 100);
    assert_eq!((b.total(), b.step()), (3, 0));
    assert_eq!(b.describe_current(), "progressive q=68");
    assert_eq!(b.current_config().screen, 3);
    assert!(matches!(b.tick(100 + SETTLE - 1, sample(9.0, 9.0)), Tick::Waiting));
    let open = 100 + SETTLE;
    assert!(matches!(b.tick(open, sample(8.0, 8.0)), Tick::Waiting));
    // Too early for a sample, then in time for three.
    assert!(matches!(b.tick(open + SAMPLE_EVERY - 1, sample(7.0, 7.0)), Tick::Waiting));
    assert!(matches!(b.tick(open + SAMPLE_EVERY, sample(1.0, 6.0)), Tick::Waiting));
    assert!(matches!(b.tick(open + 2 * SAMPLE_EVERY, sample(3.0, 5.0)), Tick::Waiting));
    assert!(matches!(b.tick(open + MEASURE - 1, sample(2.0, 4.0)), Tick::Waiting));
    let Tick::Close(w) = b.tick(open + MEASURE, sample(50.0, 50.0)) else {
        panic!("the window is open");
    };
    assert_eq!(w.samples.len(), 3);
    let top: Vec<f32> = w.top.into_iter().map(value).collect();
    let bottom: Vec<f32> = w.bottom.into_iter().map(value).collect();
    assert_eq!((top, bottom), (vec![2.0], vec![5.0]));
    // Until the averages are there nothing happens.
    assert!(matches!(b.tick(u64::MAX, sample(0.0, 0.0)), Tick::Waiting));
    assert!(!b.record(open + MEASURE, outcome(2.0, 5.0, 0.0)));
    assert_eq!(b.step(), 1);
    assert_eq!(b.describe_current(), "progressive q=90");
    assert!(matches!(b.tick(open + MEASURE + SETTLE - 1, sample(0.0, 0.0)), Tick::Waiting));
}

/// A run over the quick plan whose averages are given.
fn measured(motion: Motion, results: [Outcome; 3]) -> Bench {
    let current = Settings {
        screen: 1,
        quality: 50,
        ..Settings::default()
    };
    let mut b = Bench::start(options(0, motion), current, None, 0);
    let mut now: u64 = 0;
    for (i, r) in results.iter().enumerate() {
        now += SETTLE;
        b.tick(now, sample(0.0, 0.0));
        now += MEASURE;
        assert!(matches!(b.tick(now, sample(0.0, 0.0)), Tick::Close(_)));
        assert_eq!(b.record(now, *r), i == 2);
    }
    b
}

#[test]
fn results_are_ranked() {
    let results = [outcome(1.0, 4.0, 0.5), outcome(2.0, 5.0, 1.5), outcome(3.0, 6.0, f32::NAN)];
    let mut b = measured(Motion::TopMoves, results);
    assert_eq!(value(b.max_sharp()), 1.5);
    assert_eq!(value(b.outcome(1).bot), 5.0);
    let scores: Vec<Single> = [0.25, 0.75, 0.5].map(single).to_vec();
    let (best, score) = Bench::best(&scores);
    assert_eq!((best, value(score)), (1, 0.75));
    assert!(b.summary().is_none() && b.table().is_empty());
    let won = b.finish(&scores, "2.0", "0.75");
    assert_eq!((won.screen, won.quality), (1, 90));
    assert_eq!((b.cancel().screen, b.cancel().quality), (1, 50));
    let rows: Vec<(&str, f32, bool, bool, u8)> = b
        .table()
        .iter()
        .map(|r| {
            let screen = r.settings.screen;
            (r.label.as_str(), value(r.score), r.winner, r.is_baseline, screen)
        })
        .collect();
    assert_eq!(
        rows,
        [
            ("progressive q=90", 0.75, true, false, 1),
            ("progressive q=70", 0.5, false, false, 1),
            ("progressive q=50 (current)", 0.25, false, true, 1),
        ]
    );
    assert!(b.table()[0].settings == won);
    assert!(b.table()[2].settings == b.cancel());
    assert_eq!((value(b.table()[0].fps), value(b.table()[0].bot)), (2.0, 5.0));
    assert_eq!(value(b.table()[0].sharp), 1.5);
    assert_eq!(
        b.summary().map(String::as_str),
        Some("Top result: progressive q=90 — 2.0 fps (score 0.75). Select a row to try it live.")
    );
    assert_eq!(b.describe_current(), "progressive q=70");
}

#[test]
fn motion_decides_what_counts() {
    let results = [outcome(1.0, 4.0, 0.0); 3];
    let Rate::One(r) = measured(Motion::TopMoves, results).scored(0) else {
        panic!("two rates");
    };
    assert_eq!(value(r), 1.0);
    let Rate::One(r) = measured(Motion::BottomMoves, results).scored(1) else {
        panic!("two rates");
    };
    assert_eq!(value(r), 4.0);
    let Rate::Sum(a, b) = measured(Motion::BothMove, results).scored(2) else {
        panic!("one rate");
    };
    assert_eq!((value(a), value(b)), (1.0, 4.0));
}

#[test]
fn labels_suit_file_names() {
    let b = Bench::start(
        options(3, Motion::TopMoves),
        Settings::default(),
        Some(everything()),
        0,
    );
    assert_eq!(b.label(0), "progressive_q_68");
    assert_eq!(b.label(11), "progressive_q_90_rows_8_cols_8");
    assert_eq!(b.label(14), "quarter-res_q_50");
    assert_eq!(b.label(999), "quarter-res_q_50");
}

#[test]
fn estimates_grow_with_the_plan() {
    assert_eq!(Bench::estimate(0), 0);
    assert_eq!(Bench::estimate(3), 11_100_000_000);
    assert_eq!(Bench::estimate(u32::MAX as usize), 3_700_000_000 * u32::MAX as u64);
}
