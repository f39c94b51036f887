//! Benchmark: sweeps the tunable knobs over a live connection, measures each
//! configuration for a while, and ranks them by a goal between frame rate and
//! quality.
//!
//! Driven once per paint: apply a configuration, let it settle, measure, go on.
//! Both screens always stream. What is measured are samples taken every fifth of a
//! second; single hiccups and lucky bursts are trimmed away. Averages and scores
//! are the caller's arithmetic: a closed window hands out what is to be averaged,
//! and the scores come back to be ranked.
//!
//! Needs moving content to measure anything: skipping unchanged strips makes static
//! content read as almost no frames.

pub mod laws;

use crate::legacy::{feature, feature2, Announce};
use crate::order;
use crate::settings::Settings;
use crate::single::Single;
use crate::text;
use crate::wire;
use vstd::prelude::*;
use vstd::string::*;

verus! {

/// How long a configuration settles, in nanoseconds.
pub const SETTLE: u64 = 1_200_000_000;

/// How long it is then measured.
pub const MEASURE: u64 = 2_500_000_000;

/// How long after a sample the next one is due.
pub const SAMPLE_EVERY: u64 = 200_000_000;

/// The frame rate at which that half of a score is full.
pub const FPS_TARGET: u8 = 24;

/// What the 3DS reports of itself once a second.
#[derive(Debug, Clone, Copy, Default)]
pub struct StatsSnap {
    pub enc: Single,
    pub send: Single,
    pub sent: Single,
    pub skip: Single,
    pub dma: Single,
    pub torn: Single,
}

/// Which screen carries the moving content. It decides which frame rate counts;
/// the other screen's rate stays visible as a diagnostic.
#[derive(Debug, Clone, Copy, PartialEq, Eq, Structural)]
pub enum Motion {
    /// The top screen moves, the bottom one is static (the test pattern).
    TopMoves,
    /// Both screens move (a game).
    BothMove,
    /// The bottom screen moves, the top one is static.
    BottomMoves,
}

/// What to sweep.
#[derive(Debug, Clone, Copy)]
pub struct Options {
    /// 0 is frame rate alone, 1 is quality alone.
    pub goal: Single,
    /// Sweep depth: 0 quick, 1 standard, 2 thorough, 3 and above exhaustive.
    pub depth: u8,
    pub motion: Motion,
}

/// Whether a feature was announced.
pub open spec fn has(caps: Option<Announce>, bit: u8) -> bool {
    caps matches Some(a) && a.announces(bit)
}

/// Whether a feature was announced in the second feature byte.
pub open spec fn has2(caps: Option<Announce>, bit: u8) -> bool {
    caps matches Some(a) && a.announces2(bit)
}

/// One configuration, where it applies.
pub open spec fn when(applies: bool, cfg: Settings) -> Seq<Settings> {
    if applies {
        seq![cfg]
    } else {
        Seq::empty()
    }
}

/// What the configurations of a sweep vary: the current settings with both screens
/// streaming and every decimation off. Announced knobs are set to what is known to
/// be best; the others stay.
pub open spec fn base_config(current: Settings, caps: Option<Announce>) -> Settings {
    Settings {
        screen: 3,
        strip_skip: has(caps, feature::STRIP_SKIP) || current.strip_skip,
        strip_sleep: if has(caps, feature::STRIP_SLEEP) {
            0
        } else {
            current.strip_sleep
        },
        chunks: if has(caps, feature::CHUNKS) {
            4
        } else {
            current.chunks
        },
        fps_cap: 0,
        interlace: false,
        downscale: false,
        ..current
    }
}

/// The two configurations that win most benchmarks.
pub open spec fn quick(b: Settings) -> Seq<Settings> {
    seq![Settings { quality: 90, ..b }, Settings { quality: 70, ..b }]
}

/// What a standard sweep adds.
pub open spec fn standard(b: Settings, caps: Option<Announce>) -> Seq<Settings> {
    seq![Settings { quality: 90, interlace: true, ..b }] + when(
        has(caps, feature::DOWNSCALE),
        Settings { quality: 90, downscale: true, ..b },
    ) + when(
        has2(caps, feature2::CELL_GRID),
        Settings { quality: 90, grid_rows: 8, ..b },
    )
}

/// What a thorough sweep adds.
pub open spec fn thorough(b: Settings, caps: Option<Announce>) -> Seq<Settings> {
    seq![Settings { quality: 50, ..b }, Settings { quality: 70, interlace: true, ..b }] + when(
        has(caps, feature::DOWNSCALE),
        Settings { quality: 70, downscale: true, ..b },
    ) + when(
        has2(caps, feature2::CELL_GRID),
        Settings { quality: 90, grid_cols: 8, ..b },
    )
}

/// What an exhaustive sweep adds.
pub open spec fn exhaustive(b: Settings, caps: Option<Announce>) -> Seq<Settings> {
    when(
        has2(caps, feature2::CELL_GRID),
        Settings { quality: 90, grid_rows: 4, ..b },
    ) + when(
        has2(caps, feature2::CELL_GRID),
        Settings { quality: 90, grid_rows: 8, grid_cols: 8, ..b },
    ) + when(has(caps, feature::CHUNKS), Settings { quality: 90, chunks: 8, ..b }) + seq![
        Settings { quality: 50, interlace: true, ..b },
    ] + when(
        has(caps, feature::DOWNSCALE),
        Settings { quality: 50, downscale: true, ..b },
    )
}

/// The configurations of a sweep of this depth.
pub open spec fn planned(depth: u8, current: Settings, caps: Option<Announce>) -> Seq<Settings> {
    let b = base_config(current, caps);
    quick(b) + (if depth >= 1 {
        standard(b, caps)
    } else {
        Seq::empty()
    }) + (if depth >= 2 {
        thorough(b, caps)
    } else {
        Seq::empty()
    }) + (if depth >= 3 {
        exhaustive(b, caps)
    } else {
        Seq::empty()
    })
}

/// Appends a configuration, where it applies.
fn add_when(plan: &mut Vec<Settings>, applies: bool, cfg: Settings)
    ensures
        final(plan)@ == old(plan)@ + when(applies, cfg),
{
    if applies {
        plan.push(cfg);
    }
    proof {
        assert(plan@ =~= old(plan)@ + when(applies, cfg));
    }
}

/// Appends what a standard sweep adds.
fn add_standard(plan: &mut Vec<Settings>, b: Settings, caps: Option<Announce>)
    ensures
        final(plan)@ == old(plan)@ + standard(b, caps),
{
    let mut more: Vec<Settings> = Vec::new();
    more.push(Settings { quality: 90, interlace: true, ..b });
    proof {
        assert(more@ =~= seq![Settings { quality: 90, interlace: true, ..b }]);
    }
    add_when(
        &mut more,
        announced(caps, feature::DOWNSCALE),
        Settings { quality: 90, downscale: true, ..b },
    );
    add_when(
        &mut more,
        announced2(caps, feature2::CELL_GRID),
        Settings { quality: 90, grid_rows: 8, ..b },
    );
    plan.append(&mut more);
}

/// Appends what a thorough sweep adds.
fn add_thorough(plan: &mut Vec<Settings>, b: Settings, caps: Option<Announce>)
    ensures
        final(plan)@ == old(plan)@ + thorough(b, caps),
{
    let mut more: Vec<Settings> = Vec::new();
    more.push(Settings { quality: 50, ..b });
    more.push(Settings { quality: 70, interlace: true, ..b });
    proof {
        assert(more@ =~= seq![
            Settings { quality: 50, ..b },
            Settings { quality: 70, interlace: true, ..b },
        ]);
    }
    add_when(
        &mut more,
        announced(caps, feature::DOWNSCALE),
        Settings { quality: 70, downscale: true, ..b },
    );
    add_when(
        &mut more,
        announced2(caps, feature2::CELL_GRID),
        Settings { quality: 90, grid_cols: 8, ..b },
    );
    plan.append(&mut more);
}

/// Appends what an exhaustive sweep adds.
fn add_exhaustive(plan: &mut Vec<Settings>, b: Settings, caps: Option<Announce>)
    ensures
        final(plan)@ == old(plan)@ + exhaustive(b, caps),
{
    let mut more: Vec<Settings> = Vec::new();
    let grid = announced2(caps, feature2::CELL_GRID);
    add_when(&mut more, grid, Settings { quality: 90, grid_rows: 4, ..b });
    proof {
        assert(more@ =~= when(grid, Settings { quality: 90, grid_rows: 4, ..b }));
    }
    add_when(&mut more, grid, Settings { quality: 90, grid_rows: 8, grid_cols: 8, ..b });
    add_when(
        &mut more,
        announced(caps, feature::CHUNKS),
        Settings { quality: 90, chunks: 8, ..b },
    );
    add_when(&mut more, true, Settings { quality: 50, interlace: true, ..b });
    add_when(
        &mut more,
        announced(caps, feature::DOWNSCALE),
        Settings { quality: 50, downscale: true, ..b },
    );
    plan.append(&mut more);
}

/// Whether a feature was announced.
fn announced(caps: Option<Announce>, bit: u8) -> (b: bool)
    ensures
        b == has(caps, bit),
{
    match caps {
        Some(a) => a.has(bit),
        None => false,
    }
}

/// Whether a feature was announced in the second feature byte.
fn announced2(caps: Option<Announce>, bit: u8) -> (b: bool)
    ensures
        b == has2(caps, bit),
{
    match caps {
        Some(a) => a.has2(bit),
        None => false,
    }
}

/// What the configurations of a sweep vary.
fn base_of(current: Settings, caps: Option<Announce>) -> (base: Settings)
    ensures
        base == base_config(current, caps),
{
    let mut base = current;
    base.screen = 3;
    if announced(caps, feature::STRIP_SKIP) {
        base.strip_skip = true;
    }
    if announced(caps, feature::STRIP_SLEEP) {
        base.strip_sleep = 0;
    }
    if announced(caps, feature::CHUNKS) {
        base.chunks = 4;
    }
    base.fps_cap = 0;
    base.interlace = false;
    base.downscale = false;
    base
}

/// The configurations of a sweep of this depth. Quality costs hardly any time, so
/// high quality leads; the grid is what is least settled, so its variants appear
/// from the standard depth on; 4 against 8 strips is settled and only tried again
/// at the greatest depth.
pub fn plan_configs(depth: u8, current: Settings, caps: Option<Announce>) -> (plan: Vec<Settings>)
    ensures
        plan@ == planned(depth, current, caps),
{
    let base = base_of(current, caps);
    let mut plan: Vec<Settings> = Vec::new();
    plan.push(Settings { quality: 90, ..base });
    plan.push(Settings { quality: 70, ..base });
    let ghost none = Seq::<Settings>::empty();
    let ghost first = quick(base);
    proof {
        assert(plan@ =~= first);
        assert(first + none =~= first);
    }
    if depth >= 1 {
        add_standard(&mut plan, base, caps);
    }
    let ghost second = plan@;
    proof {
        assert(second + none =~= second);
    }
    if depth >= 2 {
        add_thorough(&mut plan, base, caps);
    }
    let ghost third = plan@;
    proof {
        assert(third + none =~= third);
    }
    if depth >= 3 {
        add_exhaustive(&mut plan, base, caps);
    }
    plan
}

/// How a configuration decimates the picture.
#[derive(Debug, Clone, Copy, PartialEq, Eq, Structural)]
pub enum Mode {
    Progressive,
    Interlace,
    QuarterRes,
}

/// How a configuration decimates the picture.
pub open spec fn mode(s: Settings) -> Mode {
    if s.downscale {
        Mode::QuarterRes
    } else if s.interlace {
        Mode::Interlace
    } else {
        Mode::Progressive
    }
}

/// Perceptual weight of a configuration's mode, in hundredths.
pub fn mode_weight(s: &Settings) -> (hundredths: u8)
    ensures
        hundredths == (match mode(*s) {
            Mode::QuarterRes => 45u8,
            Mode::Interlace => 70,
            Mode::Progressive => 100,
        }),
{
    if s.downscale {
        45
    } else if s.interlace {
        70
    } else {
        100
    }
}

/// The name of a mode.
pub open spec fn name_of(m: Mode) -> Seq<char> {
    match m {
        Mode::QuarterRes => "quarter-res"@,
        Mode::Interlace => "interlace"@,
        Mode::Progressive => "progressive"@,
    }
}

/// The name of a configuration's mode.
pub fn mode_name(s: &Settings) -> (name: &'static str)
    ensures
        name@ == name_of(mode(*s)),
{
    if s.downscale {
        "quarter-res"
    } else if s.interlace {
        "interlace"
    } else {
        "progressive"
    }
}

/// A named number, where it is worth a mention.
pub open spec fn mention(worth: bool, name: Seq<char>, n: u8) -> Seq<char> {
    if worth {
        name + text::decimal(n as nat)
    } else {
        Seq::empty()
    }
}

/// A configuration's label: its mode, its quality, and whichever knobs differ from
/// the norm.
pub open spec fn config_label(s: Settings) -> Seq<char> {
    name_of(mode(s)) + " q="@ + text::decimal(s.quality as nat) + mention(
        s.grid_rows != 1,
        " rows="@,
        s.grid_rows,
    ) + mention(s.grid_cols != 16, " cols="@, s.grid_cols) + mention(
        s.chunks != 4,
        " ch="@,
        s.chunks,
    )
}

/// Appends a named number, where it is worth a mention.
fn put_mention(out: &mut String, worth: bool, name: &str, n: u8)
    ensures
        final(out)@ == old(out)@ + mention(worth, name@, n),
{
    if worth {
        out.append(name);
        text::put_decimal(out, n as u64);
    }
    proof {
        assert(out@ =~= old(out)@ + mention(worth, name@, n));
    }
}

/// A configuration's label.
pub fn cfg_label(s: &Settings) -> (label: String)
    ensures
        label@ == config_label(*s),
{
    let mut l = mode_name(s).to_owned();
    l.append(" q=");
    text::put_decimal(&mut l, s.quality as u64);
    put_mention(&mut l, s.grid_rows != 1, " rows=", s.grid_rows);
    put_mention(&mut l, s.grid_cols != 16, " cols=", s.grid_cols);
    put_mention(&mut l, s.chunks != 4, " ch=", s.chunks);
    l
}

/// What is read at one moment of a window.
#[derive(Debug, Clone, Copy)]
pub struct Sample {
    /// Frame rate of the top screen.
    pub top: Single,
    /// Frame rate of the bottom screen.
    pub bottom: Single,
    /// Sharpness and blockiness of the latest top frame.
    pub quality: (Single, Single),
    /// The latest report of the 3DS.
    pub stats: StatsSnap,
}

/// What has to be averaged when a window closes.
#[derive(Debug)]
pub struct Window {
    /// Frame rates of the top screen in ascending order, without the extremes.
    pub top: Vec<Single>,
    /// Frame rates of the bottom screen in ascending order, without the extremes.
    pub bottom: Vec<Single>,
    /// All samples of the window.
    pub samples: Vec<Sample>,
}

/// The averages of a window.
#[derive(Debug, Clone, Copy)]
pub struct Outcome {
    /// Frame rate of the top screen.
    pub fps: Single,
    /// Frame rate of the bottom screen.
    pub bot: Single,
    pub stats: StatsSnap,
    pub sharp: Single,
    pub block: Single,
}

/// How many samples go at either end: a fifth, and at least one where there are
/// three or more.
pub open spec fn cut(n: nat) -> nat {
    if n >= 3 && n / 5 < 1 {
        1
    } else {
        n / 5
    }
}

/// Values in ascending order, without the extremes.
pub open spec fn middle(v: Seq<Single>) -> Seq<Single> {
    let order = order::ordered(v, v.len(), false);
    Seq::new(
        (v.len() - 2 * cut(v.len())) as nat,
        |i: int| v[order[cut(v.len()) + i]],
    )
}

/// Values in ascending order, without the extremes.
pub fn trim_extremes(v: &[Single]) -> (mid: Vec<Single>)
    ensures
        mid@ == middle(v@),
{
    let n: usize = v.len();
    let c: usize = if n >= 3 && n / 5 < 1 {
        1
    } else {
        n / 5
    };
    let order = order::order_of(v, false);
    let mut mid: Vec<Single> = Vec::new();
    let mut i: usize = c;
    proof {
        order::order_is_a_rearrangement(v@, v@.len(), false);
    }
    while i < n - c
        invariant
            n == v@.len(),
            c == cut(v@.len()),
            c <= i <= n - c,
            order@.len() == n,
            order::indices(order@) == order::ordered(v@, v@.len(), false),
            forall|k: int|
                0 <= k < n ==> 0 <= #[trigger] order::ordered(v@, v@.len(), false)[k] < n,
            mid@ == middle(v@).take(i - c),
        decreases n - i,
    {
        assert(order::indices(order@)[i as int] == order@[i as int]);
        mid.push(v[order[i]]);
        i = i + 1;
        proof {
            assert(mid@ =~= middle(v@).take(i - c));
        }
    }
    proof {
        assert(mid@ =~= middle(v@));
    }
    mid
}

/// What a run is doing. Times are those at which it began to do so.
#[derive(Debug, Clone, Copy, PartialEq, Eq, Structural)]
pub enum Phase {
    /// A configuration was applied and settles.
    Settle(u64),
    /// It is measured.
    Measure(u64),
    /// Its window closed and the averages are waited for.
    Average,
    /// All configurations were measured.
    Done,
}

/// One line of the result table.
#[derive(Debug)]
pub struct BenchResult {
    pub label: String,
    /// This row is the user's settings before the run, measured.
    pub is_baseline: bool,
    /// The whole settings of this configuration, with the user's choice of
    /// screens; applied when the row is selected.
    pub settings: Settings,
    /// Frame rate of the top screen.
    pub fps: Single,
    /// Frame rate of the bottom screen. On static content it should be near the
    /// rate of forced refreshes; more means that skipping strips does not work.
    pub bot: Single,
    pub stats: StatsSnap,
    /// Measured sharpness, comparable within the run.
    pub sharp: Single,
    /// Measured blockiness; 1 is no block artifacts.
    pub block: Single,
    pub score: Single,
    pub winner: bool,
}

/// The contents of a row.
#[verifier::ext_equal]
pub struct RowView {
    pub label: Seq<char>,
    pub is_baseline: bool,
    pub settings: Settings,
    pub fps: Single,
    pub bot: Single,
    pub stats: StatsSnap,
    pub sharp: Single,
    pub block: Single,
    pub score: Single,
    pub winner: bool,
}

impl View for BenchResult {
    type V = RowView;

    open spec fn view(&self) -> RowView {
        RowView {
            label: self.label@,
            is_baseline: self.is_baseline,
            settings: self.settings,
            fps: self.fps,
            bot: self.bot,
            stats: self.stats,
            sharp: self.sharp,
            block: self.block,
            score: self.score,
            winner: self.winner,
        }
    }
}

/// The contents of rows.
pub open spec fn row_views(rows: Seq<BenchResult>) -> Seq<RowView> {
    Seq::new(rows.len(), |i: int| rows[i]@)
}

/// A benchmark run.
#[derive(Debug)]
pub struct Bench {
    opts: Options,
    plan: Vec<Settings>,
    results: Vec<Outcome>,
    phase: Phase,
    samples: Vec<Sample>,
    last_sample: u64,
    restore: Settings,
    summary: Option<String>,
    table: Vec<BenchResult>,
}

/// The contents of a run.
#[verifier::ext_equal]
pub struct BenchView {
    pub opts: Options,
    /// The configurations to measure; the first is the user's own.
    pub plan: Seq<Settings>,
    /// The averages of those that were measured, in their order.
    pub results: Seq<Outcome>,
    pub phase: Phase,
    pub samples: Seq<Sample>,
    pub last_sample: u64,
    /// The user's settings before the run.
    pub restore: Settings,
    /// One line on the outcome, once the run is complete.
    pub summary: Option<Seq<char>>,
    /// The result table, once the run is complete.
    pub table: Seq<RowView>,
}

impl View for Bench {
    type V = BenchView;

    closed spec fn view(&self) -> BenchView {
        BenchView {
            opts: self.opts,
            plan: self.plan@,
            results: self.results@,
            phase: self.phase,
            samples: self.samples@,
            last_sample: self.last_sample,
            restore: self.restore,
            summary: crate::profile::text_view(self.summary),
            table: row_views(self.table@),
        }
    }
}

/// What a moment of a run calls for.
#[derive(Debug)]
pub enum Tick {
    Waiting,
    /// The window of a configuration closed.
    Close(Window),
}

/// The frame rate that counts for the score.
#[derive(Debug, Clone, Copy)]
pub enum Rate {
    One(Single),
    Sum(Single, Single),
}

/// Whether so much time has gone by.
pub open spec fn passed(now: u64, since: u64, span: u64) -> bool {
    now - since >= span
}

impl BenchView {
    /// A run that begins: the user's settings are measured first, then those of the
    /// plan. Both screens stream throughout.
    pub open spec fn begun(
        opts: Options,
        current: Settings,
        caps: Option<Announce>,
        now: u64,
    ) -> BenchView {
        BenchView {
            opts,
            plan: seq![Settings { screen: 3, ..current }] + planned(opts.depth, current, caps),
            results: Seq::empty(),
            phase: Phase::Settle(now),
            samples: Seq::empty(),
            last_sample: now,
            restore: current,
            summary: None,
            table: Seq::empty(),
        }
    }

    /// Whether a run is in order: it has configurations left exactly while it is not
    /// done.
    pub open spec fn wf(self) -> bool {
        &&& self.plan.len() > 0
        &&& self.phase is Done ==> self.results.len() == self.plan.len()
        &&& !(self.phase is Done) ==> self.results.len() < self.plan.len()
    }

    /// Which configuration of the plan is in use; the last one once all were.
    pub open spec fn at(self, i: int) -> Settings {
        if i < self.plan.len() {
            self.plan[i]
        } else {
            self.plan.last()
        }
    }

    /// The run with a sample taken, where one is due.
    pub open spec fn sampled(self, now: u64, sample: Sample) -> BenchView {
        if passed(now, self.last_sample, SAMPLE_EVERY) {
            BenchView { samples: self.samples.push(sample), last_sample: now, ..self }
        } else {
            self
        }
    }

    /// Whether a window closes.
    pub open spec fn closes(self, now: u64) -> bool {
        self.phase matches Phase::Measure(since) && passed(now, since, MEASURE)
    }

    /// The run at a later moment. What has settled is measured from then on; while
    /// it is measured samples are taken as they are due; when the time is up the
    /// window closes and its samples are handed out.
    pub open spec fn ticked(self, now: u64, sample: Sample) -> BenchView {
        match self.phase {
            Phase::Settle(since) => if passed(now, since, SETTLE) {
                BenchView {
                    samples: Seq::empty(),
                    last_sample: now,
                    phase: Phase::Measure(now),
                    ..self
                }
            } else {
                self
            },
            Phase::Measure(_) => if self.closes(now) {
                BenchView {
                    samples: Seq::empty(),
                    phase: Phase::Average,
                    ..self.sampled(now, sample)
                }
            } else {
                self.sampled(now, sample)
            },
            _ => self,
        }
    }

    /// The run with the averages of a window: the next configuration settles, or all
    /// are done.
    pub open spec fn recorded(self, now: u64, outcome: Outcome) -> BenchView {
        let results = self.results.push(outcome);
        BenchView {
            results,
            phase: if results.len() < self.plan.len() {
                Phase::Settle(now)
            } else {
                Phase::Done
            },
            ..self
        }
    }

    /// The frame rate that counts for the score of configuration `i`.
    pub open spec fn rate(self, i: int) -> Rate {
        match self.opts.motion {
            Motion::TopMoves => Rate::One(self.results[i].fps),
            Motion::BothMove => Rate::Sum(self.results[i].fps, self.results[i].bot),
            Motion::BottomMoves => Rate::One(self.results[i].bot),
        }
    }

    /// The settings of configuration `i` as the user would apply them: both screens
    /// were streaming for the measurement only, so the user's choice of screens stays.
    pub open spec fn applicable(self, i: int) -> Settings {
        Settings { screen: self.restore.screen, ..self.plan[i] }
    }

    /// The row of configuration `i`, where `best` has won.
    pub open spec fn row(self, scores: Seq<Single>, i: int, best: int) -> RowView {
        RowView {
            label: config_label(self.plan[i]) + if i == 0 {
                " (current)"@
            } else {
                Seq::empty()
            },
            is_baseline: i == 0,
            settings: self.applicable(i),
            fps: self.results[i].fps,
            bot: self.results[i].bot,
            stats: self.results[i].stats,
            sharp: self.results[i].sharp,
            block: self.results[i].block,
            score: scores[i],
            winner: i == best,
        }
    }

    /// The rows of all configurations, the best first.
    pub open spec fn ranked(self, scores: Seq<Single>) -> Seq<RowView> {
        let order = order::ordered(scores, scores.len(), true);
        let best = order::greatest(scores, scores.len()).0;
        Seq::new(scores.len(), |i: int| self.row(scores, order[i], best))
    }

    /// The run with its results ranked and summed up.
    pub open spec fn finished(
        self,
        scores: Seq<Single>,
        rate_text: Seq<char>,
        score_text: Seq<char>,
    ) -> BenchView {
        let best = order::greatest(scores, scores.len()).0;
        BenchView {
            summary: Some(
                "Top result: "@ + config_label(self.plan[best]) + " \u{2014} "@ + rate_text
                    + " fps (score "@ + score_text + "). Select a row to try it live."@,
            ),
            table: self.ranked(scores),
            ..self
        }
    }
}

/// The greatest of zero and the first `n` sharpnesses. What is no number does not
/// count.
pub open spec fn sharpest(results: Seq<Outcome>, n: nat) -> Single
    decreases n,
{
    if n == 0 {
        Single { bits: 0 }
    } else {
        let most = sharpest(results, (n - 1) as nat);
        if most.lt(results[n - 1].sharp) {
            results[n - 1].sharp
        } else {
            most
        }
    }
}

/// Whether so much time has gone by.
fn elapsed(now: u64, since: u64, span: u64) -> (b: bool)
    requires
        span > 0,
    ensures
        b == passed(now, since, span),
{
    if now >= since {
        now - since >= span
    } else {
        false
    }
}

impl Bench {
    /// Whether the run is in order.
    pub open spec fn wf(self) -> bool {
        self@.wf()
    }

    /// Begins a run from the current settings and the announced features.
    pub fn start(opts: Options, current: Settings, caps: Option<Announce>, now: u64) -> (b: Bench)
        ensures
            b.wf(),
            b@ == BenchView::begun(opts, current, caps, now),
    {
        let mut plan: Vec<Settings> = Vec::new();
        plan.push(Settings { screen: 3, ..current });
        let mut more = plan_configs(opts.depth, current, caps);
        plan.append(&mut more);
        let b = Bench {
            opts,
            plan,
            results: Vec::new(),
            phase: Phase::Settle(now),
            samples: Vec::new(),
            last_sample: now,
            restore: current,
            summary: None,
            table: Vec::new(),
        };
        proof {
            assert(b@ =~= BenchView::begun(opts, current, caps, now));
        }
        b
    }

    /// Advances the run. `sample` is what can be read now.
    pub fn tick(&mut self, now: u64, sample: Sample) -> (tick: Tick)
        requires
            old(self).wf(),
        ensures
            final(self).wf(),
            final(self)@ == old(self)@.ticked(now, sample),
            match tick {
                Tick::Close(w) => {
                    &&& old(self)@.closes(now)
                    &&& w.samples@ == old(self)@.sampled(now, sample).samples
                    &&& w.top@ == middle(tops(w.samples@))
                    &&& w.bottom@ == middle(bottoms(w.samples@))
                },
                Tick::Waiting => !old(self)@.closes(now),
            },
    {
        let ghost before = self@;
        match self.phase {
            Phase::Settle(since) => {
                if elapsed(now, since, SETTLE) {
                    self.samples.clear();
                    self.last_sample = now;
                    self.phase = Phase::Measure(now);
                }
                Tick::Waiting
            },
            Phase::Measure(since) => {
                if elapsed(now, self.last_sample, SAMPLE_EVERY) {
                    self.samples.push(sample);
                    self.last_sample = now;
                }
                if !elapsed(now, since, MEASURE) {
                    return Tick::Waiting;
                }
                let mut samples: Vec<Sample> = Vec::new();
                samples.append(&mut self.samples);
                self.phase = Phase::Average;
                proof {
                    assert(samples@ =~= before.sampled(now, sample).samples);
                    assert(self@ =~= before.ticked(now, sample));
                }
                let (top, bottom) = split(samples.as_slice());
                Tick::Close(
                    Window {
                        top: trim_extremes(top.as_slice()),
                        bottom: trim_extremes(bottom.as_slice()),
                        samples,
                    },
                )
            },
            _ => Tick::Waiting,
        }
    }

    /// Takes the averages of the window that closed. Returns whether all
    /// configurations are measured.
    pub fn record(&mut self, now: u64, outcome: Outcome) -> (done: bool)
        requires
            old(self).wf(),
            old(self)@.phase is Average,
        ensures
            final(self).wf(),
            final(self)@ == old(self)@.recorded(now, outcome),
            done == (final(self)@.phase is Done),
    {
        self.results.push(outcome);
        let done = self.results.len() >= self.plan.len();
        self.phase = if done {
            Phase::Done
        } else {
            Phase::Settle(now)
        };
        done
    }

    /// The frame rate that counts for the score of configuration `i`.
    pub fn scored(&self, i: usize) -> (rate: Rate)
        requires
            i < self@.results.len(),
        ensures
            rate == self@.rate(i as int),
    {
        let r = self.results[i];
        match self.opts.motion {
            Motion::TopMoves => Rate::One(r.fps),
            Motion::BothMove => Rate::Sum(r.fps, r.bot),
            Motion::BottomMoves => Rate::One(r.bot),
        }
    }

    /// The greatest sharpness measured, or zero.
    pub fn max_sharp(&self) -> (most: Single)
        ensures
            most == sharpest(self@.results, self@.results.len()),
    {
        let mut most = Single::from_bits(0);
        let mut i: usize = 0;
        while i < self.results.len()
            invariant
                i <= self.results@.len(),
                most == sharpest(self.results@, i as nat),
            decreases self.results@.len() - i,
        {
            if most.less(self.results[i].sharp) {
                most = self.results[i].sharp;
            }
            i = i + 1;
        }
        most
    }

    /// The averages of configuration `i`.
    pub fn outcome(&self, i: usize) -> (r: Outcome)
        requires
            i < self@.results.len(),
        ensures
            r == self@.results[i as int],
    {
        self.results[i]
    }

    /// The configuration with the best score, and that score.
    pub fn best(scores: &[Single]) -> (res: (usize, Single))
        ensures
            (res.0 as int, res.1) == order::greatest(scores@, scores@.len()),
    {
        order::greatest_of(scores)
    }

    /// Ranks the results by their scores and sums them up. The winner's frame rate
    /// and score come as texts. Returns the winning settings.
    pub fn finish(&mut self, scores: &[Single], rate_text: &str, score_text: &str) -> (won:
        Settings)
        requires
            old(self).wf(),
            old(self)@.phase is Done,
            scores@.len() == old(self)@.plan.len(),
        ensures
            final(self).wf(),
            final(self)@ == old(self)@.finished(scores@, rate_text@, score_text@),
            won == old(self)@.applicable(order::greatest(scores@, scores@.len()).0),
    {
        let ghost before = self@;
        let (best, _) = Bench::best(scores);
        proof {
            lemma_greatest_place(scores@, scores@.len());
        }
        let order = order::order_of(scores, true);
        let mut table: Vec<BenchResult> = Vec::new();
        let mut i: usize = 0;
        proof {
            order::order_is_a_rearrangement(scores@, scores@.len(), true);
        }
        while i < order.len()
            invariant
                self@ == before,
                before.wf(),
                before.phase is Done,
                i <= order@.len(),
                order@.len() == before.plan.len(),
                scores@.len() == before.plan.len(),
                best == order::greatest(scores@, scores@.len()).0,
                order::indices(order@) == order::ordered(scores@, scores@.len(), true),
                forall|k: int|
                    0 <= k < order@.len() ==> 0 <= #[trigger] order::ordered(
                        scores@,
                        scores@.len(),
                        true,
                    )[k] < order@.len(),
                row_views(table@) == before.ranked(scores@).take(i as int),
            decreases order@.len() - i,
        {
            assert(order::indices(order@)[i as int] == order@[i as int]);
            let ghost earlier = row_views(table@);
            let row = self.row_of(scores, order[i], best);
            table.push(row);
            i = i + 1;
            proof {
                assert(row_views(table@) =~= earlier.push(row@));
                assert(row@ == before.ranked(scores@)[i - 1]);
                assert(row_views(table@) =~= before.ranked(scores@).take(i as int));
            }
        }
        let mut s = "Top result: ".to_owned();
        s.append(cfg_label(&self.plan[best]).as_str());
        s.append(" \u{2014} ");
        s.append(rate_text);
        s.append(" fps (score ");
        s.append(score_text);
        s.append("). Select a row to try it live.");
        self.summary = Some(s);
        self.table = table;
        proof {
            assert(row_views(table@) =~= before.ranked(scores@));
            assert(self@ =~= before.finished(scores@, rate_text@, score_text@));
        }
        Settings { screen: self.restore.screen, ..self.plan[best] }
    }

    /// The row of configuration `i`.
    fn row_of(&self, scores: &[Single], i: usize, best: usize) -> (row: BenchResult)
        requires
            i < self@.plan.len(),
            i < self@.results.len(),
            i < scores@.len(),
        ensures
            row@ == self@.row(scores@, i as int, best as int),
    {
        let cfg = self.plan[i];
        let r = self.results[i];
        let mut label = cfg_label(&cfg);
        if i == 0 {
            label.append(" (current)");
        }
        let row = BenchResult {
            label,
            is_baseline: i == 0,
            settings: Settings { screen: self.restore.screen, ..cfg },
            fps: r.fps,
            bot: r.bot,
            stats: r.stats,
            sharp: r.sharp,
            block: r.block,
            score: scores[i],
            winner: i == best,
        };
        proof {
            assert(row@ =~= self@.row(scores@, i as int, best as int));
        }
        row
    }

    /// One line on the outcome, once the run is complete.
    pub fn summary(&self) -> (s: Option<&String>)
        ensures
            match s {
                Some(s) => self@.summary == Some(s@),
                None => self@.summary is None,
            },
    {
        match &self.summary {
            Some(s) => Some(s),
            None => None,
        }
    }

    /// The result table, best first, once the run is complete.
    pub fn table(&self) -> (rows: &Vec<BenchResult>)
        ensures
            row_views(rows@) == self@.table,
    {
        &self.table
    }

    /// Configuration `i` of the plan; the last one where there are fewer.
    pub fn config(&self, i: usize) -> (s: Settings)
        requires
            self.wf(),
        ensures
            s == self@.at(i as int),
    {
        let last: usize = self.plan.len() - 1;
        if i < last {
            self.plan[i]
        } else {
            self.plan[last]
        }
    }

    /// Label of configuration `i`, also used in file names.
    pub fn label(&self, i: usize) -> (s: String)
        requires
            self.wf(),
        ensures
            s@ == text::underscored(config_label(self@.at(i as int))),
    {
        text::underscore(cfg_label(&self.config(i)).as_str())
    }

    /// How many configurations there are to measure.
    pub fn total(&self) -> (n: usize)
        ensures
            n == self@.plan.len(),
    {
        self.plan.len()
    }

    /// How many configurations are measured.
    pub fn step(&self) -> (n: usize)
        ensures
            n == self@.results.len(),
    {
        self.results.len()
    }

    /// Roughly how long `n` configurations take, in nanoseconds. Only the low 32
    /// bits of `n` count.
    pub fn estimate(n: usize) -> (span: u64)
        ensures
            span == (SETTLE + MEASURE) * (n as nat % 0x1_0000_0000),
            span == 3_700_000_000 * (n as nat % 0x1_0000_0000),
    {
        let k: u64 = wire::low_u32(n) as u64;
        3_700_000_000 * k
    }

    /// The configuration that should be applied right now.
    pub fn current_config(&self) -> (s: Settings)
        requires
            self.wf(),
        ensures
            s == self@.at(self@.results.len() as int),
    {
        self.config(self.results.len())
    }

    /// Label of the configuration that should be applied right now.
    pub fn describe_current(&self) -> (s: String)
        requires
            self.wf(),
        ensures
            s@ == config_label(self@.at(self@.results.len() as int)),
    {
        cfg_label(&self.current_config())
    }

    /// The settings to restore when the user cancels.
    pub fn cancel(&self) -> (s: Settings)
        ensures
            s == self@.restore,
    {
        self.restore
    }
}

/// The place of the greatest is a place.
pub(crate) proof fn lemma_greatest_place(keys: Seq<Single>, n: nat)
    ensures
        n > 0 ==> 0 <= order::greatest(keys, n).0 < n,
        n == 0 ==> order::greatest(keys, n).0 == 0,
    decreases n,
{
    if n > 0 {
        lemma_greatest_place(keys, (n - 1) as nat);
    }
}

/// The frame rates of the top screen.
pub open spec fn tops(samples: Seq<Sample>) -> Seq<Single> {
    Seq::new(samples.len(), |i: int| samples[i].top)
}

/// The frame rates of the bottom screen.
pub open spec fn bottoms(samples: Seq<Sample>) -> Seq<Single> {
    Seq::new(samples.len(), |i: int| samples[i].bottom)
}

/// The frame rates of both screens.
fn split(samples: &[Sample]) -> (res: (Vec<Single>, Vec<Single>))
    ensures
        res.0@ == tops(samples@),
        res.1@ == bottoms(samples@),
{
    let mut top: Vec<Single> = Vec::new();
    let mut bottom: Vec<Single> = Vec::new();
    let mut i: usize = 0;
    while i < samples.len()
        invariant
            i <= samples@.len(),
            top@ == tops(samples@).take(i as int),
            bottom@ == bottoms(samples@).take(i as int),
        decreases samples@.len() - i,
    {
        top.push(samples[i].top);
        bottom.push(samples[i].bottom);
        i = i + 1;
        proof {
            assert(top@ =~= tops(samples@).take(i as int));
            assert(bottom@ =~= bottoms(samples@).take(i as int));
        }
    }
    proof {
        assert(top@ =~= tops(samples@));
        assert(bottom@ =~= bottoms(samples@));
    }
    (top, bottom)
}

} // verus!
