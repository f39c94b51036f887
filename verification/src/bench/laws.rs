//! What holds of a benchmark run.

use crate::bench::{
    BenchView, Mode, Options, Outcome, Phase, Rate, RowView, Sample, MEASURE, SETTLE,
};
use crate::legacy::{feature, feature2, Announce};
use crate::order;
use crate::settings::Settings;
use crate::single::{Single, LEAST};
use vstd::prelude::*;

verus! {

/// What every configuration of a sweep keeps to: both screens stream, nothing caps
/// the frame rate, the picture is decimated in one way at most, and a knob that was
/// not announced stays as the user had it.
pub open spec fn keeps_to(c: Settings, current: Settings, caps: Option<Announce>) -> bool {
    &&& c.screen == 3
    &&& c.fps_cap == 0
    &&& !(c.interlace && c.downscale)
    &&& c.master == current.master
    &&& c.custom == current.custom
    &&& c.refresh_interval == current.refresh_interval
    &&& crate::bench::has(caps, feature::STRIP_SKIP) || c.strip_skip == current.strip_skip
    &&& crate::bench::has(caps, feature::STRIP_SLEEP) || c.strip_sleep == current.strip_sleep
    &&& crate::bench::has(caps, feature::CHUNKS) || c.chunks == current.chunks
    &&& crate::bench::has(caps, feature::DOWNSCALE) || !c.downscale
    &&& crate::bench::has2(caps, feature2::CELL_GRID) || (c.grid_rows == current.grid_rows
        && c.grid_cols == current.grid_cols)
}

/// Every configuration of a sweep keeps to what was announced.
pub proof fn sweep_keeps_to_announced_knobs(
    depth: u8,
    current: Settings,
    caps: Option<Announce>,
    i: int,
)
    requires
        0 <= i < crate::bench::planned(depth, current, caps).len(),
    ensures
        keeps_to(crate::bench::planned(depth, current, caps)[i], current, caps),
{
    let b = crate::bench::base_config(current, caps);
    let p = crate::bench::planned(depth, current, caps);
    lemma_parts(current, caps);
    let q = crate::bench::quick(b);
    let s = if depth >= 1 {
        crate::bench::standard(b, caps)
    } else {
        Seq::empty()
    };
    let t = if depth >= 2 {
        crate::bench::thorough(b, caps)
    } else {
        Seq::empty()
    };
    let e = if depth >= 3 {
        crate::bench::exhaustive(b, caps)
    } else {
        Seq::empty()
    };
    assert(p == q + s + t + e);
    let x = p[i];
    if i < q.len() {
        assert(x == q[i]);
    } else if i < q.len() + s.len() {
        assert(x == s[i - q.len()]);
    } else if i < q.len() + s.len() + t.len() {
        assert(x == t[i - q.len() - s.len()]);
    } else {
        assert(x == e[i - q.len() - s.len() - t.len()]);
    }
}

/// Each part of a sweep keeps to what was announced.
proof fn lemma_parts(current: Settings, caps: Option<Announce>)
    ensures
        ({
            let b = crate::bench::base_config(current, caps);
            &&& forall|i: int|
                0 <= i < crate::bench::quick(b).len() ==> keeps_to(
                    #[trigger] crate::bench::quick(b)[i],
                    current,
                    caps,
                )
            &&& forall|i: int|
                0 <= i < crate::bench::standard(b, caps).len() ==> keeps_to(
                    #[trigger] crate::bench::standard(b, caps)[i],
                    current,
                    caps,
                )
            &&& forall|i: int|
                0 <= i < crate::bench::thorough(b, caps).len() ==> keeps_to(
                    #[trigger] crate::bench::thorough(b, caps)[i],
                    current,
                    caps,
                )
            &&& forall|i: int|
                0 <= i < crate::bench::exhaustive(b, caps).len() ==> keeps_to(
                    #[trigger] crate::bench::exhaustive(b, caps)[i],
                    current,
                    caps,
                )
        }),
{
}

/// A deeper sweep measures all that a shallower one does, first and in the same
/// order.
pub proof fn deeper_sweeps_extend(
    shallow: u8,
    deep: u8,
    current: Settings,
    caps: Option<Announce>,
)
    requires
        shallow <= deep,
    ensures
        ({
            let a = crate::bench::planned(shallow, current, caps);
            let b = crate::bench::planned(deep, current, caps);
            a.len() <= b.len() && b.take(a.len() as int) == a
        }),
{
    let a = crate::bench::planned(shallow, current, caps);
    let b = crate::bench::planned(deep, current, caps);
    assert(b.take(a.len() as int) =~= a);
}

/// A run begins with the user's settings, which it keeps: they are measured first,
/// with both screens streaming, and every other configuration streams both too.
pub proof fn run_begins_with_the_users_settings(
    opts: Options,
    current: Settings,
    caps: Option<Announce>,
    now: u64,
    i: int,
)
    requires
        0 <= i < BenchView::begun(opts, current, caps, now).plan.len(),
    ensures
        BenchView::begun(opts, current, caps, now).restore == current,
        BenchView::begun(opts, current, caps, now).plan[0] == (Settings { screen: 3, ..current }),
        BenchView::begun(opts, current, caps, now).plan[i].screen == 3,
{
    if i > 0 {
        sweep_keeps_to_announced_knobs(opts.depth, current, caps, i - 1);
        assert(BenchView::begun(opts, current, caps, now).plan[i] == crate::bench::planned(
            opts.depth,
            current,
            caps,
        )[i - 1]);
    }
}

/// A run never changes its plan, what it was asked for, or the settings that it began
/// with, and what was measured stays measured. Before it finishes there is neither a
/// new table nor a new summary.
pub proof fn run_keeps_what_it_has(
    b: BenchView,
    now: u64,
    sample: Sample,
    outcome: Outcome,
    scores: Seq<Single>,
    rate_text: Seq<char>,
    score_text: Seq<char>,
)
    ensures
        ({
            let t = b.ticked(now, sample);
            let r = b.recorded(now, outcome);
            let f = b.finished(scores, rate_text, score_text);
            &&& t.plan == b.plan && r.plan == b.plan && f.plan == b.plan
            &&& t.opts == b.opts && r.opts == b.opts && f.opts == b.opts
            &&& t.restore == b.restore && r.restore == b.restore && f.restore == b.restore
            &&& t.results == b.results && f.results == b.results
            &&& t.table == b.table && r.table == b.table
            &&& t.summary == b.summary && r.summary == b.summary
            &&& r.results.len() == b.results.len() + 1
            &&& r.results.drop_last() == b.results
        }),
{
    assert(b.recorded(now, outcome).results.drop_last() =~= b.results);
}

/// Every window that closes measures one more configuration, and the run is done
/// when as many windows closed as there are configurations, neither sooner nor
/// later.
pub proof fn run_ends_with_its_plan(b: BenchView, now: u64, outcome: Outcome)
    requires
        b.wf(),
        b.phase is Average,
    ensures
        b.recorded(now, outcome).wf(),
        b.recorded(now, outcome).phase is Done <==> b.results.len() + 1 == b.plan.len(),
{
}

/// A configuration is measured only after it settled, and for no less than the time
/// of a window; while it settles nothing is sampled.
pub proof fn phases_take_their_time(b: BenchView, now: u64, sample: Sample)
    ensures
        b.phase matches Phase::Settle(since) ==> b.ticked(now, sample).phase == (if now >= since
            + SETTLE {
            Phase::Measure(now)
        } else {
            b.phase
        }),
        b.phase matches Phase::Measure(since) ==> b.ticked(now, sample).phase == (if now >= since
            + MEASURE {
            Phase::Average
        } else {
            b.phase
        }),
        b.phase is Settle && b.ticked(now, sample).phase is Measure ==> b.ticked(
            now,
            sample,
        ).samples.len() == 0,
{
}

/// One call on a run.
pub enum Call {
    Tick { now: u64, sample: Sample },
    /// Allowed only when a window has closed.
    Record { now: u64, outcome: Outcome },
}

impl Call {
    /// When the call is made.
    pub open spec fn time(self) -> u64 {
        match self {
            Call::Tick { now, .. } => now,
            Call::Record { now, .. } => now,
        }
    }

    /// The run after the call, where the call is allowed.
    pub open spec fn on(self, b: BenchView) -> BenchView {
        match self {
            Call::Tick { now, sample } => b.ticked(now, sample),
            Call::Record { now, outcome } => if b.phase is Average {
                b.recorded(now, outcome)
            } else {
                b
            },
        }
    }
}

/// A run after some calls, in turn.
pub open spec fn after(b: BenchView, calls: Seq<Call>) -> BenchView
    decreases calls.len(),
{
    if calls.len() == 0 {
        b
    } else {
        calls.last().on(after(b, calls.drop_last()))
    }
}

/// Whether calls are made one after the other, and none before `from`.
pub open spec fn in_turn(calls: Seq<Call>, from: u64) -> bool {
    &&& forall|i: int| 0 <= i < calls.len() ==> from <= (#[trigger] calls[i]).time()
    &&& forall|i: int, j: int|
        0 <= i <= j < calls.len() ==> (#[trigger] calls[i]).time() <= (#[trigger] calls[j]).time()
}

/// When the last of some calls is made; `from` where there is none.
pub open spec fn last_time(calls: Seq<Call>, from: u64) -> u64 {
    if calls.len() == 0 {
        from
    } else {
        calls.last().time()
    }
}

/// How far a run can be that settled from `since` on and has recorded `k` windows by the
/// time `t`.
pub open spec fn on_schedule(b: BenchView, since: u64, k: int, t: u64) -> bool {
    let done = since + k * (SETTLE + MEASURE);
    match b.phase {
        Phase::Settle(s) => done <= s <= t,
        Phase::Measure(m) => done + SETTLE <= m <= t,
        Phase::Average => done + SETTLE + MEASURE <= t,
        Phase::Done => done <= t,
    }
}

/// Over any number of calls whose times do not go back, so many configurations are
/// recorded no sooner than so many times the span in which one settles and is measured.
/// Each call records one at most; the run is done exactly when all are recorded; and until
/// it finishes nothing else changes that can be asked for.
pub proof fn steps_take_their_time(b: BenchView, since: u64, calls: Seq<Call>)
    requires
        b.wf(),
        b.phase == Phase::Settle(since),
        in_turn(calls, since),
    ensures
        ({
            let e = after(b, calls);
            let k = e.results.len() - b.results.len();
            &&& e.wf()
            &&& e.phase is Done <==> e.results.len() == e.plan.len()
            &&& k >= 0
            &&& since + k * (SETTLE + MEASURE) <= last_time(calls, since)
            &&& calls.len() > 0 ==> {
                let before = after(b, calls.drop_last());
                e.results.len() == before.results.len() || e.results.len()
                    == before.results.len() + 1
            }
            &&& e.plan == b.plan
            &&& e.restore == b.restore
            &&& e.opts == b.opts
            &&& e.table == b.table
            &&& e.summary == b.summary
            &&& e.results.take(b.results.len() as int) == b.results
        }),
        on_schedule(
            after(b, calls),
            since,
            after(b, calls).results.len() - b.results.len(),
            last_time(calls, since),
        ),
    decreases calls.len(),
{
    let e = after(b, calls);
    if calls.len() == 0 {
        assert(e.results.take(b.results.len() as int) =~= b.results);
    } else {
        let rest = calls.drop_last();
        let d = after(b, rest);
        assert(calls.take(calls.len() - 1) =~= rest);
        lemma_in_turn_take(calls, since, calls.len() - 1);
        steps_take_their_time(b, since, rest);
        let t = last_time(rest, since);
        let now = calls.last().time();
        assert(t <= now) by {
            if rest.len() > 0 {
                assert(calls[rest.len() - 1].time() <= calls[rest.len() as int].time());
            }
        }
        assert(e == calls.last().on(d));
        assert(e.results.take(b.results.len() as int) =~= d.results.take(b.results.len() as int));
    }
}

/// Calls in two parts are the calls at once.
proof fn lemma_after_both(b: BenchView, x: Seq<Call>, y: Seq<Call>)
    ensures
        after(b, x + y) == after(after(b, x), y),
    decreases y.len(),
{
    if y.len() == 0 {
        assert(x + y =~= x);
    } else {
        assert((x + y).drop_last() =~= x + y.drop_last());
        lemma_after_both(b, x, y.drop_last());
    }
}

/// No call changes a run that is done.
proof fn lemma_done_stays(b: BenchView, calls: Seq<Call>)
    requires
        b.phase is Done,
    ensures
        after(b, calls) == b,
    decreases calls.len(),
{
    if calls.len() > 0 {
        lemma_done_stays(b, calls.drop_last());
    }
}

/// Whether call `i` records a configuration.
pub open spec fn records(b: BenchView, calls: Seq<Call>, i: int) -> bool {
    after(b, calls.take(i + 1)).results.len() > after(b, calls.take(i)).results.len()
}

/// Two configurations are recorded no closer together than the time to settle and to
/// measure, whatever calls lie between; and the first one no sooner than that after the
/// run began.
pub proof fn recorded_steps_are_apart(b: BenchView, since: u64, calls: Seq<Call>, i: int, j: int)
    requires
        b.wf(),
        b.phase == Phase::Settle(since),
        in_turn(calls, since),
        0 <= i < j < calls.len(),
        records(b, calls, i),
        records(b, calls, j),
    ensures
        calls[i].time() - since >= SETTLE + MEASURE,
        calls[j].time() - calls[i].time() >= SETTLE + MEASURE,
{
    let x = calls.take(i + 1);
    let y = calls.subrange(i + 1, j + 1);
    let d = after(b, x);
    let t = calls[i].time();
    lemma_in_turn_take(calls, since, i + 1);
    lemma_in_turn_take(calls, since, i);
    steps_take_their_time(b, since, x);
    steps_take_their_time(b, since, calls.take(i));
    assert(x.last() == calls[i]);
    assert(x.drop_last() =~= calls.take(i));
    assert(d == calls[i].on(after(b, calls.take(i))));
    assert(calls.take(j + 1) =~= x + y);
    assert(calls.take(j) =~= x + y.drop_last());
    lemma_after_both(b, x, y);
    lemma_after_both(b, x, y.drop_last());
    if d.phase is Done {
        lemma_done_stays(d, y);
        lemma_done_stays(d, y.drop_last());
    }
    assert(d.phase == Phase::Settle(t));
    assert(in_turn(y, t)) by {
        assert forall|k: int, l: int| 0 <= k <= l < y.len() implies (#[trigger] y[k]).time() <= (
        #[trigger] y[l]).time() by {
            assert(calls[i + 1 + k].time() <= calls[i + 1 + l].time());
        }
        assert forall|k: int| 0 <= k < y.len() implies t <= (#[trigger] y[k]).time() by {
            assert(calls[i].time() <= calls[i + 1 + k].time());
        }
    }
    lemma_in_turn_take(y, t, y.len() - 1);
    assert(y.take(y.len() - 1) =~= y.drop_last());
    steps_take_their_time(d, t, y);
    steps_take_their_time(d, t, y.drop_last());
    assert(y.last() == calls[j]);
}

/// The first calls of some are made in turn as all are.
proof fn lemma_in_turn_take(calls: Seq<Call>, from: u64, n: int)
    requires
        in_turn(calls, from),
        0 <= n <= calls.len(),
    ensures
        in_turn(calls.take(n), from),
{
    let x = calls.take(n);
    assert forall|k: int, l: int| 0 <= k <= l < x.len() implies (#[trigger] x[k]).time() <= (
    #[trigger] x[l]).time() by {
        assert(calls[k].time() <= calls[l].time());
    }
    assert forall|k: int| 0 <= k < x.len() implies from <= (#[trigger] x[k]).time() by {
        assert(from <= calls[k].time());
    }
}

/// Neither the order of samples nor one lucky burst and one hiccup changes what is left
/// after trimming: of three or more numbers, in any order, with a greatest one raised and
/// a least one lowered, the same numbers stay. `u` holds the numbers of `v` in another
/// order, and `w` differs from `u` in the raised and the lowered one.
pub proof fn trimming_ignores_order_and_extremes(
    v: Seq<Single>,
    u: Seq<Single>,
    w: Seq<Single>,
    most: int,
    least: int,
)
    requires
        v.len() >= 3,
        v.len() == u.len() == w.len(),
        forall|i: int| 0 <= i < v.len() ==> !(#[trigger] v[i]).nan(),
        forall|i: int| 0 <= i < w.len() ==> !(#[trigger] w[i]).nan(),
        order::ranks(u).to_multiset() == order::ranks(v).to_multiset(),
        0 <= most < u.len(),
        0 <= least < u.len(),
        most != least,
        forall|i: int|
            0 <= i < u.len() ==> u[least].rank() <= #[trigger] u[i].rank() <= u[most].rank(),
        w[most].rank() >= u[most].rank(),
        w[least].rank() <= u[least].rank(),
        forall|i: int| 0 <= i < u.len() && i != most && i != least ==> w[i] == u[i],
    ensures
        crate::bench::middle(w).len() == crate::bench::middle(v).len(),
        forall|i: int|
            0 <= i < crate::bench::middle(v).len() ==> (#[trigger] crate::bench::middle(w)[i]).same(
                crate::bench::middle(v)[i],
            ),
{
    let n = v.len();
    let c = crate::bench::cut(n);
    order::extremes_move_alone(v, u, w, most, least);
    order::order_is_a_rearrangement(v, n, false);
    order::order_is_a_rearrangement(w, n, false);
    assert forall|i: int| 0 <= i < crate::bench::middle(v).len() implies (
    #[trigger] crate::bench::middle(w)[i]).same(crate::bench::middle(v)[i]) by {
        let p = c + i;
        assert(order::sorted_ranks(w, n)[p] == order::sorted_ranks(v, n)[p]);
        assert(0 <= order::ordered(v, n, false)[p] < n);
        assert(0 <= order::ordered(w, n, false)[p] < n);
    }
}

/// What is left of samples after trimming: one at least where there was one, and
/// each one of them. Where all are numbers they are in ascending order, and nothing
/// that stays is less than what went at the low end or greater than what went at the
/// high end: of three samples or more, neither the least nor the greatest counts.
pub proof fn trimming_keeps_the_middle(v: Seq<Single>)
    ensures
        ({
            let m = crate::bench::middle(v);
            let c = crate::bench::cut(v.len());
            &&& m.len() == v.len() - 2 * c
            &&& v.len() > 0 ==> m.len() > 0
            &&& v.len() >= 3 ==> c >= 1
            &&& forall|i: int| 0 <= i < m.len() ==> v.contains(#[trigger] m[i])
            &&& (forall|i: int| 0 <= i < v.len() ==> !(#[trigger] v[i]).nan()) ==> (forall|
                i: int,
                j: int,
            |
                0 <= i < j < m.len() ==> !(#[trigger] m[j]).lt(#[trigger] m[i]))
            &&& (forall|i: int| 0 <= i < v.len() ==> !(#[trigger] v[i]).nan()) ==> {
                let order = order::ordered(v, v.len(), false);
                forall|i: int, k: int|
                    0 <= i < m.len() && 0 <= k < v.len() ==> {
                        let x = v[#[trigger] order[k]];
                        &&& k < c ==> !(#[trigger] m[i]).lt(x)
                        &&& k >= v.len() - c ==> !x.lt(m[i])
                    }
            }
        }),
{
    let m = crate::bench::middle(v);
    let c = crate::bench::cut(v.len());
    let order = order::ordered(v, v.len(), false);
    order::order_is_a_rearrangement(v, v.len(), false);
    assert forall|i: int| 0 <= i < m.len() implies v.contains(#[trigger] m[i]) by {
        assert(v[order[c + i]] == m[i]);
    }
    if forall|i: int| 0 <= i < v.len() ==> !(#[trigger] v[i]).nan() {
        order::order_is_sorted(v, v.len(), false);
        assert forall|i: int, j: int| 0 <= i < j < m.len() implies !(#[trigger] m[j]).lt(
            #[trigger] m[i],
        ) by {
            let a = order[c + i];
            let b = order[c + j];
            assert(!order::goes_before(v[b], v[a], false));
        }
        assert forall|i: int, k: int| 0 <= i < m.len() && 0 <= k < v.len() implies {
            let x = v[#[trigger] order[k]];
            &&& k < c ==> !(#[trigger] m[i]).lt(x)
            &&& k >= v.len() - c ==> !x.lt(m[i])
        } by {
            let p = c + i;
            assert(m[i] == v[order[p]]);
            if k < c {
                assert(!order::goes_before(v[order[p]], v[order[k]], false));
            }
            if k >= v.len() - c {
                assert(!order::goes_before(v[order[k]], v[order[p]], false));
            }
        }
    }
}

/// The table has one row for each configuration, one of them for the user's own
/// settings, and one winner.
pub proof fn table_has_every_configuration_once(b: BenchView, scores: Seq<Single>)
    requires
        scores.len() > 0,
    ensures
        b.ranked(scores).len() == scores.len(),
        exists|i: int| #[trigger] only_baseline(b.ranked(scores), i),
        exists|i: int| #[trigger] only_winner(b.ranked(scores), i),
        forall|k: int|
            0 <= k < scores.len() ==> b.ranked(scores).contains(
                #[trigger] b.row(scores, k, order::greatest(scores, scores.len()).0),
            ),
{
    let n = scores.len();
    let order = order::ordered(scores, n, true);
    let best = order::greatest(scores, n).0;
    let rows = b.ranked(scores);
    order::order_is_a_rearrangement(scores, n, true);
    crate::bench::lemma_greatest_place(scores, n);
    assert(order.contains(0));
    let i = choose|i: int| 0 <= i < order.len() && order[i] == 0;
    assert(only_baseline(rows, i));
    assert(order.contains(best));
    let j = choose|j: int| 0 <= j < order.len() && order[j] == best;
    assert(only_winner(rows, j));
    assert forall|k: int| 0 <= k < n implies rows.contains(#[trigger] b.row(scores, k, best)) by {
        assert(order.contains(k));
        let p = choose|p: int| 0 <= p < order.len() && order[p] == k;
        assert(rows[p] == b.row(scores, k, best));
    }
}

/// Whether row `i`, and no other, is that of the user's own settings.
pub open spec fn only_baseline(rows: Seq<RowView>, i: int) -> bool {
    &&& 0 <= i < rows.len()
    &&& forall|j: int| 0 <= j < rows.len() ==> (#[trigger] rows[j]).is_baseline == (i == j)
}

/// Whether row `i`, and no other, is the winner's.
pub open spec fn only_winner(rows: Seq<RowView>, i: int) -> bool {
    &&& 0 <= i < rows.len()
    &&& forall|j: int| 0 <= j < rows.len() ==> (#[trigger] rows[j]).winner == (i == j)
}

/// Where all scores are numbers the table runs from the best to the worst; and
/// where one is greater than the least finite number, the winner comes first.
pub proof fn table_is_ranked(b: BenchView, scores: Seq<Single>)
    requires
        scores.len() > 0,
        forall|i: int| 0 <= i < scores.len() ==> !(#[trigger] scores[i]).nan(),
    ensures
        forall|i: int, j: int|
            0 <= i < j < scores.len() ==> !(#[trigger] b.ranked(scores)[i]).score.lt(
                (#[trigger] b.ranked(scores)[j]).score,
            ),
        (exists|i: int|
            0 <= i < scores.len() && (Single { bits: LEAST }).lt(#[trigger] scores[i]))
            ==> b.ranked(scores)[0].winner,
{
    let n = scores.len();
    let order = order::ordered(scores, n, true);
    let best = order::greatest(scores, n).0;
    let rows = b.ranked(scores);
    order::order_is_a_rearrangement(scores, n, true);
    order::order_is_sorted(scores, n, true);
    assert forall|i: int, j: int| 0 <= i < j < n implies !(#[trigger] rows[i]).score.lt(
        (#[trigger] rows[j]).score,
    ) by {
        assert(!order::goes_before(scores[order[j]], scores[order[i]], true));
    }
    if exists|i: int| 0 <= i < n && (Single { bits: LEAST }).lt(#[trigger] scores[i]) {
        order::greatest_is_first_maximum(scores, n);
        assert(order.contains(best));
        let p = choose|p: int| 0 <= p < order.len() && order[p] == best;
        let first = order[0];
        assert(!scores[first].nan());
        if p != 0 {
            assert(!order::goes_before(scores[order[p]], scores[order[0]], true));
            assert(!scores[best].lt(scores[first]));
            assert(scores[first].same(scores[best]));
            assert(first < best);
            assert(scores[first].lt(scores[best]));
        }
    }
}

/// The settings that a finished run returns are those of the one winning row.
pub proof fn winning_row_has_the_winning_settings(b: BenchView, scores: Seq<Single>, i: int)
    requires
        0 <= i < scores.len(),
        b.ranked(scores)[i].winner,
    ensures
        b.ranked(scores)[i].settings == b.applicable(order::greatest(scores, scores.len()).0),
{
}

/// Selecting the row of the user's own settings gives them back unchanged, and
/// every row keeps the user's choice of screens.
pub proof fn rows_keep_the_users_screens(
    opts: Options,
    current: Settings,
    caps: Option<Announce>,
    now: u64,
    results: Seq<Outcome>,
    scores: Seq<Single>,
    i: int,
    best: int,
)
    ensures
        ({
            let b = BenchView { results, ..BenchView::begun(opts, current, caps, now) };
            &&& b.row(scores, 0, best).settings == current
            &&& b.row(scores, i, best).settings.screen == current.screen
        }),
{
}

/// Which configurations a sweep decimates does not depend on what the user decimates: two
/// users whose settings differ only in what a sweep sets anyway get the same sweep.
pub proof fn sweeps_ignore_what_they_set(
    depth: u8,
    a: Settings,
    b: Settings,
    caps: Option<Announce>,
)
    requires
        b == (Settings {
            interlace: b.interlace,
            downscale: b.downscale,
            fps_cap: b.fps_cap,
            screen: b.screen,
            quality: b.quality,
            ..a
        }),
    ensures
        crate::bench::planned(depth, a, caps) == crate::bench::planned(depth, b, caps),
{
    let x = crate::bench::base_config(a, caps);
    let y = crate::bench::base_config(b, caps);
    assert(x == (Settings { quality: x.quality, ..y }));
    assert(crate::bench::quick(x) =~= crate::bench::quick(y));
    assert(crate::bench::standard(x, caps) =~= crate::bench::standard(y, caps));
    assert(crate::bench::thorough(x, caps) =~= crate::bench::thorough(y, caps));
    assert(crate::bench::exhaustive(x, caps) =~= crate::bench::exhaustive(y, caps));
}

/// Every sweep begins with the whole picture at qualities 90 and 70, whatever the user
/// decimates.
pub proof fn sweeps_begin_with_the_whole_picture(
    depth: u8,
    current: Settings,
    caps: Option<Announce>,
)
    ensures
        ({
            let p = crate::bench::planned(depth, current, caps);
            &&& p.len() >= 2
            &&& p[0].quality == 90 && !p[0].interlace && !p[0].downscale
            &&& p[1].quality == 70 && !p[1].interlace && !p[1].downscale
            &&& p[0].grid_rows == current.grid_rows && p[0].grid_cols == current.grid_cols
            &&& p[1] == (Settings { quality: 70, ..p[0] })
            &&& depth == 0 ==> p.len() == 2
        }),
{
}

/// Whether a configuration is the base of a sweep with these values of what a sweep varies.
pub open spec fn varies(
    c: Settings,
    quality: u8,
    interlace: bool,
    downscale: bool,
    rows: u8,
    cols: u8,
    chunks: u8,
) -> bool {
    &&& c.quality == quality
    &&& c.interlace == interlace
    &&& c.downscale == downscale
    &&& c.grid_rows == rows
    &&& c.grid_cols == cols
    &&& c.chunks == chunks
}

/// Which configurations a sweep has: these, and no others. What is not varied is as the user
/// has it, but for both screens streaming, no cap on the frame rate, and what is known to be
/// best of the announced knobs.
pub open spec fn belongs(
    c: Settings,
    depth: u8,
    current: Settings,
    caps: Option<Announce>,
) -> bool {
    let (f, g) = match caps {
        Some(a) => (a.features, a.features2),
        None => (0u8, 0u8),
    };
    let down = f / 32 % 2 == 1;
    let strips = f / 8 % 2 == 1;
    let grid = g % 2 == 1;
    let (rows, cols) = (current.grid_rows, current.grid_cols);
    let chunks = if strips {
        4u8
    } else {
        current.chunks
    };
    &&& c.screen == 3
    &&& c.fps_cap == 0
    &&& c.master == current.master
    &&& c.custom == current.custom
    &&& c.refresh_interval == current.refresh_interval
    &&& c.strip_skip == (f % 2 == 1 || current.strip_skip)
    &&& c.strip_sleep == (if f / 16 % 2 == 1 {
        0u8
    } else {
        current.strip_sleep
    })
    &&& {
        ||| varies(c, 90, false, false, rows, cols, chunks)
        ||| varies(c, 70, false, false, rows, cols, chunks)
        ||| depth >= 1 && varies(c, 90, true, false, rows, cols, chunks)
        ||| depth >= 1 && down && varies(c, 90, false, true, rows, cols, chunks)
        ||| depth >= 1 && grid && varies(c, 90, false, false, 8, cols, chunks)
        ||| depth >= 2 && varies(c, 50, false, false, rows, cols, chunks)
        ||| depth >= 2 && varies(c, 70, true, false, rows, cols, chunks)
        ||| depth >= 2 && down && varies(c, 70, false, true, rows, cols, chunks)
        ||| depth >= 2 && grid && varies(c, 90, false, false, rows, 8, chunks)
        ||| depth >= 3 && grid && varies(c, 90, false, false, 4, cols, chunks)
        ||| depth >= 3 && grid && varies(c, 90, false, false, 8, 8, chunks)
        ||| depth >= 3 && strips && varies(c, 90, false, false, rows, cols, 8)
        ||| depth >= 3 && varies(c, 50, true, false, rows, cols, chunks)
        ||| depth >= 3 && down && varies(c, 50, false, true, rows, cols, chunks)
    }
}

/// What an announcement says of the knobs that a sweep moves.
proof fn lemma_announced(caps: Option<Announce>)
    ensures
        ({
            let (f, g) = match caps {
                Some(a) => (a.features, a.features2),
                None => (0u8, 0u8),
            };
            &&& crate::bench::has(caps, feature::STRIP_SKIP) <==> f % 2 == 1
            &&& crate::bench::has(caps, feature::CHUNKS) <==> f / 8 % 2 == 1
            &&& crate::bench::has(caps, feature::STRIP_SLEEP) <==> f / 16 % 2 == 1
            &&& crate::bench::has(caps, feature::DOWNSCALE) <==> f / 32 % 2 == 1
            &&& crate::bench::has2(caps, feature2::CELL_GRID) <==> g % 2 == 1
        }),
{
    if let Some(a) = caps {
        let (f, g) = (a.features, a.features2);
        assert((f & 0x01 != 0) == (f % 2 == 1)) by (bit_vector);
        assert((f & 0x08 != 0) == (f / 8 % 2 == 1)) by (bit_vector);
        assert((f & 0x10 != 0) == (f / 16 % 2 == 1)) by (bit_vector);
        assert((f & 0x20 != 0) == (f / 32 % 2 == 1)) by (bit_vector);
        assert((g & 0x01 != 0) == (g % 2 == 1)) by (bit_vector);
    }
}

/// One of two runs of configurations holds what both hold together.
proof fn lemma_in_either(a: Seq<Settings>, b: Seq<Settings>, c: Settings)
    ensures
        (a + b).contains(c) <==> a.contains(c) || b.contains(c),
{
    vstd::seq_lib::lemma_seq_concat_contains_all_elements(a, b, c);
}

/// An optional configuration is there where it applies.
proof fn lemma_when(applies: bool, cfg: Settings, c: Settings)
    ensures
        crate::bench::when(applies, cfg).contains(c) <==> applies && c == cfg,
{
    if applies {
        assert(crate::bench::when(applies, cfg)[0] == cfg);
    }
}

/// What a quick and a standard sweep hold.
proof fn lemma_first_parts_hold(b: Settings, caps: Option<Announce>, c: Settings)
    ensures
        crate::bench::quick(b).contains(c) <==> c == (Settings { quality: 90, ..b }) || c == (
        Settings { quality: 70, ..b }),
        crate::bench::standard(b, caps).contains(c) <==> {
            ||| c == (Settings { quality: 90, interlace: true, ..b })
            ||| crate::bench::has(caps, feature::DOWNSCALE) && c == (Settings {
                quality: 90,
                downscale: true,
                ..b
            })
            ||| crate::bench::has2(caps, feature2::CELL_GRID) && c == (Settings {
                quality: 90,
                grid_rows: 8,
                ..b
            })
        },
{
    let down = crate::bench::has(caps, feature::DOWNSCALE);
    let grid = crate::bench::has2(caps, feature2::CELL_GRID);
    let q = crate::bench::quick(b);
    assert(q[0] == (Settings { quality: 90, ..b }) && q[1] == (Settings { quality: 70, ..b }));
    let s1 = Settings { quality: 90, interlace: true, ..b };
    let s2 = Settings { quality: 90, downscale: true, ..b };
    let s3 = Settings { quality: 90, grid_rows: 8, ..b };
    lemma_in_either(seq![s1] + crate::bench::when(down, s2), crate::bench::when(grid, s3), c);
    lemma_in_either(seq![s1], crate::bench::when(down, s2), c);
    lemma_when(true, s1, c);
    lemma_when(down, s2, c);
    lemma_when(grid, s3, c);
    assert(crate::bench::when(true, s1) == seq![s1]);
}

/// What a thorough sweep adds.
proof fn lemma_thorough_holds(b: Settings, caps: Option<Announce>, c: Settings)
    ensures
        crate::bench::thorough(b, caps).contains(c) <==> {
            ||| c == (Settings { quality: 50, ..b })
            ||| c == (Settings { quality: 70, interlace: true, ..b })
            ||| crate::bench::has(caps, feature::DOWNSCALE) && c == (Settings {
                quality: 70,
                downscale: true,
                ..b
            })
            ||| crate::bench::has2(caps, feature2::CELL_GRID) && c == (Settings {
                quality: 90,
                grid_cols: 8,
                ..b
            })
        },
{
    let down = crate::bench::has(caps, feature::DOWNSCALE);
    let grid = crate::bench::has2(caps, feature2::CELL_GRID);
    let t0 = Settings { quality: 50, ..b };
    let t1 = Settings { quality: 70, interlace: true, ..b };
    let t2 = Settings { quality: 70, downscale: true, ..b };
    let t3 = Settings { quality: 90, grid_cols: 8, ..b };
    let pair = seq![t0, t1];
    assert(pair[0] == t0 && pair[1] == t1);
    lemma_in_either(pair + crate::bench::when(down, t2), crate::bench::when(grid, t3), c);
    lemma_in_either(pair, crate::bench::when(down, t2), c);
    lemma_when(down, t2, c);
    lemma_when(grid, t3, c);
}

/// What an exhaustive sweep adds.
proof fn lemma_exhaustive_holds(b: Settings, caps: Option<Announce>, c: Settings)
    ensures
        crate::bench::exhaustive(b, caps).contains(c) <==> {
            let grid = crate::bench::has2(caps, feature2::CELL_GRID);
            ||| grid && c == (Settings { quality: 90, grid_rows: 4, ..b })
            ||| grid && c == (Settings { quality: 90, grid_rows: 8, grid_cols: 8, ..b })
            ||| crate::bench::has(caps, feature::CHUNKS) && c == (Settings {
                quality: 90,
                chunks: 8,
                ..b
            })
            ||| c == (Settings { quality: 50, interlace: true, ..b })
            ||| crate::bench::has(caps, feature::DOWNSCALE) && c == (Settings {
                quality: 50,
                downscale: true,
                ..b
            })
        },
{
    let down = crate::bench::has(caps, feature::DOWNSCALE);
    let strips = crate::bench::has(caps, feature::CHUNKS);
    let grid = crate::bench::has2(caps, feature2::CELL_GRID);
    let e1 = Settings { quality: 90, grid_rows: 4, ..b };
    let e2 = Settings { quality: 90, grid_rows: 8, grid_cols: 8, ..b };
    let e3 = Settings { quality: 90, chunks: 8, ..b };
    let e4 = Settings { quality: 50, interlace: true, ..b };
    let e5 = Settings { quality: 50, downscale: true, ..b };
    let p1 = crate::bench::when(grid, e1);
    let p2 = p1 + crate::bench::when(grid, e2);
    let p3 = p2 + crate::bench::when(strips, e3);
    let p4 = p3 + seq![e4];
    lemma_in_either(p4, crate::bench::when(down, e5), c);
    lemma_in_either(p3, seq![e4], c);
    lemma_in_either(p2, crate::bench::when(strips, e3), c);
    lemma_in_either(p1, crate::bench::when(grid, e2), c);
    lemma_when(grid, e1, c);
    lemma_when(grid, e2, c);
    lemma_when(strips, e3, c);
    lemma_when(true, e4, c);
    lemma_when(down, e5, c);
    assert(crate::bench::when(true, e4) == seq![e4]);
}

/// A sweep measures exactly the configurations of its depth and of what was announced.
pub proof fn sweeps_measure_just_these(
    depth: u8,
    current: Settings,
    caps: Option<Announce>,
    c: Settings,
)
    ensures
        crate::bench::planned(depth, current, caps).contains(c) <==> belongs(
            c,
            depth,
            current,
            caps,
        ),
{
    let b = crate::bench::base_config(current, caps);
    let none = Seq::<Settings>::empty();
    lemma_announced(caps);
    lemma_first_parts_hold(b, caps, c);
    lemma_thorough_holds(b, caps, c);
    lemma_exhaustive_holds(b, caps, c);
    let q = crate::bench::quick(b);
    let s = if depth >= 1 {
        crate::bench::standard(b, caps)
    } else {
        none
    };
    let t = if depth >= 2 {
        crate::bench::thorough(b, caps)
    } else {
        none
    };
    let e = if depth >= 3 {
        crate::bench::exhaustive(b, caps)
    } else {
        none
    };
    let p = crate::bench::planned(depth, current, caps);
    assert(p.contains(c) <==> q.contains(c) || s.contains(c) || t.contains(c) || e.contains(c))
        by {
        lemma_in_either(q + s + t, e, c);
        lemma_in_either(q + s, t, c);
        lemma_in_either(q, s, c);
    }
    assert(!none.contains(c));
}

/// How many configurations a sweep has.
pub proof fn sweeps_have_no_more_than_these(depth: u8, current: Settings, caps: Option<Announce>)
    ensures
        ({
            let (f, g) = match caps {
                Some(a) => (a.features, a.features2),
                None => (0u8, 0u8),
            };
            let down = f / 32 % 2;
            let strips = f / 8 % 2;
            let grid = g % 2;
            crate::bench::planned(depth, current, caps).len() == 2 + (if depth >= 1 {
                1 + down + grid
            } else {
                0
            }) + (if depth >= 2 {
                2 + down + grid
            } else {
                0
            }) + (if depth >= 3 {
                1 + down + 2 * grid + strips
            } else {
                0
            })
        }),
{
    lemma_announced(caps);
}

/// A run begins by letting the user's own settings settle; nothing is measured yet.
pub proof fn runs_begin_by_settling(
    opts: Options,
    current: Settings,
    caps: Option<Announce>,
    now: u64,
)
    ensures
        ({
            let b = BenchView::begun(opts, current, caps, now);
            &&& b.wf()
            &&& b.opts == opts
            &&& b.restore == current
            &&& b.phase == Phase::Settle(now)
            &&& b.results.len() == 0
            &&& b.samples.len() == 0
            &&& b.summary is None
            &&& b.table.len() == 0
            &&& b.plan[0].screen == 3
            &&& b.plan[0] == (Settings { screen: 3, ..current })
            &&& b.plan.skip(1) == crate::bench::planned(opts.depth, current, caps)
        }),
{
    let b = BenchView::begun(opts, current, caps, now);
    assert(b.plan.skip(1) =~= crate::bench::planned(opts.depth, current, caps));
}

/// When things happen in a run: a configuration settles for 1.2 seconds and is measured for
/// 2.5, and a sample is taken when the last one, or the beginning of the window, is a fifth
/// of a second ago. A window that closes hands out all its samples.
pub proof fn samples_are_taken_every_fifth_of_a_second(b: BenchView, now: u64, sample: Sample)
    ensures
        ({
            let t = b.ticked(now, sample);
            &&& b.phase matches Phase::Settle(since) ==> {
                &&& now - since < 1_200_000_000 ==> t == b
                &&& now - since >= 1_200_000_000 ==> t.phase == Phase::Measure(now)
                    && t.samples.len() == 0 && t.last_sample == now
            }
            &&& b.phase matches Phase::Measure(since) ==> {
                let due = now - b.last_sample >= 200_000_000;
                let all = if due {
                    b.samples.push(sample)
                } else {
                    b.samples
                };
                &&& b.closes(now) <==> now - since >= 2_500_000_000
                &&& b.sampled(now, sample).samples == all
                &&& t.last_sample == (if due {
                    now
                } else {
                    b.last_sample
                })
                &&& now - since < 2_500_000_000 ==> t.phase == b.phase && t.samples == all
                &&& now - since >= 2_500_000_000 ==> t.phase is Average && t.samples.len() == 0
            }
            &&& b.phase is Average || b.phase is Done ==> t == b && !b.closes(now)
        }),
{
}

/// The averages of a window are those of the configuration whose turn it was, and the next one
/// settles from then on.
pub proof fn averages_are_kept_in_turn(b: BenchView, now: u64, outcome: Outcome, i: int)
    requires
        b.wf(),
        b.phase is Average,
        0 <= i <= b.results.len(),
    ensures
        ({
            let r = b.recorded(now, outcome);
            &&& r.results.len() == b.results.len() + 1
            &&& r.results[i] == (if i == b.results.len() {
                outcome
            } else {
                b.results[i]
            })
            &&& r.results.len() < b.plan.len() ==> r.phase == Phase::Settle(now)
            &&& b.at(i) == b.plan[i]
        }),
{
}

/// How many samples are left after trimming: all of one or two, and of more, all but a fifth
/// at either end, and at least one there.
pub proof fn a_fifth_goes_at_either_end(v: Seq<Single>)
    ensures
        v.len() < 3 ==> crate::bench::middle(v).len() == v.len(),
        3 <= v.len() < 5 ==> crate::bench::middle(v).len() == v.len() - 2,
        v.len() >= 5 ==> crate::bench::middle(v).len() == v.len() - 2 * (v.len() / 5),
{
}

/// The frame rate that counts is that of the screen that moves, or of both.
pub proof fn moving_screens_count(b: BenchView, i: int)
    ensures
        b.opts.motion is TopMoves ==> b.rate(i) == Rate::One(b.results[i].fps),
        b.opts.motion is BottomMoves ==> b.rate(i) == Rate::One(b.results[i].bot),
        b.opts.motion is BothMove ==> b.rate(i) == Rate::Sum(b.results[i].fps, b.results[i].bot),
{
}

/// The greatest sharpness is one of those measured, or zero where none is above it, and no
/// number among them is greater.
pub proof fn greatest_sharpness_is_a_bound(results: Seq<Outcome>, n: nat, i: int)
    requires
        0 <= i < n <= results.len(),
    ensures
        !crate::bench::sharpest(results, n).nan(),
        !crate::bench::sharpest(results, n).lt(results[i].sharp),
        !crate::bench::sharpest(results, n).lt(Single { bits: 0 }),
        crate::bench::sharpest(results, n) == (Single { bits: 0 }) || exists|k: int|
            0 <= k < n && crate::bench::sharpest(results, n) == (#[trigger] results[k]).sharp,
{
    lemma_sharpest(results, n, i);
}

proof fn lemma_sharpest(results: Seq<Outcome>, n: nat, i: int)
    requires
        n <= results.len(),
    ensures
        !crate::bench::sharpest(results, n).nan(),
        0 <= i < n ==> !crate::bench::sharpest(results, n).lt(results[i].sharp),
        !crate::bench::sharpest(results, n).lt(Single { bits: 0 }),
        crate::bench::sharpest(results, n) == (Single { bits: 0 }) || exists|k: int|
            0 <= k < n && crate::bench::sharpest(results, n) == (#[trigger] results[k]).sharp,
    decreases n,
{
    if n > 0 {
        lemma_sharpest(results, (n - 1) as nat, i);
        assert(results[n - 1] == results[n - 1]);
    }
}

/// How a configuration decimates the picture: quarter resolution goes before interlacing.
pub proof fn modes_are_what_is_decimated(s: Settings)
    ensures
        crate::bench::mode(s) is QuarterRes <==> s.downscale,
        crate::bench::mode(s) is Interlace <==> s.interlace && !s.downscale,
        crate::bench::mode(s) is Progressive <==> !s.interlace && !s.downscale,
{
}

/// Whether a row tells of configuration `i`: its settings are all of those that were measured,
/// but for the screens, which are the user's; its label is that of its settings; and its
/// figures are those of that configuration.
pub open spec fn tells_of(row: RowView, b: BenchView, scores: Seq<Single>, i: int) -> bool {
    &&& 0 <= i < b.plan.len()
    &&& row.settings.screen == b.restore.screen
    &&& row.settings.master == b.plan[i].master
    &&& row.settings.custom == b.plan[i].custom
    &&& row.settings.quality == b.plan[i].quality
    &&& row.settings.interlace == b.plan[i].interlace
    &&& row.settings.downscale == b.plan[i].downscale
    &&& row.settings.strip_skip == b.plan[i].strip_skip
    &&& row.settings.refresh_interval == b.plan[i].refresh_interval
    &&& row.settings.fps_cap == b.plan[i].fps_cap
    &&& row.settings.strip_sleep == b.plan[i].strip_sleep
    &&& row.settings.chunks == b.plan[i].chunks
    &&& row.settings.grid_cols == b.plan[i].grid_cols
    &&& row.settings.grid_rows == b.plan[i].grid_rows
    &&& i != 0 ==> row.label == crate::bench::config_label(row.settings)
    &&& i == 0 ==> row.label == crate::bench::config_label(row.settings) + " (current)"@
    &&& row.is_baseline <==> i == 0
    &&& row.fps == b.results[i].fps
    &&& row.bot == b.results[i].bot
    &&& row.stats == b.results[i].stats
    &&& row.sharp == b.results[i].sharp
    &&& row.block == b.results[i].block
    &&& row.score == scores[i]
}

/// Every row of a finished run tells of a configuration, and every configuration has a row
/// that tells of it.
pub proof fn rows_tell_what_was_measured(
    b: BenchView,
    scores: Seq<Single>,
    rate_text: Seq<char>,
    score_text: Seq<char>,
    k: int,
)
    requires
        scores.len() == b.plan.len(),
        0 <= k < scores.len(),
    ensures
        ({
            let rows = b.finished(scores, rate_text, score_text).table;
            &&& rows.len() == scores.len()
            &&& exists|i: int| #[trigger] tells_of(rows[k], b, scores, i)
            &&& exists|j: int| 0 <= j < rows.len() && tells_of(#[trigger] rows[j], b, scores, k)
        }),
{
    let n = scores.len();
    let rows = b.finished(scores, rate_text, score_text).table;
    let order = order::ordered(scores, n, true);
    let best = order::greatest(scores, n).0;
    order::order_is_a_rearrangement(scores, n, true);
    assert forall|i: int| 0 <= i < n implies tells_of(
        #[trigger] b.row(scores, i, best),
        b,
        scores,
        i,
    ) by {
        let label = crate::bench::config_label(b.plan[i]);
        assert(label + Seq::<char>::empty() =~= label);
    }
    let i = order[k];
    assert(rows[k] == b.row(scores, i, best));
    assert(tells_of(rows[k], b, scores, i));
    assert(order.contains(k));
    let j = choose|j: int| 0 <= j < order.len() && order[j] == k;
    assert(rows[j] == b.row(scores, k, best));
    assert(tells_of(rows[j], b, scores, k));
}

/// The settings that a finished run returns are all of those that were measured, but for the
/// screens, which are the user's. They are those of the winning row, and the summary names
/// them.
pub proof fn winning_settings_were_measured(
    b: BenchView,
    scores: Seq<Single>,
    rate_text: Seq<char>,
    score_text: Seq<char>,
)
    requires
        scores.len() == b.plan.len(),
        scores.len() > 0,
    ensures
        ({
            let best = order::greatest(scores, scores.len()).0;
            let won = b.applicable(best);
            let f = b.finished(scores, rate_text, score_text);
            &&& 0 <= best < b.plan.len()
            &&& won == (Settings { screen: won.screen, ..b.plan[best] })
            &&& won.screen == b.restore.screen
            &&& exists|k: int|
                0 <= k < f.table.len() && (#[trigger] f.table[k]).winner && f.table[k].settings
                    == won
            &&& f.summary == Some(
                "Top result: "@ + crate::bench::config_label(won) + " \u{2014} "@ + rate_text
                    + " fps (score "@ + score_text + "). Select a row to try it live."@,
            )
        }),
{
    let n = scores.len();
    let best = order::greatest(scores, n).0;
    crate::bench::lemma_greatest_place(scores, n);
    table_has_every_configuration_once(b, scores);
    let rows = b.ranked(scores);
    assert(rows.contains(b.row(scores, best, best)));
    let k = choose|k: int| 0 <= k < rows.len() && rows[k] == b.row(scores, best, best);
    assert(b.finished(scores, rate_text, score_text).table[k].winner);
}

/// Whether all characters are decimal digits.
spec fn all_digits(s: Seq<char>) -> bool {
    forall|i: int| 0 <= i < s.len() ==> '0' <= #[trigger] s[i] <= '9'
}

/// Whether a text is empty or begins with a blank.
spec fn set_off(s: Seq<char>) -> bool {
    s.len() == 0 || s[0] == ' '
}

/// A number ends where a blank begins.
proof fn lemma_number_ends(a: Seq<char>, x: Seq<char>, b: Seq<char>, y: Seq<char>)
    requires
        all_digits(a),
        all_digits(b),
        set_off(x),
        set_off(y),
        a + x == b + y,
    ensures
        a == b,
        x == y,
{
    let l = a + x;
    let r = b + y;
    assert(l.len() == a.len() + x.len() && r.len() == b.len() + y.len());
    if a.len() < b.len() {
        assert(l[a.len() as int] == x[0]);
        assert(r[a.len() as int] == b[a.len() as int]);
    } else if b.len() < a.len() {
        assert(r[b.len() as int] == y[0]);
        assert(l[b.len() as int] == a[b.len() as int]);
    }
    assert(a =~= l.take(a.len() as int));
    assert(b =~= r.take(b.len() as int));
    assert(x =~= l.skip(a.len() as int));
    assert(y =~= r.skip(b.len() as int));
}

/// What follows equal texts is equal.
proof fn lemma_tails(p: Seq<char>, x: Seq<char>, y: Seq<char>)
    requires
        p + x == p + y,
    ensures
        x == y,
{
    assert(x =~= (p + x).skip(p.len() as int));
    assert(y =~= (p + y).skip(p.len() as int));
}

/// The mention of a knob is told apart from what follows, and tells the knob's value, where
/// what follows differs from its name in the character `at`. A value that is not mentioned
/// is the norm.
proof fn lemma_mentions(
    name: Seq<char>,
    at: int,
    norm: u8,
    m: u8,
    x: Seq<char>,
    n: u8,
    y: Seq<char>,
)
    requires
        0 < at < name.len(),
        name[0] == ' ',
        set_off(x),
        set_off(y),
        x.len() > 0 ==> x.len() > at && x[at] != name[at],
        y.len() > 0 ==> y.len() > at && y[at] != name[at],
        crate::bench::mention(m != norm, name, m) + x == crate::bench::mention(n != norm, name, n)
            + y,
    ensures
        m == n,
        x == y,
{
    let a = crate::bench::mention(m != norm, name, m);
    let b = crate::bench::mention(n != norm, name, n);
    crate::text::decimal_is_read_back(m as nat);
    crate::text::decimal_is_read_back(n as nat);
    let dm = crate::text::decimal(m as nat);
    let dn = crate::text::decimal(n as nat);
    let l = a + x;
    let r = b + y;
    assert(l.len() == a.len() + x.len() && r.len() == b.len() + y.len());
    if m != norm && n != norm {
        assert(l =~= name + (dm + x));
        assert(r =~= name + (dn + y));
        lemma_tails(name, dm + x, dn + y);
        lemma_number_ends(dm, x, dn, y);
    } else if m != norm {
        assert(r =~= y);
        assert(l[at] == name[at]);
    } else if n != norm {
        assert(l =~= x);
        assert(r[at] == name[at]);
    } else {
        assert(l =~= x);
        assert(r =~= y);
    }
}

/// The mentions of a label, the strips' alone.
spec fn strips_part(s: Settings) -> Seq<char> {
    crate::bench::mention(s.chunks != 4, " ch="@, s.chunks)
}

/// The mentions of a label from the columns on.
spec fn columns_part(s: Settings) -> Seq<char> {
    crate::bench::mention(s.grid_cols != 16, " cols="@, s.grid_cols) + strips_part(s)
}

/// The mentions of a label, all of them.
spec fn rows_part(s: Settings) -> Seq<char> {
    crate::bench::mention(s.grid_rows != 1, " rows="@, s.grid_rows) + columns_part(s)
}

/// The parts of a label.
proof fn lemma_label_parts(s: Settings)
    ensures
        crate::bench::config_label(s) == (crate::bench::name_of(crate::bench::mode(s)) + " q="@) + (
        crate::text::decimal(s.quality as nat) + rows_part(s)),
{
    let name = crate::bench::name_of(crate::bench::mode(s)) + " q="@;
    let d = crate::text::decimal(s.quality as nat);
    assert(crate::bench::config_label(s) =~= name + (d + rows_part(s)));
}

/// What the mentions of a label begin with.
proof fn lemma_part_heads(s: Settings)
    ensures
        set_off(rows_part(s)),
        set_off(columns_part(s)),
        set_off(strips_part(s)),
        columns_part(s).len() > 0 ==> columns_part(s).len() > 1 && columns_part(s)[1] == 'c',
        strips_part(s).len() > 0 ==> strips_part(s).len() > 2 && strips_part(s)[2] == 'h',
        strips_part(s).len() > 0 ==> strips_part(s)[1] == 'c',
        " rows="@.len() == 6 && " rows="@[0] == ' ' && " rows="@[1] == 'r',
        " cols="@.len() == 6 && " cols="@[0] == ' ' && " cols="@[2] == 'o',
        " ch="@.len() == 4 && " ch="@[0] == ' ' && " ch="@[1] == 'c',
{
    reveal_strlit(" rows=");
    reveal_strlit(" cols=");
    reveal_strlit(" ch=");
}

/// The names of the modes begin with different letters.
proof fn lemma_names_differ(m: Mode, n: Mode, x: Seq<char>, y: Seq<char>)
    requires
        (crate::bench::name_of(m) + " q="@) + x == (crate::bench::name_of(n) + " q="@) + y,
    ensures
        m == n,
{
    reveal_strlit("quarter-res");
    reveal_strlit("interlace");
    reveal_strlit("progressive");
    let l = (crate::bench::name_of(m) + " q="@) + x;
    let r = (crate::bench::name_of(n) + " q="@) + y;
    assert(l[0] == crate::bench::name_of(m)[0]);
    assert(r[0] == crate::bench::name_of(n)[0]);
}

/// Labels tell configurations apart: those with the same label decimate alike, and have the
/// same quality, grid and number of strips.
pub proof fn labels_tell_configurations_apart(s: Settings, t: Settings)
    requires
        crate::bench::config_label(s) == crate::bench::config_label(t),
    ensures
        crate::bench::mode(s) == crate::bench::mode(t),
        s.quality == t.quality,
        s.grid_rows == t.grid_rows,
        s.grid_cols == t.grid_cols,
        s.chunks == t.chunks,
{
    let none = Seq::<char>::empty();
    let name = crate::bench::name_of(crate::bench::mode(s)) + " q="@;
    let (ds, dt) = (
        crate::text::decimal(s.quality as nat),
        crate::text::decimal(t.quality as nat),
    );
    lemma_label_parts(s);
    lemma_label_parts(t);
    lemma_names_differ(
        crate::bench::mode(s),
        crate::bench::mode(t),
        ds + rows_part(s),
        dt + rows_part(t),
    );
    lemma_part_heads(s);
    lemma_part_heads(t);
    crate::text::decimal_is_read_back(s.quality as nat);
    crate::text::decimal_is_read_back(t.quality as nat);
    lemma_tails(name, ds + rows_part(s), dt + rows_part(t));
    lemma_number_ends(ds, rows_part(s), dt, rows_part(t));
    lemma_mentions(" rows="@, 1, 1, s.grid_rows, columns_part(s), t.grid_rows, columns_part(t));
    lemma_mentions(" cols="@, 2, 16, s.grid_cols, strips_part(s), t.grid_cols, strips_part(t));
    assert(strips_part(s) + none =~= strips_part(s));
    assert(strips_part(t) + none =~= strips_part(t));
    lemma_mentions(" ch="@, 1, 4, s.chunks, none, t.chunks, none);
}

/// A label is the mode's name and the quality, and knobs at their norm are not mentioned.
pub proof fn labels_name_mode_and_quality(s: Settings)
    requires
        s.grid_rows == 1,
        s.grid_cols == 16,
        s.chunks == 4,
    ensures
        crate::bench::config_label(s) == (if s.downscale {
            "quarter-res q="@
        } else if s.interlace {
            "interlace q="@
        } else {
            "progressive q="@
        }) + crate::text::decimal(s.quality as nat),
{
    reveal_strlit("quarter-res");
    reveal_strlit("interlace");
    reveal_strlit("progressive");
    reveal_strlit(" q=");
    reveal_strlit("quarter-res q=");
    reveal_strlit("interlace q=");
    reveal_strlit("progressive q=");
    let word = if s.downscale {
        "quarter-res q="@
    } else if s.interlace {
        "interlace q="@
    } else {
        "progressive q="@
    };
    assert(word =~= crate::bench::name_of(crate::bench::mode(s)) + " q="@);
    assert(crate::bench::config_label(s) =~= word + crate::text::decimal(s.quality as nat));
}

/// The configurations that a standard and a thorough sweep add, in their order.
proof fn lemma_middle_parts(b: Settings, caps: Option<Announce>)
    ensures
        ({
            let d = crate::bench::has(caps, feature::DOWNSCALE);
            let g = crate::bench::has2(caps, feature2::CELL_GRID);
            let (s, t) = (crate::bench::standard(b, caps), crate::bench::thorough(b, caps));
            let n = s.len() as int;
            let m = t.len() as int;
            &&& n == 1 + count(d) + count(g) && m == 2 + count(d) + count(g)
            &&& s[0] == (Settings { quality: 90, interlace: true, ..b })
            &&& d ==> s[1] == (Settings { quality: 90, downscale: true, ..b })
            &&& g ==> s[n - 1] == (Settings { quality: 90, grid_rows: 8, ..b })
            &&& t[0] == (Settings { quality: 50, ..b })
            &&& t[1] == (Settings { quality: 70, interlace: true, ..b })
            &&& d ==> t[2] == (Settings { quality: 70, downscale: true, ..b })
            &&& g ==> t[m - 1] == (Settings { quality: 90, grid_cols: 8, ..b })
        }),
{
}

/// The configurations that an exhaustive sweep adds, in their order.
proof fn lemma_last_part(b: Settings, caps: Option<Announce>)
    ensures
        ({
            let d = crate::bench::has(caps, feature::DOWNSCALE);
            let g = crate::bench::has2(caps, feature2::CELL_GRID);
            let c = crate::bench::has(caps, feature::CHUNKS);
            let e = crate::bench::exhaustive(b, caps);
            let u = 2 * count(g) + count(c);
            &&& e.len() == u + 1 + count(d)
            &&& g ==> e[0] == (Settings { quality: 90, grid_rows: 4, ..b })
            &&& g ==> e[1] == (Settings { quality: 90, grid_rows: 8, grid_cols: 8, ..b })
            &&& c ==> e[u - 1] == (Settings { quality: 90, chunks: 8, ..b })
            &&& e[u] == (Settings { quality: 50, interlace: true, ..b })
            &&& d ==> e[u + 1] == (Settings { quality: 50, downscale: true, ..b })
        }),
{
}

/// One where it applies.
pub open spec fn count(applies: bool) -> int {
    if applies {
        1
    } else {
        0
    }
}

/// The order of a sweep: the shallower a sweep that has a configuration, the earlier it comes.
/// Of each depth the decimated ones come before the finer grid, but for the deepest, in which
/// the grids come first.
pub proof fn sweeps_keep_their_order(current: Settings, caps: Option<Announce>)
    ensures
        ({
            let (f, g) = match caps {
                Some(a) => (a.features, a.features2),
                None => (0u8, 0u8),
            };
            let d = f / 32 % 2 == 1;
            let grid = g % 2 == 1;
            let strips = f / 8 % 2 == 1;
            let p = crate::bench::planned(3, current, caps);
            let s = 3 + count(d) + count(grid);
            let t = s + 2 + count(d) + count(grid);
            let u = t + 2 * count(grid) + count(strips);
            &&& p.len() == u + 1 + count(d)
            &&& p[0].quality == 90 && p[1].quality == 70
            &&& p[2].quality == 90 && p[2].interlace
            &&& d ==> p[3].quality == 90 && p[3].downscale
            &&& grid ==> p[s - 1].grid_rows == 8
            &&& p[s].quality == 50 && !p[s].interlace
            &&& p[s + 1].quality == 70 && p[s + 1].interlace
            &&& d ==> p[s + 2].quality == 70 && p[s + 2].downscale
            &&& grid ==> p[t - 1].grid_cols == 8
            &&& grid ==> p[t].grid_rows == 4 && p[t + 1].grid_rows == 8 && p[t + 1].grid_cols == 8
            &&& strips ==> p[u - 1].chunks == 8
            &&& p[u].quality == 50 && p[u].interlace
            &&& d ==> p[u + 1].quality == 50 && p[u + 1].downscale
        }),
{
    let b = crate::bench::base_config(current, caps);
    let q = crate::bench::quick(b);
    let s = crate::bench::standard(b, caps);
    let t = crate::bench::thorough(b, caps);
    let e = crate::bench::exhaustive(b, caps);
    let p = crate::bench::planned(3, current, caps);
    lemma_announced(caps);
    lemma_middle_parts(b, caps);
    lemma_last_part(b, caps);
    assert(p == q + s + t + e);
    assert forall|i: int| 0 <= i < s.len() implies p[2 + i] == #[trigger] s[i] by {}
    assert forall|i: int| 0 <= i < t.len() implies p[2 + s.len() + i] == #[trigger] t[i] by {}
    assert forall|i: int| 0 <= i < e.len() implies p[2 + s.len() + t.len() + i]
        == #[trigger] e[i] by {}
}

} // verus!
