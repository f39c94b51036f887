//! A sliding one-second window over what was received.

use std::collections::VecDeque;
use vstd::prelude::*;

verus! {

/// Nanoseconds in a second.
pub const SECOND: u64 = 1_000_000_000;

/// The updates of the last second, for the rate and bandwidth displays. Times are
/// nanoseconds on a clock that never goes back.
#[derive(Debug)]
pub struct Meter {
    samples: VecDeque<(u64, usize)>,
}

impl View for Meter {
    type V = Seq<(u64, usize)>;

    closed spec fn view(&self) -> Seq<(u64, usize)> {
        self.samples@
    }
}

/// The samples from the first one on that is not before `cutoff`.
pub open spec fn since(samples: Seq<(u64, usize)>, cutoff: int) -> Seq<(u64, usize)>
    decreases samples.len(),
{
    if samples.len() > 0 && samples[0].0 < cutoff {
        since(samples.drop_first(), cutoff)
    } else {
        samples
    }
}

/// The bytes of all samples together.
pub open spec fn total(samples: Seq<(u64, usize)>) -> nat
    decreases samples.len(),
{
    if samples.len() == 0 {
        0
    } else {
        total(samples.drop_last()) + samples.last().1 as nat
    }
}

impl Default for Meter {
    fn default() -> (m: Meter)
        ensures
            m@ == Seq::<(u64, usize)>::empty(),
    {
        Meter { samples: VecDeque::new() }
    }
}

impl Meter {
    /// Notes `bytes` bytes received at `now`.
    pub fn push(&mut self, now: u64, bytes: usize)
        ensures
            final(self)@ == old(self)@.push((now, bytes)),
    {
        self.samples.push_back((now, bytes));
    }

    /// Updates and bytes of the last second. Forgets what is older.
    pub fn rates(&mut self, now: u64) -> (res: (usize, u128))
        ensures
            final(self)@ == since(old(self)@, now - SECOND),
            res.0 == final(self)@.len(),
            res.1 == total(final(self)@),
    {
        let cutoff: u64 = if now >= SECOND {
            now - SECOND
        } else {
            0
        };
        let ghost all = self.samples@;
        while self.samples.len() > 0 && self.samples[0].0 < cutoff
            invariant
                cutoff == (if now >= SECOND {
                    now - SECOND
                } else {
                    0
                }),
                since(self.samples@, now - SECOND) == since(all, now - SECOND),
            decreases self.samples@.len(),
        {
            let ghost before = self.samples@;
            self.samples.pop_front();
            proof {
                assert(self.samples@ =~= before.drop_first());
            }
        }
        let mut bytes: u128 = 0;
        let mut i: usize = 0;
        let n: usize = self.samples.len();
        while i < n
            invariant
                n == self.samples@.len(),
                i <= n,
                bytes == total(self.samples@.take(i as int)),
                bytes <= i * usize::MAX,
            decreases n - i,
        {
            let ghost taken = self.samples@.take(i + 1);
            proof {
                assert(taken.drop_last() =~= self.samples@.take(i as int));
                assert(i * usize::MAX + usize::MAX <= u128::MAX) by (nonlinear_arith)
                    requires
                        0 <= i < usize::MAX,
                        usize::MAX <= 0xffff_ffff_ffff_ffff,
                ;
                assert((i + 1) * usize::MAX == i * usize::MAX + usize::MAX) by (nonlinear_arith);
            }
            bytes = bytes + self.samples[i].1 as u128;
            i = i + 1;
        }
        proof {
            assert(self.samples@.take(n as int) =~= self.samples@);
        }
        (n, bytes)
    }
}

/// Whether the samples came one after the other.
pub open spec fn in_order(samples: Seq<(u64, usize)>) -> bool {
    forall|i: int, j: int| 0 <= i <= j < samples.len() ==> samples[i].0 <= samples[j].0
}

/// Of samples in order, what is kept is what is not before the cutoff: nothing
/// older stays and nothing younger goes. Order is kept too.
pub proof fn window_is_exact(samples: Seq<(u64, usize)>, cutoff: int)
    requires
        in_order(samples),
    ensures
        ({
            let kept = since(samples, cutoff);
            let gone = samples.len() - kept.len();
            &&& gone >= 0
            &&& kept == samples.skip(gone)
            &&& in_order(kept)
            &&& forall|i: int| 0 <= i < samples.len() ==> ((#[trigger] samples[i]).0 < cutoff
                <==> i < gone)
        }),
    decreases samples.len(),
{
    if samples.len() > 0 && samples[0].0 < cutoff {
        let rest = samples.drop_first();
        window_is_exact(rest, cutoff);
        let kept = since(samples, cutoff);
        let gone = samples.len() - kept.len();
        assert(rest.skip(gone - 1) =~= samples.skip(gone));
        assert forall|i: int| 0 <= i < samples.len() implies ((#[trigger] samples[i]).0 < cutoff
            <==> i < gone) by {
            if i > 0 {
                assert(rest[i - 1] == samples[i]);
            }
        }
    } else {
        assert(samples.skip(0) =~= samples);
    }
}

/// Asking again at the same time, or later, forgets no less: a window asked for in
/// two steps is the window asked for at once.
pub proof fn windows_compose(samples: Seq<(u64, usize)>, first: int, second: int)
    requires
        first <= second,
    ensures
        since(since(samples, first), second) == since(samples, second),
    decreases samples.len(),
{
    if samples.len() > 0 && samples[0].0 < first {
        windows_compose(samples.drop_first(), first, second);
    }
}

/// The bytes of a window add up update by update: nothing for none, and for one more at
/// either end its bytes more. So two runs of updates together have the bytes of both.
pub proof fn bytes_add_up(a: Seq<(u64, usize)>, b: Seq<(u64, usize)>, x: (u64, usize))
    ensures
        total(Seq::<(u64, usize)>::empty()) == 0,
        total(a.push(x)) == total(a) + x.1,
        total(a + b) == total(a) + total(b),
        total(seq![x] + a) == x.1 + total(a),
{
    assert(a.push(x).drop_last() =~= a);
    lemma_total_both(a, b);
    lemma_total_both(seq![x], a);
    reveal_with_fuel(total, 2);
    assert(seq![x].drop_last() =~= Seq::empty());
}

proof fn lemma_total_both(a: Seq<(u64, usize)>, b: Seq<(u64, usize)>)
    ensures
        total(a + b) == total(a) + total(b),
    decreases b.len(),
{
    if b.len() == 0 {
        assert(a + b =~= a);
    } else {
        assert((a + b).drop_last() =~= a + b.drop_last());
        lemma_total_both(a, b.drop_last());
    }
}

/// Every update counts with its whole size, wherever it stands: the total moves by as much
/// as one size does. When it came does not matter.
pub proof fn every_update_counts(a: Seq<(u64, usize)>, i: int, x: (u64, usize))
    requires
        0 <= i < a.len(),
    ensures
        total(a.update(i, x)) - total(a) == x.1 - a[i].1,
        total(a) >= a[i].1,
    decreases a.len(),
{
    let b = a.update(i, x);
    if i == a.len() - 1 {
        assert(b.drop_last() =~= a.drop_last());
    } else {
        assert(b.drop_last() =~= a.drop_last().update(i, x));
        every_update_counts(a.drop_last(), i, x);
    }
}

/// An update is counted for exactly one second: of updates in order, those of the last
/// second are kept, one that is a second old among them, and none that is older.
pub proof fn updates_count_for_a_second(samples: Seq<(u64, usize)>, now: u64, i: int)
    requires
        in_order(samples),
        0 <= i < samples.len(),
    ensures
        ({
            let kept = since(samples, now - SECOND);
            let gone = samples.len() - kept.len();
            &&& 0 <= gone
            &&& now - samples[i].0 > 1_000_000_000 <==> i < gone
            &&& i >= gone ==> kept[i - gone] == samples[i]
        }),
{
    window_is_exact(samples, now - SECOND);
}

} // verus!
