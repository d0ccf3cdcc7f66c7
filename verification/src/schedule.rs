//! Scheduled future slope reductions, keyed by the period in which they apply.
//!
//! Each entry records how much slope leaves a checkpoint series when the
//! catch-up of that series steps into the entry's period. Entries are
//! additive — several voters may schedule a reduction at the same period —
//! and a scheduled amount can be cancelled again when the vote that placed
//! it is superseded.

use vstd::prelude::*;
use crate::fixed::{Fixed, sat_sub};

verus! {

/// One scheduled reduction: when a catch-up steps into `period`, the series
/// slope drops by `delta`.
#[derive(Clone, Copy)]
pub struct SchedEntry {
    pub period: u64,
    pub delta: Fixed,
}

/// The reduction scheduled at period `p`: the delta of the first entry keyed
/// by `p`, and zero where no entry is. With strictly sorted entries the first
/// match is the only one.
pub open spec fn delta_at(s: Seq<SchedEntry>, p: int) -> nat
    decreases s.len(),
{
    if s.len() == 0 {
        0
    } else if s[0].period == p {
        s[0].delta.value()
    } else {
        delta_at(s.subrange(1, s.len() as int), p)
    }
}

/// Entry periods strictly increase, so each period has at most one entry.
pub open spec fn sorted(s: Seq<SchedEntry>) -> bool {
    forall|i: int, j: int| 0 <= i < j < s.len() ==> s[i].period < s[j].period
}

/// In a sorted schedule, an entry at index `i` is what `delta_at` reports for
/// its period.
pub proof fn lemma_delta_at_index(s: Seq<SchedEntry>, i: int)
    requires
        sorted(s),
        0 <= i < s.len(),
    ensures
        delta_at(s, s[i].period as int) == s[i].delta.value(),
    decreases s.len(),
{
    if i == 0 {
    } else {
        assert(s[0].period < s[i].period);
        let t = s.subrange(1, s.len() as int);
        assert(forall|k: int, l: int| 0 <= k < l < t.len() ==> t[k].period < t[l].period);
        assert(t[i - 1] == s[i]);
        lemma_delta_at_index(t, i - 1);
    }
}

/// A period with no entry has no scheduled reduction.
pub proof fn lemma_delta_at_absent(s: Seq<SchedEntry>, p: int)
    requires
        forall|i: int| 0 <= i < s.len() ==> s[i].period != p,
    ensures
        delta_at(s, p) == 0,
    decreases s.len(),
{
    if s.len() > 0 {
        let t = s.subrange(1, s.len() as int);
        assert(forall|i: int| 0 <= i < t.len() ==> t[i] == s[i + 1]);
        lemma_delta_at_absent(t, p);
    }
}

/// Replacing the entry at index `i` by one with the same period changes
/// `delta_at` only at that period.
pub proof fn lemma_delta_at_update(s: Seq<SchedEntry>, i: int, e: SchedEntry, q: int)
    requires
        sorted(s),
        0 <= i < s.len(),
        e.period == s[i].period,
    ensures
        sorted(s.update(i, e)),
        e.period == q ==> delta_at(s.update(i, e), q) == e.delta.value(),
        e.period != q ==> delta_at(s.update(i, e), q) == delta_at(s, q),
    decreases s.len(),
{
    let u = s.update(i, e);
    assert(sorted(u));
    if e.period == q {
        lemma_delta_at_index(u, i);
    } else {
        if i == 0 {
            assert(u.subrange(1, u.len() as int) =~= s.subrange(1, s.len() as int));
        } else {
            let t = s.subrange(1, s.len() as int);
            assert(u.subrange(1, u.len() as int) =~= t.update(i - 1, e));
            assert(t[i - 1] == s[i]);
            lemma_delta_at_update(t, i - 1, e, q);
        }
    }
}

/// Inserting an entry at its sorted position changes `delta_at` only at the
/// new entry's period, which had no entry before.
pub proof fn lemma_delta_at_insert(s: Seq<SchedEntry>, i: int, e: SchedEntry, q: int)
    requires
        sorted(s),
        0 <= i <= s.len(),
        forall|k: int| 0 <= k < i ==> s[k].period < e.period,
        forall|k: int| i <= k < s.len() ==> e.period < s[k].period,
    ensures
        sorted(s.insert(i, e)),
        e.period == q ==> delta_at(s.insert(i, e), q) == e.delta.value(),
        e.period != q ==> delta_at(s.insert(i, e), q) == delta_at(s, q),
    decreases s.len(),
{
    let u = s.insert(i, e);
    assert forall|k: int, l: int| 0 <= k < l < u.len() implies u[k].period < u[l].period by {
        if k < i && l > i {
            assert(u[k] == s[k] && u[l] == s[l - 1]);
        }
    }
    if e.period == q {
        lemma_delta_at_index(u, i);
    } else {
        if i == 0 {
            assert(u.subrange(1, u.len() as int) =~= s);
        } else {
            let t = s.subrange(1, s.len() as int);
            assert(u.subrange(1, u.len() as int) =~= t.insert(i - 1, e));
            lemma_delta_at_insert(t, i - 1, e, q);
        }
    }
}

/// The schedule of one checkpoint series: entries sorted strictly by period.
pub struct SlopeSchedule {
    pub entries: Vec<SchedEntry>,
}

impl SlopeSchedule {
    pub open spec fn wf(self) -> bool {
        sorted(self.entries@)
    }

    /// The reduction scheduled at period `p`.
    pub open spec fn at(self, p: int) -> nat {
        delta_at(self.entries@, p)
    }

    pub fn new() -> (r: SlopeSchedule)
        ensures
            r.wf(),
            forall|q: int| r.at(q) == 0,
    {
        let r = SlopeSchedule { entries: Vec::new() };
        proof {
            assert forall|q: int| r.at(q) == 0 by {
                lemma_delta_at_absent(r.entries@, q);
            }
        }
        r
    }

    /// The first index whose entry's period is `period` or later.
    fn position(&self, period: u64) -> (pos: usize)
        requires
            self.wf(),
        ensures
            pos <= self.entries@.len(),
            forall|k: int| 0 <= k < pos ==> self.entries@[k].period < period,
            forall|k: int| pos <= k < self.entries@.len() ==> self.entries@[k].period >= period,
    {
        let mut pos: usize = 0;
        while pos < self.entries.len()
            invariant
                pos <= self.entries@.len(),
                forall|k: int| 0 <= k < pos ==> self.entries@[k].period < period,
                sorted(self.entries@),
            decreases self.entries@.len() - pos,
        {
            if self.entries[pos].period >= period {
                return pos;
            }
            pos = pos + 1;
        }
        pos
    }

    /// The reduction currently scheduled at `period`.
    pub fn reduction_at(&self, period: u64) -> (r: Fixed)
        requires
            self.wf(),
        ensures
            r.value() == self.at(period as int),
    {
        let pos = self.position(period);
        if pos < self.entries.len() && self.entries[pos].period == period {
            proof {
                lemma_delta_at_index(self.entries@, pos as int);
            }
            self.entries[pos].delta
        } else {
            proof {
                lemma_delta_at_absent(self.entries@, period as int);
            }
            Fixed::zero()
        }
    }

    /// Add `delta` to the reduction scheduled at `period`, creating the entry
    /// if absent. Fails only when the accumulated reduction would exceed the
    /// representable range; the schedule is then unchanged.
    pub fn add(&mut self, period: u64, delta: Fixed) -> (r: Result<(), ()>)
        requires
            old(self).wf(),
        ensures
            final(self).wf(),
            r is Ok ==> final(self).at(period as int) == old(self).at(period as int)
                + delta.value(),
            r is Ok ==> forall|q: int| q != period ==> final(self).at(q) == old(self).at(q),
            r is Err ==> *final(self) == *old(self)
                && old(self).at(period as int) + delta.value() > u128::MAX,
            r is Ok ==> old(self).at(period as int) + delta.value() <= u128::MAX,
    {
        let pos = self.position(period);
        if pos < self.entries.len() && self.entries[pos].period == period {
            proof {
                lemma_delta_at_index(self.entries@, pos as int);
            }
            let entry = self.entries[pos];
            match entry.delta.checked_add(delta) {
                Some(total) => {
                    let ghost s = self.entries@;
                    let e = SchedEntry { period, delta: total };
                    self.entries[pos] = e;
                    proof {
                        assert(self.entries@ =~= s.update(pos as int, e));
                        assert forall|q: int| #![auto] q != period implies final(self).at(q)
                            == delta_at(s, q) by {
                            lemma_delta_at_update(s, pos as int, e, q);
                        }
                        lemma_delta_at_update(s, pos as int, e, period as int);
                    }
                    Ok(())
                },
                None => Err(()),
            }
        } else {
            proof {
                lemma_delta_at_absent(self.entries@, period as int);
            }
            let ghost s = self.entries@;
            let e = SchedEntry { period, delta };
            self.entries.insert(pos, e);
            proof {
                assert forall|q: int| #![auto] q != period implies final(self).at(q)
                    == delta_at(s, q) by {
                    lemma_delta_at_insert(s, pos as int, e, q);
                }
                lemma_delta_at_insert(s, pos as int, e, period as int);
            }
            Ok(())
        }
    }

    /// Cancel `delta` of the reduction scheduled at `period`, floored at
    /// zero. The entry may become zero; it is not removed.
    pub fn cancel(&mut self, period: u64, delta: Fixed)
        requires
            old(self).wf(),
        ensures
            final(self).wf(),
            final(self).at(period as int) == sat_sub(old(self).at(period as int), delta.value()),
            forall|q: int| q != period ==> final(self).at(q) == old(self).at(q),
    {
        let pos = self.position(period);
        if pos < self.entries.len() && self.entries[pos].period == period {
            proof {
                lemma_delta_at_index(self.entries@, pos as int);
            }
            let entry = self.entries[pos];
            let ghost s = self.entries@;
            let e = SchedEntry { period, delta: entry.delta.saturating_sub(delta) };
            self.entries[pos] = e;
            proof {
                assert(self.entries@ =~= s.update(pos as int, e));
                assert forall|q: int| #![auto] q != period implies final(self).at(q)
                    == delta_at(s, q) by {
                    lemma_delta_at_update(s, pos as int, e, q);
                }
                lemma_delta_at_update(s, pos as int, e, period as int);
            }
        } else {
            proof {
                lemma_delta_at_absent(self.entries@, period as int);
            }
        }
    }
}

} // verus!
