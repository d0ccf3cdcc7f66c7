//! One checkpoint series: the decay function of a gauge.
//!
//! A series is an append-only sequence of checkpoints, each fixing the bias
//! and slope of the series at one period, together with the schedule of
//! future slope reductions. The mathematical meaning of the data is the
//! period-by-period decay `project_model`: stepping from one period into the
//! next subtracts the slope from the bias (floored at zero) and the scheduled
//! reduction from the slope (floored at zero). The executable projection and
//! catch-up advance over whole segments between schedule entries in one
//! arithmetic step each, and are proved equal to the sequential model.

use vstd::prelude::*;
use vstd::arithmetic::mul::lemma_mul_is_distributive_add;
use crate::fixed::{Fixed, sat_sub, SCALE};
use crate::schedule::{SlopeSchedule, SchedEntry, delta_at, lemma_delta_at_absent};

verus! {

/// The mathematical value of a weight point.
pub ghost struct PointModel {
    pub bias: nat,
    pub slope: nat,
}

/// The weight of a series at some period: a bias that decays, and the slope
/// it decays by each period.
#[derive(Clone, Copy)]
pub struct WeightPoint {
    pub bias: Fixed,
    pub slope: Fixed,
}

impl WeightPoint {
    pub open spec fn model(self) -> PointModel {
        PointModel { bias: self.bias.value(), slope: self.slope.value() }
    }
}

/// One step of decay, from some period into the next: the bias loses one
/// slope's worth, then the reduction scheduled at the new period leaves the
/// slope. Both floor at zero.
pub open spec fn decay_step(w: PointModel, delta: nat) -> PointModel {
    PointModel { bias: sat_sub(w.bias, w.slope), slope: sat_sub(w.slope, delta) }
}

/// The value at period `to` of a point whose value at period `from` is `w`,
/// by sequential iteration: one `decay_step` per elapsed period, honouring
/// the schedule `s` in period order.
pub open spec fn project_model(w: PointModel, s: Seq<SchedEntry>, from: int, to: int) -> PointModel
    decreases to - from,
{
    if to <= from {
        w
    } else {
        project_model(decay_step(w, delta_at(s, from + 1)), s, from + 1, to)
    }
}

/// Subtracting in two steps is subtracting the sum.
proof fn lemma_sat_sub_chain(a: nat, b: nat, c: nat)
    ensures
        sat_sub(sat_sub(a, b), c) == sat_sub(a, b + c),
{
}

/// Projection composes: advancing to `mid` and on to `to` is advancing to
/// `to`.
pub proof fn lemma_project_split(w: PointModel, s: Seq<SchedEntry>, from: int, mid: int, to: int)
    requires
        from <= mid <= to,
    ensures
        project_model(w, s, from, to) == project_model(project_model(w, s, from, mid), s, mid, to),
    decreases mid - from,
{
    if from < mid {
        lemma_project_split(decay_step(w, delta_at(s, from + 1)), s, from + 1, mid, to);
    }
}

/// Over a run of periods with no scheduled reduction strictly inside it,
/// sequential iteration equals one arithmetic step: the bias loses
/// `slope * (to - from)` and the reduction scheduled at `to` itself leaves
/// the slope.
pub proof fn lemma_project_segment(w: PointModel, s: Seq<SchedEntry>, from: int, to: int)
    requires
        from < to,
        forall|p: int| from < p < to ==> delta_at(s, p) == 0,
    ensures
        project_model(w, s, from, to) == (PointModel {
            bias: sat_sub(w.bias, (w.slope * (to - from)) as nat),
            slope: sat_sub(w.slope, delta_at(s, to)),
        }),
    decreases to - from,
{
    let w1 = decay_step(w, delta_at(s, from + 1));
    if from + 1 == to {
        assert(w.slope * 1 == w.slope) by (nonlinear_arith);
        assert(project_model(w1, s, from + 1, to) == w1);
        assert(project_model(w, s, from, to) == w1);
    } else {
        assert(delta_at(s, from + 1) == 0);
        assert(w1.slope == w.slope);
        lemma_project_segment(w1, s, from + 1, to);
        lemma_sat_sub_chain(w.bias, w.slope, (w.slope * (to - from - 1)) as nat);
        assert(w.slope + w.slope * (to - from - 1) == w.slope * (to - from)) by {
            lemma_mul_is_distributive_add(w.slope as int, 1, to - from - 1);
            assert(w.slope * 1 == w.slope) by (nonlinear_arith);
        }
        assert(project_model(w, s, from, to) == project_model(w1, s, from + 1, to));
        assert(sat_sub(w1.bias, (w1.slope * (to - from - 1)) as nat) == sat_sub(
            w.bias,
            (w.slope * (to - from)) as nat,
        ));
    }
}

/// Projection reads only the reductions scheduled in the periods it steps
/// through: two schedules that agree there project alike.
pub proof fn lemma_project_same_deltas(
    w: PointModel,
    s1: Seq<SchedEntry>,
    s2: Seq<SchedEntry>,
    from: int,
    to: int,
)
    requires
        forall|p: int| from < p <= to ==> delta_at(s1, p) == delta_at(s2, p),
    ensures
        project_model(w, s1, from, to) == project_model(w, s2, from, to),
    decreases to - from,
{
    if from < to {
        lemma_project_same_deltas(decay_step(w, delta_at(s1, from + 1)), s1, s2, from + 1, to);
    }
}

/// Projection never raises the bias: every step subtracts.
pub proof fn lemma_project_bias_le(w: PointModel, s: Seq<SchedEntry>, from: int, to: int)
    ensures
        project_model(w, s, from, to).bias <= w.bias,
    decreases to - from,
{
    if from < to {
        lemma_project_bias_le(decay_step(w, delta_at(s, from + 1)), s, from + 1, to);
    }
}

/// Once the bias has decayed to zero, it stays exactly zero through every
/// further period, whatever the slope does.
pub proof fn lemma_decay_stays_zero(w: PointModel, s: Seq<SchedEntry>, from: int, to: int)
    requires
        from <= to,
        w.bias == 0,
    ensures
        project_model(w, s, from, to).bias == 0,
    decreases to - from,
{
    if from < to {
        lemma_decay_stays_zero(decay_step(w, delta_at(s, from + 1)), s, from + 1, to);
    }
}

/// Whether the decay from `from` to `to` never hits a floor: at every step
/// the bias covers one slope's worth and the slope covers the scheduled
/// reduction.
pub open spec fn no_clamp(w: PointModel, m: Seq<SchedEntry>, from: int, to: int) -> bool
    decreases to - from,
{
    to <= from || (w.bias >= w.slope && w.slope >= delta_at(m, from + 1) && no_clamp(
        decay_step(w, delta_at(m, from + 1)),
        m,
        from + 1,
        to,
    ))
}

/// A vote's contribution decays out exactly, and removing it recovers the
/// rest untouched: starting from `w` plus a lock contribution of slope `u`
/// expiring at `unlock`, the projection to any `to` before `unlock` is the
/// projection of `w` alone plus the contribution's remainder — provided the
/// base trajectory never hits a floor. Replacing a vote therefore leaves
/// the gauge exactly as if the superseded vote had never been cast.
pub proof fn lemma_lock_contribution_cancels(
    w: PointModel,
    m: Seq<SchedEntry>,
    from: int,
    to: int,
    u: nat,
    unlock: int,
)
    requires
        from <= to < unlock,
        no_clamp(w, m, from, to),
    ensures
        project_model(
            PointModel { bias: (w.bias + u * (unlock - from)) as nat, slope: (w.slope + u) as nat },
            m,
            from,
            to,
        ) == (PointModel {
            bias: (project_model(w, m, from, to).bias + u * (unlock - to)) as nat,
            slope: (project_model(w, m, from, to).slope + u) as nat,
        }),
    decreases to - from,
{
    if from < to {
        let d = delta_at(m, from + 1);
        let wj = PointModel {
            bias: (w.bias + u * (unlock - from)) as nat,
            slope: (w.slope + u) as nat,
        };
        let w1 = decay_step(w, d);
        assert(u * (unlock - from) == u * (unlock - from - 1) + u) by {
            lemma_mul_is_distributive_add(u as int, unlock - from - 1, 1);
            assert(u * 1 == u) by (nonlinear_arith);
        }
        assert(u * (unlock - from - 1) >= 0) by (nonlinear_arith)
            requires
                unlock - from - 1 >= 0,
        ;
        assert(decay_step(wj, d) == (PointModel {
            bias: (w1.bias + u * (unlock - (from + 1))) as nat,
            slope: (w1.slope + u) as nat,
        }));
        lemma_lock_contribution_cancels(w1, m, from + 1, to, u, unlock);
    } else {
        assert(project_model(w, m, from, to) == w);
    }
}

/// A checkpoint: the weight of the series as of `period`.
#[derive(Clone, Copy)]
pub struct Checkpoint {
    pub period: u64,
    pub point: WeightPoint,
}

/// The index of the last checkpoint at or before period `p`, or -1 when the
/// series starts after `p`.
pub open spec fn anchor(s: Seq<Checkpoint>, p: int) -> int
    decreases s.len(),
{
    if s.len() == 0 {
        -1
    } else if s[s.len() - 1].period <= p {
        s.len() - 1
    } else {
        anchor(s.drop_last(), p)
    }
}

pub open spec fn periods_sorted(s: Seq<Checkpoint>) -> bool {
    forall|i: int, j: int| 0 <= i < j < s.len() ==> s[i].period < s[j].period
}

/// What `anchor` finds: the largest index whose period is at or before `p`.
pub proof fn lemma_anchor_props(s: Seq<Checkpoint>, p: int)
    requires
        periods_sorted(s),
        s.len() > 0,
    ensures
        s[0].period <= p ==> {
            &&& 0 <= anchor(s, p) < s.len()
            &&& s[anchor(s, p)].period <= p
            &&& forall|k: int| anchor(s, p) < k < s.len() ==> s[k].period > p
        },
        s[0].period > p ==> anchor(s, p) == -1,
    decreases s.len(),
{
    if s[s.len() - 1].period <= p {
        assert(anchor(s, p) == s.len() - 1);
        assert(s[0].period <= s[s.len() - 1].period);
    } else if s.len() == 1 {
        assert(anchor(s, p) == anchor(s.drop_last(), p));
        assert(s.drop_last().len() == 0);
        assert(anchor(s.drop_last(), p) == -1);
    } else {
        let t = s.drop_last();
        lemma_anchor_props(t, p);
        assert(forall|k: int| 0 <= k < t.len() ==> t[k] == s[k]);
        assert(t[0] == s[0]);
        if s[0].period <= p {
            let a = anchor(s, p);
            assert(a == anchor(t, p));
            assert forall|k: int| a < k < s.len() implies s[k].period > p by {
                if k < t.len() {
                    assert(t[k] == s[k]);
                }
            }
        }
    }
}

/// Pushing a checkpoint later than `p` leaves the anchor at `p` alone.
pub proof fn lemma_anchor_push(s: Seq<Checkpoint>, c: Checkpoint, p: int)
    ensures
        c.period <= p ==> anchor(s.push(c), p) == s.len(),
        c.period > p ==> anchor(s.push(c), p) == anchor(s, p),
{
    assert(s.push(c).drop_last() =~= s);
}

/// Replacing the last checkpoint changes no anchor before its period.
pub proof fn lemma_anchor_update_last(s: Seq<Checkpoint>, c: Checkpoint, p: int)
    requires
        s.len() > 0,
    ensures
        c.period <= p ==> anchor(s.update(s.len() - 1, c), p) == s.len() - 1,
        c.period > p ==> anchor(s.update(s.len() - 1, c), p) == anchor(s.drop_last(), p),
{
    assert(s.update(s.len() - 1, c).drop_last() =~= s.drop_last());
}

/// The decay function of one gauge, or of the aggregate: its checkpoints and
/// its schedule of future slope reductions.
pub struct CheckpointSeries {
    pub points: Vec<Checkpoint>,
    pub schedule: SlopeSchedule,
}

impl CheckpointSeries {
    /// A series is seeded with one checkpoint at creation and is append-only
    /// at strictly increasing periods.
    pub open spec fn wf(self) -> bool {
        &&& self.points@.len() >= 1
        &&& periods_sorted(self.points@)
        &&& self.schedule.wf()
    }

    pub open spec fn first_period(self) -> int {
        self.points@[0].period as int
    }

    pub open spec fn last_period(self) -> int {
        self.points@.last().period as int
    }

    pub open spec fn last_point(self) -> WeightPoint {
        self.points@.last().point
    }

    /// Whether the series has a value at period `p`: it is not asked about
    /// periods before its first checkpoint.
    pub open spec fn covers(self, p: int) -> bool {
        self.first_period() <= p
    }

    /// The value of the series at period `p`: the last checkpoint at or
    /// before `p`, advanced to `p` by sequential decay.
    pub open spec fn model_at(self, p: int) -> PointModel {
        let i = anchor(self.points@, p);
        project_model(
            self.points@[i].point.model(),
            self.schedule.entries@,
            self.points@[i].period as int,
            p,
        )
    }

    /// The weight reported for period `p`: the whole part of the bias.
    pub open spec fn weight_at(self, p: int) -> nat {
        self.model_at(p).bias / SCALE as nat
    }

    /// A fresh series, seeded at `period` with the given bias and no slope.
    pub fn new(period: u64, bias: Fixed) -> (r: CheckpointSeries)
        ensures
            r.wf(),
            r.points@.len() == 1,
            r.points@[0] == (Checkpoint {
                period,
                point: WeightPoint { bias, slope: Fixed { atomics: 0 } },
            }),
            forall|q: int| r.schedule.at(q) == 0,
            r.first_period() == period,
            r.last_period() == period,
    {
        let mut points: Vec<Checkpoint> = Vec::new();
        points.push(Checkpoint { period, point: WeightPoint { bias, slope: Fixed::zero() } });
        CheckpointSeries { points, schedule: SlopeSchedule::new() }
    }

    /// The period of the last checkpoint.
    pub fn last_recorded(&self) -> (r: u64)
        requires
            self.wf(),
        ensures
            r as int == self.last_period(),
    {
        self.points[self.points.len() - 1].period
    }

    /// The index of the last checkpoint at or before `target`, if any.
    fn anchor_index(&self, target: u64) -> (r: Option<usize>)
        requires
            self.wf(),
        ensures
            self.covers(target as int) ==> (r matches Some(i)
                && i == anchor(self.points@, target as int)),
            !self.covers(target as int) ==> r is None,
    {
        proof {
            lemma_anchor_props(self.points@, target as int);
        }
        if self.points[0].period > target {
            return None;
        }
        let n = self.points.len();
        let mut i: usize = 0;
        while i + 1 < n && self.points[i + 1].period <= target
            invariant
                self.wf(),
                n == self.points@.len(),
                i < n,
                self.points@[i as int].period <= target,
            decreases n - i,
        {
            i = i + 1;
        }
        proof {
            let a = anchor(self.points@, target as int);
            assert(self.points@[a].period <= target);
            if i < a {
                assert(self.points@[i + 1].period <= self.points@[a].period);
            }
        }
        Some(i)
    }

    /// The value of the series at period `target`, computed segment by
    /// segment from the last checkpoint at or before `target`; `None` when
    /// the series starts after `target`. Nothing is written.
    pub fn project(&self, target: u64) -> (r: Option<WeightPoint>)
        requires
            self.wf(),
        ensures
            self.covers(target as int) ==> (r matches Some(w)
                && w.model() == self.model_at(target as int)),
            !self.covers(target as int) ==> r is None,
    {
        let idx = match self.anchor_index(target) {
            Some(i) => i,
            None => {
                return None;
            },
        };
        proof {
            lemma_anchor_props(self.points@, target as int);
        }
        let anchor_cp = self.points[idx];
        let mut bias = anchor_cp.point.bias;
        let mut slope = anchor_cp.point.slope;
        let mut cur = anchor_cp.period;
        let ghost s = self.schedule.entries@;
        let ghost w0 = anchor_cp.point.model();
        let ghost from = anchor_cp.period as int;

        let entries_len = self.schedule.entries.len();
        let mut i: usize = 0;
        while i < entries_len && self.schedule.entries[i].period <= cur
            invariant
                self.wf(),
                entries_len == self.schedule.entries@.len(),
                i <= entries_len,
                forall|k: int| 0 <= k < i ==> self.schedule.entries@[k].period <= cur,
            decreases entries_len - i,
        {
            i = i + 1;
        }
        while i < entries_len && self.schedule.entries[i].period <= target
            invariant
                self.wf(),
                entries_len == self.schedule.entries@.len(),
                s == self.schedule.entries@,
                i <= entries_len,
                from <= cur <= target,
                forall|k: int| 0 <= k < i ==> self.schedule.entries@[k].period <= cur,
                forall|k: int| i <= k < entries_len ==> self.schedule.entries@[k].period > cur,
                (PointModel { bias: bias.value(), slope: slope.value() })
                    == project_model(w0, s, from, cur as int),
            decreases entries_len - i,
        {
            let q = self.schedule.entries[i].period;
            let delta = self.schedule.entries[i].delta;
            let dt = q - cur;
            proof {
                crate::schedule::lemma_delta_at_index(s, i as int);
                assert forall|p: int| cur < p < q implies delta_at(s, p) == 0 by {
                    assert forall|k: int| 0 <= k < s.len() implies s[k].period != p by {
                        if k < i {
                            assert(s[k].period <= cur);
                        } else {
                            assert(s[i as int].period <= s[k].period);
                        }
                    }
                    lemma_delta_at_absent(s, p);
                }
                lemma_project_split(w0, s, from, cur as int, q as int);
                lemma_project_segment(
                    PointModel { bias: bias.value(), slope: slope.value() },
                    s,
                    cur as int,
                    q as int,
                );
            }
            bias = match slope.checked_mul_u64(dt) {
                Some(d) => bias.saturating_sub(d),
                None => Fixed::zero(),
            };
            slope = slope.saturating_sub(delta);
            cur = q;
            i = i + 1;
        }
        if cur < target {
            let dt = target - cur;
            proof {
                assert forall|p: int| cur < p <= target implies delta_at(s, p) == 0 by {
                    assert forall|k: int| 0 <= k < s.len() implies s[k].period != p by {
                        if k < i {
                            assert(s[k].period <= cur);
                        }
                    }
                    lemma_delta_at_absent(s, p);
                }
                lemma_project_split(w0, s, from, cur as int, target as int);
                lemma_project_segment(
                    PointModel { bias: bias.value(), slope: slope.value() },
                    s,
                    cur as int,
                    target as int,
                );
            }
            bias = match slope.checked_mul_u64(dt) {
                Some(d) => bias.saturating_sub(d),
                None => Fixed::zero(),
            };
        }
        Some(WeightPoint { bias, slope })
    }

    /// Advance the series to `target` and persist the result. A target behind
    /// the last checkpoint is rejected and nothing changes; a target equal to
    /// it is a no-op. The value of the series at every covered period is
    /// unchanged: catching up persists what projection already meant.
    pub fn catch_up(&mut self, target: u64) -> (r: Result<(), ()>)
        requires
            old(self).wf(),
        ensures
            final(self).wf(),
            r is Err <==> (target as int) < old(self).last_period(),
            r is Err ==> *final(self) == *old(self),
            r is Ok ==> final(self).last_period() == target as int,
            final(self).schedule == old(self).schedule,
            final(self).first_period() == old(self).first_period(),
            forall|q: int| old(self).covers(q) ==> final(self).model_at(q) == old(self).model_at(q),
    {
        let last = self.points.len() - 1;
        let last_cp = self.points[last];
        if target < last_cp.period {
            return Err(());
        }
        if target == last_cp.period {
            return Ok(());
        }
        proof {
            assert(self.points@[0].period <= self.points@[self.points@.len() - 1].period);
        }
        let w = match self.project(target) {
            Some(w) => w,
            None => {
                return Err(());
            },
        };
        let ghost before = *self;
        let c = Checkpoint { period: target, point: w };
        self.points.push(c);
        proof {
            let sp = before.points@;
            assert forall|i: int, j: int|
                0 <= i < j < self.points@.len() implies self.points@[i].period
                < self.points@[j].period by {
                if j == sp.len() {
                    assert(sp[i].period <= sp[sp.len() - 1].period);
                }
            }
            lemma_anchor_props(sp, target as int);
            assert(self.points@ == sp.push(c));
            assert forall|q: int| before.covers(q) implies self.model_at(q) == before.model_at(
                q,
            ) by {
                lemma_anchor_push(sp, c, q);
                if q >= target {
                    let a = anchor(sp, q);
                    let aa = anchor(sp, target as int);
                    assert(sp[sp.len() - 1].period <= q);
                    assert(a == sp.len() - 1);
                    assert(aa == sp.len() - 1);
                    assert(anchor(self.points@, q) == sp.len());
                    assert(self.points@[sp.len() as int] == c);
                    assert(c.point.model() == before.model_at(target as int));
                    lemma_project_split(
                        sp[a].point.model(),
                        before.schedule.entries@,
                        sp[a].period as int,
                        target as int,
                        q,
                    );
                } else {
                    lemma_anchor_props(sp, q);
                    assert(anchor(self.points@, q) == anchor(sp, q));
                    assert(self.points@[anchor(sp, q)] == sp[anchor(sp, q)]);
                }
            }
        }
        Ok(())
    }

    /// The reported weight, scaled back to atomic units, never exceeds the
    /// bias it was floored from, which fits in `u128`: computing a share of
    /// it cannot overflow.
    pub proof fn lemma_weight_scaled_bounded(self, p: int)
        requires
            self.wf(),
            self.covers(p),
        ensures
            self.weight_at(p) * SCALE <= u128::MAX,
    {
        lemma_anchor_props(self.points@, p);
        let a = anchor(self.points@, p);
        lemma_project_bias_le(
            self.points@[a].point.model(),
            self.schedule.entries@,
            self.points@[a].period as int,
            p,
        );
        assert((self.model_at(p).bias / SCALE as nat) * SCALE as nat <= self.model_at(p).bias)
            by (nonlinear_arith)
            requires
                SCALE == 1_000_000_000,
        ;
    }

    /// Once a series' weight has decayed to zero at or past its last
    /// checkpoint, every later period reports exactly zero: the floor at
    /// zero holds, the weight never goes negative and never comes back.
    pub proof fn lemma_decay_floor(self, p: int, q: int)
        requires
            self.wf(),
            p >= self.last_period(),
            q >= p,
            self.model_at(p).bias == 0,
        ensures
            self.model_at(q).bias == 0,
    {
        lemma_anchor_props(self.points@, p);
        lemma_anchor_props(self.points@, q);
        let n = self.points@.len();
        assert(self.points@[n - 1].period <= p);
        assert(anchor(self.points@, p) == n - 1);
        assert(anchor(self.points@, q) == n - 1);
        lemma_project_split(
            self.points@[n - 1].point.model(),
            self.schedule.entries@,
            self.points@[n - 1].period as int,
            p,
            q,
        );
        lemma_decay_stays_zero(self.model_at(p), self.schedule.entries@, p, q);
    }

    /// Persist `point` as the series value at `target`, which must be the
    /// period the series was just caught up to. Values at earlier periods
    /// are untouched; from `target` on, the series decays from `point`.
    pub fn record(&mut self, target: u64, point: WeightPoint)
        requires
            old(self).wf(),
            target as int == old(self).last_period(),
        ensures
            final(self).wf(),
            final(self).schedule == old(self).schedule,
            final(self).first_period() == old(self).first_period(),
            final(self).last_period() == old(self).last_period(),
            final(self).last_point() == point,
            forall|q: int|
                old(self).covers(q) && q < target as int ==> final(self).model_at(q)
                    == old(self).model_at(q),
            forall|q: int|
                q >= target as int ==> final(self).model_at(q) == project_model(
                    point.model(),
                    old(self).schedule.entries@,
                    target as int,
                    q,
                ),
    {
        let last = self.points.len() - 1;
        let c = Checkpoint { period: target, point };
        let ghost before = *self;
        self.points[last] = c;
        proof {
            let sp = before.points@;
            assert(self.points@ =~= sp.update(sp.len() - 1, c));
            assert forall|q: int|
                before.covers(q) && q < target as int implies self.model_at(q)
                == before.model_at(q) by {
                lemma_anchor_update_last(sp, c, q);
                lemma_anchor_props(sp, q);
                assert(anchor(sp, q) < sp.len() - 1);
                assert(anchor(sp.drop_last(), q) == anchor(sp, q));
            }
            assert forall|q: int| q >= target as int implies self.model_at(q) == project_model(
                point.model(),
                before.schedule.entries@,
                target as int,
                q,
            ) by {
                lemma_anchor_update_last(sp, c, q);
            }
        }
    }
}

} // verus!
