//! The gauge controller: registry, voting state machine and queries.
//!
//! The controller owns every store the system needs: the configuration, the
//! gauge registry with one checkpoint series per gauge, the live vote
//! records and each voter's allocated ratio. Mutating operations are
//! all-or-nothing: on any rejection the controller is unchanged.

use vstd::prelude::*;
use crate::errors::ContractError;
use crate::fixed::{Fixed, SCALE};
use crate::msg::{
    Config, InstantiateMsg, LockInfo, ExecuteMsg, QueryMsg, QueryAnswer, GaugeCountResponse,
    GaugeWeightResponse, GaugeWeightAtResponse, TotalWeightResponse, TotalWeightAtResponse,
    GaugeRelativeWeightResponse, GaugeRelativeWeightAtResponse, GaugeAddrResponse,
    AllGaugeAddrResponse, ConfigResponse,
};
use crate::series::{CheckpointSeries, WeightPoint};

verus! {

/// The basis-point denominator: a voter's whole voting power.
pub const MAX_RATIO: u64 = 10000;

/// A registered gauge: its address and its decay function.
pub struct GaugeEntry {
    pub addr: String,
    pub series: CheckpointSeries,
}

/// The live vote of one voter for one gauge. A new vote overwrites it; it is
/// never deleted.
pub struct VoteRecord {
    pub voter: String,
    pub gauge: String,
    /// The slope this vote contributed to the gauge.
    pub slope: Fixed,
    /// The period the vote was cast in.
    pub vote_period: u64,
    /// The period the voter's lock expires in, as reported at vote time.
    pub unlock_period: u64,
    /// The allocated share, in basis points.
    pub ratio: u64,
}

/// The total of a voter's allocations across all gauges, in basis points.
pub struct RatioRecord {
    pub voter: String,
    pub used: u64,
}

/// The timestamp's period: how many whole period durations have elapsed.
pub open spec fn spec_period(time: u64, duration: u64) -> int
    recommends
        duration > 0,
{
    time as int / duration as int
}

/// Timestamp to period index.
pub fn get_period(time: u64, duration: u64) -> (r: u64)
    requires
        duration > 0,
    ensures
        r == spec_period(time, duration),
{
    time / duration
}

/// The index of the gauge with address `a`, or -1 when none is registered.
pub open spec fn gauge_index(s: Seq<GaugeEntry>, a: Seq<char>) -> int
    decreases s.len(),
{
    if s.len() == 0 {
        -1
    } else if s[0].addr@ == a {
        0
    } else if gauge_index(s.drop_first(), a) == -1 {
        -1
    } else {
        gauge_index(s.drop_first(), a) + 1
    }
}

pub proof fn lemma_gauge_index_props(s: Seq<GaugeEntry>, a: Seq<char>)
    ensures
        gauge_index(s, a) == -1 ==> forall|i: int| 0 <= i < s.len() ==> s[i].addr@ != a,
        gauge_index(s, a) != -1 ==> 0 <= gauge_index(s, a) < s.len() && s[gauge_index(s, a)].addr@
            == a,
    decreases s.len(),
{
    if s.len() > 0 && s[0].addr@ != a {
        lemma_gauge_index_props(s.drop_first(), a);
        if gauge_index(s, a) == -1 {
            assert forall|i: int| 0 <= i < s.len() implies s[i].addr@ != a by {
                if i > 0 {
                    assert(s.drop_first()[i - 1] == s[i]);
                }
            }
        } else {
            assert(s.drop_first()[gauge_index(s.drop_first(), a)] == s[gauge_index(s, a)]);
        }
    }
}

/// The first match is the index: what the linear scan finds.
pub proof fn lemma_gauge_index_first(s: Seq<GaugeEntry>, a: Seq<char>, i: int)
    requires
        0 <= i < s.len(),
        s[i].addr@ == a,
        forall|j: int| 0 <= j < i ==> s[j].addr@ != a,
    ensures
        gauge_index(s, a) == i,
    decreases s.len(),
{
    if i > 0 {
        lemma_gauge_index_first(s.drop_first(), a, i - 1);
        assert(s.drop_first()[i - 1] == s[i]);
        assert(forall|j: int| 0 <= j < i - 1 ==> s.drop_first()[j] == s[j + 1]);
    }
}

/// The index of the vote of `v` for gauge `g`, or -1.
pub open spec fn vote_index(s: Seq<VoteRecord>, v: Seq<char>, g: Seq<char>) -> int
    decreases s.len(),
{
    if s.len() == 0 {
        -1
    } else if s[0].voter@ == v && s[0].gauge@ == g {
        0
    } else if vote_index(s.drop_first(), v, g) == -1 {
        -1
    } else {
        vote_index(s.drop_first(), v, g) + 1
    }
}

pub proof fn lemma_vote_index_props(s: Seq<VoteRecord>, v: Seq<char>, g: Seq<char>)
    ensures
        vote_index(s, v, g) == -1 ==> forall|i: int|
            0 <= i < s.len() ==> !(s[i].voter@ == v && s[i].gauge@ == g),
        vote_index(s, v, g) != -1 ==> 0 <= vote_index(s, v, g) < s.len() && s[vote_index(
            s,
            v,
            g,
        )].voter@ == v && s[vote_index(s, v, g)].gauge@ == g,
    decreases s.len(),
{
    if s.len() > 0 && !(s[0].voter@ == v && s[0].gauge@ == g) {
        lemma_vote_index_props(s.drop_first(), v, g);
        if vote_index(s, v, g) == -1 {
            assert forall|i: int|
                0 <= i < s.len() implies !(s[i].voter@ == v && s[i].gauge@ == g) by {
                if i > 0 {
                    assert(s.drop_first()[i - 1] == s[i]);
                }
            }
        } else {
            assert(s.drop_first()[vote_index(s.drop_first(), v, g)] == s[vote_index(s, v, g)]);
        }
    }
}

pub proof fn lemma_vote_index_first(s: Seq<VoteRecord>, v: Seq<char>, g: Seq<char>, i: int)
    requires
        0 <= i < s.len(),
        s[i].voter@ == v && s[i].gauge@ == g,
        forall|j: int| 0 <= j < i ==> !(s[j].voter@ == v && s[j].gauge@ == g),
    ensures
        vote_index(s, v, g) == i,
    decreases s.len(),
{
    if i > 0 {
        lemma_vote_index_first(s.drop_first(), v, g, i - 1);
        assert(s.drop_first()[i - 1] == s[i]);
        assert(forall|j: int| 0 <= j < i - 1 ==> s.drop_first()[j] == s[j + 1]);
    }
}

/// The index of the ratio record of voter `v`, or -1.
pub open spec fn ratio_index(s: Seq<RatioRecord>, v: Seq<char>) -> int
    decreases s.len(),
{
    if s.len() == 0 {
        -1
    } else if s[0].voter@ == v {
        0
    } else if ratio_index(s.drop_first(), v) == -1 {
        -1
    } else {
        ratio_index(s.drop_first(), v) + 1
    }
}

pub proof fn lemma_ratio_index_props(s: Seq<RatioRecord>, v: Seq<char>)
    ensures
        ratio_index(s, v) == -1 ==> forall|i: int| 0 <= i < s.len() ==> s[i].voter@ != v,
        ratio_index(s, v) != -1 ==> 0 <= ratio_index(s, v) < s.len() && s[ratio_index(
            s,
            v,
        )].voter@ == v,
    decreases s.len(),
{
    if s.len() > 0 && s[0].voter@ != v {
        lemma_ratio_index_props(s.drop_first(), v);
        if ratio_index(s, v) == -1 {
            assert forall|i: int| 0 <= i < s.len() implies s[i].voter@ != v by {
                if i > 0 {
                    assert(s.drop_first()[i - 1] == s[i]);
                }
            }
        } else {
            assert(s.drop_first()[ratio_index(s.drop_first(), v)] == s[ratio_index(s, v)]);
        }
    }
}

pub proof fn lemma_ratio_index_first(s: Seq<RatioRecord>, v: Seq<char>, i: int)
    requires
        0 <= i < s.len(),
        s[i].voter@ == v,
        forall|j: int| 0 <= j < i ==> s[j].voter@ != v,
    ensures
        ratio_index(s, v) == i,
    decreases s.len(),
{
    if i > 0 {
        lemma_ratio_index_first(s.drop_first(), v, i - 1);
        assert(s.drop_first()[i - 1] == s[i]);
        assert(forall|j: int| 0 <= j < i - 1 ==> s.drop_first()[j] == s[j + 1]);
    }
}

/// The sum, over all live vote records of voter `v`, of the allocated basis
/// points.
pub open spec fn sum_ratios(s: Seq<VoteRecord>, v: Seq<char>) -> nat
    decreases s.len(),
{
    if s.len() == 0 {
        0
    } else {
        (if s[0].voter@ == v {
            s[0].ratio as nat
        } else {
            0
        }) + sum_ratios(s.drop_first(), v)
    }
}

/// Appending a record adds its ratio to its voter's sum and nobody else's.
pub proof fn lemma_sum_ratios_push(s: Seq<VoteRecord>, r: VoteRecord, v: Seq<char>)
    ensures
        sum_ratios(s.push(r), v) == sum_ratios(s, v) + (if r.voter@ == v {
            r.ratio as nat
        } else {
            0
        }),
    decreases s.len(),
{
    if s.len() == 0 {
        assert(s.push(r).drop_first() =~= Seq::<VoteRecord>::empty());
        assert(sum_ratios(Seq::<VoteRecord>::empty(), v) == 0);
        assert(s.push(r)[0] == r);
    } else {
        assert(s.push(r).drop_first() =~= s.drop_first().push(r));
        lemma_sum_ratios_push(s.drop_first(), r, v);
    }
}

/// Replacing the record at `i` moves each voter's sum by the difference of
/// the old and new contributions.
pub proof fn lemma_sum_ratios_update(s: Seq<VoteRecord>, i: int, r: VoteRecord, v: Seq<char>)
    requires
        0 <= i < s.len(),
    ensures
        sum_ratios(s.update(i, r), v) + (if s[i].voter@ == v {
            s[i].ratio as nat
        } else {
            0
        }) == sum_ratios(s, v) + (if r.voter@ == v {
            r.ratio as nat
        } else {
            0
        }),
    decreases s.len(),
{
    if i == 0 {
        assert(s.update(0, r).drop_first() =~= s.drop_first());
    } else {
        assert(s.update(i, r).drop_first() =~= s.drop_first().update(i - 1, r));
        lemma_sum_ratios_update(s.drop_first(), i - 1, r, v);
    }
}

/// Each record's ratio is at most its voter's sum.
pub proof fn lemma_sum_ratios_bounds_member(s: Seq<VoteRecord>, i: int)
    requires
        0 <= i < s.len(),
    ensures
        s[i].ratio <= sum_ratios(s, s[i].voter@),
    decreases s.len(),
{
    if i > 0 {
        lemma_sum_ratios_bounds_member(s.drop_first(), i - 1);
        assert(s.drop_first()[i - 1] == s[i]);
    }
}

/// A voter with no vote records contributes to no sum.
pub proof fn lemma_sum_ratios_absent(s: Seq<VoteRecord>, v: Seq<char>)
    requires
        forall|i: int| 0 <= i < s.len() ==> s[i].voter@ != v,
    ensures
        sum_ratios(s, v) == 0,
    decreases s.len(),
{
    if s.len() > 0 {
        assert(forall|i: int| 0 <= i < s.drop_first().len() ==> s.drop_first()[i] == s[i + 1]);
        lemma_sum_ratios_absent(s.drop_first(), v);
    }
}

/// Replacing a ratio record by one for the same voter moves no index.
pub proof fn lemma_ratio_index_update_key(s: Seq<RatioRecord>, i: int, r: RatioRecord, v: Seq<char>)
    requires
        0 <= i < s.len(),
        r.voter@ == s[i].voter@,
    ensures
        ratio_index(s.update(i, r), v) == ratio_index(s, v),
    decreases s.len(),
{
    if i == 0 {
        assert(s.update(0, r).drop_first() =~= s.drop_first());
    } else {
        assert(s.update(i, r).drop_first() =~= s.drop_first().update(i - 1, r));
        lemma_ratio_index_update_key(s.drop_first(), i - 1, r, v);
    }
}

/// Appending a ratio record leaves every present voter's index alone and
/// indexes the new voter at the end.
pub proof fn lemma_ratio_index_push(s: Seq<RatioRecord>, r: RatioRecord, v: Seq<char>)
    ensures
        ratio_index(s, v) != -1 ==> ratio_index(s.push(r), v) == ratio_index(s, v),
        ratio_index(s, v) == -1 && r.voter@ == v ==> ratio_index(s.push(r), v) == s.len(),
        ratio_index(s, v) == -1 && r.voter@ != v ==> ratio_index(s.push(r), v) == -1,
    decreases s.len(),
{
    if s.len() == 0 {
        assert(s.push(r).drop_first() =~= Seq::<RatioRecord>::empty());
        assert(s.push(r)[0] == r);
        assert(ratio_index(Seq::<RatioRecord>::empty(), v) == -1);
        if r.voter@ == v {
            assert(ratio_index(s.push(r), v) == 0);
        } else {
            assert(ratio_index(s.push(r), v) == -1);
        }
    } else {
        assert(s.push(r).drop_first() =~= s.drop_first().push(r));
        assert(s.push(r)[0] == s[0]);
        lemma_ratio_index_push(s.drop_first(), r, v);
        let t = s.drop_first();
        if s[0].voter@ == v {
            assert(ratio_index(s, v) == 0);
            assert(ratio_index(s.push(r), v) == 0);
        } else {
            assert(ratio_index(s, v) == (if ratio_index(t, v) == -1 {
                -1int
            } else {
                ratio_index(t, v) + 1
            }));
            assert(ratio_index(s.push(r).drop_first(), v) == ratio_index(t.push(r), v));
            assert(ratio_index(s.push(r), v) == (if ratio_index(t.push(r), v) == -1 {
                -1int
            } else {
                ratio_index(t.push(r), v) + 1
            }));
            if ratio_index(s, v) == -1 && r.voter@ == v {
                lemma_ratio_index_props(t, v);
                assert(ratio_index(t, v) == -1);
                assert(ratio_index(t.push(r), v) == t.len());
                assert(ratio_index(s.push(r), v) == s.len());
            }
        }
    }
}

/// Half a whole unit, the rounding threshold of the dust rule.
pub const HALF_SCALE: u128 = 500_000_000;

/// The slope a vote contributes before the dust rule: the voter's full
/// slope scaled by the allocated ratio, rounded down to the fixed-point
/// grid.
pub open spec fn vote_slope_raw(ratio: u64, lock: LockInfo) -> int {
    (ratio * lock.slope_numerator * SCALE) / (10000 * lock.slope_denominator)
}

/// Whether the vote's whole future contribution rounds to zero: such a
/// slope is forced to zero so that no unkillable dust stays scheduled.
pub open spec fn vote_is_dust(ratio: u64, lock: LockInfo, p: int) -> bool {
    vote_slope_raw(ratio, lock) * (lock.unlock_period - p) < HALF_SCALE
}

/// The slope the vote actually applies.
pub open spec fn vote_slope(ratio: u64, lock: LockInfo, p: int) -> int {
    if vote_is_dust(ratio, lock, p) {
        0
    } else {
        vote_slope_raw(ratio, lock)
    }
}

/// Whether computing the vote's slope itself exceeds the representable
/// range: scaling the exact fraction, or its whole contribution over the
/// lock's remaining life.
pub open spec fn vote_slope_overflows(ratio: u64, lock: LockInfo, p: int) -> bool {
    ||| ratio * lock.slope_numerator * SCALE > u128::MAX
    ||| 10000 * lock.slope_denominator > u128::MAX
    ||| vote_slope_raw(ratio, lock) * (lock.unlock_period - p) > u128::MAX
}

/// The whole gauge-weight system.
pub struct Controller {
    pub config: Config,
    pub gauges: Vec<GaugeEntry>,
    pub votes: Vec<VoteRecord>,
    pub ratios: Vec<RatioRecord>,
}

impl Controller {
    /// Well-formedness. Gauge addresses are unique; every series is
    /// well-formed; there is at most one live vote per (voter, gauge) and at
    /// most one ratio record per voter; each voter's recorded total equals
    /// the sum of the ratios of their live votes and never exceeds
    /// `MAX_RATIO`; every voter with a vote has a ratio record.
    pub open spec fn wf(self) -> bool {
        &&& self.config.period_duration > 0
        &&& forall|i: int, j: int|
            0 <= i < j < self.gauges@.len() ==> self.gauges@[i].addr@ != self.gauges@[j].addr@
        &&& forall|i: int| 0 <= i < self.gauges@.len() ==> (#[trigger] self.gauges@[i]).series.wf()
        &&& forall|i: int, j: int|
            0 <= i < j < self.votes@.len() ==> !((#[trigger] self.votes@[i]).voter@
                == (#[trigger] self.votes@[j]).voter@ && self.votes@[i].gauge@
                == self.votes@[j].gauge@)
        &&& forall|i: int, j: int|
            0 <= i < j < self.ratios@.len() ==> (#[trigger] self.ratios@[i]).voter@
                != (#[trigger] self.ratios@[j]).voter@
        &&& forall|i: int|
            0 <= i < self.ratios@.len() ==> (#[trigger] self.ratios@[i]).used == sum_ratios(
                self.votes@,
                self.ratios@[i].voter@,
            ) && self.ratios@[i].used <= MAX_RATIO
        &&& forall|i: int|
            0 <= i < self.votes@.len() ==> ratio_index(
                self.ratios@,
                (#[trigger] self.votes@[i]).voter@,
            ) != -1
    }

    /// The ratio total recorded for voter `v`: zero when the voter never
    /// voted.
    pub open spec fn used_ratio_of(self, v: Seq<char>) -> nat {
        if ratio_index(self.ratios@, v) == -1 {
            0
        } else {
            self.ratios@[ratio_index(self.ratios@, v)].used as nat
        }
    }

    pub open spec fn has_gauge(self, a: Seq<char>) -> bool {
        gauge_index(self.gauges@, a) != -1
    }

    /// The series of the gauge with address `a`.
    pub open spec fn series_of(self, a: Seq<char>) -> CheckpointSeries {
        self.gauges@[gauge_index(self.gauges@, a)].series
    }

    /// The period a query or operation at `time` falls in.
    pub open spec fn period_at(self, time: u64) -> int {
        spec_period(time, self.config.period_duration)
    }

    /// Set up a fresh controller. Rejected only when the period duration is
    /// zero.
    pub fn instantiate(msg: InstantiateMsg) -> (r: Result<Controller, ContractError>)
        ensures
            msg.period_duration == 0 <==> r == Err::<Controller, _>(
                ContractError::InvalidPeriodDuration,
            ),
            msg.period_duration > 0 <==> r is Ok,
            r matches Ok(c) ==> c.wf() && c.config == (Config {
                owner: msg.owner,
                anchor_token: msg.anchor_token,
                anchor_voting_escrow: msg.anchor_voting_escrow,
                period_duration: msg.period_duration,
                user_vote_delay: msg.user_vote_delay,
            }) && c.gauges@.len() == 0 && c.votes@.len() == 0 && c.ratios@.len() == 0,
    {
        validate_period_duration(msg.period_duration)?;
        Ok(
            Controller {
                config: Config {
                    owner: msg.owner,
                    anchor_token: msg.anchor_token,
                    anchor_voting_escrow: msg.anchor_voting_escrow,
                    period_duration: msg.period_duration,
                    user_vote_delay: msg.user_vote_delay,
                },
                gauges: Vec::new(),
                votes: Vec::new(),
                ratios: Vec::new(),
            },
        )
    }

    /// The index of the gauge with address `addr`, if registered.
    fn find_gauge(&self, addr: &String) -> (r: Option<usize>)
        ensures
            self.has_gauge(addr@) ==> (r matches Some(i) && i == gauge_index(
                self.gauges@,
                addr@,
            )),
            !self.has_gauge(addr@) ==> r is None,
    {
        let n = self.gauges.len();
        let mut i: usize = 0;
        while i < n
            invariant
                n == self.gauges@.len(),
                i <= n,
                forall|j: int| 0 <= j < i ==> self.gauges@[j].addr@ != addr@,
            decreases n - i,
        {
            if self.gauges[i].addr.eq(addr) {
                proof {
                    lemma_gauge_index_first(self.gauges@, addr@, i as int);
                }
                return Some(i);
            }
            i = i + 1;
        }
        proof {
            lemma_gauge_index_props(self.gauges@, addr@);
        }
        None
    }

    /// The index of voter `v`'s live vote for gauge `g`, if any.
    fn find_vote(&self, v: &String, g: &String) -> (r: Option<usize>)
        ensures
            vote_index(self.votes@, v@, g@) != -1 ==> (r matches Some(i) && i == vote_index(
                self.votes@,
                v@,
                g@,
            )),
            vote_index(self.votes@, v@, g@) == -1 ==> r is None,
    {
        let n = self.votes.len();
        let mut i: usize = 0;
        while i < n
            invariant
                n == self.votes@.len(),
                i <= n,
                forall|j: int|
                    0 <= j < i ==> !((#[trigger] self.votes@[j]).voter@ == v@
                        && self.votes@[j].gauge@ == g@),
            decreases n - i,
        {
            if self.votes[i].voter.eq(v) && self.votes[i].gauge.eq(g) {
                proof {
                    lemma_vote_index_first(self.votes@, v@, g@, i as int);
                }
                return Some(i);
            }
            i = i + 1;
        }
        proof {
            lemma_vote_index_props(self.votes@, v@, g@);
        }
        None
    }

    /// The index of voter `v`'s ratio record, if any.
    fn find_ratio(&self, v: &String) -> (r: Option<usize>)
        ensures
            ratio_index(self.ratios@, v@) != -1 ==> (r matches Some(i) && i == ratio_index(
                self.ratios@,
                v@,
            )),
            ratio_index(self.ratios@, v@) == -1 ==> r is None,
    {
        let n = self.ratios.len();
        let mut i: usize = 0;
        while i < n
            invariant
                n == self.ratios@.len(),
                i <= n,
                forall|j: int| 0 <= j < i ==> (#[trigger] self.ratios@[j]).voter@ != v@,
            decreases n - i,
        {
            if self.ratios[i].voter.eq(v) {
                proof {
                    lemma_ratio_index_first(self.ratios@, v@, i as int);
                }
                return Some(i);
            }
            i = i + 1;
        }
        proof {
            lemma_ratio_index_props(self.ratios@, v@);
        }
        None
    }

    /// The summed weight of the first `n` gauges at period `p`.
    pub open spec fn sum_weights(gs: Seq<GaugeEntry>, p: int, n: int) -> nat
        decreases n,
    {
        if n <= 0 {
            0
        } else {
            Self::sum_weights(gs, p, n - 1) + gs[n - 1].series.weight_at(p)
        }
    }

    /// Whether every gauge's series covers period `p`.
    pub open spec fn all_cover(gs: Seq<GaugeEntry>, p: int) -> bool {
        forall|i: int| 0 <= i < gs.len() ==> (#[trigger] gs[i]).series.covers(p)
    }

    /// The aggregate weight at period `p`: the sum over all gauges of the
    /// reported (whole-unit) weight.
    pub open spec fn total_weight_spec(self, p: int) -> nat {
        Self::sum_weights(self.gauges@, p, self.gauges@.len() as int)
    }

    /// Whether a relative-weight query for this gauge at period `p` has
    /// both of its operands: the gauge is registered and every series
    /// covers `p`.
    pub open spec fn relative_weight_defined(self, a: Seq<char>, p: int) -> bool {
        &&& self.has_gauge(a)
        &&& self.series_of(a).covers(p)
        &&& Self::all_cover(self.gauges@, p)
    }

    /// The weight of the gauge at `gauge_addr`, at the period `time` falls
    /// in. Works for past, present or future times; rejected only when the
    /// gauge is unregistered or the period lies before its first checkpoint.
    pub fn query_gauge_weight_at(&self, gauge_addr: &String, time: u64) -> (r: Result<
        GaugeWeightAtResponse,
        ContractError,
    >)
        requires
            self.wf(),
        ensures
            r matches Ok(resp) ==> self.has_gauge(gauge_addr@) && self.series_of(
                gauge_addr@,
            ).covers(self.period_at(time)) && resp.gauge_weight_at == self.series_of(
                gauge_addr@,
            ).weight_at(self.period_at(time)),
            (self.has_gauge(gauge_addr@) && self.series_of(gauge_addr@).covers(
                self.period_at(time),
            )) ==> r is Ok,
            r is Err ==> r == Err::<GaugeWeightAtResponse, _>(ContractError::GaugeNotFound),
    {
        let gi = match self.find_gauge(gauge_addr) {
            Some(gi) => gi,
            None => {
                return Err(ContractError::GaugeNotFound);
            },
        };
        proof {
            lemma_gauge_index_props(self.gauges@, gauge_addr@);
        }
        let period = get_period(time, self.config.period_duration);
        match self.gauges[gi].series.project(period) {
            Some(w) => Ok(GaugeWeightAtResponse { gauge_weight_at: w.bias.floor() }),
            None => Err(ContractError::GaugeNotFound),
        }
    }

    /// The weight of the gauge at `gauge_addr` now.
    pub fn query_gauge_weight(&self, time: u64, gauge_addr: &String) -> (r: Result<
        GaugeWeightResponse,
        ContractError,
    >)
        requires
            self.wf(),
        ensures
            r matches Ok(resp) ==> self.has_gauge(gauge_addr@) && self.series_of(
                gauge_addr@,
            ).covers(self.period_at(time)) && resp.gauge_weight == self.series_of(
                gauge_addr@,
            ).weight_at(self.period_at(time)),
            (self.has_gauge(gauge_addr@) && self.series_of(gauge_addr@).covers(
                self.period_at(time),
            )) ==> r is Ok,
            r is Err ==> r == Err::<GaugeWeightResponse, _>(ContractError::GaugeNotFound),
    {
        let resp = self.query_gauge_weight_at(gauge_addr, time)?;
        Ok(GaugeWeightResponse { gauge_weight: resp.gauge_weight_at })
    }

    /// The aggregate weight at the period `time` falls in: the sum of every
    /// gauge's reported weight. Rejected when some gauge's series starts
    /// after that period, or when the sum does not fit in `u128`.
    pub fn query_total_weight_at(&self, time: u64) -> (r: Result<
        TotalWeightAtResponse,
        ContractError,
    >)
        requires
            self.wf(),
        ensures
            r matches Ok(resp) ==> Self::all_cover(self.gauges@, self.period_at(time))
                && resp.total_weight_at == self.total_weight_spec(self.period_at(time)),
            (Self::all_cover(self.gauges@, self.period_at(time)) && self.total_weight_spec(
                self.period_at(time),
            ) <= u128::MAX) ==> r is Ok,
            !Self::all_cover(self.gauges@, self.period_at(time)) <==> r == Err::<
                TotalWeightAtResponse,
                _,
            >(ContractError::GaugeNotFound),
            (Self::all_cover(self.gauges@, self.period_at(time)) && self.total_weight_spec(
                self.period_at(time),
            ) > u128::MAX) <==> r == Err::<TotalWeightAtResponse, _>(
                ContractError::ArithmeticOverflow,
            ),
    {
        let period = get_period(time, self.config.period_duration);
        let ghost p = self.period_at(time);
        let n = self.gauges.len();
        let mut i: usize = 0;
        while i < n
            invariant
                self.wf(),
                n == self.gauges@.len(),
                i <= n,
                period == p,
                p == self.period_at(time),
                forall|j: int| 0 <= j < i ==> (#[trigger] self.gauges@[j]).series.covers(p),
            decreases n - i,
        {
            if self.gauges[i].series.points[0].period > period {
                return Err(ContractError::GaugeNotFound);
            }
            i = i + 1;
        }
        let mut total: u128 = 0;
        let mut i: usize = 0;
        while i < n
            invariant
                self.wf(),
                n == self.gauges@.len(),
                i <= n,
                period == p,
                p == self.period_at(time),
                Self::all_cover(self.gauges@, p),
                total == Self::sum_weights(self.gauges@, p, i as int),
            decreases n - i,
        {
            let w = match self.gauges[i].series.project(period) {
                Some(w) => w,
                None => {
                    proof {
                        assert(self.gauges@[i as int].series.covers(p));
                    }
                    return Err(ContractError::GaugeNotFound);
                },
            };
            total = match total.checked_add(w.bias.floor()) {
                Some(t) => t,
                None => {
                    proof {
                        lemma_sum_weights_monotonic(self.gauges@, p, i as int + 1, n as int);
                    }
                    return Err(ContractError::ArithmeticOverflow);
                },
            };
            i = i + 1;
        }
        Ok(TotalWeightAtResponse { total_weight_at: total })
    }

    /// The aggregate weight now.
    pub fn query_total_weight(&self, time: u64) -> (r: Result<TotalWeightResponse, ContractError>)
        requires
            self.wf(),
        ensures
            r matches Ok(resp) ==> Self::all_cover(self.gauges@, self.period_at(time))
                && resp.total_weight == self.total_weight_spec(self.period_at(time)),
            (Self::all_cover(self.gauges@, self.period_at(time)) && self.total_weight_spec(
                self.period_at(time),
            ) <= u128::MAX) ==> r is Ok,
            !Self::all_cover(self.gauges@, self.period_at(time)) <==> r == Err::<
                TotalWeightResponse,
                _,
            >(ContractError::GaugeNotFound),
            (Self::all_cover(self.gauges@, self.period_at(time)) && self.total_weight_spec(
                self.period_at(time),
            ) > u128::MAX) <==> r == Err::<TotalWeightResponse, _>(
                ContractError::ArithmeticOverflow,
            ),
    {
        let resp = self.query_total_weight_at(time)?;
        Ok(TotalWeightResponse { total_weight: resp.total_weight_at })
    }

    /// The share of the aggregate weight held by one gauge, at the period
    /// `time` falls in: gauge weight divided by aggregate weight, as a
    /// fixed-point fraction rounded down. Rejected with `TotalWeightIsZero`
    /// when the aggregate weight is zero.
    pub fn query_gauge_relative_weight_at(&self, gauge_addr: &String, time: u64) -> (r: Result<
        GaugeRelativeWeightAtResponse,
        ContractError,
    >)
        requires
            self.wf(),
        ensures
            r matches Ok(resp) ==> {
                &&& self.relative_weight_defined(gauge_addr@, self.period_at(time))
                &&& 0 < self.total_weight_spec(self.period_at(time)) <= u128::MAX
                &&& resp.gauge_relative_weight_at.value() == (self.series_of(
                    gauge_addr@,
                ).weight_at(self.period_at(time)) * SCALE) as int / self.total_weight_spec(
                    self.period_at(time),
                ) as int
            },
            (self.relative_weight_defined(gauge_addr@, self.period_at(time)) && 0
                < self.total_weight_spec(self.period_at(time)) <= u128::MAX) <==> r is Ok,
            r == Err::<GaugeRelativeWeightAtResponse, _>(ContractError::GaugeNotFound)
                <==> !self.relative_weight_defined(gauge_addr@, self.period_at(time)),
            r == Err::<GaugeRelativeWeightAtResponse, _>(ContractError::ArithmeticOverflow) <==> (
            self.relative_weight_defined(gauge_addr@, self.period_at(time))
                && self.total_weight_spec(self.period_at(time)) > u128::MAX),
            r == Err::<GaugeRelativeWeightAtResponse, _>(ContractError::TotalWeightIsZero) <==> (
            self.relative_weight_defined(gauge_addr@, self.period_at(time))
                && self.total_weight_spec(self.period_at(time)) == 0),
    {
        let gw = self.query_gauge_weight_at(gauge_addr, time)?;
        let tw = self.query_total_weight_at(time)?;
        if tw.total_weight_at == 0 {
            return Err(ContractError::TotalWeightIsZero);
        }
        proof {
            lemma_gauge_index_props(self.gauges@, gauge_addr@);
            self.series_of(gauge_addr@).lemma_weight_scaled_bounded(self.period_at(time));
        }
        match Fixed::checked_from_ratio(gw.gauge_weight_at, tw.total_weight_at) {
            Some(share) => Ok(GaugeRelativeWeightAtResponse { gauge_relative_weight_at: share }),
            None => {
                // Ruled out: the gauge weight was floored from a bias that
                // fits, so scaling it back cannot overflow.
                proof {
                    assert(false);
                }
                Err(ContractError::ArithmeticOverflow)
            },
        }
    }

    /// The share of the aggregate weight held by one gauge, now.
    pub fn query_gauge_relative_weight(&self, time: u64, gauge_addr: &String) -> (r: Result<
        GaugeRelativeWeightResponse,
        ContractError,
    >)
        requires
            self.wf(),
        ensures
            r matches Ok(resp) ==> {
                &&& self.relative_weight_defined(gauge_addr@, self.period_at(time))
                &&& 0 < self.total_weight_spec(self.period_at(time)) <= u128::MAX
                &&& resp.gauge_relative_weight.value() == (self.series_of(gauge_addr@).weight_at(
                    self.period_at(time),
                ) * SCALE) as int / self.total_weight_spec(self.period_at(time)) as int
            },
            (self.relative_weight_defined(gauge_addr@, self.period_at(time)) && 0
                < self.total_weight_spec(self.period_at(time)) <= u128::MAX) <==> r is Ok,
            r == Err::<GaugeRelativeWeightResponse, _>(ContractError::GaugeNotFound)
                <==> !self.relative_weight_defined(gauge_addr@, self.period_at(time)),
            r == Err::<GaugeRelativeWeightResponse, _>(ContractError::ArithmeticOverflow) <==> (
            self.relative_weight_defined(gauge_addr@, self.period_at(time))
                && self.total_weight_spec(self.period_at(time)) > u128::MAX),
            r == Err::<GaugeRelativeWeightResponse, _>(ContractError::TotalWeightIsZero) <==> (
            self.relative_weight_defined(gauge_addr@, self.period_at(time))
                && self.total_weight_spec(self.period_at(time)) == 0),
    {
        let resp = self.query_gauge_relative_weight_at(gauge_addr, time)?;
        Ok(GaugeRelativeWeightResponse { gauge_relative_weight: resp.gauge_relative_weight_at })
    }

    /// How many gauges are registered. Ids are assigned sequentially and
    /// never reused, so this is also the next id.
    pub fn query_gauge_count(&self) -> (r: GaugeCountResponse)
        requires
            self.wf(),
        ensures
            r.gauge_count == self.gauges@.len(),
    {
        GaugeCountResponse { gauge_count: self.gauges.len() as u64 }
    }

    /// The address of the gauge with id `gauge_id`; ids are positions in
    /// registration order. Rejected when the id is out of range.
    pub fn query_gauge_addr(&self, gauge_id: u64) -> (r: Result<GaugeAddrResponse, ContractError>)
        requires
            self.wf(),
        ensures
            gauge_id < self.gauges@.len() <==> (r matches Ok(resp) && resp.gauge_addr@
                == self.gauges@[gauge_id as int].addr@),
            gauge_id >= self.gauges@.len() <==> r == Err::<GaugeAddrResponse, _>(
                ContractError::GaugeNotFound,
            ),
    {
        if gauge_id >= self.gauges.len() as u64 {
            return Err(ContractError::GaugeNotFound);
        }
        let addr = self.gauges[gauge_id as usize].addr.clone();
        Ok(GaugeAddrResponse { gauge_addr: addr })
    }

    /// All gauge addresses, in registration order.
    pub fn query_all_gauge_addr(&self) -> (r: AllGaugeAddrResponse)
        requires
            self.wf(),
        ensures
            r.all_gauge_addr@.len() == self.gauges@.len(),
            forall|i: int|
                0 <= i < self.gauges@.len() ==> r.all_gauge_addr@[i]@ == (
                #[trigger] self.gauges@[i]).addr@,
    {
        let n = self.gauges.len();
        let mut all: Vec<String> = Vec::new();
        let mut i: usize = 0;
        while i < n
            invariant
                self.wf(),
                n == self.gauges@.len(),
                i <= n,
                all@.len() == i,
                forall|j: int|
                    0 <= j < i ==> all@[j]@ == (#[trigger] self.gauges@[j]).addr@,
            decreases n - i,
        {
            all.push(self.gauges[i].addr.clone());
            i = i + 1;
        }
        AllGaugeAddrResponse { all_gauge_addr: all }
    }

    /// The contract of `add_gauge`: when it succeeds and with what state,
    /// and which error each rejection carries.
    pub open spec fn add_gauge_post(
        pre: Controller,
        post: Controller,
        r: Result<(), ContractError>,
        sender: Seq<char>,
        time: u64,
        gauge_addr: Seq<char>,
        weight: u128,
    ) -> bool {
        &&& (r is Err ==> post == pre)
        &&& (r == Err::<(), _>(ContractError::Unauthorized) <==> sender != pre.config.owner@)
        &&& (r == Err::<(), _>(ContractError::GaugeAlreadyExists) <==> (sender
            == pre.config.owner@ && pre.has_gauge(gauge_addr)))
        &&& (r == Err::<(), _>(ContractError::ArithmeticOverflow) <==> (sender
            == pre.config.owner@ && !pre.has_gauge(gauge_addr) && weight * SCALE > u128::MAX))
        &&& (r is Ok <==> (sender == pre.config.owner@ && !pre.has_gauge(gauge_addr) && weight
            * SCALE <= u128::MAX))
        &&& (r is Ok ==> {
            &&& post.gauges@.len() == pre.gauges@.len() + 1
            &&& forall|j: int| 0 <= j < pre.gauges@.len() ==> post.gauges@[j] == pre.gauges@[j]
            &&& post.gauges@.last().addr@ == gauge_addr
            &&& post.gauges@.last().series.points@.len() == 1
            &&& post.gauges@.last().series.points@[0].period as int == pre.period_at(time)
            &&& post.gauges@.last().series.points@[0].point.bias.value() == weight * SCALE
            &&& post.gauges@.last().series.points@[0].point.slope.value() == 0
            &&& forall|q: int| post.gauges@.last().series.schedule.at(q) == 0
        })
        &&& post.config == pre.config
        &&& post.votes == pre.votes
        &&& post.ratios == pre.ratios
    }

    /// Register a new gauge, owner-only. The gauge's series is seeded at the
    /// current period with the given weight as bias and no slope, and the
    /// gauge receives the next sequential id.
    pub fn add_gauge(&mut self, sender: &String, time: u64, gauge_addr: String, weight: u128) -> (r:
        Result<(), ContractError>)
        requires
            old(self).wf(),
        ensures
            final(self).wf(),
            Self::add_gauge_post(*old(self), *final(self), r, sender@, time, gauge_addr@, weight),
    {
        if !sender.eq(&self.config.owner) {
            return Err(ContractError::Unauthorized);
        }
        match self.find_gauge(&gauge_addr) {
            Some(_) => {
                return Err(ContractError::GaugeAlreadyExists);
            },
            None => {},
        }
        let bias = match Fixed::checked_from_whole(weight) {
            Some(b) => b,
            None => {
                return Err(ContractError::ArithmeticOverflow);
            },
        };
        let period = get_period(time, self.config.period_duration);
        let series = CheckpointSeries::new(period, bias);
        proof {
            lemma_gauge_index_props(self.gauges@, gauge_addr@);
        }
        self.gauges.push(GaugeEntry { addr: gauge_addr, series });
        Ok(())
    }

    /// The contract of `change_gauge_weight`.
    pub open spec fn change_gauge_weight_post(
        pre: Controller,
        post: Controller,
        r: Result<(), ContractError>,
        sender: Seq<char>,
        time: u64,
        gauge_addr: Seq<char>,
        weight: u128,
    ) -> bool {
        &&& (r is Err ==> post == pre)
        &&& (r == Err::<(), _>(ContractError::Unauthorized) <==> sender != pre.config.owner@)
        &&& (r == Err::<(), _>(ContractError::GaugeNotFound) <==> (sender == pre.config.owner@
            && !pre.has_gauge(gauge_addr)))
        &&& (r == Err::<(), _>(ContractError::TimestampError) <==> (sender == pre.config.owner@
            && pre.has_gauge(gauge_addr) && pre.period_at(time) < pre.series_of(
            gauge_addr,
        ).last_period()))
        &&& (r == Err::<(), _>(ContractError::ArithmeticOverflow) <==> (sender
            == pre.config.owner@ && pre.has_gauge(gauge_addr) && pre.period_at(time)
            >= pre.series_of(gauge_addr).last_period() && weight * SCALE > u128::MAX))
        &&& (r is Ok <==> (sender == pre.config.owner@ && pre.has_gauge(gauge_addr)
            && pre.period_at(time) >= pre.series_of(gauge_addr).last_period() && weight * SCALE
            <= u128::MAX))
        &&& (r is Ok ==> ({
            let gi = gauge_index(pre.gauges@, gauge_addr);
            let p = pre.period_at(time);
            let os = pre.series_of(gauge_addr);
            let ns = post.gauges@[gi].series;
            &&& post.gauges@.len() == pre.gauges@.len()
            &&& forall|j: int|
                0 <= j < pre.gauges@.len() && j != gi ==> post.gauges@[j] == pre.gauges@[j]
            &&& post.gauges@[gi].addr@ == gauge_addr
            &&& ns.schedule == os.schedule
            &&& ns.first_period() == os.first_period()
            &&& ns.last_period() == p
            &&& ns.last_point().model() == (crate::series::PointModel {
                bias: (weight * SCALE) as nat,
                slope: os.model_at(p).slope,
            })
            &&& forall|q: int| os.covers(q) && q < p ==> ns.model_at(q) == os.model_at(q)
            &&& forall|q: int|
                q >= p ==> ns.model_at(q) == crate::series::project_model(
                    crate::series::PointModel {
                        bias: (weight * SCALE) as nat,
                        slope: os.model_at(p).slope,
                    },
                    os.schedule.entries@,
                    p,
                    q,
                )
        }))
        &&& post.config == pre.config
        &&& post.votes == pre.votes
        &&& post.ratios == pre.ratios
    }

    /// Replace a gauge's bias at the current period, owner-only. The gauge
    /// is caught up first, so its slope at the current period is kept and
    /// decay continues from the new bias.
    pub fn change_gauge_weight(&mut self, sender: &String, time: u64, gauge_addr: &String,
        weight: u128) -> (r: Result<(), ContractError>)
        requires
            old(self).wf(),
        ensures
            final(self).wf(),
            Self::change_gauge_weight_post(
                *old(self),
                *final(self),
                r,
                sender@,
                time,
                gauge_addr@,
                weight,
            ),
    {
        if !sender.eq(&self.config.owner) {
            return Err(ContractError::Unauthorized);
        }
        let gi = match self.find_gauge(gauge_addr) {
            Some(gi) => gi,
            None => {
                return Err(ContractError::GaugeNotFound);
            },
        };
        proof {
            lemma_gauge_index_props(self.gauges@, gauge_addr@);
        }
        let period = get_period(time, self.config.period_duration);
        let last = self.gauges[gi].series.last_recorded();
        if period < last {
            return Err(ContractError::TimestampError);
        }
        let bias = match Fixed::checked_from_whole(weight) {
            Some(b) => b,
            None => {
                return Err(ContractError::ArithmeticOverflow);
            },
        };
        proof {
            assert(self.gauges@[gi as int].series.points@[0].period
                <= self.gauges@[gi as int].series.points@[self.gauges@[gi as int].series.points@.len()
                - 1].period);
        }
        let slope = match self.gauges[gi].series.project(period) {
            Some(w) => w.slope,
            None => {
                return Err(ContractError::TimestampError);
            },
        };
        match self.gauges[gi].series.catch_up(period) {
            Ok(_) => {},
            Err(_) => {
                return Err(ContractError::TimestampError);
            },
        }
        self.gauges[gi].series.record(period, WeightPoint { bias, slope });
        proof {
            assert(final(self).gauges@ =~= old(self).gauges@.update(gi as int,
                final(self).gauges@[gi as int]));
        }
        Ok(())
    }

    /// The contract of `update_config`.
    pub open spec fn update_config_post(
        pre: Controller,
        post: Controller,
        r: Result<(), ContractError>,
        sender: Seq<char>,
        owner: Option<String>,
        anchor_token: Option<String>,
        anchor_voting_escrow: Option<String>,
        user_vote_delay: Option<u64>,
    ) -> bool {
        &&& (r is Err ==> post == pre)
        &&& (r == Err::<(), _>(ContractError::Unauthorized) <==> sender != pre.config.owner@)
        &&& (r is Ok <==> sender == pre.config.owner@)
        &&& (r is Ok ==> {
            &&& post.config.owner@ == (if owner is Some {
                owner.unwrap()@
            } else {
                pre.config.owner@
            })
            &&& post.config.anchor_token@ == (if anchor_token is Some {
                anchor_token.unwrap()@
            } else {
                pre.config.anchor_token@
            })
            &&& post.config.anchor_voting_escrow@ == (if anchor_voting_escrow is Some {
                anchor_voting_escrow.unwrap()@
            } else {
                pre.config.anchor_voting_escrow@
            })
            &&& post.config.user_vote_delay == (if user_vote_delay is Some {
                user_vote_delay.unwrap()
            } else {
                pre.config.user_vote_delay
            })
            &&& post.config.period_duration == pre.config.period_duration
        })
        &&& post.gauges == pre.gauges
        &&& post.votes == pre.votes
        &&& post.ratios == pre.ratios
    }

    /// Update the configuration, owner-only. Each field given replaces the
    /// stored one; fields not given stay.
    pub fn update_config(&mut self, sender: &String, owner: Option<String>, anchor_token: Option<
        String,
    >, anchor_voting_escrow: Option<String>, user_vote_delay: Option<u64>) -> (r: Result<
        (),
        ContractError,
    >)
        requires
            old(self).wf(),
        ensures
            final(self).wf(),
            Self::update_config_post(
                *old(self),
                *final(self),
                r,
                sender@,
                owner,
                anchor_token,
                anchor_voting_escrow,
                user_vote_delay,
            ),
    {
        if !sender.eq(&self.config.owner) {
            return Err(ContractError::Unauthorized);
        }
        match owner {
            Some(o) => {
                self.config.owner = o;
            },
            None => {},
        }
        match anchor_token {
            Some(t) => {
                self.config.anchor_token = t;
            },
            None => {},
        }
        match anchor_voting_escrow {
            Some(e) => {
                self.config.anchor_voting_escrow = e;
            },
            None => {},
        }
        match user_vote_delay {
            Some(d) => {
                self.config.user_vote_delay = d;
            },
            None => {},
        }
        Ok(())
    }

    /// Whether a prior vote of `v` for gauge `g` still has influence to
    /// remove at period `p`: its unlock period is still in the future.
    pub open spec fn vote_removal_applies(self, v: Seq<char>, g: Seq<char>, p: int) -> bool {
        let vi = vote_index(self.votes@, v, g);
        vi != -1 && self.votes@[vi].unlock_period > p
    }

    /// The point the gauge holds right after a vote is applied at period
    /// `p`: the caught-up point, plus the new vote's contribution, minus the
    /// prior vote's remaining contribution (floored at zero).
    pub open spec fn vote_new_point(
        self,
        v: Seq<char>,
        g: Seq<char>,
        ratio: u64,
        lock: LockInfo,
        p: int,
    ) -> crate::series::PointModel {
        let base = self.series_of(g).model_at(p);
        let u = vote_slope(ratio, lock, p) as nat;
        let dt = (lock.unlock_period - p) as nat;
        let b1 = (base.bias + u * dt) as nat;
        let s1 = (base.slope + u) as nat;
        if self.vote_removal_applies(v, g, p) {
            let vi = vote_index(self.votes@, v, g);
            let ps = self.votes@[vi].slope.value();
            let dto = (self.votes@[vi].unlock_period - p) as nat;
            crate::series::PointModel {
                bias: crate::fixed::sat_sub(b1, ps * dto),
                slope: crate::fixed::sat_sub(s1, ps),
            }
        } else {
            crate::series::PointModel { bias: b1, slope: s1 }
        }
    }

    /// Whether applying the computed slope would exceed the representable
    /// fixed-point range: in the caught-up point or in the accumulated
    /// schedule entry.
    pub open spec fn vote_apply_overflows(
        self,
        g: Seq<char>,
        ratio: u64,
        lock: LockInfo,
        p: int,
    ) -> bool {
        let base = self.series_of(g).model_at(p);
        let dt = lock.unlock_period - p;
        let u = vote_slope(ratio, lock, p);
        ||| base.bias + u * dt > u128::MAX
        ||| base.slope + u > u128::MAX
        ||| self.series_of(g).schedule.at(lock.unlock_period as int) + u > u128::MAX
    }

    /// The first reason a vote of `v` for gauge `g` is rejected, or `None`
    /// when it is accepted. The checks run in this order.
    pub open spec fn vote_error(
        self,
        v: Seq<char>,
        g: Seq<char>,
        ratio: u64,
        time: u64,
        lock: LockInfo,
    ) -> Option<ContractError> {
        let p = self.period_at(time);
        let vi = vote_index(self.votes@, v, g);
        let old_ratio: int = if vi == -1 {
            0
        } else {
            self.votes@[vi].ratio as int
        };
        if ratio > MAX_RATIO {
            Some(ContractError::InvalidVotingRatio)
        } else if !self.has_gauge(g) {
            Some(ContractError::GaugeNotFound)
        } else if vi != -1 && p < self.votes@[vi].vote_period
            + self.config.user_vote_delay {
            Some(ContractError::VoteTooOften)
        } else if self.used_ratio_of(v) + ratio - old_ratio > MAX_RATIO {
            Some(ContractError::InsufficientVotingRatio)
        } else if lock.unlock_period <= p {
            Some(ContractError::LockExpiresTooSoon)
        } else if vote_slope_overflows(ratio, lock, p) {
            Some(ContractError::ArithmeticOverflow)
        } else if p < self.series_of(g).last_period() {
            Some(ContractError::TimestampError)
        } else if self.vote_apply_overflows(g, ratio, lock, p) {
            Some(ContractError::ArithmeticOverflow)
        } else {
            None
        }
    }

    /// How an accepted vote transforms the state: the gauge's series is
    /// caught up to the vote's period and holds the new point; the new
    /// slope is scheduled to leave at the lock's unlock period and the
    /// prior vote's pending reduction is cancelled; the vote record is
    /// replaced and the voter's allocated ratio adjusted. Nothing else
    /// changes.
    pub open spec fn vote_transform(
        pre: Controller,
        post: Controller,
        v: Seq<char>,
        g: Seq<char>,
        time: u64,
        ratio: u64,
        lock: LockInfo,
    ) -> bool {
        let p = pre.period_at(time);
        let gi = gauge_index(pre.gauges@, g);
        let vi = vote_index(pre.votes@, v, g);
        let u = vote_slope(ratio, lock, p) as nat;
        let os = pre.gauges@[gi].series;
        let ns = post.gauges@[gi].series;
        let np = pre.vote_new_point(v, g, ratio, lock, p);
        let cancel = pre.vote_removal_applies(v, g, p);
        let pu: int = if vi != -1 {
            pre.votes@[vi].unlock_period as int
        } else {
            0
        };
        let ps: nat = if vi != -1 {
            pre.votes@[vi].slope.value()
        } else {
            0
        };
        let used = pre.used_ratio_of(v);
        let old_ratio: int = if vi != -1 {
            pre.votes@[vi].ratio as int
        } else {
            0
        };
        let ri = ratio_index(pre.ratios@, v);
        let ni: int = if vi == -1 {
            pre.votes@.len() as int
        } else {
            vi
        };
        &&& post.config == pre.config
        &&& post.gauges@.len() == pre.gauges@.len()
        &&& forall|j: int|
            0 <= j < pre.gauges@.len() && j != gi ==> post.gauges@[j] == pre.gauges@[j]
        &&& post.gauges@[gi].addr@ == g
        &&& ns.first_period() == os.first_period()
        &&& ns.last_period() == p
        &&& ns.last_point().model() == np
        &&& forall|q: int|
            q != lock.unlock_period as int && !(cancel && q == pu) ==> ns.schedule.at(q)
                == os.schedule.at(q)
        &&& (!(cancel && pu == lock.unlock_period as int) ==> ns.schedule.at(
            lock.unlock_period as int,
        ) == os.schedule.at(lock.unlock_period as int) + u)
        &&& (cancel && pu == lock.unlock_period as int ==> ns.schedule.at(pu)
            == crate::fixed::sat_sub((os.schedule.at(pu) + u) as nat, ps))
        &&& (cancel && pu != lock.unlock_period as int ==> ns.schedule.at(pu)
            == crate::fixed::sat_sub(os.schedule.at(pu), ps))
        &&& forall|q: int| os.covers(q) && q < p ==> ns.model_at(q) == os.model_at(q)
        &&& forall|q: int|
            q >= p ==> ns.model_at(q) == crate::series::project_model(
                np,
                ns.schedule.entries@,
                p,
                q,
            )
        &&& (vi == -1 ==> post.votes@.len() == pre.votes@.len() + 1 && (forall|j: int|
            0 <= j < pre.votes@.len() ==> post.votes@[j] == pre.votes@[j]))
        &&& (vi != -1 ==> post.votes@.len() == pre.votes@.len() && (forall|j: int|
            0 <= j < pre.votes@.len() && j != vi ==> post.votes@[j] == pre.votes@[j]))
        &&& post.votes@[ni].voter@ == v
        &&& post.votes@[ni].gauge@ == g
        &&& post.votes@[ni].slope.value() == u
        &&& post.votes@[ni].vote_period == p
        &&& post.votes@[ni].unlock_period == lock.unlock_period
        &&& post.votes@[ni].ratio == ratio
        &&& (ri == -1 ==> post.ratios@.len() == pre.ratios@.len() + 1 && (forall|j: int|
            0 <= j < pre.ratios@.len() ==> post.ratios@[j] == pre.ratios@[j])
            && post.ratios@.last().voter@ == v && post.ratios@.last().used == ratio)
        &&& (ri != -1 ==> post.ratios@.len() == pre.ratios@.len() && (forall|j: int|
            0 <= j < pre.ratios@.len() && j != ri ==> post.ratios@[j] == pre.ratios@[j])
            && post.ratios@[ri].voter@ == v && post.ratios@[ri].used == used + ratio
            - old_ratio)
    }

    /// The contract of `vote_for_gauge_weight`: the first failing check
    /// decides the error and an error changes nothing; an accepted vote
    /// transforms the state as `vote_transform` says.
    pub open spec fn vote_post(
        pre: Controller,
        post: Controller,
        r: Result<(), ContractError>,
        v: Seq<char>,
        g: Seq<char>,
        time: u64,
        ratio: u64,
        lock: LockInfo,
    ) -> bool {
        &&& (r is Err ==> post == pre)
        &&& (pre.vote_error(v, g, ratio, time, lock) matches Some(e) ==> r == Err::<
            (),
            ContractError,
        >(e))
        &&& ((pre.vote_error(v, g, ratio, time, lock) is None) <==> r is Ok)
        &&& (r is Ok ==> Self::vote_transform(pre, post, v, g, time, ratio, lock))
    }

    /// Cast or replace a vote: allocate `ratio` basis points of the
    /// sender's voting power to the gauge, as of `time`, with the lock that
    /// the escrow reported in `lock`. A prior vote for the same gauge is
    /// fully replaced: its remaining contribution and its scheduled
    /// reduction are removed. All checks precede every write: a rejected
    /// vote changes nothing.
    pub fn vote_for_gauge_weight(
        &mut self,
        sender: String,
        time: u64,
        gauge_addr: String,
        ratio: u64,
        lock: LockInfo,
    ) -> (r: Result<(), ContractError>)
        requires
            old(self).wf(),
            lock.slope_denominator > 0,
        ensures
            final(self).wf(),
            Self::vote_post(
                *old(self),
                *final(self),
                r,
                sender@,
                gauge_addr@,
                time,
                ratio,
                lock,
            ),
    {
        if ratio > MAX_RATIO {
            return Err(ContractError::InvalidVotingRatio);
        }
        let gi = match self.find_gauge(&gauge_addr) {
            Some(gi) => gi,
            None => {
                return Err(ContractError::GaugeNotFound);
            },
        };
        proof {
            lemma_gauge_index_props(self.gauges@, gauge_addr@);
        }
        let p = get_period(time, self.config.period_duration);
        let vi_opt = self.find_vote(&sender, &gauge_addr);
        proof {
            lemma_vote_index_props(self.votes@, sender@, gauge_addr@);
        }
        let mut old_ratio: u64 = 0;
        match vi_opt {
            Some(vi) => {
                old_ratio = self.votes[vi].ratio;
                if (p as u128) < (self.votes[vi].vote_period as u128) + (
                self.config.user_vote_delay as u128) {
                    return Err(ContractError::VoteTooOften);
                }
            },
            None => {},
        }
        let ri_opt = self.find_ratio(&sender);
        proof {
            lemma_ratio_index_props(self.ratios@, sender@);
            match vi_opt {
                Some(vi) => {
                    lemma_sum_ratios_bounds_member(self.votes@, vi as int);
                },
                None => {},
            }
        }
        let used: u64 = match ri_opt {
            Some(ri) => self.ratios[ri].used,
            None => 0,
        };
        if used - old_ratio + ratio > MAX_RATIO {
            return Err(ContractError::InsufficientVotingRatio);
        }
        if lock.unlock_period <= p {
            return Err(ContractError::LockExpiresTooSoon);
        }
        // The scaled slope, with every multiplication checked: the escrow's
        // fraction is arbitrary 128-bit.
        let numerator: u128 = match (ratio as u128).checked_mul(lock.slope_numerator) {
            Some(n) => n,
            None => {
                proof {
                    assert((ratio as u128) * lock.slope_numerator * SCALE > u128::MAX)
                        by (nonlinear_arith)
                        requires
                            (ratio as u128) * lock.slope_numerator > u128::MAX,
                            SCALE >= 1,
                    ;
                }
                return Err(ContractError::ArithmeticOverflow);
            },
        };
        let denominator: u128 = match 10000u128.checked_mul(lock.slope_denominator) {
            Some(d) => d,
            None => {
                return Err(ContractError::ArithmeticOverflow);
            },
        };
        let u_raw = match Fixed::checked_from_ratio(numerator, denominator) {
            Some(f) => f,
            None => {
                return Err(ContractError::ArithmeticOverflow);
            },
        };
        let dt = lock.unlock_period - p;
        let x = match u_raw.checked_mul_u64(dt) {
            Some(x) => x,
            None => {
                return Err(ContractError::ArithmeticOverflow);
            },
        };
        let dust = x.atomics < HALF_SCALE;
        let u = if dust {
            Fixed::zero()
        } else {
            u_raw
        };
        let bias_add = if dust {
            Fixed::zero()
        } else {
            x
        };
        let last = self.gauges[gi].series.last_recorded();
        if p < last {
            return Err(ContractError::TimestampError);
        }
        proof {
            assert(self.gauges@[gi as int].series.points@[0].period
                <= self.gauges@[gi as int].series.points@[self.gauges@[
                gi as int].series.points@.len() - 1].period);
        }
        let w = match self.gauges[gi].series.project(p) {
            Some(w) => w,
            None => {
                return Err(ContractError::TimestampError);
            },
        };
        let b1 = match w.bias.checked_add(bias_add) {
            Some(b) => b,
            None => {
                return Err(ContractError::ArithmeticOverflow);
            },
        };
        let s1 = match w.slope.checked_add(u) {
            Some(s) => s,
            None => {
                return Err(ContractError::ArithmeticOverflow);
            },
        };
        let cur_red = self.gauges[gi].series.schedule.reduction_at(lock.unlock_period);
        match cur_red.checked_add(u) {
            Some(_) => {},
            None => {
                return Err(ContractError::ArithmeticOverflow);
            },
        }
        // The prior vote's remaining contribution, removed after the new one
        // is added, both floored at zero.
        let mut new_b = b1;
        let mut new_s = s1;
        let mut cancel = false;
        let mut prior_slope = Fixed::zero();
        let mut prior_unlock: u64 = 0;
        match vi_opt {
            Some(vi) => {
                if self.votes[vi].unlock_period > p {
                    let dt_old = self.votes[vi].unlock_period - p;
                    new_b = match self.votes[vi].slope.checked_mul_u64(dt_old) {
                        Some(d) => b1.saturating_sub(d),
                        None => Fixed::zero(),
                    };
                    new_s = s1.saturating_sub(self.votes[vi].slope);
                    cancel = true;
                    prior_slope = self.votes[vi].slope;
                    prior_unlock = self.votes[vi].unlock_period;
                }
            },
            None => {},
        }
        // Everything is validated and computed: commit.
        let ghost pre = *old(self);
        let ghost os = self.gauges@[gi as int].series;
        match self.gauges[gi].series.schedule.add(lock.unlock_period, u) {
            Ok(_) => {},
            Err(_) => {
                // Ruled out by the pre-checked sum above.
                proof {
                    assert(false);
                }
                return Err(ContractError::ArithmeticOverflow);
            },
        }
        if cancel {
            self.gauges[gi].series.schedule.cancel(prior_unlock, prior_slope);
        }
        let ghost s2 = self.gauges@[gi as int].series;
        match self.gauges[gi].series.catch_up(p) {
            Ok(_) => {},
            Err(_) => {
                // Ruled out: the period was already checked against the last
                // checkpoint.
                proof {
                    assert(false);
                }
                return Err(ContractError::TimestampError);
            },
        }
        self.gauges[gi].series.record(p, WeightPoint { bias: new_b, slope: new_s });
        let ghost ns = self.gauges@[gi as int].series;
        let rec = VoteRecord {
            voter: sender.clone(),
            gauge: gauge_addr,
            slope: u,
            vote_period: p,
            unlock_period: lock.unlock_period,
            ratio,
        };
        let ghost votes0 = self.votes@;
        match vi_opt {
            Some(vi) => {
                self.votes[vi] = rec;
            },
            None => {
                self.votes.push(rec);
            },
        }
        let new_used = used - old_ratio + ratio;
        let ghost ratios0 = self.ratios@;
        match ri_opt {
            Some(ri) => {
                self.ratios[ri] = RatioRecord { voter: sender, used: new_used };
            },
            None => {
                self.ratios.push(RatioRecord { voter: sender, used: new_used });
            },
        }
        proof {
            let v = sender@;
            let g = rec.gauge@;
            let pp = p as int;
            let gii = gi as int;
            // The untouched gauges keep their entries; the series chain
            // gives the updated gauge's clauses.
            assert forall|q: int| os.covers(q) && q < pp implies s2.model_at(q) == os.model_at(
                q,
            ) by {
                crate::series::lemma_anchor_props(os.points@, q);
                let a = crate::series::anchor(os.points@, q);
                let from = os.points@[a].period as int;
                assert forall|x: int|
                    from < x <= q implies crate::schedule::delta_at(s2.schedule.entries@, x)
                    == crate::schedule::delta_at(os.schedule.entries@, x) by {
                    assert(x < lock.unlock_period as int);
                    if cancel {
                        assert(x < prior_unlock as int);
                    }
                    assert(s2.schedule.at(x) == os.schedule.at(x));
                }
                crate::series::lemma_project_same_deltas(
                    os.points@[a].point.model(),
                    s2.schedule.entries@,
                    os.schedule.entries@,
                    from,
                    q,
                );
            }
            assert(numerator == ratio * lock.slope_numerator);
            assert(denominator == 10000 * lock.slope_denominator);
            assert(u_raw.value() == vote_slope_raw(ratio, lock));
            assert(x.value() == vote_slope_raw(ratio, lock) * (lock.unlock_period - pp));
            assert(dust == vote_is_dust(ratio, lock, pp));
            assert(u.value() == vote_slope(ratio, lock, pp) as nat);
            assert(bias_add.value() == vote_slope(ratio, lock, pp) * (lock.unlock_period - pp));
            assert(w.model() == pre.series_of(g).model_at(pp));
            let npt = pre.vote_new_point(v, g, ratio, lock, pp);
            assert(b1.value() == pre.series_of(g).model_at(pp).bias + vote_slope(
                ratio,
                lock,
                pp,
            ) * (lock.unlock_period - pp));
            assert(s1.value() == pre.series_of(g).model_at(pp).slope + vote_slope(
                ratio,
                lock,
                pp,
            ));
            assert(cancel == pre.vote_removal_applies(v, g, pp));
            if cancel {
                let vip = vote_index(pre.votes@, v, g);
                let psv = pre.votes@[vip].slope.value();
                let dto = (pre.votes@[vip].unlock_period - pp) as nat;
                assert(new_b.value() == crate::fixed::sat_sub(b1.value(), psv * dto));
                assert(new_s.value() == crate::fixed::sat_sub(s1.value(), psv));
            }
            assert(ns.last_point().model() == npt);
            // Vote uniqueness and ratio-sum consistency.
            let vi = vote_index(votes0, v, g);
            let ri = ratio_index(ratios0, v);
            if vi != -1 {
                assert(self.votes@ =~= votes0.update(vi, rec));
                lemma_sum_ratios_update(votes0, vi, rec, v);
            } else {
                assert(self.votes@ =~= votes0.push(rec));
                lemma_sum_ratios_push(votes0, rec, v);
            }
            if ri == -1 {
                assert forall|i: int| 0 <= i < votes0.len() implies votes0[i].voter@ != v by {
                    lemma_ratio_index_props(ratios0, votes0[i].voter@);
                }
                lemma_sum_ratios_absent(votes0, v);
            }
            assert forall|i: int|
                0 <= i < self.ratios@.len() implies (#[trigger] self.ratios@[i]).used
                == sum_ratios(self.votes@, self.ratios@[i].voter@) && self.ratios@[i].used
                <= MAX_RATIO by {
                let vv = self.ratios@[i].voter@;
                if ri != -1 && i == ri {
                } else if ri == -1 && i == ratios0.len() {
                } else {
                    assert(self.ratios@[i] == ratios0[i]);
                    assert(vv != v) by {
                        if ri != -1 {
                            assert(ratios0[ri].voter@ == v);
                        } else {
                            lemma_ratio_index_props(ratios0, vv);
                            lemma_ratio_index_first(ratios0, vv, i);
                        }
                    }
                    if vi != -1 {
                        lemma_sum_ratios_update(votes0, vi, rec, vv);
                        assert(votes0[vi].voter@ == v);
                    } else {
                        lemma_sum_ratios_push(votes0, rec, vv);
                    }
                }
            }
            assert forall|i: int|
                0 <= i < self.votes@.len() implies ratio_index(
                self.ratios@,
                (#[trigger] self.votes@[i]).voter@,
            ) != -1 by {
                let vv = self.votes@[i].voter@;
                if ri != -1 {
                    lemma_ratio_index_update_key(
                        ratios0,
                        ri,
                        RatioRecord { voter: rec.voter, used: new_used },
                        vv,
                    );
                    if !(vi == -1 && i == votes0.len()) && !(vi != -1 && i == vi) {
                        assert(self.votes@[i] == votes0[i]);
                    }
                } else {
                    lemma_ratio_index_push(
                        ratios0,
                        RatioRecord { voter: rec.voter, used: new_used },
                        vv,
                    );
                    if !(vi == -1 && i == votes0.len()) && !(vi != -1 && i == vi) {
                        assert(self.votes@[i] == votes0[i]);
                    }
                }
            }
        }
        Ok(())
    }

    /// The current configuration.
    pub fn query_config(&self) -> (r: ConfigResponse)
        requires
            self.wf(),
        ensures
            r.owner@ == self.config.owner@,
            r.anchor_token@ == self.config.anchor_token@,
            r.anchor_voting_escrow@ == self.config.anchor_voting_escrow@,
            r.period_duration == self.config.period_duration,
            r.user_vote_delay == self.config.user_vote_delay,
    {
        ConfigResponse {
            owner: self.config.owner.clone(),
            anchor_token: self.config.anchor_token.clone(),
            anchor_voting_escrow: self.config.anchor_voting_escrow.clone(),
            period_duration: self.config.period_duration,
            user_vote_delay: self.config.user_vote_delay,
        }
    }

    /// Dispatch a state-changing message from `sender` at `time`. `lock` is
    /// what the lock authority reported for the sender at call time; only
    /// the voting arm reads it.
    pub fn execute(&mut self, sender: String, time: u64, msg: ExecuteMsg, lock: LockInfo) -> (r:
        Result<(), ContractError>)
        requires
            old(self).wf(),
            msg matches ExecuteMsg::VoteForGaugeWeight { .. } ==> lock.slope_denominator > 0,
        ensures
            final(self).wf(),
            (msg matches ExecuteMsg::AddGauge { gauge_addr, weight } ==> Self::add_gauge_post(
                *old(self),
                *final(self),
                r,
                sender@,
                time,
                gauge_addr@,
                weight,
            )),
            (msg matches ExecuteMsg::ChangeGaugeWeight { gauge_addr, weight }
                ==> Self::change_gauge_weight_post(
                *old(self),
                *final(self),
                r,
                sender@,
                time,
                gauge_addr@,
                weight,
            )),
            (msg matches ExecuteMsg::VoteForGaugeWeight { gauge_addr, ratio } ==> Self::vote_post(
                *old(self),
                *final(self),
                r,
                sender@,
                gauge_addr@,
                time,
                ratio,
                lock,
            )),
            (msg matches ExecuteMsg::UpdateConfig {
                owner,
                anchor_token,
                anchor_voting_escrow,
                user_vote_delay,
            } ==> Self::update_config_post(
                *old(self),
                *final(self),
                r,
                sender@,
                owner,
                anchor_token,
                anchor_voting_escrow,
                user_vote_delay,
            )),
    {
        match msg {
            ExecuteMsg::AddGauge { gauge_addr, weight } => self.add_gauge(
                &sender,
                time,
                gauge_addr,
                weight,
            ),
            ExecuteMsg::ChangeGaugeWeight { gauge_addr, weight } => self.change_gauge_weight(
                &sender,
                time,
                &gauge_addr,
                weight,
            ),
            ExecuteMsg::VoteForGaugeWeight { gauge_addr, ratio } => self.vote_for_gauge_weight(
                sender,
                time,
                gauge_addr,
                ratio,
                lock,
            ),
            ExecuteMsg::UpdateConfig {
                owner,
                anchor_token,
                anchor_voting_escrow,
                user_vote_delay,
            } => self.update_config(
                &sender,
                owner,
                anchor_token,
                anchor_voting_escrow,
                user_vote_delay,
            ),
        }
    }

    /// Dispatch a read-only query at `time`. Nothing is written; the answer
    /// is the matching query's response.
    pub fn query(&self, time: u64, msg: QueryMsg) -> (r: Result<QueryAnswer, ContractError>)
        requires
            self.wf(),
        ensures
            (msg matches QueryMsg::GaugeCount ==> (r matches Ok(a) && (a matches
                QueryAnswer::GaugeCount(c) && c.gauge_count == self.gauges@.len()))),
            (msg matches QueryMsg::GaugeWeight { gauge_addr } ==> {
                &&& (r matches Ok(a) ==> (a matches QueryAnswer::GaugeWeight(resp)
                    && self.has_gauge(gauge_addr@) && self.series_of(gauge_addr@).covers(
                    self.period_at(time),
                ) && resp.gauge_weight == self.series_of(gauge_addr@).weight_at(
                    self.period_at(time),
                )))
                &&& (self.has_gauge(gauge_addr@) && self.series_of(gauge_addr@).covers(
                    self.period_at(time),
                ) ==> r is Ok)
                &&& (r is Err ==> r == Err::<QueryAnswer, _>(ContractError::GaugeNotFound))
            }),
            (msg matches QueryMsg::GaugeWeightAt { gauge_addr, time: t } ==> {
                &&& (r matches Ok(a) ==> (a matches QueryAnswer::GaugeWeightAt(resp)
                    && self.has_gauge(gauge_addr@) && self.series_of(gauge_addr@).covers(
                    self.period_at(t),
                ) && resp.gauge_weight_at == self.series_of(gauge_addr@).weight_at(
                    self.period_at(t),
                )))
                &&& (self.has_gauge(gauge_addr@) && self.series_of(gauge_addr@).covers(
                    self.period_at(t),
                ) ==> r is Ok)
                &&& (r is Err ==> r == Err::<QueryAnswer, _>(ContractError::GaugeNotFound))
            }),
            (msg matches QueryMsg::TotalWeight ==> {
                &&& (r matches Ok(a) ==> (a matches QueryAnswer::TotalWeight(resp)
                    && Self::all_cover(self.gauges@, self.period_at(time)) && resp.total_weight
                    == self.total_weight_spec(self.period_at(time))))
                &&& (Self::all_cover(self.gauges@, self.period_at(time))
                    && self.total_weight_spec(self.period_at(time)) <= u128::MAX ==> r is Ok)
                &&& (!Self::all_cover(self.gauges@, self.period_at(time)) <==> r == Err::<
                    QueryAnswer,
                    _,
                >(ContractError::GaugeNotFound))
                &&& (Self::all_cover(self.gauges@, self.period_at(time))
                    && self.total_weight_spec(self.period_at(time)) > u128::MAX <==> r == Err::<
                    QueryAnswer,
                    _,
                >(ContractError::ArithmeticOverflow))
            }),
            (msg matches QueryMsg::TotalWeightAt { time: t } ==> {
                &&& (r matches Ok(a) ==> (a matches QueryAnswer::TotalWeightAt(resp)
                    && Self::all_cover(self.gauges@, self.period_at(t)) && resp.total_weight_at
                    == self.total_weight_spec(self.period_at(t))))
                &&& (Self::all_cover(self.gauges@, self.period_at(t)) && self.total_weight_spec(
                    self.period_at(t),
                ) <= u128::MAX ==> r is Ok)
                &&& (!Self::all_cover(self.gauges@, self.period_at(t)) <==> r == Err::<
                    QueryAnswer,
                    _,
                >(ContractError::GaugeNotFound))
                &&& (Self::all_cover(self.gauges@, self.period_at(t)) && self.total_weight_spec(
                    self.period_at(t),
                ) > u128::MAX <==> r == Err::<QueryAnswer, _>(ContractError::ArithmeticOverflow))
            }),
            (msg matches QueryMsg::GaugeRelativeWeight { gauge_addr } ==> {
                &&& (r matches Ok(a) ==> (a matches QueryAnswer::GaugeRelativeWeight(resp)
                    && self.relative_weight_defined(gauge_addr@, self.period_at(time))
                    && self.total_weight_spec(self.period_at(time)) > 0
                    && resp.gauge_relative_weight.value() == (self.series_of(
                    gauge_addr@,
                ).weight_at(self.period_at(time)) * SCALE) as int / self.total_weight_spec(
                    self.period_at(time),
                ) as int))
                &&& (self.relative_weight_defined(gauge_addr@, self.period_at(time)) && 0
                    < self.total_weight_spec(self.period_at(time)) <= u128::MAX <==> r is Ok)
                &&& (!self.relative_weight_defined(gauge_addr@, self.period_at(time)) <==> r
                    == Err::<QueryAnswer, _>(ContractError::GaugeNotFound))
                &&& (self.relative_weight_defined(gauge_addr@, self.period_at(time))
                    && self.total_weight_spec(self.period_at(time)) > u128::MAX <==> r == Err::<
                    QueryAnswer,
                    _,
                >(ContractError::ArithmeticOverflow))
                &&& (self.relative_weight_defined(gauge_addr@, self.period_at(time))
                    && self.total_weight_spec(self.period_at(time)) == 0 <==> r == Err::<
                    QueryAnswer,
                    _,
                >(ContractError::TotalWeightIsZero))
            }),
            (msg matches QueryMsg::GaugeRelativeWeightAt { gauge_addr, time: t } ==> {
                &&& (r matches Ok(a) ==> (a matches QueryAnswer::GaugeRelativeWeightAt(resp)
                    && self.relative_weight_defined(gauge_addr@, self.period_at(t))
                    && self.total_weight_spec(self.period_at(t)) > 0
                    && resp.gauge_relative_weight_at.value() == (self.series_of(
                    gauge_addr@,
                ).weight_at(self.period_at(t)) * SCALE) as int / self.total_weight_spec(
                    self.period_at(t),
                ) as int))
                &&& (self.relative_weight_defined(gauge_addr@, self.period_at(t)) && 0
                    < self.total_weight_spec(self.period_at(t)) <= u128::MAX <==> r is Ok)
                &&& (!self.relative_weight_defined(gauge_addr@, self.period_at(t)) <==> r
                    == Err::<QueryAnswer, _>(ContractError::GaugeNotFound))
                &&& (self.relative_weight_defined(gauge_addr@, self.period_at(t))
                    && self.total_weight_spec(self.period_at(t)) > u128::MAX <==> r == Err::<
                    QueryAnswer,
                    _,
                >(ContractError::ArithmeticOverflow))
                &&& (self.relative_weight_defined(gauge_addr@, self.period_at(t))
                    && self.total_weight_spec(self.period_at(t)) == 0 <==> r == Err::<
                    QueryAnswer,
                    _,
                >(ContractError::TotalWeightIsZero))
            }),
            (msg matches QueryMsg::GaugeAddr { gauge_id } ==> {
                &&& (gauge_id < self.gauges@.len() ==> (r matches Ok(a) && (a matches
                    QueryAnswer::GaugeAddr(resp) && resp.gauge_addr@ == self.gauges@[
                    gauge_id as int].addr@)))
                &&& (gauge_id >= self.gauges@.len() <==> r == Err::<QueryAnswer, _>(
                    ContractError::GaugeNotFound,
                ))
            }),
            (msg matches QueryMsg::AllGaugeAddr ==> (r matches Ok(a) && (a matches
                QueryAnswer::AllGaugeAddr(resp) && resp.all_gauge_addr@.len()
                == self.gauges@.len() && (forall|i: int|
                0 <= i < self.gauges@.len() ==> resp.all_gauge_addr@[i]@ == (
                #[trigger] self.gauges@[i]).addr@)))),
            (msg matches QueryMsg::Config ==> (r matches Ok(a) && (a matches QueryAnswer::Config(
                resp,
            ) && resp.owner@ == self.config.owner@ && resp.anchor_token@
                == self.config.anchor_token@ && resp.anchor_voting_escrow@
                == self.config.anchor_voting_escrow@ && resp.period_duration
                == self.config.period_duration && resp.user_vote_delay
                == self.config.user_vote_delay))),
    {
        match msg {
            QueryMsg::GaugeCount => Ok(QueryAnswer::GaugeCount(self.query_gauge_count())),
            QueryMsg::GaugeWeight { gauge_addr } => {
                let resp = self.query_gauge_weight(time, &gauge_addr)?;
                Ok(QueryAnswer::GaugeWeight(resp))
            },
            QueryMsg::GaugeWeightAt { gauge_addr, time: t } => {
                let resp = self.query_gauge_weight_at(&gauge_addr, t)?;
                Ok(QueryAnswer::GaugeWeightAt(resp))
            },
            QueryMsg::TotalWeight => {
                let resp = self.query_total_weight(time)?;
                Ok(QueryAnswer::TotalWeight(resp))
            },
            QueryMsg::TotalWeightAt { time: t } => {
                let resp = self.query_total_weight_at(t)?;
                Ok(QueryAnswer::TotalWeightAt(resp))
            },
            QueryMsg::GaugeRelativeWeight { gauge_addr } => {
                let resp = self.query_gauge_relative_weight(time, &gauge_addr)?;
                Ok(QueryAnswer::GaugeRelativeWeight(resp))
            },
            QueryMsg::GaugeRelativeWeightAt { gauge_addr, time: t } => {
                let resp = self.query_gauge_relative_weight_at(&gauge_addr, t)?;
                Ok(QueryAnswer::GaugeRelativeWeightAt(resp))
            },
            QueryMsg::GaugeAddr { gauge_id } => {
                let resp = self.query_gauge_addr(gauge_id)?;
                Ok(QueryAnswer::GaugeAddr(resp))
            },
            QueryMsg::AllGaugeAddr => Ok(QueryAnswer::AllGaugeAddr(self.query_all_gauge_addr())),
            QueryMsg::Config => Ok(QueryAnswer::Config(self.query_config())),
        }
    }
}

/// The first match is before `gauge_index`'s result.
pub proof fn lemma_gauge_index_is_first(s: Seq<GaugeEntry>, a: Seq<char>)
    ensures
        gauge_index(s, a) != -1 ==> forall|j: int|
            0 <= j < gauge_index(s, a) ==> s[j].addr@ != a,
    decreases s.len(),
{
    if s.len() > 0 && s[0].addr@ != a && gauge_index(s, a) != -1 {
        lemma_gauge_index_is_first(s.drop_first(), a);
        lemma_gauge_index_props(s.drop_first(), a);
        assert forall|j: int| 0 <= j < gauge_index(s, a) implies s[j].addr@ != a by {
            if j > 0 {
                assert(s.drop_first()[j - 1] == s[j]);
            }
        }
    }
}

/// Each voter's recorded allocation equals the sum of the ratios of their
/// live vote records and never exceeds the whole of their voting power.
pub proof fn lemma_allocated_ratio_consistent(c: Controller, v: Seq<char>)
    requires
        c.wf(),
    ensures
        c.used_ratio_of(v) == sum_ratios(c.votes@, v),
        c.used_ratio_of(v) <= MAX_RATIO,
{
    lemma_ratio_index_props(c.ratios@, v);
    if ratio_index(c.ratios@, v) == -1 {
        assert forall|i: int| 0 <= i < c.votes@.len() implies c.votes@[i].voter@ != v by {
            if c.votes@[i].voter@ == v {
                assert(ratio_index(c.ratios@, (#[trigger] c.votes@[i]).voter@) != -1);
            }
        }
        lemma_sum_ratios_absent(c.votes@, v);
    }
}

/// Every stored and projected weight is non-negative: biases and slopes are
/// counts of atomic units, so the floor at zero can never be undershot.
pub proof fn lemma_weights_nonnegative(s: crate::series::CheckpointSeries, p: int)
    requires
        s.wf(),
    ensures
        s.model_at(p).bias >= 0,
        s.model_at(p).slope >= 0,
{
}

/// Replacing a vote leaves no stale scheduling behind: when a voter's first
/// vote for a gauge is superseded while its unlock period is still pending,
/// the reduction it scheduled is removed exactly, the new vote's reduction
/// is the only one added, and the voter's allocation counts only the new
/// ratio. At most one live record per (voter, gauge) exists throughout.
pub proof fn lemma_revote_replaces_schedule(
    c0: Controller,
    c1: Controller,
    c2: Controller,
    v: Seq<char>,
    g: Seq<char>,
    t1: u64,
    r1: u64,
    lock1: LockInfo,
    t2: u64,
    r2: u64,
    lock2: LockInfo,
)
    requires
        c0.wf(),
        c1.wf(),
        Controller::vote_transform(c0, c1, v, g, t1, r1, lock1),
        Controller::vote_transform(c1, c2, v, g, t2, r2, lock2),
        c0.has_gauge(g),
        vote_index(c0.votes@, v, g) == -1,
        lock1.unlock_period > c1.period_at(t2),
    ensures
        ({
            let gi = gauge_index(c0.gauges@, g);
            let u2 = vote_slope(r2, lock2, c1.period_at(t2)) as nat;
            &&& (lock1.unlock_period != lock2.unlock_period ==> c2.gauges@[
                gi].series.schedule.at(lock1.unlock_period as int) == c0.series_of(
                g,
            ).schedule.at(lock1.unlock_period as int))
            &&& (lock1.unlock_period != lock2.unlock_period ==> c2.gauges@[
                gi].series.schedule.at(lock2.unlock_period as int) == c0.series_of(
                g,
            ).schedule.at(lock2.unlock_period as int) + u2)
            &&& (lock1.unlock_period == lock2.unlock_period ==> c2.gauges@[
                gi].series.schedule.at(lock1.unlock_period as int) == c0.series_of(
                g,
            ).schedule.at(lock1.unlock_period as int) + u2)
            &&& sum_ratios(c2.votes@, v) == sum_ratios(c0.votes@, v) + r2
        }),
{
    let gi = gauge_index(c0.gauges@, g);
    let p1 = c0.period_at(t1);
    let p2 = c1.period_at(t2);
    let u1 = vote_slope(r1, lock1, p1) as nat;
    lemma_gauge_index_props(c0.gauges@, g);
    lemma_gauge_index_is_first(c0.gauges@, g);
    // The gauge keeps its index across the first vote.
    assert forall|j: int| 0 <= j < gi implies c1.gauges@[j].addr@ != g by {
        assert(c1.gauges@[j] == c0.gauges@[j]);
    }
    lemma_gauge_index_first(c1.gauges@, g, gi);
    // The first vote's record is the one the second vote finds.
    let ni = c0.votes@.len() as int;
    lemma_vote_index_props(c0.votes@, v, g);
    assert forall|j: int| 0 <= j < ni implies !(c1.votes@[j].voter@ == v && c1.votes@[j].gauge@
        == g) by {
        assert(c1.votes@[j] == c0.votes@[j]);
    }
    lemma_vote_index_first(c1.votes@, v, g, ni);
    let rec1 = c1.votes@[ni];
    assert(rec1.slope.value() == u1);
    assert(rec1.unlock_period == lock1.unlock_period);
    let u2 = vote_slope(r2, lock2, p2) as nat;
    // The second vote cancels exactly the first vote's reduction and leaves
    // only its own.
    assert(c1.vote_removal_applies(v, g, p2));
    assert(c1.series_of(g) == c1.gauges@[gi].series);
    assert(c1.gauges@[gi].series.schedule.at(lock1.unlock_period as int) == c0.series_of(
        g,
    ).schedule.at(lock1.unlock_period as int) + u1);
    if lock1.unlock_period != lock2.unlock_period {
        assert(c2.gauges@[gi].series.schedule.at(lock1.unlock_period as int)
            == crate::fixed::sat_sub(
            c1.gauges@[gi].series.schedule.at(lock1.unlock_period as int),
            u1,
        ));
        assert(c1.gauges@[gi].series.schedule.at(lock2.unlock_period as int) == c0.series_of(
            g,
        ).schedule.at(lock2.unlock_period as int));
        assert(c2.gauges@[gi].series.schedule.at(lock2.unlock_period as int) == c1.gauges@[
            gi].series.schedule.at(lock2.unlock_period as int) + u2);
    } else {
        assert(c2.gauges@[gi].series.schedule.at(lock1.unlock_period as int)
            == crate::fixed::sat_sub(
            (c1.gauges@[gi].series.schedule.at(lock1.unlock_period as int) + u2) as nat,
            u1,
        ));
    }
    // The voter's allocation counts only the final ratio.
    let rec2 = c2.votes@[ni];
    assert(c2.votes@ =~= c1.votes@.update(ni, rec2));
    lemma_sum_ratios_update(c1.votes@, ni, rec2, v);
    lemma_sum_ratios_push(c0.votes@, rec1, v);
    assert(c1.votes@ =~= c0.votes@.push(rec1));
}

/// Re-voting fully replaces the superseded vote: casting a first vote and
/// then replacing it leaves the gauge on exactly the weight trajectory of
/// casting only the final vote, from the replacement's period on — no
/// double counting and no stale scheduled reduction. `c0` is the state
/// before any vote; `c1` after the first vote at `t1`; `c2` after the
/// replacement at `t2`; `c2alt` after casting only the final vote on `c0`.
/// The one proviso is that the gauge's own decay between the two votes
/// never hits the zero floor, which would erase part of what the
/// replacement later subtracts.
pub proof fn lemma_revote_equals_single_vote(
    c0: Controller,
    c1: Controller,
    c2: Controller,
    c2alt: Controller,
    v: Seq<char>,
    g: Seq<char>,
    t1: u64,
    r1: u64,
    lock1: LockInfo,
    t2: u64,
    r2: u64,
    lock2: LockInfo,
)
    requires
        c0.wf(),
        c1.wf(),
        Controller::vote_transform(c0, c1, v, g, t1, r1, lock1),
        Controller::vote_transform(c1, c2, v, g, t2, r2, lock2),
        Controller::vote_transform(c0, c2alt, v, g, t2, r2, lock2),
        c0.has_gauge(g),
        vote_index(c0.votes@, v, g) == -1,
        c0.period_at(t1) <= c0.period_at(t2),
        c0.period_at(t1) >= c0.series_of(g).last_period(),
        lock1.unlock_period > c0.period_at(t2),
        lock2.unlock_period > c0.period_at(t2),
        crate::series::no_clamp(
            c0.series_of(g).model_at(c0.period_at(t1)),
            c1.series_of(g).schedule.entries@,
            c0.period_at(t1),
            c0.period_at(t2),
        ),
    ensures
        forall|q: int|
            q >= c0.period_at(t2) ==> c2.gauges@[gauge_index(c0.gauges@, g)].series.model_at(q)
                == c2alt.gauges@[gauge_index(c0.gauges@, g)].series.model_at(q),
{
    let gi = gauge_index(c0.gauges@, g);
    let p1 = c0.period_at(t1);
    let p2 = c0.period_at(t2);
    let u1 = vote_slope(r1, lock1, p1) as nat;
    let u2 = vote_slope(r2, lock2, p2) as nat;
    let uu1 = lock1.unlock_period as int;
    let uu2 = lock2.unlock_period as int;
    let base0 = c0.series_of(g).model_at(p1);
    lemma_gauge_index_props(c0.gauges@, g);
    lemma_gauge_index_is_first(c0.gauges@, g);
    assert(c1.period_at(t2) == p2);
    // The gauge keeps its index and the first vote's record is the one the
    // replacement finds.
    assert forall|j: int| 0 <= j < gi implies c1.gauges@[j].addr@ != g by {
        assert(c1.gauges@[j] == c0.gauges@[j]);
    }
    lemma_gauge_index_first(c1.gauges@, g, gi);
    let ni = c0.votes@.len() as int;
    lemma_vote_index_props(c0.votes@, v, g);
    assert forall|j: int| 0 <= j < ni implies !(c1.votes@[j].voter@ == v && c1.votes@[j].gauge@
        == g) by {
        assert(c1.votes@[j] == c0.votes@[j]);
    }
    lemma_vote_index_first(c1.votes@, v, g, ni);
    let rec1 = c1.votes@[ni];
    assert(rec1.slope.value() == u1);
    assert(rec1.unlock_period == lock1.unlock_period);
    assert(rec1.vote_period == p1);

    let os0 = c0.series_of(g);
    let os1 = c1.series_of(g);
    assert(os1 == c1.gauges@[gi].series);
    let m0 = os0.schedule.entries@;
    let m1 = os1.schedule.entries@;
    let np1 = c0.vote_new_point(v, g, r1, lock1, p1);
    assert(!c0.vote_removal_applies(v, g, p1));
    assert(np1 == (crate::series::PointModel {
        bias: (base0.bias + u1 * (uu1 - p1)) as nat,
        slope: (base0.slope + u1) as nat,
    }));
    // The first vote's contribution rides through the decay intact.
    crate::series::lemma_lock_contribution_cancels(base0, m1, p1, p2, u1, uu1);
    let pp = crate::series::project_model(base0, m1, p1, p2);
    let base2 = os1.model_at(p2);
    assert(base2 == crate::series::project_model(np1, m1, p1, p2));
    assert(base2.bias == pp.bias + u1 * (uu1 - p2));
    assert(base2.slope == pp.slope + u1);
    // The replacement's new point: add the final vote, remove the first
    // exactly.
    let np2 = c1.vote_new_point(v, g, r2, lock2, p2);
    assert(c1.vote_removal_applies(v, g, p2));
    assert(u1 * ((uu1 - p2) as nat) == u1 * (uu1 - p2));
    assert(np2.bias == pp.bias + u2 * (uu2 - p2)) by {
        assert(np2.bias == crate::fixed::sat_sub(
            (base2.bias + u2 * ((uu2 - p2) as nat)) as nat,
            u1 * ((uu1 - p2) as nat),
        ));
        assert(u2 * ((uu2 - p2) as nat) >= 0);
    }
    assert(np2.slope == pp.slope + u2);
    // Casting only the final vote lands on the same point.
    let np2alt = c0.vote_new_point(v, g, r2, lock2, p2);
    assert(!c0.vote_removal_applies(v, g, p2));
    let base0p2 = os0.model_at(p2);
    assert forall|x: int| p1 < x <= p2 implies crate::schedule::delta_at(m1, x)
        == crate::schedule::delta_at(m0, x) by {
        assert(x != uu1);
        assert(os1.schedule.at(x) == os0.schedule.at(x));
    }
    crate::series::lemma_project_same_deltas(base0, m1, m0, p1, p2);
    // Advancing the base alone from p1 to p2 is what c0 reports at p2.
    crate::series::lemma_anchor_props(os0.points@, p1);
    crate::series::lemma_anchor_props(os0.points@, p2);
    let n0 = os0.points@.len();
    assert(os0.points@[n0 - 1].period <= p1);
    assert(crate::series::anchor(os0.points@, p1) == n0 - 1);
    assert(crate::series::anchor(os0.points@, p2) == n0 - 1);
    crate::series::lemma_project_split(
        os0.points@[n0 - 1].point.model(),
        m0,
        os0.points@[n0 - 1].period as int,
        p1,
        p2,
    );
    assert(base0p2 == crate::series::project_model(base0, m0, p1, p2));
    assert(base0p2 == pp);
    assert(np2alt == np2);
    // The two final schedules agree everywhere.
    let m2 = c2.gauges@[gi].series.schedule.entries@;
    let m2alt = c2alt.gauges@[gi].series.schedule.entries@;
    assert forall|x: int| crate::schedule::delta_at(m2, x) == crate::schedule::delta_at(
        m2alt,
        x,
    ) by {
        let a2 = c2.gauges@[gi].series.schedule.at(x);
        let a2alt = c2alt.gauges@[gi].series.schedule.at(x);
        if x == uu1 && x == uu2 {
            assert(a2 == crate::fixed::sat_sub((os1.schedule.at(x) + u2) as nat, u1));
            assert(os1.schedule.at(x) == os0.schedule.at(x) + u1);
            assert(a2alt == os0.schedule.at(x) + u2);
        } else if x == uu1 {
            assert(a2 == crate::fixed::sat_sub(os1.schedule.at(x), u1));
            assert(os1.schedule.at(x) == os0.schedule.at(x) + u1);
            assert(a2alt == os0.schedule.at(x));
        } else if x == uu2 {
            assert(a2 == os1.schedule.at(x) + u2);
            assert(os1.schedule.at(x) == os0.schedule.at(x));
            assert(a2alt == os0.schedule.at(x) + u2);
        } else {
            assert(a2 == os1.schedule.at(x));
            assert(os1.schedule.at(x) == os0.schedule.at(x));
            assert(a2alt == os0.schedule.at(x));
        }
    }
    // Same point, same schedule: same trajectory from p2 on.
    assert forall|q: int| q >= p2 implies c2.gauges@[gi].series.model_at(q)
        == c2alt.gauges@[gi].series.model_at(q) by {
        assert(c2.gauges@[gi].series.model_at(q) == crate::series::project_model(np2, m2, p2, q));
        assert(c2alt.gauges@[gi].series.model_at(q) == crate::series::project_model(
            np2alt,
            m2alt,
            p2,
            q,
        ));
        crate::series::lemma_project_same_deltas(np2, m2, m2alt, p2, q);
    }
}

/// A longer prefix of gauges never sums to less.
pub proof fn lemma_sum_weights_monotonic(gs: Seq<GaugeEntry>, p: int, m: int, n: int)
    requires
        0 <= m <= n <= gs.len(),
    ensures
        Controller::sum_weights(gs, p, m) <= Controller::sum_weights(gs, p, n),
    decreases n - m,
{
    if m < n {
        lemma_sum_weights_monotonic(gs, p, m, n - 1);
    }
}

/// Strictly positive period durations only: with a zero duration no
/// timestamp has a period.
pub fn validate_period_duration(period_duration: u64) -> (r: Result<(), ContractError>)
    ensures
        period_duration == 0 <==> r == Err::<(), _>(ContractError::InvalidPeriodDuration),
        period_duration > 0 <==> r is Ok,
{
    if period_duration == 0 {
        Err(ContractError::InvalidPeriodDuration)
    } else {
        Ok(())
    }
}

} // verus!
