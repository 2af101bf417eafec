//! Release schedules: which fraction of a pool is unlocked at a given time.

use vstd::prelude::*;
use crate::error::{ConfigError, ValidationError};
use crate::fraction::{lemma_ratio_bounds, lemma_ratio_monotonic, ratio_bps, Fraction};
use crate::pool::{lemma_tag_names_pool, Pool, POOL_COUNT};

verus! {

/// One step of a tranche schedule: from `unlock_time` on, `cumulative_bps`
/// basis points of the pool are unlocked.
#[derive(Clone, Copy, Debug, PartialEq, Eq, Structural)]
pub struct Tranche {
    pub unlock_time: i64,
    pub cumulative_bps: u16,
}

/// The invariant of a tranche sequence: it is not empty, both fields grow
/// strictly along it, and its last step unlocks the whole pool.
pub open spec fn tranches_wf(ts: Seq<Tranche>) -> bool {
    &&& ts.len() > 0
    &&& forall|i: int, j: int|
        0 <= i < j < ts.len() ==> ts[i].unlock_time < ts[j].unlock_time && ts[i].cumulative_bps
            < ts[j].cumulative_bps
    &&& ts.last().cumulative_bps == 10_000
}

/// The fraction, in basis points, of the last tranche whose unlock time is
/// not after `now`; 0 where `now` precedes them all.
pub open spec fn tranche_bps(ts: Seq<Tranche>, now: int) -> int
    decreases ts.len(),
{
    if ts.len() == 0 {
        0
    } else if ts.last().unlock_time <= now {
        ts.last().cumulative_bps as int
    } else {
        tranche_bps(ts.drop_last(), now)
    }
}

/// The two release models.
pub enum Release {
    /// Nothing before the cliff, everything from full vest on, and a
    /// straight line between them. Both durations count from the start.
    CliffLinear { cliff_duration: int, full_vest_duration: int },
    /// Steps at fixed times.
    Tranches { tranches: Seq<Tranche> },
}

/// What a vesting schedule holds: the start of vesting and the release
/// model.
pub struct VestingScheduleView {
    pub start_time: int,
    pub release: Release,
}

impl VestingScheduleView {
    /// The schedule's invariant. It makes the unlocked fraction a
    /// non-decreasing function of time that ends at one whole.
    pub open spec fn wf(self) -> bool {
        match self.release {
            Release::CliffLinear { cliff_duration, full_vest_duration } => 0 <= cliff_duration
                <= full_vest_duration,
            Release::Tranches { tranches } => tranches_wf(tranches),
        }
    }

    /// The first moment at which a claim is not turned down as too early:
    /// the end of the cliff, or the first tranche's unlock time.
    pub open spec fn earliest_unlock(self) -> int {
        match self.release {
            Release::CliffLinear { cliff_duration, full_vest_duration } => self.start_time
                + cliff_duration,
            Release::Tranches { tranches } => tranches[0].unlock_time as int,
        }
    }

    /// The unlocked fraction at `now`, in basis points.
    pub open spec fn unlocked_bps(self, now: int) -> int {
        match self.release {
            Release::CliffLinear { cliff_duration, full_vest_duration } => {
                if now < self.start_time + cliff_duration {
                    0
                } else if now >= self.start_time + full_vest_duration {
                    10_000
                } else {
                    ratio_bps(
                        now - (self.start_time + cliff_duration),
                        full_vest_duration - cliff_duration,
                    )
                }
            },
            Release::Tranches { tranches } => tranche_bps(tranches, now),
        }
    }
}

/// Where `count` tranches unlock at or before `now` and all later ones
/// after it, the unlocked fraction is that of tranche `count - 1`.
pub proof fn lemma_tranche_bps_at(ts: Seq<Tranche>, now: int, count: int)
    requires
        0 <= count <= ts.len(),
        forall|i: int| 0 <= i < count ==> ts[i].unlock_time <= now,
        forall|i: int| count <= i < ts.len() ==> ts[i].unlock_time > now,
    ensures
        tranche_bps(ts, now) == if count == 0 {
            0
        } else {
            ts[count - 1].cumulative_bps as int
        },
    decreases ts.len(),
{
    if ts.len() > 0 && count < ts.len() {
        lemma_tranche_bps_at(ts.drop_last(), now, count);
    }
}

/// Along a sequence whose fields grow strictly, the unlocked fraction never
/// shrinks as time passes.
pub proof fn lemma_tranche_bps_monotonic(ts: Seq<Tranche>, t1: int, t2: int)
    requires
        forall|i: int, j: int|
            0 <= i < j < ts.len() ==> ts[i].unlock_time < ts[j].unlock_time && ts[i].cumulative_bps
                < ts[j].cumulative_bps,
        t1 <= t2,
    ensures
        0 <= tranche_bps(ts, t1) <= tranche_bps(ts, t2),
        ts.len() > 0 ==> tranche_bps(ts, t2) <= ts.last().cumulative_bps,
    decreases ts.len(),
{
    if ts.len() > 0 {
        let init = ts.drop_last();
        assert forall|i: int, j: int| 0 <= i < j < init.len() implies init[i].unlock_time
            < init[j].unlock_time && init[i].cumulative_bps < init[j].cumulative_bps by {
            assert(init[i] == ts[i] && init[j] == ts[j]);
        }
        lemma_tranche_bps_monotonic(init, t1, t2);
        if init.len() > 0 {
            assert(init.last() == ts[ts.len() - 2]);
        }
    }
}

/// The unlocked fraction of a well-formed schedule lies between 0 and one
/// whole, and is 0 before the earliest unlock point.
pub proof fn lemma_unlocked_bps_bounds(schedule: VestingScheduleView, now: int)
    requires
        schedule.wf(),
    ensures
        0 <= schedule.unlocked_bps(now) <= 10_000,
        now < schedule.earliest_unlock() ==> schedule.unlocked_bps(now) == 0,
{
    match schedule.release {
        Release::CliffLinear { cliff_duration, full_vest_duration } => {
            let unlock = schedule.start_time + cliff_duration;
            let full = schedule.start_time + full_vest_duration;
            if unlock <= now < full {
                lemma_ratio_bounds(now - unlock, full_vest_duration - cliff_duration);
            }
        },
        Release::Tranches { tranches } => {
            lemma_tranche_bps_monotonic(tranches, now, now);
            if now < tranches[0].unlock_time {
                assert forall|i: int| 0 <= i < tranches.len() implies tranches[i].unlock_time
                    > now by {
                    if i > 0 {
                        assert(tranches[0].unlock_time < tranches[i].unlock_time);
                    }
                }
                lemma_tranche_bps_at(tranches, now, 0);
            }
        },
    }
}

/// The unlocked fraction of a well-formed schedule never shrinks as time
/// passes.
pub proof fn lemma_unlocked_bps_monotonic(schedule: VestingScheduleView, t1: int, t2: int)
    requires
        schedule.wf(),
        t1 <= t2,
    ensures
        schedule.unlocked_bps(t1) <= schedule.unlocked_bps(t2),
{
    lemma_unlocked_bps_bounds(schedule, t1);
    lemma_unlocked_bps_bounds(schedule, t2);
    match schedule.release {
        Release::CliffLinear { cliff_duration, full_vest_duration } => {
            let unlock = schedule.start_time + cliff_duration;
            let full = schedule.start_time + full_vest_duration;
            if unlock <= t1 && t2 < full {
                lemma_ratio_monotonic(
                    t1 - unlock,
                    t2 - unlock,
                    full_vest_duration - cliff_duration,
                );
            }
        },
        Release::Tranches { tranches } => {
            lemma_tranche_bps_monotonic(tranches, t1, t2);
        },
    }
}

/// The release model of a schedule, as it is stored.
#[derive(Debug, PartialEq, Eq)]
pub enum ReleaseRule {
    /// Nothing before the cliff, everything from full vest on, and a
    /// straight line between them. Both durations count from the start, in
    /// seconds.
    CliffLinear { cliff_duration: u64, full_vest_duration: u64 },
    /// Steps at fixed times.
    Tranches { tranches: Vec<Tranche> },
}

impl View for ReleaseRule {
    type V = Release;

    open spec fn view(&self) -> Release {
        match *self {
            ReleaseRule::CliffLinear { cliff_duration, full_vest_duration } => {
                Release::CliffLinear {
                    cliff_duration: cliff_duration as int,
                    full_vest_duration: full_vest_duration as int,
                }
            },
            ReleaseRule::Tranches { tranches } => Release::Tranches { tranches: tranches@ },
        }
    }
}

/// The release schedule of one pool. Its invariant is checked once, when it
/// is built.
pub struct VestingSchedule {
    start_time: i64,
    rule: ReleaseRule,
}

impl View for VestingSchedule {
    type V = VestingScheduleView;

    closed spec fn view(&self) -> VestingScheduleView {
        VestingScheduleView { start_time: self.start_time as int, release: self.rule@ }
    }
}

/// Whether a tranche sequence meets its invariant.
fn check_tranches(ts: &Vec<Tranche>) -> (ok: bool)
    ensures
        ok == tranches_wf(ts@),
{
    let n: usize = ts.len();
    if n == 0 {
        return false;
    }
    let mut i: usize = 1;
    while i < n
        invariant
            1 <= i <= n,
            n == ts.len(),
            forall|a: int, b: int|
                0 <= a < b < i ==> ts[a].unlock_time < ts[b].unlock_time && ts[a].cumulative_bps
                    < ts[b].cumulative_bps,
        decreases n - i,
    {
        if !(ts[i - 1].unlock_time < ts[i].unlock_time && ts[i - 1].cumulative_bps
            < ts[i].cumulative_bps) {
            assert(!(ts@[i - 1].unlock_time < ts@[i as int].unlock_time && ts@[i
                - 1].cumulative_bps < ts@[i as int].cumulative_bps));
            return false;
        }
        assert forall|a: int, b: int| 0 <= a < b < i + 1 implies ts[a].unlock_time
            < ts[b].unlock_time && ts[a].cumulative_bps < ts[b].cumulative_bps by {
            if b == i && a < i - 1 {
                assert(ts[a].unlock_time < ts[i - 1].unlock_time);
            }
        }
        i += 1;
    }
    ts[n - 1].cumulative_bps == 10_000
}

impl VestingSchedule {
    /// The schedule's invariant.
    pub open spec fn wf(&self) -> bool {
        self@.wf()
    }

    /// A cliff-linear schedule. Both durations are in seconds and count
    /// from the start. Fails with `InvalidSchedule` where full vest would
    /// come before the end of the cliff.
    pub fn cliff_linear(start_time: i64, cliff_duration: u64, full_vest_duration: u64) -> (r:
        Result<VestingSchedule, ConfigError>)
        ensures
            r is Ok <==> cliff_duration <= full_vest_duration,
            r matches Ok(s) ==> s.wf() && s@ == (VestingScheduleView {
                start_time: start_time as int,
                release: Release::CliffLinear {
                    cliff_duration: cliff_duration as int,
                    full_vest_duration: full_vest_duration as int,
                },
            }),
            r matches Err(e) ==> e == ConfigError::InvalidSchedule,
    {
        if cliff_duration <= full_vest_duration {
            Ok(
                VestingSchedule {
                    start_time,
                    rule: ReleaseRule::CliffLinear { cliff_duration, full_vest_duration },
                },
            )
        } else {
            Err(ConfigError::InvalidSchedule)
        }
    }

    /// A tranche schedule. The unlock times are points in time, not offsets
    /// from the start. Fails with `InvalidSchedule` where the sequence is
    /// empty, where either field fails to grow strictly along it, or where
    /// its last step does not unlock the whole pool.
    pub fn tranches(start_time: i64, tranches: Vec<Tranche>) -> (r: Result<
        VestingSchedule,
        ConfigError,
    >)
        ensures
            r is Ok <==> tranches_wf(tranches@),
            r matches Ok(s) ==> s.wf() && s@ == (VestingScheduleView {
                start_time: start_time as int,
                release: Release::Tranches { tranches: tranches@ },
            }),
            r matches Err(e) ==> e == ConfigError::InvalidSchedule,
    {
        if check_tranches(&tranches) {
            Ok(VestingSchedule { start_time, rule: ReleaseRule::Tranches { tranches } })
        } else {
            Err(ConfigError::InvalidSchedule)
        }
    }

    /// The time from which the schedule's durations count.
    pub fn start_time(&self) -> (r: i64)
        ensures
            r == self@.start_time,
    {
        self.start_time
    }

    /// The schedule's release model.
    pub fn rule(&self) -> (r: &ReleaseRule)
        ensures
            r@ == self@.release,
    {
        &self.rule
    }

    /// Whether `now` has reached the schedule's earliest unlock point.
    pub fn unlock_reached(&self, now: i64) -> (r: bool)
        requires
            self.wf(),
        ensures
            r == (now >= self@.earliest_unlock()),
    {
        match &self.rule {
            ReleaseRule::CliffLinear { cliff_duration, full_vest_duration } => {
                let unlock: i128 = self.start_time as i128 + *cliff_duration as i128;
                now as i128 >= unlock
            },
            ReleaseRule::Tranches { tranches } => now >= tranches[0].unlock_time,
        }
    }

    /// The fraction of the pool that is unlocked at `now`.
    pub fn unlocked_fraction(&self, now: i64) -> (r: Fraction)
        requires
            self.wf(),
        ensures
            r.wf(),
            r@ == self@.unlocked_bps(now as int),
    {
        proof {
            lemma_unlocked_bps_bounds(self@, now as int);
        }
        match &self.rule {
            ReleaseRule::CliffLinear { cliff_duration, full_vest_duration } => {
                let unlock: i128 = self.start_time as i128 + *cliff_duration as i128;
                let full: i128 = self.start_time as i128 + *full_vest_duration as i128;
                let t: i128 = now as i128;
                if t < unlock {
                    Fraction::zero()
                } else if t >= full {
                    Fraction::one()
                } else {
                    let elapsed: u64 = (t - unlock) as u64;
                    let window: u64 = *full_vest_duration - *cliff_duration;
                    Fraction::ratio(elapsed, window)
                }
            },
            ReleaseRule::Tranches { tranches } => {
                let mut lo: usize = 0;
                let mut hi: usize = tranches.len();
                while lo < hi
                    invariant
                        0 <= lo <= hi <= tranches.len(),
                        tranches_wf(tranches@),
                        forall|i: int| 0 <= i < lo ==> tranches[i].unlock_time <= now,
                        forall|i: int| hi <= i < tranches.len() ==> tranches[i].unlock_time > now,
                    decreases hi - lo,
                {
                    let mid: usize = lo + (hi - lo) / 2;
                    if tranches[mid].unlock_time <= now {
                        assert forall|i: int| 0 <= i < mid + 1 implies tranches[i].unlock_time
                            <= now by {
                            if i < mid {
                                assert(tranches[i].unlock_time < tranches[mid as int].unlock_time);
                            }
                        }
                        lo = mid + 1;
                    } else {
                        assert forall|i: int| mid <= i < tranches.len() implies tranches[i].unlock_time
                            > now by {
                            if mid < i {
                                assert(tranches[mid as int].unlock_time < tranches[i].unlock_time);
                            }
                        }
                        hi = mid;
                    }
                }
                proof {
                    lemma_tranche_bps_at(tranches@, now as int, lo as int);
                }
                if lo == 0 {
                    Fraction::zero()
                } else {
                    Fraction::from_bps(tranches[lo - 1].cumulative_bps)
                }
            },
        }
    }
}

/// The release schedules of the pools: at most one for each pool.
pub struct VestingPolicy {
    schedules: Vec<Option<VestingSchedule>>,
}

impl View for VestingPolicy {
    type V = Map<Pool, VestingScheduleView>;

    /// The schedule of each pool that has one.
    closed spec fn view(&self) -> Map<Pool, VestingScheduleView> {
        Map::new(
            |pool: Pool| self.schedules@[pool.tag()] is Some,
            |pool: Pool| self.schedules@[pool.tag()]->0@,
        )
    }
}

impl VestingPolicy {
    /// The policy holds one slot for each pool.
    pub closed spec fn well_sized(&self) -> bool {
        self.schedules@.len() == POOL_COUNT
    }

    /// The policy's invariant: every schedule in it meets its own.
    pub open spec fn wf(&self) -> bool {
        &&& self.well_sized()
        &&& forall|pool: Pool| #[trigger] self@.contains_key(pool) ==> self@[pool].wf()
    }

    /// A policy with no schedule for any pool.
    pub fn new() -> (r: VestingPolicy)
        ensures
            r.wf(),
            r@ == Map::<Pool, VestingScheduleView>::empty(),
    {
        let mut schedules: Vec<Option<VestingSchedule>> = Vec::new();
        let mut i: usize = 0;
        while i < POOL_COUNT
            invariant
                0 <= i <= POOL_COUNT,
                schedules.len() == i,
                forall|k: int| 0 <= k < i ==> schedules[k] is None,
            decreases POOL_COUNT - i,
        {
            schedules.push(None);
            i += 1;
        }
        let r = VestingPolicy { schedules };
        proof {
            assert forall|pool: Pool| !r@.contains_key(pool) by {
                lemma_tag_names_pool(pool);
            }
            assert(r@ =~= Map::<Pool, VestingScheduleView>::empty());
        }
        r
    }

    /// Binds a schedule to a pool, in place of the one the pool had.
    pub fn bind(&mut self, pool: Pool, schedule: VestingSchedule)
        requires
            old(self).wf(),
            schedule.wf(),
        ensures
            final(self).wf(),
            final(self)@ == old(self)@.insert(pool, schedule@),
    {
        let slot: usize = pool.index();
        let ghost before = self.schedules@;
        self.schedules[slot] = Some(schedule);
        proof {
            assert(self.schedules@ == before.update(slot as int, Some(schedule)));
            assert forall|other: Pool|
                self@.contains_key(other) == old(self)@.insert(pool, schedule@).contains_key(
                    other,
                ) && (self@.contains_key(other) ==> self@[other] == old(self)@.insert(
                    pool,
                    schedule@,
                )[other]) by {
                lemma_tag_names_pool(other);
                lemma_tag_names_pool(pool);
            }
            assert(self@ =~= old(self)@.insert(pool, schedule@));
        }
    }

    /// The schedule of a pool. Fails with `UnknownPool` where the pool has
    /// none.
    pub fn schedule_for(&self, pool: Pool) -> (r: Result<&VestingSchedule, ValidationError>)
        requires
            self.wf(),
        ensures
            r is Ok <==> self@.contains_key(pool),
            r matches Ok(s) ==> s.wf() && s@ == self@[pool],
            r matches Err(e) ==> e == ValidationError::UnknownPool,
    {
        match &self.schedules[pool.index()] {
            Some(s) => {
                assert(self@.contains_key(pool));
                Ok(s)
            },
            None => Err(ValidationError::UnknownPool),
        }
    }

    /// The fraction of a pool that is unlocked at `now`. Fails with
    /// `UnknownPool` where the pool has no schedule.
    pub fn unlocked_fraction(&self, pool: Pool, now: i64) -> (r: Result<Fraction, ValidationError>)
        requires
            self.wf(),
        ensures
            r is Ok <==> self@.contains_key(pool),
            r matches Ok(f) ==> f.wf() && f@ == self@[pool].unlocked_bps(now as int),
            r matches Err(e) ==> e == ValidationError::UnknownPool,
    {
        match self.schedule_for(pool) {
            Ok(s) => Ok(s.unlocked_fraction(now)),
            Err(e) => Err(e),
        }
    }
}

} // verus!
