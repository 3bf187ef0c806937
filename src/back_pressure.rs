//! Backpressure: the message rate that peers calling us are asked not to
//! exceed. Rates are in thousandths of a message per second.
use vstd::prelude::*;

verus! {

/// The lowest rate ever advertised: one message per second.
pub const SANITY_MIN_PER_S_AND_PEER: u64 = 1000;

/// The highest rate ever advertised, also the rate assumed before any report.
pub const SANITY_MAX_PER_S_AND_PEER: u64 = 500_000;

/// The rate to advertise for a load of `msgs_per_s` and `sessions` callers:
/// ten times the load shared among the callers, clamped to the sanity bounds.
pub open spec fn tolerated_rate(msgs_per_s: u64, sessions: usize) -> int {
    let n = if sessions == 0 { 1 } else { sessions as int };
    let v = (10 * msgs_per_s as int) / n;
    if v > SANITY_MAX_PER_S_AND_PEER {
        SANITY_MAX_PER_S_AND_PEER as int
    } else if v < SANITY_MIN_PER_S_AND_PEER {
        SANITY_MIN_PER_S_AND_PEER as int
    } else {
        v
    }
}

/// `new` differs enough from `prev` to be worth reporting: it is at most 95%
/// or at least 110% of it.
pub open spec fn significant_change(new: int, prev: int) -> bool {
    100 * new <= 95 * prev || 10 * new >= 11 * prev
}

/// The rate is within the sanity bounds.
pub open spec fn in_bounds(v: int) -> bool {
    SANITY_MIN_PER_S_AND_PEER <= v <= SANITY_MAX_PER_S_AND_PEER
}

/// Weight of the newest sample in the moving average, as a share of eight.
pub const EWMA_NEW_SHARE: u64 = 1;

/// The moving average after a sample of `rate`: 7/8 of the old value plus
/// 1/8 of the new one.
pub open spec fn ewma_next(old: u64, rate: int) -> int {
    ((8 - EWMA_NEW_SHARE) * old as int + EWMA_NEW_SHARE * rate) / 8
}

/// The rate of `count` messages over `elapsed_ms` milliseconds, in thousandths
/// of a message per second, capped at the largest `u64`.
pub open spec fn sample_rate(count: u64, elapsed_ms: u64) -> int {
    let r = (count as int * 1_000_000) / elapsed_ms as int;
    if r > u64::MAX { u64::MAX as int } else { r }
}

/// Inbound load: messages counted since the last sample, and an
/// exponentially weighted moving average of the rate.
#[derive(Debug)]
pub struct LoadMonitoring {
    pub count: u64,
    pub ewma: u64,
}

impl LoadMonitoring {
    /// No messages seen yet.
    pub fn new() -> (r: LoadMonitoring)
        ensures
            r.count == 0 && r.ewma == 0,
    {
        LoadMonitoring { count: 0, ewma: 0 }
    }

    /// Counts one inbound message (saturating).
    pub fn count_msg(&mut self)
        ensures
            final(self).ewma == old(self).ewma,
            final(self).count == (if old(self).count == u64::MAX { u64::MAX } else { (old(self).count + 1) as u64 }),
    {
        self.count = self.count.saturating_add(1);
    }

    /// Folds the messages counted over the last `elapsed_ms` milliseconds into
    /// the average and starts a new count; nothing happens when no time passed.
    pub fn sample(&mut self, elapsed_ms: u64)
        ensures
            elapsed_ms == 0 ==> *final(self) == *old(self),
            elapsed_ms > 0 ==> final(self).count == 0
                && final(self).ewma as int == ewma_next(old(self).ewma, sample_rate(old(self).count, elapsed_ms)),
    {
        if elapsed_ms == 0 {
            return;
        }
        let r = (self.count as u128 * 1_000_000) / (elapsed_ms as u128);
        let rate: u64 = if r > u64::MAX as u128 { u64::MAX } else { r as u64 };
        let next = ((8 - EWMA_NEW_SHARE) as u128 * self.ewma as u128 + EWMA_NEW_SHARE as u128 * rate as u128) / 8;
        proof {
            assert(next <= u64::MAX) by (nonlinear_arith)
                requires
                    next == (7 * self.ewma as u128 + 1 * rate as u128) / 8,
                    self.ewma <= u64::MAX,
                    rate <= u64::MAX,
            ;
        }
        self.ewma = next as u64;
        self.count = 0;
    }

    /// The average inbound rate, in thousandths of a message per second.
    pub fn msgs_per_s(&self) -> (r: u64)
        ensures
            r == self.ewma,
    {
        self.ewma
    }
}

/// The load monitor and the last recorded report, as (time in milliseconds, rate).
#[derive(Debug)]
pub struct BackPressure {
    monitoring: LoadMonitoring,
    last_report: Option<(u64, u64)>,
}

impl BackPressure {
    /// A recorded rate is within the sanity bounds.
    #[verifier::type_invariant]
    spec fn inv(self) -> bool {
        self.last_report.is_some() ==> in_bounds(self.last_report.unwrap().1 as int)
    }

    /// The last recorded report.
    pub closed spec fn last_report_spec(&self) -> Option<(u64, u64)> {
        self.last_report
    }

    /// The load monitor.
    pub closed spec fn monitoring_spec(&self) -> LoadMonitoring {
        self.monitoring
    }

    /// Folds the messages counted over the last `elapsed_ms` milliseconds
    /// into the load average (see `LoadMonitoring::sample`).
    pub fn sample(&mut self, elapsed_ms: u64)
        ensures
            final(self).last_report_spec() == old(self).last_report_spec(),
            elapsed_ms == 0 ==> final(self).monitoring_spec() == old(self).monitoring_spec(),
            elapsed_ms > 0 ==> final(self).monitoring_spec().count == 0 && final(self).monitoring_spec().ewma as int
                == ewma_next(old(self).monitoring_spec().ewma, sample_rate(old(self).monitoring_spec().count, elapsed_ms)),
    {
        proof {
            use_type_invariant(&*self);
        }
        let mut m = LoadMonitoring { count: self.monitoring.count, ewma: self.monitoring.ewma };
        m.sample(elapsed_ms);
        self.monitoring = m;
    }

    /// The average inbound rate, in thousandths of a message per second.
    pub fn msgs_per_s(&self) -> (r: u64)
        ensures
            r == self.monitoring_spec().ewma,
    {
        self.monitoring.msgs_per_s()
    }

    /// No report recorded yet.
    pub fn new() -> (r: BackPressure)
        ensures
            r.last_report_spec().is_none(),
            r.monitoring_spec().count == 0 && r.monitoring_spec().ewma == 0,
    {
        BackPressure { monitoring: LoadMonitoring::new(), last_report: None }
    }

    /// Counts one inbound message.
    pub fn count_msg(&mut self)
        ensures
            final(self).last_report_spec() == old(self).last_report_spec(),
            final(self).monitoring_spec().ewma == old(self).monitoring_spec().ewma,
            final(self).monitoring_spec().count == (if old(self).monitoring_spec().count == u64::MAX { u64::MAX } else {
                (old(self).monitoring_spec().count + 1) as u64
            }),
    {
        proof {
            use_type_invariant(&*self);
        }
        let mut m = LoadMonitoring { count: self.monitoring.count, ewma: self.monitoring.ewma };
        m.count_msg();
        self.monitoring = m;
    }

    /// The rate to advertise to nodes calling us, for the averaged load, when
    /// it changed enough since the last report (see `try_get_new_value`).
    pub fn tolerated_msgs_per_s(&mut self, sessions: usize, now: u64) -> (r: Option<u64>)
        ensures
            new_value_spec(old(self).last_report_spec(), final(self).last_report_spec(), old(self).monitoring_spec().ewma, sessions, now, r),
            final(self).monitoring_spec() == old(self).monitoring_spec(),
    {
        let load = self.monitoring.msgs_per_s();
        self.try_get_new_value(load, sessions, now)
    }

    /// The rate to advertise to callers, when it changed enough since the
    /// last report. `msgs_per_s` is the measured load; `now` the time in
    /// milliseconds.
    ///
    /// Against a previous report the new rate is recorded and returned when
    /// it changed significantly, and nothing happens otherwise. With no
    /// previous report it is compared with the ceiling, recorded in any case,
    /// and returned only when the change is significant.
    pub fn try_get_new_value(&mut self, msgs_per_s: u64, sessions: usize, now: u64) -> (r: Option<u64>)
        ensures
            new_value_spec(old(self).last_report_spec(), final(self).last_report_spec(), msgs_per_s, sessions, now, r),
            final(self).monitoring_spec() == old(self).monitoring_spec(),
    {
        proof {
            use_type_invariant(&*self);
        }
        let n: u128 = if sessions == 0 { 1 } else { sessions as u128 };
        let v = (10 * msgs_per_s as u128) / n;
        let value: u64 = if v > SANITY_MAX_PER_S_AND_PEER as u128 {
            SANITY_MAX_PER_S_AND_PEER
        } else if v < SANITY_MIN_PER_S_AND_PEER as u128 {
            SANITY_MIN_PER_S_AND_PEER
        } else {
            v as u64
        };
        let prev: u64 = match self.last_report {
            Some((_, p)) => p,
            None => SANITY_MAX_PER_S_AND_PEER,
        };
        let significant = 100 * (value as u128) <= 95 * (prev as u128) || 10 * (value as u128) >= 11 * (prev as u128);
        match self.last_report {
            Some(_) => {
                if significant {
                    self.last_report = Some((now, value));
                    Some(value)
                } else {
                    None
                }
            },
            None => {
                self.last_report = Some((now, value));
                if significant {
                    Some(value)
                } else {
                    None
                }
            },
        }
    }

    /// The last recorded report, if any.
    pub fn last_report(&self) -> (r: Option<(u64, u64)>)
        ensures
            r == self.last_report_spec(),
            r.is_some() ==> in_bounds(r.unwrap().1 as int),
    {
        proof {
            use_type_invariant(self);
        }
        self.last_report
    }
}

/// The outcome of asking for a new rate for load `msgs_per_s` and `sessions`
/// callers at `now`, with `before` the last report and `after` the one kept.
pub open spec fn new_value_spec(before: Option<(u64, u64)>, after: Option<(u64, u64)>, msgs_per_s: u64, sessions: usize, now: u64, r: Option<u64>) -> bool {
    &&& r.is_some() ==> r.unwrap() as int == tolerated_rate(msgs_per_s, sessions) && in_bounds(r.unwrap() as int)
    &&& after.is_some() ==> in_bounds(after.unwrap().1 as int)
    &&& match before {
        Some((_, prev)) => if significant_change(tolerated_rate(msgs_per_s, sessions), prev as int) {
            r == Some(tolerated_rate(msgs_per_s, sessions) as u64) && after == Some((now, tolerated_rate(msgs_per_s, sessions) as u64))
        } else {
            r.is_none() && after == before
        },
        None => after == Some((now, tolerated_rate(msgs_per_s, sessions) as u64))
            && (r.is_some() <==> significant_change(tolerated_rate(msgs_per_s, sessions), SANITY_MAX_PER_S_AND_PEER as int)),
    }
}

} // verus!
