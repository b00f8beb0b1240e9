use vstd::prelude::*;
use crate::od::estimate::KfEstimate;
use crate::scalar::Scalar;
use crate::time::{Duration, Epoch};

verus! {

/// The policy that says when a classical filter becomes extended and when an
/// extended filter becomes classical again.
pub trait EkfTrigger: Sized {
    /// Whether the filter is to be extended after the estimate `est`.
    /// `within_bound` says whether the deviation of the estimate lies within
    /// the bound of the policy, if it has one.
    spec fn enables(&self, est: KfEstimate, within_bound: bool) -> bool;

    /// The policy after it has been asked about `est`.
    spec fn asked(&self, est: KfEstimate, within_bound: bool) -> Self;

    /// Whether an extended filter is to become classical at `epoch`.
    spec fn disables(&self, epoch: Epoch) -> bool;

    /// The policy after it has been asked about `epoch`.
    spec fn lapsed(&self, epoch: Epoch) -> Self;

    /// Tells whether the filter is to be extended after the estimate `est`.
    fn enable_ekf(&mut self, est: &KfEstimate, within_bound: bool) -> (r: bool)
        ensures
            r == old(self).enables(*est, within_bound),
            *final(self) == old(self).asked(*est, within_bound),
    ;

    /// Tells whether an extended filter is to become classical at `epoch`.
    fn disable_ekf(&mut self, epoch: Epoch) -> (r: bool)
        ensures
            r == old(self).disables(epoch),
            *final(self) == old(self).lapsed(epoch),
    ;
}

/// The policy that never extends the filter.
#[derive(Clone, Copy, Debug, PartialEq, Eq, Structural)]
pub struct CkfTrigger;

impl EkfTrigger for CkfTrigger {
    open spec fn enables(&self, est: KfEstimate, within_bound: bool) -> bool {
        false
    }

    open spec fn asked(&self, est: KfEstimate, within_bound: bool) -> Self {
        *self
    }

    open spec fn disables(&self, epoch: Epoch) -> bool {
        false
    }

    open spec fn lapsed(&self, epoch: Epoch) -> Self {
        *self
    }

    fn enable_ekf(&mut self, _est: &KfEstimate, _within_bound: bool) -> (r: bool) {
        false
    }

    fn disable_ekf(&mut self, _epoch: Epoch) -> (r: bool) {
        false
    }
}

/// The policy that extends the filter once it has been asked a number of
/// times, and makes it classical again after a long gap between measurements.
#[derive(Clone, Copy, Debug, PartialEq, Eq, Structural)]
pub struct StdEkfTrigger {
    /// How often the policy must have been asked before it extends the
    /// filter.
    pub num_msrs: usize,
    /// The gap since the last measurement update after which the filter
    /// becomes classical again.
    pub disable_time: Duration,
    /// The number of standard deviations within which the deviation of an
    /// estimate must lie for the filter to be extended. `None` sets no bound.
    pub within_sigma: Option<Scalar>,
    /// The epoch of the last measurement update that the policy was asked
    /// about.
    pub prev_msr_dt: Option<Epoch>,
    /// How often the policy has been asked since the last gap.
    pub cur_msrs: usize,
}

impl StdEkfTrigger {
    /// A policy without a bound on the deviation.
    pub fn new(num_msrs: usize, disable_time: Duration) -> (t: StdEkfTrigger)
        ensures
            t == (StdEkfTrigger {
                num_msrs,
                disable_time,
                within_sigma: None,
                prev_msr_dt: None,
                cur_msrs: 0,
            }),
    {
        StdEkfTrigger { num_msrs, disable_time, within_sigma: None, prev_msr_dt: None, cur_msrs: 0 }
    }

    /// The count after one more question. It stops at the largest number that
    /// it can hold.
    pub open spec fn counted(self) -> usize {
        if self.cur_msrs < usize::MAX {
            (self.cur_msrs + 1) as usize
        } else {
            self.cur_msrs
        }
    }
}

impl EkfTrigger for StdEkfTrigger {
    open spec fn enables(&self, est: KfEstimate, within_bound: bool) -> bool {
        self.counted() >= self.num_msrs && (self.within_sigma is None || within_bound)
    }

    open spec fn asked(&self, est: KfEstimate, within_bound: bool) -> Self {
        StdEkfTrigger {
            prev_msr_dt: if est.predicted {
                self.prev_msr_dt
            } else {
                Some(est.nominal_state.dt)
            },
            cur_msrs: self.counted(),
            ..*self
        }
    }

    open spec fn disables(&self, epoch: Epoch) -> bool {
        self.prev_msr_dt matches Some(prev) && epoch.spec_since(prev).magnitude()
            > self.disable_time.nanos
    }

    open spec fn lapsed(&self, epoch: Epoch) -> Self {
        if self.disables(epoch) {
            StdEkfTrigger { cur_msrs: 0, ..*self }
        } else {
            *self
        }
    }

    fn enable_ekf(&mut self, est: &KfEstimate, within_bound: bool) -> (r: bool) {
        if !est.predicted {
            self.prev_msr_dt = Some(est.nominal_state.dt);
        }
        if self.cur_msrs < usize::MAX {
            self.cur_msrs += 1;
        }
        self.cur_msrs >= self.num_msrs && (self.within_sigma.is_none() || within_bound)
    }

    fn disable_ekf(&mut self, epoch: Epoch) -> (r: bool) {
        match self.prev_msr_dt {
            Some(prev_dt) => {
                let gap = epoch.since(prev_dt).nanos;
                let magnitude: i128 = if gap < 0 {
                    -gap
                } else {
                    gap
                };
                if magnitude > self.disable_time.nanos {
                    self.cur_msrs = 0;
                    true
                } else {
                    false
                }
            },
            None => false,
        }
    }
}

} // verus!
