use vstd::prelude::*;
use crate::celestia::frames::Frame;
use crate::scalar::Scalar;
use crate::time::{Duration, Epoch};

verus! {

/// State noise compensation: the diagonal of a process noise, when it starts
/// to apply, and how long a gap between two steps of the filter it tolerates.
#[derive(Debug)]
pub struct SNC {
    /// The time from which this noise applies.
    pub start_time: Option<Epoch>,
    /// The frame of this noise.
    pub frame: Option<Frame>,
    /// No noise is injected when the time since the previous step of the
    /// filter is longer than this.
    pub disable_time: Duration,
    /// The epoch at which the filter started, from which the decay is counted.
    /// The filter sets it.
    pub init_epoch: Option<Epoch>,
    /// The diagonal of the noise.
    pub diag: Vec<Scalar>,
    /// One decay constant for each term of the diagonal, in seconds.
    pub decay_diag: Option<Vec<Scalar>>,
    /// The epoch of the previous step of the filter, a time update or a
    /// measurement update. The filter sets it.
    pub prev_epoch: Option<Epoch>,
}

/// The noise to inject at one step: the diagonal and, where the noise
/// decays, the decay constants with the time over which each term has
/// decayed. Term `i` is `diag[i]`, multiplied by the exponential of minus
/// `constants[i]` times the elapsed seconds where it decays.
#[derive(Debug)]
pub struct SncMatrix {
    pub diag: Vec<Scalar>,
    pub decay: Option<Decay>,
}

/// How the terms of a noise have decayed.
#[derive(Debug)]
pub struct Decay {
    pub constants: Vec<Scalar>,
    pub elapsed: Duration,
}

/// A copy of a list of numbers.
pub fn copy_scalars(values: &[Scalar]) -> (v: Vec<Scalar>)
    ensures
        v@ == values@,
{
    let mut v: Vec<Scalar> = Vec::new();
    let mut i: usize = 0;
    while i < values.len()
        invariant
            i <= values@.len(),
            v@ == values@.take(i as int),
        decreases values@.len() - i,
    {
        v.push(values[i]);
        assert(v@ =~= values@.take(i + 1));
        i += 1;
    }
    assert(values@.take(values@.len() as int) =~= values@);
    v
}

impl SNC {
    /// The number of terms of the diagonal.
    pub open spec fn dim(self) -> nat {
        self.diag@.len()
    }

    /// The noise does not apply yet at `epoch`: it starts later.
    pub open spec fn not_started(self, epoch: Epoch) -> bool {
        self.start_time matches Some(start) && start.nanos > epoch.nanos
    }

    /// The noise is switched off at `epoch`: the previous step of the filter
    /// is longer ago than the noise tolerates.
    pub open spec fn gap_too_long(self, epoch: Epoch) -> bool {
        self.prev_epoch matches Some(prev) && epoch.nanos - prev.nanos > self.disable_time.nanos
    }

    /// No noise is to be injected at `epoch`.
    pub open spec fn gated(self, epoch: Epoch) -> bool {
        self.not_started(epoch) || self.gap_too_long(epoch)
    }

    /// A decaying noise knows from when it decays.
    pub open spec fn decay_is_anchored(self) -> bool {
        self.decay_diag is Some ==> self.init_epoch is Some
    }

    /// A noise with the diagonal `values`, which applies from the start and
    /// does not decay.
    pub fn from_diagonal(disable_time: Duration, values: &[Scalar]) -> (snc: SNC)
        ensures
            snc.diag@ == values@,
            snc.disable_time == disable_time,
            snc.start_time is None,
            snc.frame is None,
            snc.decay_diag is None,
            snc.init_epoch is None,
            snc.prev_epoch is None,
    {
        SNC {
            diag: copy_scalars(values),
            disable_time,
            start_time: None,
            frame: None,
            decay_diag: None,
            init_epoch: None,
            prev_epoch: None,
        }
    }

    /// A noise that applies from `start_time` on.
    pub fn with_start_time(disable_time: Duration, values: &[Scalar], start_time: Epoch) -> (snc:
        SNC)
        ensures
            snc.diag@ == values@,
            snc.disable_time == disable_time,
            snc.start_time == Some(start_time),
            snc.frame is None,
            snc.decay_diag is None,
            snc.init_epoch is None,
            snc.prev_epoch is None,
    {
        let mut me = Self::from_diagonal(disable_time, values);
        me.start_time = Some(start_time);
        me
    }

    /// A noise that decays exponentially: `initial_snc` at the start of the
    /// pass, each term with its own decay constant in seconds. There must be
    /// one constant for each term.
    pub fn with_decay(disable_time: Duration, initial_snc: &[Scalar], decay_constants_s: &[Scalar])
        -> (snc: SNC)
        requires
            decay_constants_s@.len() == initial_snc@.len(),
        ensures
            snc.diag@ == initial_snc@,
            snc.disable_time == disable_time,
            snc.start_time is None,
            snc.frame is None,
            snc.decay_diag matches Some(decay) && decay@ == decay_constants_s@,
            snc.init_epoch is None,
            snc.prev_epoch is None,
    {
        let mut me = Self::from_diagonal(disable_time, initial_snc);
        me.decay_diag = Some(copy_scalars(decay_constants_s));
        me
    }

    /// Tells whether noise is to be injected at `epoch`.
    pub fn applies_at(&self, epoch: Epoch) -> (r: bool)
        ensures
            r == !self.gated(epoch),
    {
        if let Some(start_time) = self.start_time {
            if start_time.is_after(epoch) {
                return false;
            }
        }
        if let Some(prev_epoch) = self.prev_epoch {
            if epoch.since(prev_epoch).exceeds(self.disable_time) {
                return false;
            }
        }
        true
    }

    /// Returns the noise to inject at `epoch`, or `None` when none is to be
    /// injected: when the noise starts after `epoch`, or when the time from
    /// the previous step of the filter to `epoch` is longer than the noise
    /// tolerates. A decaying noise must know from when it decays.
    pub fn to_matrix(&self, epoch: Epoch) -> (r: Option<SncMatrix>)
        requires
            self.gated(epoch) || self.decay_is_anchored(),
        ensures
            r is None <==> self.gated(epoch),
            r matches Some(m) ==> {
                &&& m.diag@ == self.diag@
                &&& m.decay is Some <==> self.decay_diag is Some
                &&& m.decay matches Some(decay) ==> {
                    &&& decay.constants@ == self.decay_diag->0@
                    &&& decay.elapsed == epoch.spec_since(self.init_epoch->0)
                }
            },
    {
        if !self.applies_at(epoch) {
            return None;
        }
        let decay = match &self.decay_diag {
            Some(decay) => {
                let init_epoch = match self.init_epoch {
                    Some(init_epoch) => init_epoch,
                    None => {
                        proof {
                            assert(false);
                        }
                        epoch
                    },
                };
                Some(
                    Decay {
                        constants: copy_scalars(decay.as_slice()),
                        elapsed: epoch.since(init_epoch),
                    },
                )
            },
            None => None,
        };
        Some(SncMatrix { diag: copy_scalars(self.diag.as_slice()), decay })
    }
}

/// Gating of a noise. A noise that starts after `epoch` yields nothing at
/// `epoch`, and so does one whose previous step lies further back than its
/// disable time; a noise yields something exactly when neither holds.
pub proof fn lemma_snc_gating(snc: SNC, epoch: Epoch)
    ensures
        snc.start_time matches Some(start) && start.nanos > epoch.nanos ==> snc.gated(epoch),
        snc.prev_epoch matches Some(prev) && epoch.spec_since(prev).nanos > snc.disable_time.nanos
            ==> snc.gated(epoch),
        snc.start_time is None && snc.prev_epoch is None ==> !snc.gated(epoch),
{
}

} // verus!
