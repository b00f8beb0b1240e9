use vstd::prelude::*;
use crate::celestia::state::Orbit;
use crate::errors::NyxError;
use crate::od::estimate::{CovarFormat, EpochFormat, KfEstimate};
use crate::od::residual::{PostfitBasis, Residual};
use crate::od::snc::{SncMatrix, SNC};
use crate::time::{Duration, Epoch};

verus! {

/// What an entry of the matrix that maps a process noise on accelerations
/// into the covariance of the state holds, for a step of length `t`.
#[derive(Clone, Copy, Debug, PartialEq, Eq, Structural)]
pub enum GammaTerm {
    /// `t * t / 2`: a position.
    HalfDeltaSquared,
    /// `t`: a velocity.
    Delta,
}

/// One entry of that matrix. The entries that are not listed are zero.
#[derive(Clone, Copy, Debug, PartialEq, Eq, Structural)]
pub struct GammaEntry {
    pub row: usize,
    pub col: usize,
    pub term: GammaTerm,
}

/// The entries of the matrix for an acceleration of `accel` components: for
/// each block `blk` of three components and each axis `i`, the position entry
/// at row `i + accel * blk` and the velocity entry at row `i + 3 + accel *
/// blk`, both in column `i + 3 * blk`.
pub open spec fn gamma_entries(accel: nat) -> Seq<GammaEntry> {
    Seq::new(
        2 * 3 * (accel / 3),
        |n: int|
            {
                let blk = n / 6;
                let i = (n % 6) / 2;
                if n % 2 == 0 {
                    GammaEntry {
                        row: (i + accel * blk) as usize,
                        col: (i + 3 * blk) as usize,
                        term: GammaTerm::HalfDeltaSquared,
                    }
                } else {
                    GammaEntry {
                        row: (i + 3 + accel * blk) as usize,
                        col: (i + 3 * blk) as usize,
                        term: GammaTerm::Delta,
                    }
                }
            },
    )
}

/// The matrix has a place in a state of `state` components for every entry
/// that an acceleration of `accel` components needs.
pub open spec fn gamma_fits(accel: nat, state: nat) -> bool {
    accel % 3 == 0 && (accel == 0 || accel * (accel / 3 - 1) + 6 <= state)
}

/// Lists the entries of the matrix that maps a process noise on accelerations
/// into the covariance of the state. Every entry lies within a matrix of
/// `state_size` rows and `accel_size` columns.
pub fn gamma_layout(accel_size: usize, state_size: usize) -> (entries: Vec<GammaEntry>)
    requires
        gamma_fits(accel_size as nat, state_size as nat),
    ensures
        entries@ == gamma_entries(accel_size as nat),
        forall|n: int|
            0 <= n < entries@.len() ==> (#[trigger] entries@[n]).row < state_size && entries@[n].col
                < accel_size,
{
    let mut entries: Vec<GammaEntry> = Vec::new();
    let blocks = accel_size / 3;
    let mut blk: usize = 0;
    while blk < blocks
        invariant
            blk <= blocks,
            blocks == accel_size / 3,
            gamma_fits(accel_size as nat, state_size as nat),
            entries@.len() == 6 * blk,
            forall|n: int|
                0 <= n < entries@.len() ==> #[trigger] entries@[n] == gamma_entries(
                    accel_size as nat,
                )[n],
            forall|n: int|
                0 <= n < entries@.len() ==> (#[trigger] entries@[n]).row < state_size
                    && entries@[n].col < accel_size,
        decreases blocks - blk,
    {
        assert(accel_size * blk + 6 <= state_size && 3 * blk + 3 <= accel_size) by (nonlinear_arith)
            requires
                blk < accel_size / 3,
                accel_size % 3 == 0,
                accel_size * (accel_size / 3 - 1) + 6 <= state_size,
        ;
        let base: usize = accel_size * blk;
        let mut i: usize = 0;
        while i < 3
            invariant
                i <= 3,
                blk < blocks,
                blocks == accel_size / 3,
                base == accel_size * blk,
                base + 6 <= state_size,
                3 * blk + 3 <= accel_size,
                entries@.len() == 6 * blk + 2 * i,
                forall|n: int|
                    0 <= n < entries@.len() ==> #[trigger] entries@[n] == gamma_entries(
                        accel_size as nat,
                    )[n],
                forall|n: int|
                    0 <= n < entries@.len() ==> (#[trigger] entries@[n]).row < state_size
                        && entries@[n].col < accel_size,
            decreases 3 - i,
        {
            let idx_i = i + base;
            let idx_j = i + 3 * blk;
            let idx_k = i + 3 + base;
            proof {
                let n = 6 * blk + 2 * i;
                assert(n / 6 == blk && (n % 6) / 2 == i && n % 2 == 0);
                assert((n + 1) / 6 == blk && ((n + 1) % 6) / 2 == i && (n + 1) % 2 == 1);
                assert(n + 1 < 2 * 3 * (accel_size as nat / 3)) by (nonlinear_arith)
                    requires
                        n == 6 * blk + 2 * i,
                        i < 3,
                        blk < accel_size / 3,
                ;
            }
            entries.push(GammaEntry { row: idx_i, col: idx_j, term: GammaTerm::HalfDeltaSquared });
            entries.push(GammaEntry { row: idx_k, col: idx_j, term: GammaTerm::Delta });
            i += 1;
        }
        blk += 1;
    }
    assert(entries@.len() == 2 * 3 * (accel_size as nat / 3)) by (nonlinear_arith)
        requires
            entries@.len() == 6 * blk,
            blk == accel_size / 3,
    ;
    assert(entries@ =~= gamma_entries(accel_size as nat));
    entries
}

/// The process noise to add to the predicted covariance at one measurement
/// update: which entry of the list applies, its matrix, and the matrix that
/// maps it into the covariance of the state over the time since the previous
/// estimate.
#[derive(Debug)]
pub struct NoiseInjection {
    pub index: usize,
    pub matrix: SncMatrix,
    pub gamma: Vec<GammaEntry>,
    pub delta_t: Duration,
}

/// Whether the innovation covariance, the sensitivity times the predicted
/// covariance times the sensitivity transposed plus the measurement noise,
/// has an inverse.
#[derive(Clone, Copy, Debug, PartialEq, Eq, Structural)]
pub enum Innovation {
    Singular,
    Invertible,
}

/// The index of the last of the first `n` noises that is not gated at
/// `epoch`.
pub open spec fn selected_noise(noises: Seq<SNC>, epoch: Epoch, n: nat) -> Option<usize>
    decreases n,
{
    if n == 0 || n > noises.len() {
        None
    } else if !noises[n - 1].gated(epoch) {
        Some((n - 1) as usize)
    } else {
        selected_noise(noises, epoch, (n - 1) as nat)
    }
}

/// The decisions of a Kalman filter, classical or extended.
///
/// The filter keeps the record of the previous estimate, the list of process
/// noises, and two marks that say whether the state transition matrix and the
/// sensitivity matrix have been refreshed since the last update. The matrices
/// themselves are with the numerical host.
#[derive(Debug)]
pub struct KF {
    /// The record of the previous estimate.
    pub prev_estimate: KfEstimate,
    /// The process noises, in the order of their start times.
    pub process_noise: Vec<SNC>,
    /// Whether the filter is extended.
    pub ekf: bool,
    /// The number of components of the estimated state.
    pub state_size: usize,
    /// The number of components of the acceleration that the process noise is
    /// about.
    pub accel_size: usize,
    pub stm_updated: bool,
    pub h_tilde_updated: bool,
    pub epoch_fmt: EpochFormat,
    pub covar_fmt: CovarFormat,
    pub prev_used_snc: usize,
}

impl KF {
    /// Every process noise has the size of the acceleration and, where it
    /// decays, knows from when; and the state has room for the noise.
    pub open spec fn wf(self) -> bool {
        &&& gamma_fits(self.accel_size as nat, self.state_size as nat)
        &&& forall|i: int|
            0 <= i < self.process_noise@.len() ==> (#[trigger] self.process_noise@[i]).dim()
                == self.accel_size && self.process_noise@[i].decay_is_anchored()
    }

    /// The index of the process noise that applies at `epoch`: the last of the
    /// list that is not gated.
    pub open spec fn noise_at(self, epoch: Epoch) -> Option<usize> {
        selected_noise(self.process_noise@, epoch, self.process_noise@.len())
    }

    /// Initializes a filter with an initial estimate and one process noise,
    /// whose size must be a multiple of three and fit the state. The noise
    /// decays, if it does, from the epoch of the initial estimate.
    pub fn new(initial_estimate: KfEstimate, process_noise: SNC, state_size: usize) -> (kf: KF)
        requires
            gamma_fits(process_noise.dim(), state_size as nat),
        ensures
            kf.wf(),
            kf.prev_estimate == initial_estimate,
            kf.process_noise@.len() == 1,
            kf.process_noise@[0].diag == process_noise.diag,
            kf.process_noise@[0].decay_diag == process_noise.decay_diag,
            kf.process_noise@[0].start_time == process_noise.start_time,
            kf.process_noise@[0].disable_time == process_noise.disable_time,
            kf.process_noise@[0].prev_epoch == process_noise.prev_epoch,
            kf.process_noise@[0].init_epoch == Some(initial_estimate.nominal_state.dt),
            !kf.ekf,
            !kf.stm_updated,
            !kf.h_tilde_updated,
            kf.state_size == state_size,
            kf.accel_size == process_noise.dim(),
    {
        let accel_size = process_noise.diag.len();
        let mut process_noise = process_noise;
        process_noise.init_epoch = Some(initial_estimate.nominal_state.dt);
        let mut noises: Vec<SNC> = Vec::new();
        noises.push(process_noise);
        KF {
            prev_estimate: initial_estimate,
            process_noise: noises,
            ekf: false,
            state_size,
            accel_size,
            stm_updated: false,
            h_tilde_updated: false,
            epoch_fmt: initial_estimate.epoch_fmt,
            covar_fmt: initial_estimate.covar_fmt,
            prev_used_snc: 0,
        }
    }

    /// Initializes a filter with an initial estimate and several process
    /// noises, which must be in the order of their start times: at each
    /// measurement update the last one that applies is used. All must have
    /// the size `accel_size`, a multiple of three that fits the state. Each
    /// decays, if it does, from the epoch of the initial estimate.
    pub fn with_sncs(
        initial_estimate: KfEstimate,
        process_noises: Vec<SNC>,
        state_size: usize,
        accel_size: usize,
    ) -> (kf: KF)
        requires
            gamma_fits(accel_size as nat, state_size as nat),
            forall|i: int|
                0 <= i < process_noises@.len() ==> (#[trigger] process_noises@[i]).dim()
                    == accel_size,
        ensures
            kf.wf(),
            kf.prev_estimate == initial_estimate,
            kf.process_noise@.len() == process_noises@.len(),
            forall|i: int|
                0 <= i < process_noises@.len() ==> {
                    &&& (#[trigger] kf.process_noise@[i]).diag == process_noises@[i].diag
                    &&& kf.process_noise@[i].decay_diag == process_noises@[i].decay_diag
                    &&& kf.process_noise@[i].start_time == process_noises@[i].start_time
                    &&& kf.process_noise@[i].disable_time == process_noises@[i].disable_time
                    &&& kf.process_noise@[i].prev_epoch == process_noises@[i].prev_epoch
                    &&& kf.process_noise@[i].init_epoch == Some(initial_estimate.nominal_state.dt)
                },
            !kf.ekf,
            !kf.stm_updated,
            !kf.h_tilde_updated,
            kf.state_size == state_size,
            kf.accel_size == accel_size,
    {
        let mut process_noises = process_noises;
        let ghost given = process_noises@;
        let mut i: usize = 0;
        while i < process_noises.len()
            invariant
                i <= process_noises@.len(),
                process_noises@.len() == given.len(),
                forall|k: int|
                    0 <= k < given.len() ==> {
                        &&& (#[trigger] process_noises@[k]).diag == given[k].diag
                        &&& process_noises@[k].decay_diag == given[k].decay_diag
                        &&& process_noises@[k].start_time == given[k].start_time
                        &&& process_noises@[k].disable_time == given[k].disable_time
                        &&& process_noises@[k].prev_epoch == given[k].prev_epoch
                    },
                forall|k: int|
                    0 <= k < i ==> (#[trigger] process_noises@[k]).init_epoch == Some(
                        initial_estimate.nominal_state.dt,
                    ),
            decreases process_noises@.len() - i,
        {
            process_noises[i].init_epoch = Some(initial_estimate.nominal_state.dt);
            i += 1;
        }
        KF {
            prev_estimate: initial_estimate,
            process_noise: process_noises,
            ekf: false,
            state_size,
            accel_size,
            stm_updated: false,
            h_tilde_updated: false,
            epoch_fmt: initial_estimate.epoch_fmt,
            covar_fmt: initial_estimate.covar_fmt,
            prev_used_snc: 0,
        }
    }

    /// Initializes a filter without process noise, for accelerations of three
    /// components. The state must have at least six components.
    pub fn no_snc(initial_estimate: KfEstimate, state_size: usize) -> (kf: KF)
        requires
            6 <= state_size,
        ensures
            kf.wf(),
            kf.prev_estimate == initial_estimate,
            kf.process_noise@.len() == 0,
            !kf.ekf,
            !kf.stm_updated,
            !kf.h_tilde_updated,
            kf.state_size == state_size,
            kf.accel_size == 3,
    {
        KF {
            prev_estimate: initial_estimate,
            process_noise: Vec::new(),
            ekf: false,
            state_size,
            accel_size: 3,
            stm_updated: false,
            h_tilde_updated: false,
            epoch_fmt: initial_estimate.epoch_fmt,
            covar_fmt: initial_estimate.covar_fmt,
            prev_used_snc: 0,
        }
    }

    /// The record of the previous estimate.
    pub fn previous_estimate(&self) -> (est: &KfEstimate)
        ensures
            *est == self.prev_estimate,
    {
        &self.prev_estimate
    }

    /// Replaces the record of the previous estimate.
    pub fn set_previous_estimate(&mut self, est: &KfEstimate)
        ensures
            *final(self) == (KF { prev_estimate: *est, ..*old(self) }),
    {
        self.prev_estimate = *est;
    }

    /// Marks the state transition matrix as refreshed. This must be done
    /// before each time update and each measurement update.
    pub fn update_stm(&mut self)
        ensures
            *final(self) == (KF { stm_updated: true, ..*old(self) }),
    {
        self.stm_updated = true;
    }

    /// Marks the sensitivity matrix as refreshed. This must be done before
    /// each measurement update.
    pub fn update_h_tilde(&mut self)
        ensures
            *final(self) == (KF { h_tilde_updated: true, ..*old(self) }),
    {
        self.h_tilde_updated = true;
    }

    /// Whether the filter is extended.
    pub fn is_extended(&self) -> (r: bool)
        ensures
            r == self.ekf,
    {
        self.ekf
    }

    /// Makes the filter extended, or classical.
    pub fn set_extended(&mut self, status: bool)
        ensures
            *final(self) == (KF { ekf: status, ..*old(self) }),
    {
        self.ekf = status;
    }

    /// Replaces all process noises by `snc`, which must have the size of the
    /// acceleration and, if it decays, know from when.
    pub fn set_process_noise(&mut self, snc: SNC)
        requires
            old(self).wf(),
            snc.dim() == old(self).accel_size,
            snc.decay_is_anchored(),
        ensures
            final(self).wf(),
            final(self).process_noise@ == seq![snc],
            final(self).prev_estimate == old(self).prev_estimate,
            final(self).ekf == old(self).ekf,
            final(self).stm_updated == old(self).stm_updated,
            final(self).h_tilde_updated == old(self).h_tilde_updated,
            final(self).state_size == old(self).state_size,
            final(self).accel_size == old(self).accel_size,
    {
        let mut noises: Vec<SNC> = Vec::new();
        noises.push(snc);
        self.process_noise = noises;
    }

    /// Advances the filter by a time update at `nominal_state`.
    ///
    /// The predicted covariance is the previous covariance mapped through the
    /// state transition matrix. The predicted deviation is zero when the
    /// filter is extended, and the previous deviation mapped through the state
    /// transition matrix when it is classical. The mark of the state
    /// transition matrix is cleared, the estimate becomes the previous one,
    /// and every process noise notes its epoch.
    ///
    /// Fails with `StateTransitionMatrixNotUpdated`, and changes nothing, when
    /// the state transition matrix was not refreshed.
    pub fn time_update(&mut self, nominal_state: Orbit) -> (r: Result<KfEstimate, NyxError>)
        ensures
            !old(self).stm_updated ==> r == Err::<KfEstimate, NyxError>(
                NyxError::StateTransitionMatrixNotUpdated,
            ) && *final(self) == *old(self),
            old(self).stm_updated ==> r == Ok::<KfEstimate, NyxError>(
                old(self).predicted_at(nominal_state),
            ) && old(self).predicted(*final(self), nominal_state),
            old(self).wf() ==> final(self).wf(),
    {
        if !self.stm_updated {
            return Err(NyxError::StateTransitionMatrixNotUpdated);
        }
        let estimate = KfEstimate {
            nominal_state,
            predicted: true,
            extended: self.ekf,
            noise: None,
            epoch_fmt: self.epoch_fmt,
            covar_fmt: self.covar_fmt,
        };
        self.stm_updated = false;
        self.prev_estimate = estimate;
        let mut i: usize = 0;
        while i < self.process_noise.len()
            invariant
                i <= self.process_noise@.len(),
                self.process_noise@.len() == old(self).process_noise@.len(),
                self.prev_estimate == estimate,
                !self.stm_updated,
                self.h_tilde_updated == old(self).h_tilde_updated,
                self.ekf == old(self).ekf,
                self.state_size == old(self).state_size,
                self.accel_size == old(self).accel_size,
                self.prev_used_snc == old(self).prev_used_snc,
                self.epoch_fmt == old(self).epoch_fmt,
                self.covar_fmt == old(self).covar_fmt,
                forall|k: int|
                    0 <= k < i ==> (#[trigger] self.process_noise@[k]) == (SNC {
                        prev_epoch: Some(nominal_state.dt),
                        ..old(self).process_noise@[k]
                    }),
                forall|k: int|
                    i <= k < self.process_noise@.len() ==> (#[trigger] self.process_noise@[k])
                        == old(self).process_noise@[k],
            decreases self.process_noise@.len() - i,
        {
            self.process_noise[i].prev_epoch = Some(nominal_state.dt);
            i += 1;
        }
        Ok(estimate)
    }

    /// `after` is this filter with the epoch `epoch` noted in every process
    /// noise as that of the previous step, and with the same settings.
    pub open spec fn stepped(self, after: KF, epoch: Epoch) -> bool {
        &&& after.ekf == self.ekf
        &&& after.state_size == self.state_size
        &&& after.accel_size == self.accel_size
        &&& after.epoch_fmt == self.epoch_fmt
        &&& after.covar_fmt == self.covar_fmt
        &&& after.process_noise@.len() == self.process_noise@.len()
        &&& forall|i: int|
            0 <= i < self.process_noise@.len() ==> (#[trigger] after.process_noise@[i]) == (SNC {
                prev_epoch: Some(epoch),
                ..self.process_noise@[i]
            })
    }

    /// `after` is this filter after a time update at `nominal_state`.
    pub open spec fn predicted(self, after: KF, nominal_state: Orbit) -> bool {
        &&& self.stepped(after, nominal_state.dt)
        &&& after.prev_estimate == self.predicted_at(nominal_state)
        &&& !after.stm_updated
        &&& after.h_tilde_updated == self.h_tilde_updated
        &&& after.prev_used_snc == self.prev_used_snc
    }

    /// `after` is this filter after a measurement update at `nominal_state`
    /// that went well.
    pub open spec fn updated(self, after: KF, nominal_state: Orbit) -> bool {
        &&& self.stepped(after, nominal_state.dt)
        &&& after.prev_estimate == self.updated_at(nominal_state)
        &&& !after.stm_updated
        &&& !after.h_tilde_updated
        &&& after.prev_used_snc == self.noise_used(nominal_state.dt)
    }

    /// The record of a time update at `nominal_state`.
    pub open spec fn predicted_at(self, nominal_state: Orbit) -> KfEstimate {
        KfEstimate {
            nominal_state,
            predicted: true,
            extended: self.ekf,
            noise: None,
            epoch_fmt: self.epoch_fmt,
            covar_fmt: self.covar_fmt,
        }
    }

    /// The record of a measurement update at `nominal_state`.
    pub open spec fn updated_at(self, nominal_state: Orbit) -> KfEstimate {
        KfEstimate {
            nominal_state,
            predicted: false,
            extended: self.ekf,
            noise: self.noise_at(nominal_state.dt),
            epoch_fmt: self.epoch_fmt,
            covar_fmt: self.covar_fmt,
        }
    }

    /// The record of the residuals of a measurement update at `epoch`.
    pub open spec fn residual_at(self, epoch: Epoch) -> Residual {
        Residual {
            dt: epoch,
            basis: if self.ekf {
                PostfitBasis::Estimate
            } else {
                PostfitBasis::Prediction
            },
            epoch_fmt: EpochFormat::GregorianUtc,
        }
    }

    /// Finds the process noise that applies at `epoch`: the list is searched
    /// from its end, and the first noise that is not gated is taken.
    pub fn select_noise(&self, epoch: Epoch) -> (r: Option<usize>)
        ensures
            r == self.noise_at(epoch),
            r matches Some(i) ==> i < self.process_noise@.len() && !self.process_noise@[i as int].gated(
                epoch,
            ),
            r is None ==> forall|i: int|
                0 <= i < self.process_noise@.len() ==> (#[trigger] self.process_noise@[i]).gated(
                    epoch,
                ),
    {
        let mut n: usize = self.process_noise.len();
        while n > 0
            invariant
                n <= self.process_noise@.len(),
                self.noise_at(epoch) == selected_noise(self.process_noise@, epoch, n as nat),
                forall|i: int|
                    n <= i < self.process_noise@.len() ==> (#[trigger] self.process_noise@[i]).gated(
                        epoch,
                    ),
            decreases n,
        {
            if self.process_noise[n - 1].applies_at(epoch) {
                return Some(n - 1);
            }
            n -= 1;
        }
        None
    }

    /// `r` is the process noise to add to the predicted covariance of a
    /// measurement update at `epoch`: none when no noise applies, else the
    /// noise that applies with its diagonal, its decay, the time since the
    /// previous estimate, and the entries of the matrix that maps it into the
    /// covariance of the state.
    pub open spec fn injects(self, epoch: Epoch, r: Option<NoiseInjection>) -> bool {
        &&& r is Some <==> self.noise_at(epoch) is Some
        &&& r matches Some(injection) ==> {
            &&& Some(injection.index) == self.noise_at(epoch)
            &&& injection.index < self.process_noise@.len()
            &&& injection.delta_t == epoch.spec_since(self.prev_estimate.nominal_state.dt)
            &&& injection.gamma@ == gamma_entries(self.accel_size as nat)
            &&& injection.matrix.diag@ == self.process_noise@[injection.index as int].diag@
            &&& injection.matrix.decay is Some
                <==> self.process_noise@[injection.index as int].decay_diag is Some
            &&& injection.matrix.decay matches Some(decay) ==> {
                &&& decay.constants@ == self.process_noise@[injection.index as int].decay_diag->0@
                &&& decay.elapsed == epoch.spec_since(
                    self.process_noise@[injection.index as int].init_epoch->0,
                )
            }
        }
    }

    /// Tells which process noise is to be added to the predicted covariance of
    /// a measurement update at `epoch`, and how: the matrix of the noise and
    /// the matrix that maps it into the covariance of the state. At most one
    /// noise applies at a step.
    pub fn process_noise_at(&self, epoch: Epoch) -> (r: Option<NoiseInjection>)
        requires
            self.wf(),
        ensures
            self.injects(epoch, r),
    {
        match self.select_noise(epoch) {
            None => None,
            Some(index) => {
                match self.process_noise[index].to_matrix(epoch) {
                    Some(matrix) => Some(
                        NoiseInjection {
                            index,
                            matrix,
                            gamma: gamma_layout(self.accel_size, self.state_size),
                            delta_t: epoch.since(self.prev_estimate.nominal_state.dt),
                        },
                    ),
                    None => {
                        proof {
                            assert(false);
                        }
                        None
                    },
                }
            },
        }
    }

    /// Advances the filter by a measurement update at `nominal_state`, given
    /// whether the innovation covariance could be inverted.
    ///
    /// Both matrices must have been refreshed: without the state transition
    /// matrix the update fails with `StateTransitionMatrixNotUpdated`, then
    /// without the sensitivity matrix with `SensitivityNotUpdated`; the filter
    /// stays as it was. Then the process noise is chosen. A singular
    /// innovation covariance fails with `SingularKalmanGain`; the filter then
    /// only remembers the noise that it chose. Otherwise both marks are
    /// cleared, the estimate becomes the previous one, and every process
    /// noise notes the epoch as that of the previous step.
    pub fn measurement_update(&mut self, nominal_state: Orbit, innovation: Innovation) -> (r:
        Result<(KfEstimate, Residual), NyxError>)
        ensures
            old(self).refusal() matches Some(e) ==> r == Err::<(KfEstimate, Residual), NyxError>(e)
                && *final(self) == *old(self),
            old(self).refusal() is None && innovation is Singular ==> r == Err::<
                (KfEstimate, Residual),
                NyxError,
            >(NyxError::SingularKalmanGain) && *final(self) == (KF {
                prev_used_snc: old(self).noise_used(nominal_state.dt),
                ..*old(self)
            }),
            old(self).refusal() is None && innovation is Invertible ==> r == Ok::<
                (KfEstimate, Residual),
                NyxError,
            >((old(self).updated_at(nominal_state), old(self).residual_at(nominal_state.dt)))
                && old(self).updated(*final(self), nominal_state),
            old(self).wf() ==> final(self).wf(),
    {
        if !self.stm_updated {
            return Err(NyxError::StateTransitionMatrixNotUpdated);
        }
        if !self.h_tilde_updated {
            return Err(NyxError::SensitivityNotUpdated);
        }
        let noise = self.select_noise(nominal_state.dt);
        if let Some(i) = noise {
            if self.prev_used_snc != i {
                self.prev_used_snc = i;
            }
        }
        match innovation {
            Innovation::Singular => {
                return Err(NyxError::SingularKalmanGain);
            },
            Innovation::Invertible => {},
        }
        let basis = if self.ekf {
            PostfitBasis::Estimate
        } else {
            PostfitBasis::Prediction
        };
        let res = Residual::new(nominal_state.dt, basis);
        let estimate = KfEstimate {
            nominal_state,
            predicted: false,
            extended: self.ekf,
            noise,
            epoch_fmt: self.epoch_fmt,
            covar_fmt: self.covar_fmt,
        };
        self.stm_updated = false;
        self.h_tilde_updated = false;
        self.prev_estimate = estimate;
        let ghost chosen = self.prev_used_snc;
        let mut i: usize = 0;
        while i < self.process_noise.len()
            invariant
                i <= self.process_noise@.len(),
                self.process_noise@.len() == old(self).process_noise@.len(),
                self.prev_estimate == estimate,
                !self.stm_updated,
                !self.h_tilde_updated,
                self.ekf == old(self).ekf,
                self.state_size == old(self).state_size,
                self.accel_size == old(self).accel_size,
                self.prev_used_snc == chosen,
                self.epoch_fmt == old(self).epoch_fmt,
                self.covar_fmt == old(self).covar_fmt,
                forall|k: int|
                    0 <= k < i ==> (#[trigger] self.process_noise@[k]) == (SNC {
                        prev_epoch: Some(nominal_state.dt),
                        ..old(self).process_noise@[k]
                    }),
                forall|k: int|
                    i <= k < self.process_noise@.len() ==> (#[trigger] self.process_noise@[k])
                        == old(self).process_noise@[k],
            decreases self.process_noise@.len() - i,
        {
            self.process_noise[i].prev_epoch = Some(nominal_state.dt);
            i += 1;
        }
        Ok((estimate, res))
    }

    /// The noise that the filter remembers after it has chosen one at
    /// `epoch`: the one chosen, or the one it remembered when none applies.
    pub open spec fn noise_used(self, epoch: Epoch) -> usize {
        match self.noise_at(epoch) {
            Some(i) => i,
            None => self.prev_used_snc,
        }
    }
}

/// The filter insists on fresh matrices. As long as the state transition
/// matrix has not been refreshed a measurement update is refused with the
/// error of that matrix, whether or not the sensitivity matrix was refreshed.
/// Once it has been refreshed, and the sensitivity matrix has not, the update
/// is refused with the error of the sensitivity matrix. With both refreshed it
/// is not refused; and after an update, which clears both marks, it is
/// refused again with the error of the state transition matrix.
pub proof fn lemma_filter_preconditions(kf: KF)
    ensures
        !kf.stm_updated ==> kf.refusal() == Some(NyxError::StateTransitionMatrixNotUpdated),
        !kf.stm_updated ==> (KF { h_tilde_updated: true, ..kf }).refusal() == Some(
            NyxError::StateTransitionMatrixNotUpdated,
        ),
        !kf.h_tilde_updated ==> (KF { stm_updated: true, ..kf }).refusal() == Some(
            NyxError::SensitivityNotUpdated,
        ),
        (KF { stm_updated: true, h_tilde_updated: true, ..kf }).refusal() is None,
        (KF { stm_updated: false, h_tilde_updated: false, ..kf }).refusal() == Some(
            NyxError::StateTransitionMatrixNotUpdated,
        ),
{
}

/// The gap that switches a process noise off is counted from the previous
/// step of the filter, whichever kind it was. After a time update or a
/// measurement update at `e1`, a noise is switched off at `e2` exactly when
/// the time from `e1` to `e2` is longer than the noise tolerates; and a noise
/// that has started by `e2` is then gated exactly in that case.
pub proof fn lemma_gap_since_previous_step(
    kf: KF,
    after: KF,
    nominal_state: Orbit,
    i: int,
    e2: Epoch,
)
    requires
        kf.predicted(after, nominal_state) || kf.updated(after, nominal_state),
        0 <= i < kf.process_noise@.len(),
    ensures
        after.process_noise@[i].disable_time == kf.process_noise@[i].disable_time,
        after.process_noise@[i].gap_too_long(e2) <==> e2.nanos - nominal_state.dt.nanos
            > kf.process_noise@[i].disable_time.nanos,
        !after.process_noise@[i].not_started(e2) ==> (after.process_noise@[i].gated(e2) <==> e2.nanos
            - nominal_state.dt.nanos > kf.process_noise@[i].disable_time.nanos),
{
    assert(kf.stepped(after, nominal_state.dt));
    assert(after.process_noise@[i] == (SNC {
        prev_epoch: Some(nominal_state.dt),
        ..kf.process_noise@[i]
    }));
}

impl KF {
    /// The error with which a measurement update is refused, if it is.
    pub open spec fn refusal(self) -> Option<NyxError> {
        if !self.stm_updated {
            Some(NyxError::StateTransitionMatrixNotUpdated)
        } else if !self.h_tilde_updated {
            Some(NyxError::SensitivityNotUpdated)
        } else {
            None
        }
    }
}

} // verus!
