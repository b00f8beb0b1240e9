use vstd::prelude::*;
use crate::celestia::state::Orbit;
use crate::scalar::Scalar;
use crate::time::{Epoch, TimeTagged};

verus! {

/// How the epoch of an estimate or a residual is written out.
#[derive(Clone, Copy, Debug, PartialEq, Eq, Structural)]
pub enum EpochFormat {
    GregorianUtc,
    GregorianTai,
    MjdTai,
    MjdTt,
    MjdUtc,
    JdeEt,
    JdeTai,
    JdeTt,
    JdeUtc,
    /// Seconds past the given number of seconds.
    TaiSecs(Scalar),
    /// Days past the given number of days.
    TaiDays(Scalar),
}

/// How a covariance is written out.
#[derive(Clone, Copy, Debug, PartialEq, Eq, Structural)]
pub enum CovarFormat {
    Sqrt,
    Sigma1,
    Sigma2,
    Sigma3,
    MulSigma(Scalar),
}

/// What the filter did to produce an estimate. The deviation and the
/// covariances of the estimate are with the numerical host, which computes
/// them as this record says.
#[derive(Clone, Copy, Debug, PartialEq, Eq, Structural)]
pub struct KfEstimate {
    /// The state around which the estimate is linearized.
    pub nominal_state: Orbit,
    /// True for a time update, false for a measurement update.
    pub predicted: bool,
    /// Whether the filter was extended at this step. An extended filter
    /// predicts a zero deviation and estimates the deviation as the gain
    /// times the prefit residual; a classical one maps the previous deviation
    /// through the state transition matrix and corrects it by the gain times
    /// the postfit residual.
    pub extended: bool,
    /// The index of the process noise that was added to the predicted
    /// covariance, if one was.
    pub noise: Option<usize>,
    pub epoch_fmt: EpochFormat,
    pub covar_fmt: CovarFormat,
}

impl KfEstimate {
    /// The record of an estimate that nothing was done to: a prediction at
    /// `nominal_state`.
    pub fn zeros(nominal_state: Orbit) -> (e: KfEstimate)
        ensures
            e == (KfEstimate {
                nominal_state,
                predicted: true,
                extended: false,
                noise: None,
                epoch_fmt: EpochFormat::GregorianUtc,
                covar_fmt: CovarFormat::Sqrt,
            }),
    {
        KfEstimate {
            nominal_state,
            predicted: true,
            extended: false,
            noise: None,
            epoch_fmt: EpochFormat::GregorianUtc,
            covar_fmt: CovarFormat::Sqrt,
        }
    }

    /// The record of an initial estimate at `nominal_state`, which counts as a
    /// measurement update.
    pub fn from_covar(nominal_state: Orbit) -> (e: KfEstimate)
        ensures
            e == (KfEstimate {
                nominal_state,
                predicted: false,
                extended: false,
                noise: None,
                epoch_fmt: EpochFormat::GregorianUtc,
                covar_fmt: CovarFormat::Sqrt,
            }),
    {
        KfEstimate {
            nominal_state,
            predicted: false,
            extended: false,
            noise: None,
            epoch_fmt: EpochFormat::GregorianUtc,
            covar_fmt: CovarFormat::Sqrt,
        }
    }

    /// True for a time update.
    pub fn predicted(&self) -> (p: bool)
        ensures
            p == self.predicted,
    {
        self.predicted
    }
}

impl TimeTagged for KfEstimate {
    open spec fn tagged_epoch(&self) -> Epoch {
        self.nominal_state.dt
    }

    fn epoch(&self) -> (e: Epoch) {
        self.nominal_state.dt
    }

    fn set_epoch(&mut self, epoch: Epoch) {
        self.nominal_state.dt = epoch;
    }
}

} // verus!
