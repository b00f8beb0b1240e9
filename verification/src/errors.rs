use vstd::prelude::*;

verus! {

/// Every way in which a lookup, an interpolation request or a filter step can
/// fail.
#[derive(Clone, Debug, PartialEq, Eq)]
pub enum NyxError {
    /// No frame or ephemeris answers to this name or path.
    ObjectNotFound(String),
    /// The named ephemeris has no interpolator, or none that covers the epoch.
    NoInterpolationData(String),
    /// The interpolation data of the named ephemeris cannot be used.
    InvalidInterpolationData(String),
    /// The named ephemeris has an interpolator without state data.
    NoStateData(String),
    /// A frame definition table could not be loaded.
    LoadingError(String),
    /// A filter update was asked for before the state transition matrix was
    /// refreshed.
    StateTransitionMatrixNotUpdated,
    /// A measurement update was asked for before the sensitivity matrix was
    /// refreshed.
    SensitivityNotUpdated,
    /// The innovation covariance could not be inverted.
    SingularKalmanGain,
    /// A state transition matrix could not be inverted while smoothing.
    StateTransitionMatrixSingular,
    /// A covariance could not be inverted while smoothing.
    CovarianceMatrixSingular,
    /// The state transition matrix of a state could not be inverted when the
    /// state was set.
    SingularStateTransitionMatrix,
    /// A state was asked for a state transition matrix that it does not carry.
    StateTransitionMatrixUnset,
    /// A model was asked for partial derivatives that it does not define.
    PartialsUndefined,
}

} // verus!
