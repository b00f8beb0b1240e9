use vstd::prelude::*;
use crate::celestia::state::Orbit;
use crate::errors::NyxError;
use crate::od::estimate::KfEstimate;
use crate::od::kalman::{Innovation, NoiseInjection, KF};
use crate::od::residual::Residual;
use crate::od::trigger::{CkfTrigger, EkfTrigger};
use crate::time::{Duration, Epoch, TimeTagged};

verus! {

/// A measurement of a state, computed by a device or received from one.
pub trait Measurement: TimeTagged {
    /// Whether the transmitter and the receiver were in line of sight.
    fn visible(&self) -> bool;
}

/// A device that measures, such as a ground station.
pub trait MeasurementDevice<MsrIn, Msr: Measurement> {
    /// The measurement of `input`, if the device can make one.
    fn measure(&self, input: &MsrIn) -> Option<Msr>;
}

/// What the numerical host found when it solved a measurement update.
#[derive(Clone, Copy, Debug, PartialEq, Eq, Structural)]
pub struct Solution {
    /// Whether the innovation covariance could be inverted. The two other
    /// fields mean nothing when it could not.
    pub innovation: Innovation,
    /// Whether the deviation of the new estimate lies within the bound of the
    /// trigger.
    pub within_bound: bool,
    /// Whether the deviation of the new estimate lies within three standard
    /// deviations.
    pub within_3sigma: bool,
}

/// What is done at a step of the propagator.
#[derive(Clone, Copy, Debug, PartialEq, Eq, Structural)]
pub enum StepKind {
    TimeUpdate,
    MeasurementUpdate,
}

/// What a measurement update came to.
#[derive(Clone, Copy, Debug, PartialEq, Eq, Structural)]
pub struct Conclusion {
    pub estimate: KfEstimate,
    pub residual: Residual,
    /// Whether the deviation is to be added to the nominal trajectory.
    pub recenter: bool,
    /// Whether the filter became extended at this step although the deviation
    /// lies outside three standard deviations.
    pub diverging: bool,
}

/// What the numerical host found when it smoothed one estimate.
#[derive(Clone, Copy, Debug, PartialEq, Eq, Structural)]
pub enum SmootherOutcome {
    Smoothed,
    /// The state transition matrix of the next estimate has no inverse.
    SingularStateTransition,
    /// The covariance of the next estimate has no inverse.
    SingularCovariance,
}

impl SmootherOutcome {
    /// The error that ends the smoothing, if the outcome is a failure.
    pub open spec fn spec_failure(self) -> Option<NyxError> {
        match self {
            SmootherOutcome::Smoothed => None,
            SmootherOutcome::SingularStateTransition => Some(
                NyxError::StateTransitionMatrixSingular,
            ),
            SmootherOutcome::SingularCovariance => Some(NyxError::CovarianceMatrixSingular),
        }
    }

    /// The error that ends the smoothing, if the outcome is a failure.
    pub fn failure(&self) -> (r: Option<NyxError>)
        ensures
            r == self.spec_failure(),
    {
        match self {
            SmootherOutcome::Smoothed => None,
            SmootherOutcome::SingularStateTransition => Some(
                NyxError::StateTransitionMatrixSingular,
            ),
            SmootherOutcome::SingularCovariance => Some(NyxError::CovarianceMatrixSingular),
        }
    }
}

/// What the numerical host hands back to the process: the answer to what
/// the process last asked for.
#[derive(Debug)]
pub enum Reply {
    /// Nothing was asked yet.
    Started,
    /// The nominal state of every step that the propagator took, in order.
    Steps(Vec<Orbit>),
    /// Whether the device that was asked sees the target.
    Sight(bool),
    /// What came of solving the measurement update.
    Solved(Solution),
    /// What was asked for has been done.
    Done,
}

/// What the process asks of the numerical host next.
#[derive(Debug)]
pub enum Request {
    /// Propagate the nominal trajectory for `elapsed` and hand back the
    /// nominal state of every step that is taken.
    Propagate { elapsed: Duration },
    /// Compute the time update that `estimate` records, with the state
    /// transition matrix of its nominal state. With `recenter` the deviation
    /// is then added to the nominal trajectory.
    TimeUpdate { estimate: KfEstimate, recenter: bool },
    /// Let the device with this index measure `state` and say whether it sees
    /// the target.
    Measure { device: usize, state: Orbit },
    /// Refresh the state transition matrix and the sensitivity matrix, and
    /// solve the measurement update at `state` for measurement number
    /// `msr_index` against what the device computed, for a filter that is
    /// `extended` or not, with the process noise `noise` added to the predicted
    /// covariance.
    Solve {
        msr_index: usize,
        device: usize,
        state: Orbit,
        extended: bool,
        noise: Option<NoiseInjection>,
    },
    /// Keep the estimate and the residual that were last solved, under the
    /// records given.
    Accept { done: Conclusion },
    /// The pass is over, with this error or without one.
    Finished { error: Option<NyxError> },
}

/// What a pass is waiting for.
#[derive(Clone, Copy, Debug, PartialEq, Eq, Structural)]
pub enum Phase {
    /// The pass has not begun.
    Idle,
    /// The propagator runs towards the measurement that is awaited.
    Propagating,
    /// The host computes a time update.
    TimeUpdating,
    /// A device measures.
    Measuring,
    /// The host solves a measurement update.
    Solving,
    /// The host keeps an estimate and a residual.
    Accepting,
    /// The pass is over.
    Over,
}

/// Where a pass over the measurements stands.
#[derive(Debug)]
pub struct Pass {
    /// The index of the measurement that is awaited.
    pub msr: usize,
    /// The steps that the propagator took towards it.
    pub steps: Vec<Orbit>,
    /// The index of the step that is dealt with.
    pub step: usize,
    /// The index of the device that is dealt with.
    pub device: usize,
    pub phase: Phase,
}

impl Pass {
    /// A pass that has not begun.
    pub fn new() -> (pass: Pass)
        ensures
            pass.phase is Idle,
            pass.msr == 0,
            pass.step == 0,
            pass.device == 0,
            pass.steps@.len() == 0,
    {
        Pass { msr: 0, steps: Vec::new(), step: 0, device: 0, phase: Phase::Idle }
    }

    /// The pass waits for a reply of this kind.
    pub open spec fn awaits(self, reply: Reply) -> bool {
        match self.phase {
            Phase::Idle => reply is Started,
            Phase::Propagating => reply is Steps,
            Phase::TimeUpdating => reply is Done,
            Phase::Measuring => reply is Sight,
            Phase::Solving => reply is Solved,
            Phase::Accepting => reply is Done,
            Phase::Over => false,
        }
    }

    /// Tells whether the pass waits for a reply of this kind.
    pub fn expects(&self, reply: &Reply) -> (r: bool)
        ensures
            r == self.awaits(*reply),
    {
        match self.phase {
            Phase::Idle => match reply {
                Reply::Started => true,
                _ => false,
            },
            Phase::Propagating => match reply {
                Reply::Steps(_) => true,
                _ => false,
            },
            Phase::TimeUpdating => match reply {
                Reply::Done => true,
                _ => false,
            },
            Phase::Measuring => match reply {
                Reply::Sight(_) => true,
                _ => false,
            },
            Phase::Solving => match reply {
                Reply::Solved(_) => true,
                _ => false,
            },
            Phase::Accepting => match reply {
                Reply::Done => true,
                _ => false,
            },
            Phase::Over => false,
        }
    }

    /// What the pass deals with exists: the measurement among `targets`
    /// measurements, the step among those taken, the device among `devices`
    /// devices.
    pub open spec fn wf(self, targets: nat, devices: nat) -> bool {
        match self.phase {
            Phase::Idle => true,
            Phase::Over => true,
            Phase::Propagating => self.msr < targets,
            Phase::TimeUpdating => self.msr < targets && self.step < self.steps@.len(),
            _ => self.msr < targets && self.step < self.steps@.len() && self.device < devices,
        }
    }
}

/// What the smoother asks of the numerical host next.
#[derive(Clone, Copy, Debug, PartialEq, Eq, Structural)]
pub enum SmootherRequest {
    /// Smooth the estimate with this index with the one after it, which is
    /// smoothed already.
    Smooth(usize),
    /// Every estimate is smoothed.
    Finished,
}

/// The step at `dt` is a time update: no measurement is taken in this pass,
/// or the measurement that is awaited at `target` lies strictly after it.
pub open spec fn is_time_update(measuring: bool, target: Epoch, dt: Epoch) -> bool {
    !measuring || target.nanos > dt.nanos
}

/// The index of the first step at or after `from` at which something is to
/// be done: a time update, or a measurement update when there is a device.
/// Without such a step it is the number of steps.
pub open spec fn pending(
    steps: Seq<Orbit>,
    from: int,
    measuring: bool,
    target: Epoch,
    devices: int,
) -> int
    decreases steps.len() - from,
{
    if from < 0 || from >= steps.len() {
        steps.len() as int
    } else if is_time_update(measuring, target, steps[from].dt) || devices > 0 {
        from
    } else {
        pending(steps, from + 1, measuring, target, devices)
    }
}

/// An orbit determination process: a filter, the devices that measure, the
/// policy that extends the filter, and the records of what was estimated.
pub struct ODProcess<N, T: EkfTrigger, P> {
    /// The propagator and the numbers of the estimation.
    pub prop: P,
    /// The decisions of the Kalman filter.
    pub kf: KF,
    /// The devices that measure.
    pub devices: Vec<N>,
    /// Whether several devices can measure at one epoch.
    pub simultaneous_msr: bool,
    /// The records of the estimates, in order.
    pub estimates: Vec<KfEstimate>,
    /// The records of the residuals, in order.
    pub residuals: Vec<Residual>,
    pub ekf_trigger: T,
}

impl<N, T: EkfTrigger, P> ODProcess<N, T, P> {
    /// A process that starts from the previous estimate of `kf`.
    pub fn ekf(
        prop: P,
        kf: KF,
        devices: Vec<N>,
        simultaneous_msr: bool,
        num_expected_msr: usize,
        trigger: T,
    ) -> (od: Self)
        ensures
            od.kf == kf,
            od.prop == prop,
            od.devices == devices,
            od.simultaneous_msr == simultaneous_msr,
            od.ekf_trigger == trigger,
            od.estimates@ == seq![kf.prev_estimate],
            od.residuals@.len() == 0,
    {
        let mut estimates: Vec<KfEstimate> = Vec::with_capacity(num_expected_msr);
        estimates.push(kf.prev_estimate);
        Self {
            prop,
            kf,
            devices,
            simultaneous_msr,
            estimates,
            residuals: Vec::with_capacity(num_expected_msr),
            ekf_trigger: trigger,
        }
    }

    /// A process that starts from the previous estimate of `kf`, for devices
    /// that measure one at a time.
    pub fn default_ekf(prop: P, kf: KF, devices: Vec<N>, trigger: T) -> (od: Self)
        ensures
            od.kf == kf,
            od.prop == prop,
            od.devices == devices,
            !od.simultaneous_msr,
            od.ekf_trigger == trigger,
            od.estimates@ == seq![kf.prev_estimate],
            od.residuals@.len() == 0,
    {
        let mut estimates: Vec<KfEstimate> = Vec::with_capacity(10_001);
        estimates.push(kf.prev_estimate);
        Self {
            prop,
            kf,
            devices,
            simultaneous_msr: false,
            estimates,
            residuals: Vec::with_capacity(10_000),
            ekf_trigger: trigger,
        }
    }

    /// Tells what is done at a step of the propagator at `dt` while the next
    /// measurement is at `next_msr_epoch`: a time update strictly before the
    /// measurement, a measurement update otherwise.
    pub fn step_kind(next_msr_epoch: Epoch, dt: Epoch) -> (kind: StepKind)
        ensures
            kind is TimeUpdate <==> next_msr_epoch.nanos > dt.nanos,
    {
        if next_msr_epoch.is_after(dt) {
            StepKind::TimeUpdate
        } else {
            StepKind::MeasurementUpdate
        }
    }

    /// `after` is this process after a time update at `nominal_state`: the
    /// filter has predicted from a fresh state transition matrix, and the
    /// estimate is kept.
    pub open spec fn predict_made(self, after: Self, nominal_state: Orbit) -> bool {
        &&& (KF { stm_updated: true, ..self.kf }).predicted(after.kf, nominal_state)
        &&& after.estimates@ == self.estimates@.push(self.kf.predicted_at(nominal_state))
        &&& after.residuals == self.residuals
        &&& after.devices == self.devices
        &&& after.simultaneous_msr == self.simultaneous_msr
        &&& after.ekf_trigger == self.ekf_trigger
        &&& after.prop == self.prop
    }

    /// Makes a time update at `nominal_state`: the state transition matrix is
    /// marked as refreshed, the filter predicts, and the estimate is kept.
    /// Returns the record of the estimate and whether its deviation is to be
    /// added to the nominal trajectory, which is so for an extended filter.
    pub fn predict(&mut self, nominal_state: Orbit) -> (r: (KfEstimate, bool))
        ensures
            r.0 == old(self).kf.predicted_at(nominal_state),
            r.1 == old(self).kf.ekf,
            old(self).predict_made(*final(self), nominal_state),
            old(self).kf.wf() ==> final(self).kf.wf(),
    {
        self.kf.update_stm();
        let recenter = self.kf.is_extended();
        match self.kf.time_update(nominal_state) {
            Ok(est) => {
                self.estimates.push(est);
                (est, recenter)
            },
            Err(_) => {
                proof {
                    assert(false);
                }
                (self.kf.prev_estimate, recenter)
            },
        }
    }

    /// Whether the filter is extended for a measurement update at `dt`: it
    /// was, and the trigger does not make it classical again.
    pub open spec fn extended_at(self, dt: Epoch) -> bool {
        self.kf.ekf && !self.ekf_trigger.disables(dt)
    }

    /// `after` is this process made ready for a measurement update at `dt`.
    pub open spec fn prepared(self, after: Self, dt: Epoch) -> bool {
        &&& after.kf == (KF {
            stm_updated: true,
            h_tilde_updated: true,
            ekf: self.extended_at(dt),
            ..self.kf
        })
        &&& after.ekf_trigger == if self.kf.ekf {
            self.ekf_trigger.lapsed(dt)
        } else {
            self.ekf_trigger
        }
        &&& after.estimates == self.estimates
        &&& after.residuals == self.residuals
        &&& after.devices == self.devices
        &&& after.simultaneous_msr == self.simultaneous_msr
        &&& after.prop == self.prop
    }

    /// Makes the filter ready for a measurement update at `dt`: the state
    /// transition matrix and the sensitivity matrix are marked as refreshed,
    /// and an extended filter asks the trigger whether it is to become
    /// classical again. A classical filter does not ask. Returns whether the
    /// filter is extended for this update.
    pub fn prepare_update(&mut self, dt: Epoch) -> (extended: bool)
        ensures
            extended == old(self).extended_at(dt),
            old(self).prepared(*final(self), dt),
    {
        self.kf.update_stm();
        self.kf.update_h_tilde();
        if self.kf.is_extended() && self.ekf_trigger.disable_ekf(dt) {
            self.kf.set_extended(false);
        }
        self.kf.is_extended()
    }

    /// `after` is this process, and `r` what is returned, after a measurement
    /// update at `nominal_state` that the numerical host has solved.
    ///
    /// A filter that refuses the update stays as it was, and so do the records
    /// and the trigger. With a singular gain the filter only remembers the
    /// noise that it chose. Otherwise the filter updates, the trigger is asked
    /// whether the filter is to be extended, and the estimate and the residual
    /// are kept.
    pub open spec fn concluded(
        self,
        after: Self,
        nominal_state: Orbit,
        solved: Solution,
        r: Result<Conclusion, NyxError>,
    ) -> bool {
        &&& after.devices == self.devices
        &&& after.simultaneous_msr == self.simultaneous_msr
        &&& after.prop == self.prop
        &&& match self.kf.refusal() {
            Some(e) => {
                &&& r == Err::<Conclusion, NyxError>(e)
                &&& after.kf == self.kf
                &&& after.estimates == self.estimates
                &&& after.residuals == self.residuals
                &&& after.ekf_trigger == self.ekf_trigger
            },
            None => match solved.innovation {
                Innovation::Singular => {
                    &&& r == Err::<Conclusion, NyxError>(NyxError::SingularKalmanGain)
                    &&& after.kf == (KF {
                        prev_used_snc: self.kf.noise_used(nominal_state.dt),
                        ..self.kf
                    })
                    &&& after.estimates == self.estimates
                    &&& after.residuals == self.residuals
                    &&& after.ekf_trigger == self.ekf_trigger
                },
                Innovation::Invertible => {
                    let est = self.kf.updated_at(nominal_state);
                    let res = self.kf.residual_at(nominal_state.dt);
                    let enabled = self.ekf_trigger.enables(est, solved.within_bound);
                    &&& r == Ok::<Conclusion, NyxError>(
                        Conclusion {
                            estimate: est,
                            residual: res,
                            recenter: self.kf.ekf || enabled,
                            diverging: enabled && !self.kf.ekf && !solved.within_3sigma,
                        },
                    )
                    &&& after.ekf_trigger == self.ekf_trigger.asked(est, solved.within_bound)
                    &&& after.kf.ekf == (self.kf.ekf || enabled)
                    &&& self.kf.updated(KF { ekf: self.kf.ekf, ..after.kf }, nominal_state)
                    &&& after.estimates@ == self.estimates@.push(est)
                    &&& after.residuals@ == self.residuals@.push(res)
                },
            },
        }
    }

    /// Concludes a measurement update at `nominal_state` that the numerical
    /// host has solved.
    ///
    /// The filter updates, which fails as `KF::measurement_update` does and
    /// then leaves the estimates and the trigger as they were. Otherwise the
    /// trigger is asked whether the filter is to be extended, also when the
    /// filter is extended already; a classical filter that is to be extended
    /// becomes extended, and is diverging if the deviation lies outside three
    /// standard deviations. The estimate and the residual are kept. The
    /// deviation is to be added to the nominal trajectory when the filter is
    /// extended now.
    pub fn conclude_update(&mut self, nominal_state: Orbit, solved: Solution) -> (r: Result<
        Conclusion,
        NyxError,
    >)
        ensures
            old(self).concluded(*final(self), nominal_state, solved, r),
            old(self).kf.wf() ==> final(self).kf.wf(),
    {
        match self.kf.measurement_update(nominal_state, solved.innovation) {
            Ok((est, res)) => {
                let ghost mid = self.kf;
                let mut diverging = false;
                if self.ekf_trigger.enable_ekf(&est, solved.within_bound)
                    && !self.kf.is_extended() {
                    self.kf.set_extended(true);
                    diverging = !solved.within_3sigma;
                }
                let recenter = self.kf.is_extended();
                self.estimates.push(est);
                self.residuals.push(res);
                proof {
                    assert((KF { ekf: old(self).kf.ekf, ..self.kf }) == mid);
                }
                Ok(Conclusion { estimate: est, residual: res, recenter, diverging })
            },
            Err(e) => Err(e),
        }
    }

    /// `after`, `then` and `request` are what comes of taking the pass up
    /// at step `from` of `steps`, the steps towards measurement `msr`.
    ///
    /// The first step at which something is to be done decides: at a time
    /// update the filter predicts and the host is asked to compute it; at a
    /// measurement update the first device is asked to measure. Without such
    /// a step the propagator is asked to run from this measurement to the
    /// next, or the pass is over when this was the last.
    pub open spec fn resumed(
        self,
        msr: int,
        steps: Seq<Orbit>,
        from: int,
        targets: Seq<Epoch>,
        measuring: bool,
        after: Self,
        then: Pass,
        request: Request,
    ) -> bool {
        let j = pending(steps, from, measuring, targets[msr], self.devices@.len() as int);
        &&& then.steps@ == steps
        &&& if j < steps.len() {
            &&& then.msr == msr
            &&& then.step == j
            &&& if is_time_update(measuring, targets[msr], steps[j].dt) {
                &&& then.phase is TimeUpdating
                &&& request == (Request::TimeUpdate {
                    estimate: self.kf.predicted_at(steps[j]),
                    recenter: self.kf.ekf,
                })
                &&& self.predict_made(after, steps[j])
            } else {
                &&& then.phase is Measuring
                &&& then.device == 0
                &&& request == (Request::Measure { device: 0, state: steps[j] })
                &&& after == self
            }
        } else if msr + 1 < targets.len() {
            &&& then.msr == msr + 1
            &&& then.phase is Propagating
            &&& request == (Request::Propagate {
                elapsed: targets[msr + 1].spec_since(targets[msr]),
            })
            &&& after == self
        } else {
            &&& then.phase is Over
            &&& request == (Request::Finished { error: None })
            &&& after == self
        }
    }

    /// `after`, `then` and `request` are what comes of going on behind the
    /// device that the pass `pass` deals with: the next device is asked to
    /// measure, or the pass is taken up at the next step when this was the
    /// last device.
    pub open spec fn next_device(
        self,
        pass: Pass,
        targets: Seq<Epoch>,
        measuring: bool,
        after: Self,
        then: Pass,
        request: Request,
    ) -> bool {
        if pass.device + 1 < self.devices@.len() {
            &&& after == self
            &&& then == (Pass { device: (pass.device + 1) as usize, phase: Phase::Measuring, ..pass })
            &&& request == (Request::Measure {
                device: (pass.device + 1) as usize,
                state: pass.steps@[pass.step as int],
            })
        } else {
            self.resumed(
                pass.msr as int,
                pass.steps@,
                pass.step + 1,
                targets,
                measuring,
                after,
                then,
                request,
            )
        }
    }

    /// `after`, `then` and `request` are what comes of the reply `reply` to
    /// what the pass `pass` over `targets` was waiting for.
    ///
    /// - A pass that begins asks the propagator to run from the previous
    ///   estimate to the first measurement.
    /// - With the steps of the propagator, and after a time update, the pass
    ///   is taken up at the next step, as `resumed` says.
    /// - A device that sees the target makes the filter ready, as `prepared`
    ///   says, and the host is asked to solve the update with the process noise
    ///   that applies. A device that does not is passed over, as `next_device`
    ///   says.
    /// - A solved update is concluded, as `concluded` says: a failure ends
    ///   the pass with its error, otherwise the host is asked to keep the
    ///   estimate.
    /// - After that the next device follows when several devices can measure
    ///   at one epoch, and the next step when they cannot.
    pub open spec fn advanced(
        self,
        pass: Pass,
        targets: Seq<Epoch>,
        measuring: bool,
        reply: Reply,
        after: Self,
        then: Pass,
        request: Request,
    ) -> bool {
        match pass.phase {
            Phase::Idle => {
                &&& after == self
                &&& then == (Pass { msr: 0, phase: Phase::Propagating, ..pass })
                &&& request == (Request::Propagate {
                    elapsed: targets[0].spec_since(self.kf.prev_estimate.nominal_state.dt),
                })
            },
            Phase::Propagating => reply matches Reply::Steps(steps) && self.resumed(
                pass.msr as int,
                steps@,
                0,
                targets,
                measuring,
                after,
                then,
                request,
            ),
            Phase::TimeUpdating => self.resumed(
                pass.msr as int,
                pass.steps@,
                pass.step + 1,
                targets,
                measuring,
                after,
                then,
                request,
            ),
            Phase::Measuring => reply matches Reply::Sight(visible) && if visible {
                let state = pass.steps@[pass.step as int];
                &&& self.prepared(after, state.dt)
                &&& then == (Pass { phase: Phase::Solving, ..pass })
                &&& request matches Request::Solve { msr_index, device, state: at, extended, noise }
                &&& msr_index == pass.msr
                &&& device == pass.device
                &&& at == state
                &&& extended == self.extended_at(state.dt)
                &&& after.kf.injects(state.dt, noise)
            } else {
                self.next_device(pass, targets, measuring, after, then, request)
            },
            Phase::Solving => reply matches Reply::Solved(solved) && match request {
                Request::Accept { done } => {
                    &&& self.concluded(after, pass.steps@[pass.step as int], solved, Ok(done))
                    &&& then == (Pass { phase: Phase::Accepting, ..pass })
                },
                Request::Finished { error: Some(e) } => {
                    &&& self.concluded(after, pass.steps@[pass.step as int], solved, Err(e))
                    &&& then == (Pass { phase: Phase::Over, ..pass })
                },
                _ => false,
            },
            Phase::Accepting => if self.simultaneous_msr {
                self.next_device(pass, targets, measuring, after, then, request)
            } else {
                self.resumed(
                    pass.msr as int,
                    pass.steps@,
                    pass.step + 1,
                    targets,
                    measuring,
                    after,
                    then,
                    request,
                )
            },
            Phase::Over => false,
        }
    }

    /// The pass and the filter fit: what the pass deals with exists, and a
    /// filter whose update is being solved has both matrices fresh.
    pub open spec fn attends(self, pass: Pass, targets: nat) -> bool {
        &&& self.kf.wf()
        &&& pass.wf(targets, self.devices@.len())
        &&& pass.phase is Solving ==> self.kf.refusal() is None
    }

    /// Takes the pass up at step `from` of the steps that it holds.
    fn resume(&mut self, pass: &mut Pass, targets: &[Epoch], measuring: bool, from: usize) -> (request:
        Request)
        requires
            old(self).kf.wf(),
            old(pass).msr < targets@.len(),
            from <= old(pass).steps@.len(),
        ensures
            old(self).resumed(
                old(pass).msr as int,
                old(pass).steps@,
                from as int,
                targets@,
                measuring,
                *final(self),
                *final(pass),
                request,
            ),
            final(self).attends(*final(pass), targets@.len()),
            final(self).devices == old(self).devices,
            !(request matches Request::Finished { error: Some(_) }),
    {
        let target = targets[pass.msr];
        let devices = self.devices.len();
        let mut j: usize = from;
        while j < pass.steps.len() && !(!measuring || target.is_after(pass.steps[j].dt) || devices
            > 0)
            invariant
                from <= j <= pass.steps@.len(),
                *pass == *old(pass),
                *self == *old(self),
                devices == self.devices@.len(),
                target == targets@[pass.msr as int],
                pending(pass.steps@, from as int, measuring, target, devices as int) == pending(
                    pass.steps@,
                    j as int,
                    measuring,
                    target,
                    devices as int,
                ),
            decreases pass.steps@.len() - j,
        {
            j += 1;
        }
        if j < pass.steps.len() {
            let state = pass.steps[j];
            pass.step = j;
            if !measuring || target.is_after(state.dt) {
                let (estimate, recenter) = self.predict(state);
                pass.phase = Phase::TimeUpdating;
                Request::TimeUpdate { estimate, recenter }
            } else {
                pass.device = 0;
                pass.phase = Phase::Measuring;
                Request::Measure { device: 0, state }
            }
        } else if pass.msr + 1 < targets.len() {
            let elapsed = targets[pass.msr + 1].since(target);
            pass.msr = pass.msr + 1;
            pass.phase = Phase::Propagating;
            Request::Propagate { elapsed }
        } else {
            pass.phase = Phase::Over;
            Request::Finished { error: None }
        }
    }

    /// Goes on behind the device that the pass deals with.
    fn follow(&mut self, pass: &mut Pass, targets: &[Epoch], measuring: bool) -> (request: Request)
        requires
            old(self).kf.wf(),
            old(pass).msr < targets@.len(),
            old(pass).step < old(pass).steps@.len(),
        ensures
            old(self).next_device(
                *old(pass),
                targets@,
                measuring,
                *final(self),
                *final(pass),
                request,
            ),
            final(self).attends(*final(pass), targets@.len()),
            final(self).devices == old(self).devices,
            !(request matches Request::Finished { error: Some(_) }),
    {
        if pass.device < self.devices.len() && pass.device + 1 < self.devices.len() {
            pass.device = pass.device + 1;
            pass.phase = Phase::Measuring;
            Request::Measure { device: pass.device, state: pass.steps[pass.step] }
        } else {
            assert(pass.steps@.len() == pass.steps.len());
            let from = pass.step + 1;
            self.resume(pass, targets, measuring, from)
        }
    }

    /// Takes one step of a pass over `targets`, with measurements or
    /// without.
    fn advance(&mut self, pass: &mut Pass, targets: &[Epoch], measuring: bool, reply: Reply) -> (request:
        Request)
        requires
            targets@.len() > 0,
            old(pass).awaits(reply),
            old(self).attends(*old(pass), targets@.len()),
        ensures
            old(self).advanced(
                *old(pass),
                targets@,
                measuring,
                reply,
                *final(self),
                *final(pass),
                request,
            ),
            final(self).attends(*final(pass), targets@.len()),
            final(self).devices == old(self).devices,
            request matches Request::Finished { error: Some(e) } ==> e is SingularKalmanGain,
    {
        match reply {
            Reply::Started => {
                pass.msr = 0;
                pass.phase = Phase::Propagating;
                Request::Propagate {
                    elapsed: targets[0].since(self.kf.prev_estimate.nominal_state.dt),
                }
            },
            Reply::Steps(steps) => {
                pass.steps = steps;
                self.resume(pass, targets, measuring, 0)
            },
            Reply::Done => {
                if self.simultaneous_msr && pass.phase == Phase::Accepting {
                    self.follow(pass, targets, measuring)
                } else {
                    assert(pass.phase is TimeUpdating || pass.phase is Accepting);
                    assert(pass.step < pass.steps@.len());
                    assert(pass.steps@.len() == pass.steps.len());
                    let from = pass.step + 1;
                    self.resume(pass, targets, measuring, from)
                }
            },
            Reply::Sight(visible) => {
                if visible {
                    let state = pass.steps[pass.step];
                    let extended = self.prepare_update(state.dt);
                    let noise = self.kf.process_noise_at(state.dt);
                    pass.phase = Phase::Solving;
                    Request::Solve {
                        msr_index: pass.msr,
                        device: pass.device,
                        state,
                        extended,
                        noise,
                    }
                } else {
                    self.follow(pass, targets, measuring)
                }
            },
            Reply::Solved(solved) => {
                let state = pass.steps[pass.step];
                match self.conclude_update(state, solved) {
                    Ok(done) => {
                        pass.phase = Phase::Accepting;
                        Request::Accept { done }
                    },
                    Err(e) => {
                        pass.phase = Phase::Over;
                        Request::Finished { error: Some(e) }
                    },
                }
            },
        }
    }

    /// Takes one step of a pass over the measurements whose epochs are
    /// `measurements`, which must be in the order of time and not empty:
    /// given the reply of the numerical host to what was last asked, decides
    /// what is done and what is asked next.
    ///
    /// For each measurement the propagator is run up to its epoch. A step
    /// that it takes strictly before the epoch of the measurement is a time
    /// update, any other a measurement update against each device that sees
    /// the target, or against the first one that does when the devices measure
    /// one at a time. Both matrices are refreshed before each measurement
    /// update. The first update that fails ends the pass with its error, which
    /// can only be a singular gain.
    pub fn process_measurements(&mut self, pass: &mut Pass, measurements: &[Epoch], reply: Reply) -> (request:
        Request)
        requires
            measurements@.len() > 0,
            old(pass).awaits(reply),
            old(self).attends(*old(pass), measurements@.len()),
        ensures
            old(self).advanced(
                *old(pass),
                measurements@,
                true,
                reply,
                *final(self),
                *final(pass),
                request,
            ),
            final(self).attends(*final(pass), measurements@.len()),
            final(self).devices == old(self).devices,
            request matches Request::Finished { error: Some(e) } ==> e is SingularKalmanGain,
    {
        self.advance(pass, measurements, true, reply)
    }

    /// Takes one step of mapping the covariance up to `end_epoch` without any
    /// measurement: the propagator is run to `end_epoch`, and every step that
    /// it takes is a time update. The pass must be one that began here.
    pub fn map_covar(&mut self, pass: &mut Pass, end_epoch: Epoch, reply: Reply) -> (request: Request)
        requires
            old(pass).awaits(reply),
            old(self).attends(*old(pass), 1),
            old(pass).phase is Idle || old(pass).phase is Propagating || old(pass).phase
                is TimeUpdating,
        ensures
            final(pass).phase is Propagating || final(pass).phase is TimeUpdating
                || final(pass).phase is Over,
            old(self).advanced(
                *old(pass),
                seq![end_epoch],
                false,
                reply,
                *final(self),
                *final(pass),
                request,
            ),
            final(self).attends(*final(pass), 1),
            final(self).devices == old(self).devices,
            request is Propagate || request is TimeUpdate || request matches Request::Finished {
                error: None,
            },
    {
        let mut targets: Vec<Epoch> = Vec::new();
        targets.push(end_epoch);
        assert(targets@ =~= seq![end_epoch]);
        self.advance(pass, targets.as_slice(), false, reply)
    }

    /// What the smoother asks next, given what the host answered to what it
    /// asked last: the estimates are smoothed from the last but one back to
    /// the first, each with the one after it, and the first failure ends the
    /// smoothing. The last estimate stays as it is.
    pub open spec fn spec_smooth(self, answered: Option<(usize, SmootherOutcome)>) -> Result<
        SmootherRequest,
        NyxError,
    > {
        match answered {
            None => if self.estimates@.len() >= 2 {
                Ok(SmootherRequest::Smooth((self.estimates@.len() - 2) as usize))
            } else {
                Ok(SmootherRequest::Finished)
            },
            Some((k, outcome)) => match outcome.spec_failure() {
                Some(e) => Err(e),
                None => if k > 0 {
                    Ok(SmootherRequest::Smooth((k - 1) as usize))
                } else {
                    Ok(SmootherRequest::Finished)
                },
            },
        }
    }

    /// Takes one step of smoothing the estimates. `answered` is `None` at the
    /// start, and afterwards the index that was last asked for with what the
    /// host found.
    ///
    /// Fails with `StateTransitionMatrixSingular` or
    /// `CovarianceMatrixSingular` at the first estimate whose successor has a
    /// state transition matrix or a covariance without inverse.
    pub fn smooth(&self, answered: Option<(usize, SmootherOutcome)>) -> (r: Result<
        SmootherRequest,
        NyxError,
    >)
        ensures
            r == self.spec_smooth(answered),
    {
        match answered {
            None => {
                let num = self.estimates.len();
                if num >= 2 {
                    Ok(SmootherRequest::Smooth(num - 2))
                } else {
                    Ok(SmootherRequest::Finished)
                }
            },
            Some((k, outcome)) => match outcome.failure() {
                Some(e) => Err(e),
                None => if k > 0 {
                    Ok(SmootherRequest::Smooth(k - 1))
                } else {
                    Ok(SmootherRequest::Finished)
                },
            },
        }
    }

    /// Begins an iteration on the solution, given how the smoothing ended.
    ///
    /// A smoothing that failed ends the iteration with its error, and nothing
    /// changes. Otherwise the filter starts over from the first smoothed
    /// estimate, and a new pass is handed back: the host sets the propagator
    /// back to its initial state plus the deviation of that estimate, and the
    /// measurements are processed again. There must be an estimate.
    pub fn iterate(&mut self, smoothing: Option<NyxError>) -> (r: Result<Pass, NyxError>)
        requires
            old(self).estimates@.len() > 0,
        ensures
            match smoothing {
                Some(e) => r == Err::<Pass, NyxError>(e) && *final(self) == *old(self),
                None => {
                    &&& r matches Ok(pass)
                    &&& pass.phase is Idle
                    &&& pass.steps@.len() == 0
                    &&& final(self).kf == (KF {
                        prev_estimate: old(self).estimates@[0],
                        ..old(self).kf
                    })
                    &&& final(self).estimates == old(self).estimates
                    &&& final(self).residuals == old(self).residuals
                    &&& final(self).devices == old(self).devices
                    &&& final(self).simultaneous_msr == old(self).simultaneous_msr
                    &&& final(self).ekf_trigger == old(self).ekf_trigger
                    &&& final(self).prop == old(self).prop
                },
            },
    {
        match smoothing {
            Some(e) => Err(e),
            None => {
                let init_smoothed = self.estimates[0];
                self.kf.set_previous_estimate(&init_smoothed);
                Ok(Pass::new())
            },
        }
    }
}

/// Smoothing walks from the last estimate but one down to the first. While
/// nothing fails, the estimate asked for after `k` is `k - 1`, the walk
/// begins at the last but one, and it ends after the first estimate; fewer
/// than two estimates ask for nothing.
pub proof fn lemma_smoothing_walk<N, T: EkfTrigger, P>(od: ODProcess<N, T, P>, k: usize)
    ensures
        od.estimates@.len() < 2 ==> od.spec_smooth(None) == Ok::<SmootherRequest, NyxError>(
            SmootherRequest::Finished,
        ),
        od.estimates@.len() >= 2 ==> od.spec_smooth(None) == Ok::<SmootherRequest, NyxError>(
            SmootherRequest::Smooth((od.estimates@.len() - 2) as usize),
        ),
        k > 0 ==> od.spec_smooth(Some((k, SmootherOutcome::Smoothed))) == Ok::<
            SmootherRequest,
            NyxError,
        >(SmootherRequest::Smooth((k - 1) as usize)),
        od.spec_smooth(Some((0, SmootherOutcome::Smoothed))) == Ok::<SmootherRequest, NyxError>(
            SmootherRequest::Finished,
        ),
        od.spec_smooth(Some((k, SmootherOutcome::SingularStateTransition))) == Err::<
            SmootherRequest,
            NyxError,
        >(NyxError::StateTransitionMatrixSingular),
        od.spec_smooth(Some((k, SmootherOutcome::SingularCovariance))) == Err::<
            SmootherRequest,
            NyxError,
        >(NyxError::CovarianceMatrixSingular),
{
}

impl<N, P> ODProcess<N, CkfTrigger, P> {
    /// A process whose filter stays classical.
    pub fn ckf(
        prop: P,
        kf: KF,
        devices: Vec<N>,
        simultaneous_msr: bool,
        num_expected_msr: usize,
    ) -> (od: Self)
        ensures
            od.kf == kf,
            od.prop == prop,
            od.devices == devices,
            od.simultaneous_msr == simultaneous_msr,
            od.estimates@ == seq![kf.prev_estimate],
            od.residuals@.len() == 0,
    {
        Self::ekf(prop, kf, devices, simultaneous_msr, num_expected_msr, CkfTrigger {  })
    }

    /// A process whose filter stays classical, for devices that measure one
    /// at a time.
    pub fn default_ckf(prop: P, kf: KF, devices: Vec<N>) -> (od: Self)
        ensures
            od.kf == kf,
            od.prop == prop,
            od.devices == devices,
            !od.simultaneous_msr,
            od.estimates@ == seq![kf.prev_estimate],
            od.residuals@.len() == 0,
    {
        Self::default_ekf(prop, kf, devices, CkfTrigger {  })
    }
}

} // verus!
