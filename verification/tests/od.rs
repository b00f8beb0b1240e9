//! The decisions of the filter and of the orbit determination process.

use nyx_space::celestia::frames::{Frame, PathSlots};
use nyx_space::celestia::state::Orbit;
use nyx_space::errors::NyxError;
use nyx_space::od::estimate::{EpochFormat, KfEstimate};
use nyx_space::od::kalman::{gamma_layout, GammaEntry, GammaTerm, Innovation, NoiseInjection, KF};
use nyx_space::od::residual::{PostfitBasis, Residual};
use nyx_space::od::snc::SNC;
use nyx_space::od::trigger::{CkfTrigger, EkfTrigger, StdEkfTrigger};
use nyx_space::od::ui::{
    Conclusion, Measurement, MeasurementDevice, ODProcess, Pass, Phase, Reply, Request,
    SmootherOutcome, SmootherRequest, Solution, StepKind,
};
use nyx_space::scalar::Scalar;
use nyx_space::time::{Duration, Epoch, TimeTagged};

const SECOND: i128 = 1_000_000_000;
const MINUTE: i128 = 60 * SECOND;

fn scalar(value: f64) -> Scalar {
    Scalar::from_bits(value.to_bits())
}

fn scalars(values: &[f64]) -> Vec<Scalar> {
    values.iter().map(|v| scalar(*v)).collect()
}

fn seconds(s: i64) -> Epoch {
    Epoch::from_nanos(s * SECOND as i64)
}

fn dummy_frame() -> Frame {
    Frame::Celestial {
        axb_id: 0,
        exb_id: 399,
        gm: scalar(398600.4415),
        parent_axb_id: None,
        parent_exb_id: None,
        ephem_path: PathSlots::root(),
        frame_path: PathSlots::root(),
    }
}

fn state_at(epoch: Epoch) -> Orbit {
    Orbit::cartesian(
        scalar(6678.1363),
        scalar(2.0),
        scalar(3.0),
        scalar(4.0),
        scalar(7.725760634075587),
        scalar(6.0),
        epoch,
        dummy_frame(),
    )
}

#[test]
fn empty_estimate() {
    let empty = KfEstimate::zeros(state_at(seconds(0)));
    // The deviation, the covariance and the state transition matrix of an
    // estimate are with the numerical host; the record says that nothing was
    // done to them.
    assert_eq!(empty.predicted, true, "expected predicted to be true");
    assert!(!empty.extended);
    assert_eq!(empty.noise, None);
    assert_eq!(empty.nominal_state, state_at(seconds(0)));
}

#[test]
fn filter_errors() {
    let dt = seconds(0);
    let initial_estimate = KfEstimate::zeros(state_at(dt));

    let mut ckf = KF::no_snc(initial_estimate, 6);
    match ckf.time_update(state_at(dt)) {
        Ok(_) => panic!("expected the time update to fail"),
        Err(e) => {
            assert_eq!(e, NyxError::StateTransitionMatrixNotUpdated);
        }
    }
    match ckf.measurement_update(state_at(dt), Innovation::Singular) {
        Ok(_) => panic!("expected the measurement update to fail"),
        Err(e) => {
            assert_eq!(e, NyxError::StateTransitionMatrixNotUpdated);
        }
    }
    ckf.update_stm();
    match ckf.measurement_update(state_at(dt), Innovation::Singular) {
        Ok(_) => panic!("expected the measurement update to fail"),
        Err(e) => {
            assert_eq!(e, NyxError::SensitivityNotUpdated);
        }
    }
    ckf.update_h_tilde();
    match ckf.measurement_update(state_at(dt), Innovation::Singular) {
        Ok(_) => panic!("expected the measurement update to fail"),
        Err(e) => {
            assert_eq!(e, NyxError::SingularKalmanGain);
        }
    }
}

#[test]
fn test_snc_init() {
    let snc_expo = SNC::with_decay(
        Duration::from_nanos(2 * MINUTE),
        &scalars(&[1e-6, 1e-6, 1e-6]),
        &scalars(&[3600.0, 3600.0, 3600.0]),
    );
    println!("{:?}", snc_expo);
    assert_eq!(snc_expo.diag, scalars(&[1e-6, 1e-6, 1e-6]));
    assert_eq!(snc_expo.decay_diag, Some(scalars(&[3600.0, 3600.0, 3600.0])));
    assert_eq!(snc_expo.start_time, None);

    let snc_std = SNC::with_start_time(
        Duration::from_nanos(2 * MINUTE),
        &scalars(&[1e-6, 1e-6, 1e-6]),
        seconds(3600),
    );
    println!("{:?}", snc_std);
    assert_eq!(snc_std.start_time, Some(seconds(3600)));
    assert_eq!(snc_std.decay_diag, None);
    assert_eq!(snc_std.disable_time, Duration::from_nanos(120 * SECOND));
}

#[test]
fn a_fresh_filter_needs_both_matrices_at_every_step() {
    let mut kf = KF::no_snc(KfEstimate::from_covar(state_at(seconds(0))), 6);
    kf.update_h_tilde();
    assert_eq!(
        kf.measurement_update(state_at(seconds(10)), Innovation::Invertible),
        Err(NyxError::StateTransitionMatrixNotUpdated)
    );
    kf.update_stm();
    let (est, res) = kf
        .measurement_update(state_at(seconds(10)), Innovation::Invertible)
        .unwrap();
    assert!(!est.predicted);
    assert!(!est.extended);
    assert_eq!(est.noise, None);
    assert_eq!(est.epoch(), seconds(10));
    assert_eq!(res, Residual::new(seconds(10), PostfitBasis::Prediction));
    assert_eq!(*kf.previous_estimate(), est);
    // Both marks are cleared by the update.
    assert_eq!(
        kf.time_update(state_at(seconds(20))),
        Err(NyxError::StateTransitionMatrixNotUpdated)
    );
    kf.update_stm();
    assert_eq!(
        kf.measurement_update(state_at(seconds(20)), Innovation::Invertible),
        Err(NyxError::SensitivityNotUpdated)
    );
    // The time update clears the mark of the state transition matrix only.
    let predicted = kf.time_update(state_at(seconds(20))).unwrap();
    assert!(predicted.predicted);
    kf.update_h_tilde();
    assert_eq!(
        kf.measurement_update(state_at(seconds(30)), Innovation::Invertible),
        Err(NyxError::StateTransitionMatrixNotUpdated)
    );
}

#[test]
fn an_extended_filter_takes_the_postfit_against_the_estimate() {
    let mut kf = KF::no_snc(KfEstimate::from_covar(state_at(seconds(0))), 6);
    assert!(!kf.is_extended());
    kf.set_extended(true);
    assert!(kf.is_extended());
    kf.update_stm();
    kf.update_h_tilde();
    let (est, res) = kf
        .measurement_update(state_at(seconds(10)), Innovation::Invertible)
        .unwrap();
    assert!(est.extended);
    assert_eq!(res.basis, PostfitBasis::Estimate);
    kf.update_stm();
    assert!(kf.time_update(state_at(seconds(20))).unwrap().extended);
}

#[test]
fn snc_is_gated_by_its_start_time() {
    let snc = SNC::with_start_time(
        Duration::from_nanos(2 * MINUTE),
        &scalars(&[1e-6, 2e-6, 3e-6]),
        seconds(3600),
    );
    assert!(snc.to_matrix(seconds(3599)).is_none());
    assert!(!snc.applies_at(seconds(0)));
    let at_start = snc.to_matrix(seconds(3600)).unwrap();
    assert_eq!(at_start.diag, scalars(&[1e-6, 2e-6, 3e-6]));
    assert!(at_start.decay.is_none());
    assert!(snc.to_matrix(seconds(7200)).is_some());
}

#[test]
fn snc_is_gated_by_the_gap_to_the_previous_step() {
    let mut snc = SNC::from_diagonal(Duration::from_nanos(2 * MINUTE), &scalars(&[1.0; 3]));
    assert!(snc.to_matrix(seconds(1_000_000)).is_some());
    snc.prev_epoch = Some(seconds(100));
    assert!(snc.to_matrix(seconds(220)).is_some());
    assert!(snc.to_matrix(seconds(221)).is_none());
    // A step back in time is no gap.
    assert!(snc.to_matrix(seconds(0)).is_some());
}

#[test]
fn a_decaying_snc_reports_the_time_since_the_filter_started() {
    let snc = SNC::with_decay(
        Duration::from_nanos(2 * MINUTE),
        &scalars(&[1e-6, 1e-6, 1e-6]),
        &scalars(&[3600.0, 1800.0, 900.0]),
    );
    let kf = KF::new(KfEstimate::from_covar(state_at(seconds(50))), snc, 6);
    assert_eq!(kf.process_noise[0].init_epoch, Some(seconds(50)));
    let injection = kf.process_noise_at(seconds(80)).unwrap();
    assert_eq!(injection.index, 0);
    assert_eq!(injection.delta_t, Duration::from_nanos(30 * SECOND));
    let decay = injection.matrix.decay.unwrap();
    assert_eq!(decay.constants, scalars(&[3600.0, 1800.0, 900.0]));
    assert_eq!(decay.elapsed, Duration::from_nanos(30 * SECOND));
}

#[test]
fn the_last_snc_that_applies_is_used() {
    let first = SNC::from_diagonal(Duration::from_nanos(2 * MINUTE), &scalars(&[1.0; 3]));
    let second = SNC::with_start_time(
        Duration::from_nanos(2 * MINUTE),
        &scalars(&[2.0; 3]),
        seconds(100),
    );
    let third = SNC::with_start_time(
        Duration::from_nanos(2 * MINUTE),
        &scalars(&[3.0; 3]),
        seconds(200),
    );
    let mut kf = KF::with_sncs(
        KfEstimate::from_covar(state_at(seconds(0))),
        vec![first, second, third],
        6,
        3,
    );
    assert_eq!(kf.select_noise(seconds(50)), Some(0));
    assert_eq!(kf.select_noise(seconds(100)), Some(1));
    assert_eq!(kf.select_noise(seconds(199)), Some(1));
    assert_eq!(kf.select_noise(seconds(200)), Some(2));
    assert_eq!(
        kf.process_noise_at(seconds(150)).unwrap().matrix.diag,
        scalars(&[2.0; 3])
    );

    kf.update_stm();
    kf.update_h_tilde();
    let (est, _) = kf
        .measurement_update(state_at(seconds(150)), Innovation::Invertible)
        .unwrap();
    assert_eq!(est.noise, Some(1));
    assert_eq!(kf.prev_used_snc, 1);

    // After a time update every noise knows the previous epoch, and a long
    // gap switches all of them off.
    kf.update_stm();
    kf.time_update(state_at(seconds(160))).unwrap();
    assert_eq!(kf.process_noise[2].prev_epoch, Some(seconds(160)));
    assert_eq!(kf.select_noise(seconds(280)), Some(2));
    assert_eq!(kf.select_noise(seconds(281)), None);
    assert!(kf.process_noise_at(seconds(281)).is_none());

    kf.set_process_noise(SNC::from_diagonal(
        Duration::from_nanos(MINUTE),
        &scalars(&[9.0; 3]),
    ));
    assert_eq!(kf.process_noise.len(), 1);
    assert_eq!(kf.select_noise(seconds(281)), Some(0));
}

#[test]
fn a_singular_gain_leaves_the_marks_set() {
    let snc = SNC::from_diagonal(Duration::from_nanos(2 * MINUTE), &scalars(&[1.0; 3]));
    let mut kf = KF::new(KfEstimate::from_covar(state_at(seconds(0))), snc, 6);
    kf.update_stm();
    kf.update_h_tilde();
    assert_eq!(
        kf.measurement_update(state_at(seconds(1)), Innovation::Singular),
        Err(NyxError::SingularKalmanGain)
    );
    assert!(kf.stm_updated && kf.h_tilde_updated);
    assert_eq!(kf.previous_estimate().epoch(), seconds(0));
    assert!(kf
        .measurement_update(state_at(seconds(1)), Innovation::Invertible)
        .is_ok());
}

#[test]
fn gamma_has_one_block_per_three_accelerations() {
    let half = GammaTerm::HalfDeltaSquared;
    let delta = GammaTerm::Delta;
    let entry = |row, col, term| GammaEntry { row, col, term };
    assert_eq!(
        gamma_layout(3, 6),
        vec![
            entry(0, 0, half),
            entry(3, 0, delta),
            entry(1, 1, half),
            entry(4, 1, delta),
            entry(2, 2, half),
            entry(5, 2, delta),
        ]
    );
    assert_eq!(
        gamma_layout(6, 12),
        vec![
            entry(0, 0, half),
            entry(3, 0, delta),
            entry(1, 1, half),
            entry(4, 1, delta),
            entry(2, 2, half),
            entry(5, 2, delta),
            entry(6, 3, half),
            entry(9, 3, delta),
            entry(7, 4, half),
            entry(10, 4, delta),
            entry(8, 5, half),
            entry(11, 5, delta),
        ]
    );
    assert!(gamma_layout(0, 0).is_empty());
}

#[test]
fn the_classical_trigger_never_fires() {
    let mut trigger = CkfTrigger;
    let est = KfEstimate::from_covar(state_at(seconds(0)));
    assert!(!trigger.enable_ekf(&est, true));
    assert!(!trigger.disable_ekf(seconds(1_000_000)));
}

#[test]
fn the_standard_trigger_counts_and_lapses() {
    let mut trigger = StdEkfTrigger::new(3, Duration::from_nanos(3600 * SECOND));
    assert_eq!(trigger.within_sigma, None);
    let update = |s| KfEstimate::from_covar(state_at(seconds(s)));
    assert!(!trigger.disable_ekf(seconds(1_000_000)));
    assert!(!trigger.enable_ekf(&update(0), false));
    assert!(!trigger.enable_ekf(&update(10), false));
    assert!(trigger.enable_ekf(&update(20), false));
    assert_eq!(trigger.prev_msr_dt, Some(seconds(20)));
    // A prediction counts but does not move the time of the last measurement.
    assert!(trigger.enable_ekf(&KfEstimate::zeros(state_at(seconds(30))), false));
    assert_eq!(trigger.prev_msr_dt, Some(seconds(20)));
    assert_eq!(trigger.cur_msrs, 4);

    assert!(!trigger.disable_ekf(seconds(3620)));
    assert_eq!(trigger.cur_msrs, 4);
    assert!(trigger.disable_ekf(seconds(3621)));
    assert_eq!(trigger.cur_msrs, 0);
    // The gap counts in both directions.
    assert!(trigger.disable_ekf(seconds(-3581)));

    let mut bounded = StdEkfTrigger::new(1, Duration::from_nanos(SECOND));
    bounded.within_sigma = Some(scalar(3.0));
    assert!(!bounded.enable_ekf(&update(0), false));
    assert!(bounded.enable_ekf(&update(1), true));
}

#[test]
fn residual_header_names_the_columns() {
    assert_eq!(
        Residual::header(EpochFormat::MjdTai, 2),
        vec!["Epoch:MjdTai", "prefit_0", "prefit_1", "postfit_0", "postfit_1"]
    );
    let wide = Residual::default_header(12);
    assert_eq!(wide.len(), 25);
    assert_eq!(wide[0], "Epoch:GregorianUtc");
    assert_eq!(wide[11], "prefit_10");
    assert_eq!(wide[24], "postfit_11");
    assert_eq!(Residual::zeros().epoch(), Epoch::from_nanos(0));
}

#[test]
fn epochs_shift_and_saturate() {
    let mut est = KfEstimate::zeros(state_at(seconds(10)));
    est.shift_by(Duration::from_nanos(-4 * SECOND));
    assert_eq!(est.epoch(), seconds(6));
    est.set_epoch(Epoch::from_nanos(i64::MAX - 1));
    est.shift_by(Duration::from_seconds(5));
    assert_eq!(est.epoch(), Epoch::from_nanos(i64::MAX));
    est.shift_by(Duration::from_nanos(i128::MIN));
    assert_eq!(est.epoch(), Epoch::from_nanos(i64::MIN));
    assert_eq!(
        seconds(3).since(seconds(5)),
        Duration::from_nanos(-2 * SECOND)
    );
    assert!(seconds(5).is_after(seconds(3)));
    assert!(!seconds(5).is_after(seconds(5)));
    assert!(Duration::from_seconds(2).exceeds(Duration::from_nanos(SECOND)));
}

/// A measurement that is visible or not.
#[derive(Clone, Copy, Debug, PartialEq)]
struct Sight {
    dt: Epoch,
    visible: bool,
}

impl TimeTagged for Sight {
    fn tagged_epoch(&self) -> Epoch {
        self.dt
    }

    fn epoch(&self) -> Epoch {
        self.dt
    }

    fn set_epoch(&mut self, epoch: Epoch) {
        self.dt = epoch
    }
}

impl Measurement for Sight {
    fn visible(&self) -> bool {
        self.visible
    }
}

/// A station that sees the target from one epoch on.
struct Station {
    rises: Epoch,
}

impl MeasurementDevice<Orbit, Sight> for Station {
    fn measure(&self, input: &Orbit) -> Option<Sight> {
        Some(Sight {
            dt: input.dt,
            visible: !self.rises.is_after(input.dt),
        })
    }
}

/// A host that steps every ten seconds and writes down what it is asked to do.
struct Log {
    now: Epoch,
    singular_at: Option<Epoch>,
    smoother: Vec<SmootherOutcome>,
    calls: Vec<String>,
}

impl Log {
    fn starting_at(now: Epoch) -> Log {
        Log {
            now,
            singular_at: None,
            smoother: vec![],
            calls: vec![],
        }
    }
}

impl Log {
    fn until_time_elapsed(&mut self, elapsed: Duration) -> Vec<Orbit> {
        let mut steps = vec![];
        let end = self.now.shifted(elapsed);
        while end.is_after(self.now) {
            self.now = self.now.shifted(Duration::from_seconds(10));
            steps.push(state_at(self.now));
        }
        steps
    }

    fn time_update(&mut self, estimate: &KfEstimate, recenter: bool) {
        self.calls.push(format!(
            "time {} recenter={}",
            estimate.epoch().nanos / SECOND as i64,
            recenter
        ));
    }

    fn measurement_update(
        &mut self,
        msr_index: usize,
        computed: &Sight,
        nominal_state: &Orbit,
        extended: bool,
        noise: Option<NoiseInjection>,
    ) -> Solution {
        assert!(computed.visible);
        self.calls.push(format!(
            "solve #{} at {} extended={} noise={:?}",
            msr_index,
            nominal_state.dt.nanos / SECOND as i64,
            extended,
            noise.map(|n| n.index)
        ));
        Solution {
            innovation: if self.singular_at == Some(nominal_state.dt) {
                Innovation::Singular
            } else {
                Innovation::Invertible
            },
            within_bound: true,
            within_3sigma: true,
        }
    }

    fn accept(
        &mut self,
        estimate: &KfEstimate,
        _residual: &Residual,
        recenter: bool,
        diverging: bool,
    ) {
        assert!(!diverging);
        self.calls.push(format!(
            "accept {} recenter={}",
            estimate.epoch().nanos / SECOND as i64,
            recenter
        ));
    }

    fn smooth(&mut self, k: usize) -> SmootherOutcome {
        self.calls.push(format!("smooth {}", k));
        if self.smoother.is_empty() {
            SmootherOutcome::Smoothed
        } else {
            self.smoother.remove(0)
        }
    }

    fn restart(&mut self) {
        self.now = seconds(0);
        self.calls.push("restart".to_string());
    }
}

/// Runs a pass as a host does: what the process asks for is done, and the
/// answer is handed back.
fn run<T: EkfTrigger>(
    od: &mut ODProcess<Station, T, Log>,
    mut pass: Pass,
    measurements: &[Epoch],
    map_to: Option<Epoch>,
) -> Option<NyxError> {
    let mut reply = Reply::Started;
    loop {
        assert!(pass.expects(&reply));
        let request = match map_to {
            Some(end) => od.map_covar(&mut pass, end, reply),
            None => od.process_measurements(&mut pass, measurements, reply),
        };
        reply = match request {
            Request::Propagate { elapsed } => Reply::Steps(od.prop.until_time_elapsed(elapsed)),
            Request::TimeUpdate { estimate, recenter } => {
                od.prop.time_update(&estimate, recenter);
                Reply::Done
            }
            Request::Measure { device, state } => Reply::Sight(
                od.devices[device]
                    .measure(&state)
                    .map_or(false, |sight| sight.visible()),
            ),
            Request::Solve {
                msr_index,
                device,
                state,
                extended,
                noise,
            } => {
                let computed = od.devices[device].measure(&state).unwrap();
                Reply::Solved(od.prop.measurement_update(
                    msr_index, &computed, &state, extended, noise,
                ))
            }
            Request::Accept { done } => {
                od.prop
                    .accept(&done.estimate, &done.residual, done.recenter, done.diverging);
                Reply::Done
            }
            Request::Finished { error } => {
                assert_eq!(pass.phase, Phase::Over);
                return error;
            }
        };
    }
}

fn process<T: EkfTrigger>(
    od: &mut ODProcess<Station, T, Log>,
    measurements: &[Epoch],
) -> Option<NyxError> {
    run(od, Pass::new(), measurements, None)
}

/// Smooths as a host does.
fn smooth<T: EkfTrigger>(od: &mut ODProcess<Station, T, Log>) -> Result<Vec<KfEstimate>, NyxError> {
    let mut answered = None;
    loop {
        match od.smooth(answered)? {
            SmootherRequest::Smooth(k) => answered = Some((k, od.prop.smooth(k))),
            SmootherRequest::Finished => return Ok(od.estimates.clone()),
        }
    }
}

/// Iterates as a host does.
fn iterate<T: EkfTrigger>(
    od: &mut ODProcess<Station, T, Log>,
    measurements: &[Epoch],
) -> Option<NyxError> {
    let smoothing = smooth(od).err();
    match od.iterate(smoothing) {
        Ok(pass) => {
            od.prop.restart();
            run(od, pass, measurements, None)
        }
        Err(e) => Some(e),
    }
}

fn filter() -> KF {
    let snc = SNC::from_diagonal(Duration::from_nanos(2 * MINUTE), &scalars(&[1.0; 3]));
    KF::new(KfEstimate::from_covar(state_at(seconds(0))), snc, 6)
}

#[test]
fn steps_before_a_measurement_are_time_updates() {
    let devices = vec![Station { rises: seconds(0) }];
    let mut od = ODProcess::default_ckf(Log::starting_at(seconds(0)), filter(), devices);
    assert_eq!(od.estimates.len(), 1);
    let result = process(&mut od, &[seconds(30), seconds(40)]);
    assert_eq!(result, None);
    assert_eq!(
        od.prop.calls,
        vec![
            "time 10 recenter=false",
            "time 20 recenter=false",
            "solve #0 at 30 extended=false noise=Some(0)",
            "accept 30 recenter=false",
            "solve #1 at 40 extended=false noise=Some(0)",
            "accept 40 recenter=false",
        ]
    );
    let kinds: Vec<bool> = od.estimates.iter().map(|e| e.predicted).collect();
    assert_eq!(kinds, vec![false, true, true, false, false]);
    assert_eq!(od.residuals.len(), 2);
    assert_eq!(od.residuals[1].dt, seconds(40));
    assert!(!od.kf.stm_updated && !od.kf.h_tilde_updated);
}

#[test]
fn the_first_station_in_sight_is_used() {
    let devices = vec![
        Station { rises: seconds(50) },
        Station { rises: seconds(0) },
        Station { rises: seconds(0) },
    ];
    let mut od = ODProcess::ckf(Log::starting_at(seconds(0)), filter(), devices, false, 10);
    assert_eq!(process(&mut od, &[seconds(10)]), None);
    assert_eq!(
        od.prop.calls,
        vec![
            "solve #0 at 10 extended=false noise=Some(0)",
            "accept 10 recenter=false"
        ]
    );
    assert_eq!(od.estimates.len(), 2);
}

#[test]
fn every_station_in_sight_is_used_when_they_measure_together() {
    let devices = vec![
        Station { rises: seconds(0) },
        Station { rises: seconds(50) },
        Station { rises: seconds(0) },
    ];
    let mut od = ODProcess::ckf(Log::starting_at(seconds(0)), filter(), devices, true, 10);
    assert_eq!(process(&mut od, &[seconds(10), seconds(20)]), None);
    assert_eq!(
        od.prop.calls,
        vec![
            "solve #0 at 10 extended=false noise=Some(0)",
            "accept 10 recenter=false",
            "solve #0 at 10 extended=false noise=Some(0)",
            "accept 10 recenter=false",
            "solve #1 at 20 extended=false noise=Some(0)",
            "accept 20 recenter=false",
            "solve #1 at 20 extended=false noise=Some(0)",
            "accept 20 recenter=false",
        ]
    );
    assert_eq!(od.estimates.len(), 5);
    assert_eq!(od.residuals.len(), 4);
    assert!(!od.kf.stm_updated && !od.kf.h_tilde_updated);
}

#[test]
fn a_pass_without_devices_takes_no_measurement() {
    let devices: Vec<Station> = vec![];
    let mut od = ODProcess::default_ckf(Log::starting_at(seconds(0)), filter(), devices);
    assert_eq!(process(&mut od, &[seconds(20), seconds(30)]), None);
    assert_eq!(od.prop.calls, vec!["time 10 recenter=false"]);
    assert_eq!(od.estimates.len(), 2);
    assert_eq!(od.prop.now, seconds(30));
}

#[test]
fn a_measurement_update_counts_as_the_previous_step() {
    let mut kf = filter();
    kf.update_stm();
    kf.update_h_tilde();
    kf.measurement_update(state_at(seconds(100)), Innovation::Invertible)
        .unwrap();
    assert!(kf
        .process_noise
        .iter()
        .all(|snc| snc.prev_epoch == Some(seconds(100))));
    // The noise tolerates a gap of two minutes since the measurement update.
    assert!(kf.process_noise_at(seconds(220)).is_some());
    assert!(kf.process_noise_at(seconds(221)).is_none());
    kf.update_stm();
    kf.update_h_tilde();
    let (estimate, _) = kf
        .measurement_update(state_at(seconds(221)), Innovation::Invertible)
        .unwrap();
    assert_eq!(estimate.noise, None);
    assert!(kf.process_noise_at(seconds(300)).is_some());
    // A singular gain leaves the previous step where it was.
    kf.update_stm();
    kf.update_h_tilde();
    assert!(kf
        .measurement_update(state_at(seconds(300)), Innovation::Singular)
        .is_err());
    assert!(kf
        .process_noise
        .iter()
        .all(|snc| snc.prev_epoch == Some(seconds(221))));
}

#[test]
fn a_singular_gain_stops_the_pass() {
    let devices = vec![Station { rises: seconds(0) }];
    let mut host = Log::starting_at(seconds(0));
    host.singular_at = Some(seconds(20));
    let mut od = ODProcess::default_ckf(host, filter(), devices);
    assert_eq!(
        process(&mut od, &[seconds(10), seconds(20), seconds(30)]),
        Some(NyxError::SingularKalmanGain)
    );
    assert_eq!(od.estimates.len(), 2);
    assert_eq!(od.residuals.len(), 1);
}

#[test]
fn the_trigger_extends_the_filter_and_a_gap_makes_it_classical_again() {
    let devices = vec![Station { rises: seconds(0) }];
    let trigger = StdEkfTrigger::new(2, Duration::from_nanos(15 * SECOND));
    let mut od = ODProcess::default_ekf(Log::starting_at(seconds(0)), filter(), devices, trigger);
    assert_eq!(
        process(&mut od, &[seconds(10), seconds(20), seconds(30), seconds(60)]),
        None
    );
    assert_eq!(
        od.prop.calls,
        vec![
            "solve #0 at 10 extended=false noise=Some(0)",
            "accept 10 recenter=false",
            "solve #1 at 20 extended=false noise=Some(0)",
            "accept 20 recenter=true",
            "solve #2 at 30 extended=true noise=Some(0)",
            "accept 30 recenter=true",
            "time 40 recenter=true",
            "time 50 recenter=true",
            "solve #3 at 60 extended=false noise=Some(0)",
            "accept 60 recenter=false",
        ]
    );
    assert!(!od.kf.is_extended());
    let extended: Vec<bool> = od.estimates.iter().map(|e| e.extended).collect();
    assert_eq!(
        extended,
        vec![false, false, false, true, true, true, false]
    );
}

#[test]
fn covariance_is_mapped_by_time_updates_only() {
    let devices: Vec<Station> = vec![];
    let mut od = ODProcess::default_ckf(Log::starting_at(seconds(0)), filter(), devices);
    assert_eq!(run(&mut od, Pass::new(), &[], Some(seconds(25))), None);
    assert_eq!(od.estimates.len(), 4);
    assert!(od.estimates[1..].iter().all(|e| e.predicted));
    assert!(od.residuals.is_empty());
    assert_eq!(od.kf.previous_estimate().epoch(), seconds(30));
}

#[test]
fn smoothing_walks_back_from_the_last_but_one() {
    let devices = vec![Station { rises: seconds(0) }];
    let mut od = ODProcess::default_ckf(Log::starting_at(seconds(0)), filter(), devices);
    assert_eq!(process(&mut od, &[seconds(30)]), None);
    od.prop.calls.clear();
    let smoothed = smooth(&mut od).unwrap();
    assert_eq!(od.prop.calls, vec!["smooth 2", "smooth 1", "smooth 0"]);
    assert_eq!(smoothed, od.estimates);

    od.prop.calls.clear();
    od.prop.smoother = vec![
        SmootherOutcome::Smoothed,
        SmootherOutcome::SingularCovariance,
    ];
    assert_eq!(smooth(&mut od), Err(NyxError::CovarianceMatrixSingular));
    assert_eq!(od.prop.calls, vec!["smooth 2", "smooth 1"]);
    od.prop.smoother = vec![SmootherOutcome::SingularStateTransition];
    assert_eq!(
        smooth(&mut od),
        Err(NyxError::StateTransitionMatrixSingular)
    );
    // Each question follows from the answer to the one before.
    assert_eq!(od.smooth(None), Ok(SmootherRequest::Smooth(2)));
    assert_eq!(
        od.smooth(Some((2, SmootherOutcome::Smoothed))),
        Ok(SmootherRequest::Smooth(1))
    );
    assert_eq!(
        od.smooth(Some((0, SmootherOutcome::Smoothed))),
        Ok(SmootherRequest::Finished)
    );
    assert_eq!(
        od.smooth(Some((1, SmootherOutcome::SingularCovariance))),
        Err(NyxError::CovarianceMatrixSingular)
    );
}

#[test]
fn a_single_estimate_is_smooth_already() {
    let devices: Vec<Station> = vec![];
    let mut od = ODProcess::default_ckf(Log::starting_at(seconds(0)), filter(), devices);
    assert_eq!(od.smooth(None), Ok(SmootherRequest::Finished));
    assert_eq!(smooth(&mut od).unwrap().len(), 1);
    assert!(od.prop.calls.is_empty());
}

#[test]
fn iterating_starts_over_from_the_first_smoothed_estimate() {
    let devices = vec![Station { rises: seconds(0) }];
    let mut od = ODProcess::default_ckf(Log::starting_at(seconds(0)), filter(), devices);
    assert_eq!(process(&mut od, &[seconds(20)]), None);
    od.prop.calls.clear();
    assert_eq!(iterate(&mut od, &[seconds(20)]), None);
    assert_eq!(
        od.prop.calls,
        vec![
            "smooth 1",
            "smooth 0",
            "restart",
            "time 10 recenter=false",
            "solve #0 at 20 extended=false noise=Some(0)",
            "accept 20 recenter=false",
        ]
    );
    assert_eq!(od.estimates.len(), 5);

    od.prop.smoother = vec![SmootherOutcome::SingularStateTransition];
    assert_eq!(
        iterate(&mut od, &[seconds(20)]),
        Some(NyxError::StateTransitionMatrixSingular)
    );
    assert_eq!(od.estimates.len(), 5);
    // The filter starts over from the first estimate.
    assert_eq!(od.iterate(None).unwrap().phase, Phase::Idle);
    assert_eq!(od.kf.prev_estimate, od.estimates[0]);
}

type Process = ODProcess<Station, StdEkfTrigger, Log>;

fn solved(innovation: Innovation, within_bound: bool, within_3sigma: bool) -> Solution {
    Solution {
        innovation,
        within_bound,
        within_3sigma,
    }
}

#[test]
fn a_step_before_the_measurement_is_a_time_update() {
    assert_eq!(
        Process::step_kind(seconds(10), seconds(9)),
        StepKind::TimeUpdate
    );
    assert_eq!(
        Process::step_kind(seconds(10), seconds(10)),
        StepKind::MeasurementUpdate
    );
    assert_eq!(
        Process::step_kind(seconds(10), seconds(11)),
        StepKind::MeasurementUpdate
    );
}

#[test]
fn the_steps_of_a_measurement_update() {
    let mut trigger = StdEkfTrigger::new(2, Duration::from_nanos(15 * SECOND));
    trigger.within_sigma = Some(scalar(3.0));
    let mut od: Process =
        ODProcess::default_ekf(Log::starting_at(seconds(0)), filter(), vec![], trigger);

    // A measurement update without the state transition matrix is refused.
    assert_eq!(
        od.conclude_update(state_at(seconds(10)), solved(Innovation::Invertible, true, true)),
        Err(NyxError::StateTransitionMatrixNotUpdated)
    );
    assert_eq!(od.ekf_trigger.cur_msrs, 0);
    assert_eq!(od.estimates.len(), 1);

    assert!(!od.prepare_update(seconds(10)));
    assert!(od.kf.stm_updated && od.kf.h_tilde_updated);
    assert_eq!(
        od.conclude_update(state_at(seconds(10)), solved(Innovation::Singular, true, true)),
        Err(NyxError::SingularKalmanGain)
    );
    assert_eq!(od.ekf_trigger.cur_msrs, 0);

    let first = od
        .conclude_update(state_at(seconds(10)), solved(Innovation::Invertible, true, true))
        .unwrap();
    assert!(!first.recenter && !first.diverging);
    assert!(!first.estimate.extended);
    assert_eq!(od.ekf_trigger.cur_msrs, 1);

    // The second estimate lies outside the bound of the trigger.
    od.kf.update_stm();
    assert!(!od.prepare_update(seconds(20)));
    let second = od
        .conclude_update(state_at(seconds(20)), solved(Innovation::Invertible, false, false))
        .unwrap();
    assert!(!second.recenter && !second.diverging);
    assert!(!od.kf.is_extended());

    // The third lies within it, but outside three standard deviations.
    od.kf.update_stm();
    assert!(!od.prepare_update(seconds(30)));
    let third = od
        .conclude_update(state_at(seconds(30)), solved(Innovation::Invertible, true, false))
        .unwrap();
    assert_eq!(
        third,
        Conclusion {
            estimate: od.estimates[3],
            residual: od.residuals[2],
            recenter: true,
            diverging: true,
        }
    );
    assert!(!third.estimate.extended);
    assert!(od.kf.is_extended());

    // The trigger is asked again although the filter is extended.
    od.kf.update_stm();
    assert!(od.prepare_update(seconds(40)));
    let fourth = od
        .conclude_update(state_at(seconds(40)), solved(Innovation::Invertible, true, false))
        .unwrap();
    assert!(fourth.recenter && !fourth.diverging);
    assert!(fourth.estimate.extended);
    assert_eq!(od.ekf_trigger.cur_msrs, 4);
    assert_eq!(od.ekf_trigger.prev_msr_dt, Some(seconds(40)));

    // After a long gap the filter is classical again.
    let (predicted, recenter) = od.predict(state_at(seconds(50)));
    assert!(predicted.predicted && predicted.extended && recenter);
    assert!(!od.prepare_update(seconds(56)));
    assert!(!od.kf.is_extended());
    assert_eq!(od.ekf_trigger.cur_msrs, 0);
    let (predicted, recenter) = od.predict(state_at(seconds(60)));
    assert!(!predicted.extended && !recenter);
    assert_eq!(od.estimates.len(), 7);
    assert_eq!(od.residuals.len(), 4);
    assert!(od.estimates[0].predicted == false && KfEstimate::zeros(state_at(seconds(0))).predicted);
}

#[test]
fn what_ends_a_smoothing() {
    assert_eq!(SmootherOutcome::Smoothed.failure(), None);
    assert_eq!(
        SmootherOutcome::SingularStateTransition.failure(),
        Some(NyxError::StateTransitionMatrixSingular)
    );
    assert_eq!(
        SmootherOutcome::SingularCovariance.failure(),
        Some(NyxError::CovarianceMatrixSingular)
    );
}
