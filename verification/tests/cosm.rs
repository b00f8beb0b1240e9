//! Frame resolution and frame changes, evaluated in double precision over a
//! small ephemeris whose bodies sit, at the epoch of each test, where
//! published states put them.

use nyx_space::celestia::chain::{CelestialState, FrameChange, Rotation};
use nyx_space::celestia::cosm::{Cosm, LTCorr};
use nyx_space::celestia::frames::Frame;
use nyx_space::celestia::state::{BodyState, Orbit};
use nyx_space::celestia::tree::AngleUnit;
use nyx_space::celestia::xb::{Constant, EphemInterp, Ephemeris, EqualStepStates, Xb};
use nyx_space::scalar::Scalar;
use nyx_space::time::{Duration, Epoch};
use std::collections::HashMap;
use std::f64::EPSILON;

const SECONDS_PER_DAY: f64 = 86_400.0;
const NANOS_PER_DAY: i128 = 86_400_000_000_000;

const SSB: &[usize] = &[];
const SUN: &[usize] = &[0];
const VENUS_BARYCENTER: &[usize] = &[2];
const EARTH_BARYCENTER: &[usize] = &[3];
const EARTH: &[usize] = &[3, 0];
const LUNA: &[usize] = &[3, 1];

const IAU_FRAMES: &str = r#"
[frames.iau_sun]
inherit = "Sun J2000"
[frames.iau_sun.rotation]
right_asc = "286.13"
declin = "63.87"
w = "84.176 + 14.18440000*d"

[frames.iau_earth]
inherit = "EME2000"
[frames.iau_earth.rotation]
right_asc = "0.00 - 0.641*T"
declin = "90.00 - 0.557*T"
w = "190.147 + 360.9856235*d"
"#;

/// The coefficients of one window of one body.
struct Window {
    x: Vec<f64>,
    y: Vec<f64>,
    z: Vec<f64>,
}

/// The coefficients of every body, by path.
struct Store {
    windows: HashMap<Vec<usize>, Vec<Window>>,
}

/// Position and velocity.
type State = [f64; 6];

fn scalar(value: f64) -> Scalar {
    Scalar::from_bits(value.to_bits())
}

fn float(value: Scalar) -> f64 {
    f64::from_bits(value.to_bits())
}

fn lib_epoch(epoch: hifitime::Epoch) -> Epoch {
    Epoch::from_nanos(epoch.to_tai_duration().total_nanoseconds() as i64)
}

fn hifi_epoch(epoch: Epoch) -> hifitime::Epoch {
    hifitime::Epoch::from_tai_duration(hifitime::Duration::from_total_nanoseconds(
        epoch.nanos as i128,
    ))
}

fn orbit(state: State, dt: Epoch, frame: Frame) -> Orbit {
    Orbit::cartesian(
        scalar(state[0]),
        scalar(state[1]),
        scalar(state[2]),
        scalar(state[3]),
        scalar(state[4]),
        scalar(state[5]),
        dt,
        frame,
    )
}

fn add(a: State, b: State) -> State {
    [
        a[0] + b[0],
        a[1] + b[1],
        a[2] + b[2],
        a[3] + b[3],
        a[4] + b[4],
        a[5] + b[5],
    ]
}

fn sub(a: State, b: State) -> State {
    [
        a[0] - b[0],
        a[1] - b[1],
        a[2] - b[2],
        a[3] - b[3],
        a[4] - b[4],
        a[5] - b[5],
    ]
}

fn neg(a: State) -> State {
    [-a[0], -a[1], -a[2], -a[3], -a[4], -a[5]]
}

fn rmag(a: State) -> f64 {
    (a[0] * a[0] + a[1] * a[1] + a[2] * a[2]).sqrt()
}

fn vmag(a: State) -> f64 {
    (a[3] * a[3] + a[4] * a[4] + a[5] * a[5]).sqrt()
}

/// A body with a gravitational parameter and one window of two days.
fn body(name: &str, start: Epoch, children: Vec<Ephemeris>) -> Ephemeris {
    Ephemeris {
        name: name.to_string(),
        constants: vec![Constant {
            name: "GM".to_string(),
            value: scalar(1.0),
        }],
        interpolator: Some(EphemInterp {
            start_epoch: start,
            position_degree: 3,
            state_data: Some(EqualStepStates {
                window_duration: Duration::from_nanos(2 * NANOS_PER_DAY),
                windows: 1,
            }),
        }),
        children,
    }
}

/// The coefficients that put a body at `state` in the middle of a window of
/// two days.
fn window(state: State) -> Window {
    Window {
        x: vec![state[0], state[3] * SECONDS_PER_DAY, 0.0],
        y: vec![state[1], state[4] * SECONDS_PER_DAY, 0.0],
        z: vec![state[2], state[5] * SECONDS_PER_DAY, 0.0],
    }
}

/// A solar system whose only window has `epoch` in its middle, with the
/// bodies at the given states, and with the body-fixed frames of the Sun and
/// the Earth.
fn solar_system(epoch: Epoch, states: &[(&[usize], State)]) -> (Cosm, Store) {
    let start = Epoch::from_nanos(epoch.nanos - NANOS_PER_DAY as i64);
    let root = body(
        "SSB",
        start,
        vec![
            body("Sun", start, vec![]),
            body("Mercury Barycenter", start, vec![]),
            body("Venus Barycenter", start, vec![]),
            body(
                "Earth Barycenter",
                start,
                vec![body("Earth", start, vec![]), body("Moon", start, vec![])],
            ),
            body("Mars Barycenter", start, vec![]),
        ],
    );
    let mut cosm = Cosm::try_from_bodies(Xb {
        ephemeris_root: Some(root),
    })
    .unwrap();
    cosm.load_iau_frames(IAU_FRAMES).unwrap();
    let mut windows = HashMap::new();
    for path in [
        SUN,
        &[1],
        VENUS_BARYCENTER,
        EARTH_BARYCENTER,
        EARTH,
        LUNA,
        &[4],
    ] {
        windows.insert(path.to_vec(), vec![window([0.0; 6])]);
    }
    for (path, state) in states {
        windows.insert(path.to_vec(), vec![window(*state)]);
    }
    (cosm, Store { windows })
}

/// The state of a body where the library says it is to be read: the scaled
/// Chebyshev polynomial of the window and its derivative.
fn raw_state(store: &Store, path: &[usize], at: &BodyState) -> State {
    let segment = match at.segment {
        Some(segment) => segment,
        None => return [0.0; 6],
    };
    let pos_coeffs = &store.windows[path][segment.index];
    let coefficient_count = segment.degree;
    let interval_length = segment.duration.nanos as f64 / NANOS_PER_DAY as f64;
    let offset = segment.offset.nanos as f64 / NANOS_PER_DAY as f64;

    let mut interp_t = vec![0.0; coefficient_count];
    let t1 = 2.0 * offset / interval_length - 1.0;
    interp_t[0] = 1.0;
    interp_t[1] = t1;
    for i in 2..coefficient_count {
        interp_t[i] = (2.0 * t1) * interp_t[i - 1] - interp_t[i - 2];
    }

    let mut interp_dt = vec![0.0; coefficient_count];
    interp_dt[0] = 0.0;
    interp_dt[1] = 1.0;
    interp_dt[2] = 2.0 * (2.0 * t1);
    for i in 3..coefficient_count {
        interp_dt[i] = (2.0 * t1) * interp_dt[i - 1] - interp_dt[i - 2]
            + interp_t[i - 1]
            + interp_t[i - 1];
    }
    for interp_i in &mut interp_dt {
        *interp_i *= 2.0 / interval_length;
    }

    let mut state = [0.0; 6];
    for (idx, pos_factor) in interp_t.iter().enumerate() {
        let vel_factor = interp_dt[idx];
        state[0] += pos_factor * pos_coeffs.x[idx];
        state[1] += pos_factor * pos_coeffs.y[idx];
        state[2] += pos_factor * pos_coeffs.z[idx];
        state[3] += vel_factor * pos_coeffs.x[idx];
        state[4] += vel_factor * pos_coeffs.y[idx];
        state[5] += vel_factor * pos_coeffs.z[idx];
    }
    state[3] /= SECONDS_PER_DAY;
    state[4] /= SECONDS_PER_DAY;
    state[5] /= SECONDS_PER_DAY;
    state
}

type Matrix = [[f64; 3]; 3];

const IDENTITY: Matrix = [[1.0, 0.0, 0.0], [0.0, 1.0, 0.0], [0.0, 0.0, 1.0]];

fn r1(angle: f64) -> Matrix {
    let (s, c) = angle.sin_cos();
    [[1.0, 0.0, 0.0], [0.0, c, s], [0.0, -s, c]]
}

fn r3(angle: f64) -> Matrix {
    let (s, c) = angle.sin_cos();
    [[c, s, 0.0], [-s, c, 0.0], [0.0, 0.0, 1.0]]
}

fn mul(a: &Matrix, b: &Matrix) -> Matrix {
    let mut out = [[0.0; 3]; 3];
    for i in 0..3 {
        for j in 0..3 {
            for k in 0..3 {
                out[i][j] += a[i][k] * b[k][j];
            }
        }
    }
    out
}

fn transpose(a: &Matrix) -> Matrix {
    let mut out = [[0.0; 3]; 3];
    for i in 0..3 {
        for j in 0..3 {
            out[i][j] = a[j][i];
        }
    }
    out
}

fn is_diagonal(a: &Matrix) -> bool {
    for i in 0..3 {
        for j in 0..3 {
            if i != j && a[i][j].abs() > EPSILON {
                return false;
            }
        }
    }
    true
}

/// One factor of a rotation: the rotation of a node against its parent at an
/// epoch, from right ascension, declination and prime meridian.
fn factor(cosm: &Cosm, rotation: &Rotation) -> Matrix {
    let node = cosm.frame_root.get(&rotation.path).unwrap();
    let definition = node.parent_rotation.as_ref().unwrap();
    let epoch = hifi_epoch(rotation.epoch);
    let mut ctx = meval::Context::new();
    ctx.var("d", epoch.to_tdb_days_since_j2000());
    ctx.var("T", epoch.to_tdb_centuries_since_j2000());
    let angle = |expression: &str| -> f64 {
        let value = expression
            .parse::<meval::Expr>()
            .unwrap()
            .eval_with_context(&ctx)
            .unwrap();
        match definition.angle_unit {
            AngleUnit::Degrees => value.to_radians(),
            AngleUnit::Radians => value,
        }
    };
    let quarter = std::f64::consts::FRAC_PI_2;
    let right_asc = angle(&definition.right_asc);
    let declin = angle(&definition.declin);
    let w = angle(&definition.w);
    let dcm = mul(&mul(&r3(w), &r1(quarter - declin)), &r3(quarter + right_asc));
    if rotation.transposed {
        transpose(&dcm)
    } else {
        dcm
    }
}

/// The product of the factors of a rotation, from left to right.
fn dcm(cosm: &Cosm, rotations: &[Rotation]) -> Matrix {
    let mut product = IDENTITY;
    for rotation in rotations {
        product = mul(&product, &factor(cosm, rotation));
    }
    product
}

/// Applies a change of frame: the translations in order, then the rotation.
fn apply(cosm: &Cosm, store: &Store, change: &FrameChange, state: State) -> State {
    let mut new_state = state;
    for term in &change.translations {
        let next_state = raw_state(store, &term.path, &term.state);
        new_state = if term.negated {
            sub(new_state, next_state)
        } else {
            add(new_state, next_state)
        };
    }
    let m = dcm(cosm, &change.rotations);
    let mut out = [0.0; 6];
    for i in 0..3 {
        for k in 0..3 {
            out[i] += m[i][k] * new_state[k];
            out[i + 3] += m[i][k] * new_state[k + 3];
        }
    }
    if change.rotations.is_empty() {
        new_state
    } else {
        out
    }
}

/// The geometric state of a target in a frame, and the frame of the result.
fn celestial_state(
    cosm: &Cosm,
    store: &Store,
    target: &[usize],
    epoch: Epoch,
    frame: Frame,
) -> (State, Frame) {
    match cosm.celestial_state(target, epoch, frame, LTCorr::NoCorrection) {
        CelestialState::Geometric(change) => (apply(cosm, store, &change, [0.0; 6]), change.to),
        CelestialState::Apparent { .. } => panic!("no correction was asked for"),
    }
}

fn frame_chg(cosm: &Cosm, store: &Store, state: State, dt: Epoch, from: Frame, to: Frame) -> State {
    let change = cosm.frame_chg(&orbit(state, dt, from), to);
    assert_eq!(change.to, to);
    apply(cosm, store, &change, state)
}

const EMB_2002: State = [
    -109_837_695.021_661_42,
    89_798_622.194_651_56,
    38_943_878.275_922_61,
    -20.400_327_981_451_596,
    -20.413_134_121_084_312,
    -8.850_448_420_104_028,
];

const LUNA_2002: State = [
    -81_638.253_069_843_03,
    -345_462.617_249_631_9,
    -144_380.059_413_586_45,
    0.960_674_300_894_127_2,
    -0.203_736_475_764_411_6,
    -0.183_869_552_742_917_6,
];

const SUN_2002: State = [
    -182_936.040_274_732_14,
    -769_329.776_328_230_7,
    -321_490.795_782_183_1,
    0.014_716_178_620_115_785,
    0.001_242_263_392_603_425,
    0.000_134_043_776_253_089_48,
];

const EARTH_2002: State = [
    1_004.153_534_699_454_6,
    4_249.202_979_894_305,
    1_775.880_075_192_657_8,
    -0.011_816_329_461_539_0,
    0.002_505_966_193_458_6,
    0.002_261_602_304_895_6,
];

/// Direct transformations between a body and its parent.
#[test]
fn test_cosm_direct() {
    let jde = lib_epoch(hifitime::Epoch::from_jde_et(2_452_312.5));
    let (cosm, store) = solar_system(
        jde,
        &[
            (EARTH_BARYCENTER, EMB_2002),
            (LUNA, LUNA_2002),
            (SUN, SUN_2002),
            (EARTH, EARTH_2002),
        ],
    );

    let eb_frame = cosm.frame("Earth Barycenter J2000");

    assert_eq!(eb_frame.ephem_path(), EARTH_BARYCENTER);

    assert_eq!(
        cosm.find_common_root(EARTH, EARTH).unwrap().len(),
        2,
        "Conversions within Earth does not require any translation"
    );

    let earth_bary2k = cosm.frame("Earth Barycenter J2000");
    let ssb2k = cosm.frame("SSB");
    let earth_moon2k = cosm.frame("Luna");

    assert!(rmag(celestial_state(&cosm, &store, EARTH_BARYCENTER, jde, earth_bary2k).0) < EPSILON);

    let (out_state, frame) = celestial_state(&cosm, &store, EARTH_BARYCENTER, jde, ssb2k);
    assert_eq!(frame.ephem_path(), Vec::<usize>::new());
    assert!((out_state[0] - -109_837_695.021_661_42).abs() < 1e-13);
    assert!((out_state[1] - 89_798_622.194_651_56).abs() < 1e-13);
    assert!((out_state[2] - 38_943_878.275_922_61).abs() < 1e-13);
    assert!((out_state[3] - -20.400_327_981_451_596).abs() < 1e-13);
    assert!((out_state[4] - -20.413_134_121_084_312).abs() < 1e-13);
    assert!((out_state[5] - -8.850_448_420_104_028).abs() < 1e-13);

    // And the opposite transformation
    let (out_state, frame) = celestial_state(&cosm, &store, SSB, jde, earth_bary2k);
    assert_eq!(frame.ephem_path(), EARTH_BARYCENTER);
    assert!((out_state[0] - 109_837_695.021_661_42).abs() < 1e-13);
    assert!((out_state[1] - -89_798_622.194_651_56).abs() < 1e-13);
    assert!((out_state[2] - -38_943_878.275_922_61).abs() < 1e-13);
    assert!((out_state[3] - 20.400_327_981_451_596).abs() < 1e-13);
    assert!((out_state[4] - 20.413_134_121_084_312).abs() < 1e-13);
    assert!((out_state[5] - 8.850_448_420_104_028).abs() < 1e-13);

    let (out_state, frame) = celestial_state(&cosm, &store, EARTH_BARYCENTER, jde, earth_moon2k);
    assert_eq!(frame.ephem_path(), LUNA);
    assert!((out_state[0] - 81_638.253_069_843_03).abs() < 1e-9);
    assert!((out_state[1] - 345_462.617_249_631_9).abs() < 1e-9);
    assert!((out_state[2] - 144_380.059_413_586_45).abs() < 1e-9);
    assert!((out_state[3] - -0.960_674_300_894_127_2).abs() < 1e-12);
    assert!((out_state[4] - 0.203_736_475_764_411_6).abs() < 1e-12);
    assert!((out_state[5] - 0.183_869_552_742_917_6).abs() < 1e-12);
    // Add the reverse test too
    let (out_state, frame) = celestial_state(&cosm, &store, LUNA, jde, earth_bary2k);
    assert_eq!(frame.ephem_path(), EARTH_BARYCENTER);
    assert!((out_state[0] - -81_638.253_069_843_03).abs() < 1e-10);
    assert!((out_state[1] - -345_462.617_249_631_9).abs() < 1e-10);
    assert!((out_state[2] - -144_380.059_413_586_45).abs() < 1e-10);
    assert!((out_state[3] - 0.960_674_300_894_127_2).abs() < EPSILON);
    assert!((out_state[4] - -0.203_736_475_764_411_6).abs() < EPSILON);
    assert!((out_state[5] - -0.183_869_552_742_917_6).abs() < EPSILON);

    let (out_state, frame) = celestial_state(&cosm, &store, SUN, jde, ssb2k);
    assert_eq!(frame.ephem_path(), SSB);
    assert!((out_state[0] - -182_936.040_274_732_14).abs() < EPSILON);
    assert!((out_state[1] - -769_329.776_328_230_7).abs() < EPSILON);
    assert!((out_state[2] - -321_490.795_782_183_1).abs() < EPSILON);
    assert!((out_state[3] - 0.014_716_178_620_115_785).abs() < EPSILON);
    assert!((out_state[4] - 0.001_242_263_392_603_425).abs() < EPSILON);
    assert!((out_state[5] - 0.000_134_043_776_253_089_48).abs() < EPSILON);

    // And the opposite transformation
    let (out_state, frame) = celestial_state(&cosm, &store, SSB, jde, cosm.frame("Sun J2000"));
    assert_eq!(frame.ephem_path(), SUN);
    assert!((out_state[0] - 182_936.040_274_732_14).abs() < EPSILON);
    assert!((out_state[1] - 769_329.776_328_230_7).abs() < EPSILON);
    assert!((out_state[2] - 321_490.795_782_183_1).abs() < EPSILON);
    assert!((out_state[3] - -0.014_716_178_620_115_785).abs() < EPSILON);
    assert!((out_state[4] - -0.001_242_263_392_603_425).abs() < EPSILON);
    assert!((out_state[5] - -0.000_134_043_776_253_089_48).abs() < EPSILON);

    let (out_state, frame) = celestial_state(&cosm, &store, EARTH, jde, earth_bary2k);
    assert_eq!(frame.ephem_path(), EARTH_BARYCENTER);
    assert!((out_state[0] - 1_004.153_534_699_454_6).abs() < EPSILON);
    assert!((out_state[1] - 4_249.202_979_894_305).abs() < EPSILON);
    assert!((out_state[2] - 1_775.880_075_192_657_8).abs() < EPSILON);
    assert!((out_state[3] - -0.011_816_329_461_539_0).abs() < EPSILON);
    assert!((out_state[4] - 0.002_505_966_193_458_6).abs() < EPSILON);
    assert!((out_state[5] - 0.002_261_602_304_895_6).abs() < EPSILON);

    // And the opposite transformation
    let (out_state, frame) =
        celestial_state(&cosm, &store, EARTH_BARYCENTER, jde, cosm.frame("EME2000"));
    assert_eq!(frame.ephem_path(), EARTH);
    assert!((out_state[0] - -1_004.153_534_699_454_6).abs() < EPSILON);
    assert!((out_state[1] - -4_249.202_979_894_305).abs() < EPSILON);
    assert!((out_state[2] - -1_775.880_075_192_657_8).abs() < EPSILON);
    assert!((out_state[3] - 0.011_816_329_461_539_0).abs() < EPSILON);
    assert!((out_state[4] - -0.002_505_966_193_458_6).abs() < EPSILON);
    assert!((out_state[5] - -0.002_261_602_304_895_6).abs() < EPSILON);
}

/// The states of 7 February 2002, rounded to a grid on which their sums are
/// exact.
fn grid(state: State) -> State {
    let step = 65_536.0;
    let cell = 1_099_511_627_776.0;
    [
        (state[0] * step).round() / step,
        (state[1] * step).round() / step,
        (state[2] * step).round() / step,
        (state[3] * cell).round() / cell,
        (state[4] * cell).round() / cell,
        (state[5] * cell).round() / cell,
    ]
}

#[test]
fn test_cosm_indirect() {
    let jde = lib_epoch(hifitime::Epoch::from_gregorian_utc_at_midnight(2002, 2, 7));

    let moon_from_emb_spice = grid([
        -8.157_659_104_305_09e4,
        -3.454_756_891_448_087_4e5,
        -1.443_918_590_146_541e5,
        9.607_118_443_970_266e-1,
        -2.035_832_254_218_036_5e-1,
        -1.838_055_174_573_940_7e-1,
    ]);
    let earth_from_emb_spice = grid([
        1.003_395_089_487_415_4e3,
        4.249_363_764_688_855e3,
        1.776_025_210_722_566_7e3,
        -1.181_679_124_801_440_8e-2,
        2.504_081_208_571_763e-3,
        2.260_814_668_513_329_6e-3,
    ]);
    let emb = grid(EMB_2002);
    let ven2ear_spice = [
        2.051_262_195_720_077_5e8,
        -1.356_125_479_230_852_7e8,
        -6.557_839_967_615_153e7,
        3.605_137_427_817_783e1,
        4.888_902_462_217_076_6e1,
        2.070_293_380_084_308_4e1,
    ];
    let sun2ear_spice = [
        1.096_550_659_153_359_8e8,
        -9.057_089_103_152_503e7,
        -3.926_657_701_947_451e7,
        2.042_657_012_455_572_4e1,
        2.041_211_249_880_403e1,
        8.848_425_784_946_011,
    ];
    let venus = grid(add(add(ven2ear_spice, emb), moon_from_emb_spice));
    let sun = grid(add(add(sun2ear_spice, emb), earth_from_emb_spice));

    let (cosm, store) = solar_system(
        jde,
        &[
            (EARTH_BARYCENTER, emb),
            (LUNA, moon_from_emb_spice),
            (EARTH, earth_from_emb_spice),
            (VENUS_BARYCENTER, venus),
            (SUN, sun),
        ],
    );

    let ven2ear = cosm.find_common_root(VENUS_BARYCENTER, LUNA).unwrap();
    assert_eq!(
        ven2ear.len(),
        0,
        "Venus -> (SSB) -> Earth Barycenter -> Earth Moon, therefore common root is zero lengthed"
    );

    // In this first part of the tests, we want to check that the DCM corresponds to no rotation, or none.
    // If the DCM is diagonal, then it does not have a rotation.

    assert!(
        is_diagonal(&dcm(
            &cosm,
            &cosm
                .try_frame_chg_dcm_from_to(
                    &cosm.frame("Earth Barycenter J2000"),
                    &cosm.frame("Earth Barycenter J2000"),
                    jde
                )
                .unwrap()
        )),
        "Conversion does not require any rotation"
    );

    assert!(
        is_diagonal(&dcm(
            &cosm,
            &cosm
                .try_frame_chg_dcm_from_to(
                    &cosm.frame("Venus Barycenter J2000"),
                    &cosm.frame("EME2000"),
                    jde
                )
                .unwrap()
        )),
        "Conversion does not require any rotation"
    );

    assert!(
        !is_diagonal(&dcm(
            &cosm,
            &cosm
                .try_frame_chg_dcm_from_to(
                    &cosm.frame("Venus Barycenter J2000"),
                    &cosm.frame("IAU Sun"),
                    jde
                )
                .unwrap()
        )),
        "Conversion to Sun IAU from Venus J2k requires one rotation"
    );

    assert!(
        !is_diagonal(&dcm(
            &cosm,
            &cosm
                .try_frame_chg_dcm_from_to(
                    &cosm.frame("IAU Sun"),
                    &cosm.frame("Venus Barycenter J2000"),
                    jde
                )
                .unwrap()
        )),
        "Conversion to Sun IAU from Venus J2k requires one rotation"
    );

    let tol_pos = 7e-4; // km
    let tol_vel = 5e-7; // km/s

    let earth_moon = cosm.frame("Luna");
    let (ven2ear_state, frame) = celestial_state(&cosm, &store, VENUS_BARYCENTER, jde, earth_moon);
    assert_eq!(frame.ephem_path(), LUNA);
    assert!((ven2ear_state[0] - 2.051_262_195_720_077_5e8).abs() < 7e-4);
    assert!((ven2ear_state[1] - -1.356_125_479_230_852_7e8).abs() < 7e-4);
    assert!((ven2ear_state[2] - -6.557_839_967_615_153e7).abs() < 7e-4);
    assert!((ven2ear_state[3] - 3.605_137_427_817_783e1).abs() < 10.0 * tol_vel);
    assert!((ven2ear_state[4] - 4.888_902_462_217_076_6e1).abs() < 10.0 * tol_vel);
    assert!((ven2ear_state[5] - 2.070_293_380_084_308_4e1).abs() < 10.0 * tol_vel);

    // Check that conversion via a center frame works
    let earth_bary = cosm.frame("Earth Barycenter J2000");
    let (moon_from_emb, frame) = celestial_state(&cosm, &store, LUNA, jde, earth_bary);
    assert_eq!(frame, earth_bary);
    assert!((moon_from_emb[0] - -8.157_659_104_305_09e4).abs() < tol_pos);
    assert!((moon_from_emb[1] - -3.454_756_891_448_087_4e5).abs() < tol_pos);
    assert!((moon_from_emb[2] - -1.443_918_590_146_541e5).abs() < tol_pos);
    assert!((moon_from_emb[3] - 9.607_118_443_970_266e-1).abs() < tol_vel);
    assert!((moon_from_emb[4] - -2.035_832_254_218_036_5e-1).abs() < tol_vel);
    assert!((moon_from_emb[5] - -1.838_055_174_573_940_7e-1).abs() < tol_vel);

    let (earth_from_emb, _) = celestial_state(&cosm, &store, EARTH, jde, earth_bary);
    assert!((earth_from_emb[0] - 1.003_395_089_487_415_4e3).abs() < tol_pos);
    assert!((earth_from_emb[1] - 4.249_363_764_688_855e3).abs() < tol_pos);
    assert!((earth_from_emb[2] - 1.776_025_210_722_566_7e3).abs() < tol_pos);
    assert!((earth_from_emb[3] - -1.181_679_124_801_440_8e-2).abs() < tol_vel);
    assert!((earth_from_emb[4] - 2.504_081_208_571_763e-3).abs() < tol_vel);
    assert!((earth_from_emb[5] - 2.260_814_668_513_329_6e-3).abs() < tol_vel);

    let eme2k = cosm.frame("EME2000");
    let (moon_from_earth, _) = celestial_state(&cosm, &store, LUNA, jde, eme2k);
    let (earth_from_moon, _) = celestial_state(&cosm, &store, EARTH, jde, earth_moon);

    assert_eq!(earth_from_moon[0..3], neg(moon_from_earth)[0..3]);
    assert_eq!(earth_from_moon[3..6], neg(moon_from_earth)[3..6]);

    assert!((moon_from_earth[0] - -8.257_998_613_253_831e4).abs() < tol_pos);
    assert!((moon_from_earth[1] - -3.497_250_529_094_976e5).abs() < tol_pos);
    assert!((moon_from_earth[2] - -1.461_678_842_253_766_5e5).abs() < tol_pos);
    assert!((moon_from_earth[3] - 9.725_286_356_450_41e-1).abs() < tol_vel);
    assert!((moon_from_earth[4] - -2.060_873_066_303_754_2e-1).abs() < tol_vel);
    assert!((moon_from_earth[5] - -1.860_663_321_259_074e-1).abs() < tol_vel);

    let (sun2ear_state, _) = celestial_state(&cosm, &store, SUN, jde, eme2k);
    let ssb_frame = cosm.frame("SSB");
    let (emb_from_ssb, _) = celestial_state(&cosm, &store, EARTH_BARYCENTER, jde, ssb_frame);
    let (sun_from_ssb, _) = celestial_state(&cosm, &store, SUN, jde, ssb_frame);
    let delta_state = add(
        sun2ear_state,
        add(add(neg(sun_from_ssb), emb_from_ssb), earth_from_emb),
    );

    assert!(rmag(delta_state) < EPSILON);
    assert!(vmag(delta_state) < EPSILON);

    assert!((sun2ear_state[0] - 1.096_550_659_153_359_8e8).abs() < tol_pos);
    assert!((sun2ear_state[1] - -9.057_089_103_152_503e7).abs() < tol_pos);
    assert!((sun2ear_state[2] - -3.926_657_701_947_451e7).abs() < tol_pos);
    assert!((sun2ear_state[3] - 2.042_657_012_455_572_4e1).abs() < tol_vel);
    assert!((sun2ear_state[4] - 2.041_211_249_880_403e1).abs() < tol_vel);
    assert!((sun2ear_state[5] - 8.848_425_784_946_011).abs() < tol_vel);
    // And check the converse
    let sun2k = cosm.frame("Sun J2000");
    let (sun2ear_state, _) = celestial_state(&cosm, &store, &sun2k.ephem_path(), jde, eme2k);
    let (ear2sun_state, _) = celestial_state(&cosm, &store, &eme2k.ephem_path(), jde, sun2k);
    let state_sum = add(ear2sun_state, sun2ear_state);
    assert!(rmag(state_sum) < 1e-8);
    assert!(vmag(state_sum) < 1e-11);
}

const LRO_JPL: State = [
    -3.692_315_939_257_387E2,
    8.329_785_181_291_3E1,
    -1.764_329_108_632_533E3,
    -5.729_048_963_901_611E-1,
    -1.558_441_873_361_044,
    4.456_498_438_933_088E-2,
];

/// The Moon and the Earth about their barycenter on 6 December 2019.
fn moon_2019() -> (State, State) {
    let earth_from_moon = sub(
        LRO_JPL,
        [
            4.017_685_334_718_784E5,
            2.642_441_356_763_487E4,
            -3.024_209_691_251_325E4,
            -6.168_920_999_978_097E-1,
            -6.678_258_076_726_339E-1,
            4.208_264_479_358_517E-1,
        ],
    );
    let ratio = 81.300_57;
    let mut earth = [0.0; 6];
    let mut moon = [0.0; 6];
    for i in 0..6 {
        earth[i] = earth_from_moon[i] / (1.0 + ratio);
        moon[i] = earth[i] - earth_from_moon[i];
    }
    (grid(earth), grid(moon))
}

#[test]
fn test_cosm_frame_change_earth2luna() {
    let jde = lib_epoch(hifitime::Epoch::from_jde_et(2_458_823.5));
    let (earth, moon) = moon_2019();
    let (cosm, store) = solar_system(jde, &[(EARTH, earth), (LUNA, moon)]);
    let eme2k = cosm.frame("EME2000");
    let luna = cosm.frame("Luna");

    let lro = [
        4.017_685_334_718_784E5,
        2.642_441_356_763_487E4,
        -3.024_209_691_251_325E4,
        -6.168_920_999_978_097E-1,
        -6.678_258_076_726_339E-1,
        4.208_264_479_358_517E-1,
    ];

    let lro_jpl = LRO_JPL;

    let lro_wrt_moon = frame_chg(&cosm, &store, lro, jde, eme2k, luna);
    println!("{:?}", lro_jpl);
    println!("{:?}", lro_wrt_moon);
    let lro_moon_earth_delta = sub(lro_jpl, lro_wrt_moon);
    assert!(rmag(lro_moon_earth_delta) < 1e-2);
    assert!(vmag(lro_moon_earth_delta) < 1e-5);
    // And the converse
    let lro_wrt_earth = frame_chg(&cosm, &store, lro_wrt_moon, jde, luna, eme2k);
    assert!(rmag(sub(lro_wrt_earth, lro)) < std::f64::EPSILON);
    assert!(vmag(sub(lro_wrt_earth, lro)) < std::f64::EPSILON);
}

#[test]
fn test_cosm_frame_change_ven2luna() {
    let jde = lib_epoch(hifitime::Epoch::from_jde_et(2_458_823.5));
    let lro = [
        -4.393_308_217_174_602E7,
        1.874_075_194_166_327E8,
        8.763_986_396_329_135E7,
        -5.054_051_490_556_286E1,
        -1.874_720_232_671_061E1,
        -6.518_342_268_306_54,
    ];
    let lro_from_ssb = [
        4.227_396_973_787_854E7,
        1.305_852_533_250_192E8,
        5.657_002_470_685_254E7,
        -2.964_638_617_895_494E1,
        7.078_704_012_700_072,
        3.779_568_779_111_446,
    ];
    let (earth, moon) = moon_2019();
    let emb = grid(sub(sub(lro_from_ssb, LRO_JPL), moon));
    let venus = grid(sub(lro_from_ssb, lro));
    let (cosm, store) = solar_system(
        jde,
        &[
            (EARTH, earth),
            (LUNA, moon),
            (EARTH_BARYCENTER, emb),
            (VENUS_BARYCENTER, venus),
        ],
    );
    let luna = cosm.frame("Luna");
    let venus = cosm.frame("Venus Barycenter J2000");

    let lro_jpl = LRO_JPL;

    let lro_wrt_moon = frame_chg(&cosm, &store, lro, jde, venus, luna);
    println!("{:?}", lro_jpl);
    println!("{:?}", lro_wrt_moon);
    let lro_moon_earth_delta = sub(lro_jpl, lro_wrt_moon);
    assert!(rmag(lro_moon_earth_delta) < 0.3);
    assert!(vmag(lro_moon_earth_delta) < 1e-5);
    // And the converse
    let lro_wrt_venus = frame_chg(&cosm, &store, lro_wrt_moon, jde, luna, venus);
    assert!(rmag(sub(lro_wrt_venus, lro)) < std::f64::EPSILON);
    assert!(vmag(sub(lro_wrt_venus, lro)) < std::f64::EPSILON);
}

#[test]
fn test_cosm_frame_change_ssb2luna() {
    let jde = lib_epoch(hifitime::Epoch::from_jde_et(2_458_823.5));
    let lro = [
        4.227_396_973_787_854E7,
        1.305_852_533_250_192E8,
        5.657_002_470_685_254E7,
        -2.964_638_617_895_494E1,
        7.078_704_012_700_072,
        3.779_568_779_111_446,
    ];
    let (earth, moon) = moon_2019();
    let emb = grid(sub(sub(lro, LRO_JPL), moon));
    let (cosm, store) = solar_system(
        jde,
        &[(EARTH, earth), (LUNA, moon), (EARTH_BARYCENTER, emb)],
    );
    let luna = cosm.frame("Luna");
    let ssb = cosm.frame("SSB");

    let lro_jpl = LRO_JPL;

    let lro_wrt_moon = frame_chg(&cosm, &store, lro, jde, ssb, luna);
    println!("{:?}", lro_jpl);
    println!("{:?}", lro_wrt_moon);
    let lro_moon_earth_delta = sub(lro_jpl, lro_wrt_moon);
    assert!(rmag(lro_moon_earth_delta) < 0.3);
    assert!(vmag(lro_moon_earth_delta) < 1e-5);
    // And the converse
    let lro_wrt_ssb = frame_chg(&cosm, &store, lro_wrt_moon, jde, luna, ssb);
    assert!(rmag(sub(lro_wrt_ssb, lro)) < std::f64::EPSILON);
    assert!(vmag(sub(lro_wrt_ssb, lro)) < std::f64::EPSILON);
}

#[test]
fn test_cosm_rotation_validation() {
    let jde = lib_epoch(hifitime::Epoch::from_gregorian_utc_at_midnight(2002, 2, 7));
    let (cosm, store) = solar_system(
        jde,
        &[
            (EARTH_BARYCENTER, grid(EMB_2002)),
            (EARTH, grid(EARTH_2002)),
            (SUN, grid(SUN_2002)),
        ],
    );

    println!("Available ephems: {:?}", cosm.xb.ephemeris_get_names());
    println!("Available frames: {:?}", cosm.frames_get_names());

    let sun2k = cosm.frame("Sun J2000");
    let sun_iau = cosm.frame("IAU Sun");
    let (ear_sun_2k, _) = celestial_state(&cosm, &store, EARTH, jde, sun2k);
    let ear_sun_iau = frame_chg(&cosm, &store, ear_sun_2k, jde, sun2k, sun_iau);
    let ear_sun_2k_prime = frame_chg(&cosm, &store, ear_sun_iau, jde, sun_iau, sun2k);

    assert!(
        (rmag(ear_sun_2k) - rmag(ear_sun_iau)).abs() <= 1e-6,
        "a single rotation changes rmag"
    );
    assert!(
        rmag(sub(ear_sun_2k_prime, ear_sun_2k)) <= 1e-6,
        "reverse rotation does not match initial state"
    );

    // Test an EME2k to Earth IAU rotation

    let eme2k = cosm.frame("EME2000");
    let earth_iau = cosm.frame("IAU Earth"); // 2000 Model!!
    println!("{:?}\n{:?}", eme2k, earth_iau);
    let dt = lib_epoch(hifitime::Epoch::from_gregorian_tai_at_noon(2000, 1, 1));

    let state_eme2k = [
        5_946.673_548_288_958,
        1_656.154_606_023_661,
        2_259.012_129_598_249,
        -3.098_683_050_943_824,
        4.579_534_132_135_011,
        6.246_541_551_539_432,
    ];
    let state_ecef = frame_chg(&cosm, &store, state_eme2k, dt, eme2k, earth_iau);
    println!("{:?}\n{:?}", state_eme2k, state_ecef);
    let delta_state = sub(
        frame_chg(&cosm, &store, state_ecef, dt, earth_iau, eme2k),
        state_eme2k,
    );
    assert!(rmag(delta_state).abs() < 1e-9, "Inverse rotation is broken");
    assert!(vmag(delta_state).abs() < 1e-9, "Inverse rotation is broken");
    assert!((state_ecef[0] - -5.681_756_320_398_799e2).abs() < 1e-5);
    assert!((state_ecef[1] - 6.146_783_778_323_857e3).abs() < 1e-5);
    assert!((state_ecef[2] - 2.259_012_130_187_828e3).abs() < 1e-5);

    // The end of January
    let dt = lib_epoch(hifitime::Epoch::from_gregorian_tai_at_noon(2000, 1, 31));
    let state_eme2k = [-2436.45, -2436.45, 6891.037, 5.088_611, -5.088_611, 0.0];

    let state_ecef = frame_chg(&cosm, &store, state_eme2k, dt, eme2k, earth_iau);
    println!("{:?}\n{:?}", state_eme2k, state_ecef);
    assert!((state_ecef[0] - 309.280_238_111_054_1).abs() < 1e-1);
    assert!((state_ecef[1] - -3_431.791_232_988_777).abs() < 1e-1);
    assert!((state_ecef[2] - 6_891.017_545_171_71).abs() < 1e-1);

    // The first of March
    let dt = lib_epoch(hifitime::Epoch::from_gregorian_tai_at_noon(2000, 3, 1));
    let state_eme2k = [-2436.45, -2436.45, 6891.037, 5.088_611, -5.088_611, 0.0];

    let state_ecef = frame_chg(&cosm, &store, state_eme2k, dt, eme2k, earth_iau);
    println!("{:?}\n{:?}", state_eme2k, state_ecef);
    assert!((state_ecef[0] - -1_424.497_118_292_03).abs() < 1e0);
    assert!((state_ecef[1] - -3_137.502_417_055_381).abs() < 1e-1);
    assert!((state_ecef[2] - 6_890.998_090_503_171).abs() < 1e-1);

    // Ground station example
    let dt = lib_epoch(hifitime::Epoch::from_gregorian_tai_hms(2020, 1, 1, 0, 0, 20));
    let gs = [
        -4461.153491497329,
        2682.445251105359,
        -3674.3793821716713,
        -0.19560699645796042,
        -0.32531244947129817,
        0.0,
    ];
    let gs_eme = frame_chg(&cosm, &store, gs, dt, earth_iau, eme2k);
    println!("{:?}\n{:?}", gs, gs_eme);
}

#[test]
fn test_cosm_fix_frame_name() {
    assert_eq!(
        Cosm::fix_frame_name("Mars barycenter j2000"),
        "Mars Barycenter J2000"
    );
}

#[test]
fn fix_frame_name_knows_the_aliases() {
    assert_eq!(Cosm::fix_frame_name("EME2000"), "Earth J2000");
    assert_eq!(Cosm::fix_frame_name("  Luna "), "Moon J2000");
    assert_eq!(
        Cosm::fix_frame_name("Earth_Moon_Barycenter"),
        "Earth Barycenter J2000"
    );
    assert_eq!(Cosm::fix_frame_name("ssb"), "SSB J2000");
    assert_eq!(Cosm::fix_frame_name("IAU Sun"), "iau sun");
    assert_eq!(Cosm::fix_frame_name("iau_earth_moon"), "iau earth moon");
    assert_eq!(Cosm::fix_frame_name("iau"), "iau ");
    assert_eq!(Cosm::fix_frame_name("sun"), " Sun");
    assert_eq!(Cosm::fix_frame_name(""), " ");
}

#[test]
fn frames_are_listed_parents_first() {
    let jde = Epoch::from_nanos(0);
    let (cosm, _) = solar_system(jde, &[]);
    assert_eq!(
        cosm.frames_get_names(),
        vec![
            "SSB J2000",
            "Sun J2000",
            "iau sun",
            "Mercury Barycenter J2000",
            "Venus Barycenter J2000",
            "Earth Barycenter J2000",
            "Earth J2000",
            "iau earth",
            "Moon J2000",
            "Mars Barycenter J2000",
        ]
    );
    assert_eq!(cosm.frame("IAU Earth").frame_path(), vec![4, 0]);
    assert_eq!(cosm.frame("IAU Earth").ephem_path(), EARTH);
    assert_eq!(cosm.frame("Luna").frame_path(), vec![5]);
    assert_eq!(cosm.frame_from_ephem_path(LUNA), cosm.frame("Luna"));
    assert_eq!(cosm.frame_from_frame_path(&[4, 0]), cosm.frame("IAU Earth"));
    assert_eq!(cosm.frame_from_frame_path(&[]), cosm.frame("SSB"));
}

#[test]
fn unknown_frames_are_reported() {
    let (cosm, _) = solar_system(Epoch::from_nanos(0), &[]);
    assert_eq!(
        cosm.try_frame("Pluto barycenter j2000"),
        Err(nyx_space::errors::NyxError::ObjectNotFound(
            "Pluto Barycenter J2000".to_string()
        ))
    );
    assert_eq!(
        cosm.frame_find_path_for_orientation("iau earth"),
        Ok(vec![])
    );
    assert_eq!(
        cosm.frame_find_path_for_orientation("IAU Earth"),
        Err(nyx_space::errors::NyxError::ObjectNotFound(
            "IAU Earth".to_string()
        ))
    );
}

#[test]
fn gm_is_replaced_in_place() {
    let (mut cosm, _) = solar_system(Epoch::from_nanos(0), &[]);
    let before = cosm.frame("IAU Earth");
    cosm.frame_mut_gm("IAU Earth", scalar(398_600.441_5));
    let after = cosm.frame("IAU Earth");
    assert_eq!(float(after.gm()), 398_600.441_5);
    assert_eq!(after.frame_path(), before.frame_path());
    assert_eq!(float(cosm.frame("EME2000").gm()), 1.0);
    assert_eq!(float(cosm.frame("SSB").gm()), 1.0014 * 132_712_440_041.939_38);
}
