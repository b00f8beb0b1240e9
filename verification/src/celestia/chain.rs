use vstd::prelude::*;
use vstd::string::StringExecFns;
use crate::celestia::cosm::{Cosm, LTCorr};
use crate::celestia::frames::Frame;
use crate::celestia::paths::{
    ascent, coefficient, common_len, lemma_ascent, lemma_common_len, lemma_translation_round_trip,
    signed, translation, Term,
};
use crate::celestia::state::{BodyState, Orbit};
use crate::celestia::xb::{covers, select_window, window_index, window_offset, Segment};
use crate::errors::NyxError;
use crate::time::{Duration, Epoch};

verus! {

/// The number of times that the light time is refined. The first estimate is
/// the geometric distance; each further pass reads the target at the epoch
/// that the last estimate gives.
pub const LIGHT_TIME_ITERATIONS: usize = 3;

/// Why the state of a body, or a change of frame, cannot be had.
pub enum Failure {
    /// A path leads nowhere, or a body has no frame.
    ObjectNotFound,
    /// The named body has no interpolator, or none that covers the epoch.
    NoInterpolationData(Seq<char>),
    /// The named body has fewer than three coefficients per component.
    InvalidInterpolationData(Seq<char>),
    /// The named body has an interpolator without states.
    NoStateData(Seq<char>),
}

/// The error `e` reports the failure `f`.
pub open spec fn explains(e: NyxError, f: Failure) -> bool {
    match f {
        Failure::ObjectNotFound => e is ObjectNotFound,
        Failure::NoInterpolationData(name) => e matches NyxError::NoInterpolationData(n) && n@
            == name,
        Failure::InvalidInterpolationData(name) => e matches NyxError::InvalidInterpolationData(n)
            && n@ == "position_degree is less than 3 for XB "@ + name,
        Failure::NoStateData(name) => e matches NyxError::NoStateData(n) && n@ == name,
    }
}

/// One raw body state to add to, or take from, a state under translation,
/// with the place where it is to be read.
#[derive(Debug)]
pub struct Translation {
    pub path: Vec<usize>,
    pub negated: bool,
    pub state: BodyState,
}

/// What a `Translation` holds.
pub struct TranslationModel {
    pub path: Seq<usize>,
    pub negated: bool,
    pub state: BodyState,
}

impl View for Translation {
    type V = TranslationModel;

    open spec fn view(&self) -> TranslationModel {
        TranslationModel { path: self.path@, negated: self.negated, state: self.state }
    }
}

/// One factor of a product of rotations: the rotation that the node at `path`
/// defines against its parent, at `epoch`, as it is or transposed.
#[derive(Debug)]
pub struct Rotation {
    pub path: Vec<usize>,
    pub transposed: bool,
    pub epoch: Epoch,
}

/// What a `Rotation` holds.
pub struct RotationModel {
    pub path: Seq<usize>,
    pub transposed: bool,
    pub epoch: Epoch,
}

impl View for Rotation {
    type V = RotationModel;

    open spec fn view(&self) -> RotationModel {
        RotationModel { path: self.path@, transposed: self.transposed, epoch: self.epoch }
    }
}

/// How a state is taken from one frame to another: the translations are
/// applied first, in order, then the product of the rotations, its factors
/// multiplied from left to right, is applied to the translated state.
#[derive(Debug)]
pub struct FrameChange {
    pub from: Frame,
    pub to: Frame,
    pub epoch: Epoch,
    pub translations: Vec<Translation>,
    pub rotations: Vec<Rotation>,
}

/// What a `FrameChange` holds.
pub struct FrameChangeModel {
    pub from: Frame,
    pub to: Frame,
    pub epoch: Epoch,
    pub translations: Seq<TranslationModel>,
    pub rotations: Seq<RotationModel>,
}

/// The models of a list of translations.
pub open spec fn translation_views(items: Seq<Translation>) -> Seq<TranslationModel> {
    items.map_values(|t: Translation| t@)
}

/// The models of a list of rotations.
pub open spec fn rotation_views(items: Seq<Rotation>) -> Seq<RotationModel> {
    items.map_values(|r: Rotation| r@)
}

impl View for FrameChange {
    type V = FrameChangeModel;

    open spec fn view(&self) -> FrameChangeModel {
        FrameChangeModel {
            from: self.from,
            to: self.to,
            epoch: self.epoch,
            translations: translation_views(self.translations@),
            rotations: rotation_views(self.rotations@),
        }
    }
}

/// How the state of a target is to be computed for an observer.
#[derive(Debug)]
pub enum CelestialState {
    /// The state of the target at the epoch: the origin of the target's frame,
    /// taken to the observer's frame.
    Geometric(FrameChange),
    /// The state of the target as the observer sees it. `observer` and
    /// `target` lead from the origin of each to the root frame. The target is
    /// read again `iterations` times, each time at the epoch less the light
    /// time found so far; with `aberration` the direction to the target is
    /// then turned by the observer's velocity. The result is in `frame`.
    Apparent {
        observer: FrameChange,
        target: FrameChange,
        iterations: usize,
        aberration: bool,
        frame: Frame,
    },
}

/// What a `CelestialState` holds.
pub enum CelestialStateModel {
    Geometric(FrameChangeModel),
    Apparent {
        observer: FrameChangeModel,
        target: FrameChangeModel,
        iterations: usize,
        aberration: bool,
        frame: Frame,
    },
}

impl View for CelestialState {
    type V = CelestialStateModel;

    open spec fn view(&self) -> CelestialStateModel {
        match self {
            CelestialState::Geometric(change) => CelestialStateModel::Geometric(change@),
            CelestialState::Apparent { observer, target, iterations, aberration, frame } =>
                CelestialStateModel::Apparent {
                    observer: observer@,
                    target: target@,
                    iterations: *iterations,
                    aberration: *aberration,
                    frame: *frame,
                },
        }
    }
}

/// The terms of a list of translations, without the places to read them at.
pub open spec fn terms_of(items: Seq<TranslationModel>) -> Seq<Term> {
    items.map_values(|t: TranslationModel| Term { path: t.path, negated: t.negated })
}

/// The product of rotations that undoes `steps`: the same factors in reverse
/// order, each transposed if it was not and not if it was.
pub open spec fn inverse(steps: Seq<RotationModel>) -> Seq<RotationModel> {
    Seq::new(
        steps.len(),
        |j: int|
            RotationModel {
                path: steps[steps.len() - 1 - j].path,
                transposed: !steps[steps.len() - 1 - j].transposed,
                epoch: steps[steps.len() - 1 - j].epoch,
            },
    )
}

/// The first `len` levels of `path`.
pub fn prefix_of(path: &[usize], len: usize) -> (v: Vec<usize>)
    requires
        len <= path@.len(),
    ensures
        v@ == path@.take(len as int),
{
    let mut v: Vec<usize> = Vec::new();
    let mut i: usize = 0;
    while i < len
        invariant
            i <= len <= path@.len(),
            v@ == path@.take(i as int),
        decreases len - i,
    {
        v.push(path[i]);
        assert(v@ =~= path@.take(i + 1));
        i += 1;
    }
    v
}

impl Cosm {
    /// Where the state of the body at `path` is to be read at `epoch`, or why
    /// it cannot be had.
    ///
    /// The empty path is the origin of the root frame, whose state is zero. A
    /// body must exist, have an interpolator with at least three coefficients
    /// per component and with states whose windows hold `epoch`, and have a
    /// frame; these are looked at in this order.
    pub open spec fn spec_raw(self, path: Seq<usize>, epoch: Epoch) -> Result<BodyState, Failure> {
        if path.len() == 0 {
            Ok(BodyState { epoch, frame: self.frame_root.frame, segment: None })
        } else {
            match self.xb.spec_ephemeris(path) {
                None => Err(Failure::ObjectNotFound),
                Some(body) => match body.interpolator {
                    None => Err(Failure::NoInterpolationData(body.name@)),
                    Some(interp) => if interp.position_degree <= 2 {
                        Err(Failure::InvalidInterpolationData(body.name@))
                    } else {
                        match interp.state_data {
                            None => Err(Failure::NoStateData(body.name@)),
                            Some(states) => if !covers(states, interp.start_epoch, epoch) {
                                Err(Failure::NoInterpolationData(body.name@))
                            } else {
                                match self.linked_frame(path) {
                                    None => Err(Failure::ObjectNotFound),
                                    Some(frame) => Ok(
                                        BodyState {
                                            epoch,
                                            frame,
                                            segment: Some(
                                                Segment {
                                                    index: window_index(
                                                        states,
                                                        interp.start_epoch,
                                                        epoch,
                                                    ) as usize,
                                                    offset: Duration {
                                                        nanos: window_offset(
                                                            states,
                                                            interp.start_epoch,
                                                            epoch,
                                                        ) as i128,
                                                    },
                                                    duration: states.window_duration,
                                                    degree: interp.position_degree as usize,
                                                },
                                            ),
                                        },
                                    ),
                                }
                            },
                        }
                    },
                },
            }
        }
    }

    /// The terms resolved one by one, in order, at `epoch`. The first body
    /// whose state cannot be had decides the failure.
    pub open spec fn resolved(self, terms: Seq<Term>, epoch: Epoch) -> Result<
        Seq<TranslationModel>,
        Failure,
    >
        decreases terms.len(),
    {
        if terms.len() == 0 {
            Ok(Seq::empty())
        } else {
            match self.resolved(terms.drop_last(), epoch) {
                Err(f) => Err(f),
                Ok(done) => match self.spec_raw(terms.last().path, epoch) {
                    Err(f) => Err(f),
                    Ok(state) => Ok(
                        done.push(
                            TranslationModel {
                                path: terms.last().path,
                                negated: terms.last().negated,
                                state,
                            },
                        ),
                    ),
                },
            }
        }
    }

    /// The rotations of those of `nodes` that exist and are rotated against
    /// their parent, in the order of `nodes`.
    pub open spec fn turns(self, nodes: Seq<Seq<usize>>, transposed: bool, epoch: Epoch) -> Seq<
        RotationModel,
    >
        decreases nodes.len(),
    {
        if nodes.len() == 0 {
            Seq::empty()
        } else {
            let before = self.turns(nodes.drop_last(), transposed, epoch);
            if self.is_rotated(nodes.last()) {
                before.push(RotationModel { path: nodes.last(), transposed, epoch })
            } else {
                before
            }
        }
    }

    /// The node at `path` exists and is rotated against its parent.
    pub open spec fn is_rotated(self, path: Seq<usize>) -> bool {
        self.frame_root.node_at(path) matches Some(node) && node.parent_rotation is Some
    }

    /// The product of rotations that takes the axes of the frame at `from` to
    /// the axes of the frame at `to`.
    ///
    /// Read from right to left: the rotations on the way up from `from` to the
    /// common ancestor, each transposed, from the deepest to the one below the
    /// ancestor; then the rotations on the way down to `to`, from the one
    /// below the ancestor to the deepest. Between a frame and itself the
    /// product is empty. Otherwise both frames must exist.
    pub open spec fn spec_dcm(self, from: Seq<usize>, to: Seq<usize>, epoch: Epoch) -> Result<
        Seq<RotationModel>,
        Failure,
    > {
        let k = common_len(from, to);
        if from == to {
            Ok(Seq::empty())
        } else if self.frame_root.node_at(from) is None || self.frame_root.node_at(to) is None {
            Err(Failure::ObjectNotFound)
        } else {
            Ok(
                self.turns(ascent(to, k), false, epoch) + self.turns(
                    ascent(from, k).reverse(),
                    true,
                    epoch,
                ),
            )
        }
    }

    /// How a state at `epoch` is taken from the frame `from` to the frame
    /// `to`.
    ///
    /// Between a frame and itself nothing is done. Otherwise the translation
    /// is resolved first, then the rotation.
    pub open spec fn spec_frame_chg(self, from: Frame, epoch: Epoch, to: Frame) -> Result<
        FrameChangeModel,
        Failure,
    > {
        if from == to {
            Ok(
                FrameChangeModel {
                    from,
                    to,
                    epoch,
                    translations: Seq::empty(),
                    rotations: Seq::empty(),
                },
            )
        } else {
            match self.resolved(translation(from.ephem_slots()@, to.ephem_slots()@), epoch) {
                Err(f) => Err(f),
                Ok(translations) => match self.spec_dcm(
                    from.frame_slots()@,
                    to.frame_slots()@,
                    epoch,
                ) {
                    Err(f) => Err(f),
                    Ok(rotations) => Ok(
                        FrameChangeModel { from, to, epoch, translations, rotations },
                    ),
                },
            }
        }
    }

    /// How the state of the body at `target` is computed at `epoch` for an
    /// observer in `frame`.
    ///
    /// The target must have a frame. Without correction its origin is taken to
    /// `frame`. With a correction the origins of the target and of the body of
    /// `frame`, which must have a frame too, are each taken to the root
    /// frame, the observer first.
    pub open spec fn spec_celestial(
        self,
        target: Seq<usize>,
        epoch: Epoch,
        frame: Frame,
        correction: LTCorr,
    ) -> Result<CelestialStateModel, Failure> {
        match self.linked_frame(target) {
            None => Err(Failure::ObjectNotFound),
            Some(target_frame) => if correction is NoCorrection {
                match self.spec_frame_chg(target_frame, epoch, frame) {
                    Err(f) => Err(f),
                    Ok(change) => Ok(CelestialStateModel::Geometric(change)),
                }
            } else {
                let root = self.frame_root.frame;
                match self.linked_frame(frame.ephem_slots()@) {
                    None => Err(Failure::ObjectNotFound),
                    Some(observer_frame) => match self.spec_frame_chg(observer_frame, epoch, root) {
                        Err(f) => Err(f),
                        Ok(observer) => match self.spec_frame_chg(target_frame, epoch, root) {
                            Err(f) => Err(f),
                            Ok(target) => Ok(
                                CelestialStateModel::Apparent {
                                    observer,
                                    target,
                                    iterations: LIGHT_TIME_ITERATIONS,
                                    aberration: correction is Abberation,
                                    frame,
                                },
                            ),
                        },
                    },
                }
            },
        }
    }

    /// Tells where the state of the body at `path` is to be read at `epoch`.
    /// The empty path is the origin of the root frame.
    ///
    /// Fails with `ObjectNotFound` when no body is at `path`, with
    /// `NoInterpolationData` when the body has no interpolator, with
    /// `InvalidInterpolationData` when it has fewer than three coefficients
    /// per component, with `NoStateData` when the interpolator has no states,
    /// with `NoInterpolationData` when the windows do not hold `epoch`, and
    /// with `ObjectNotFound` when the body has no frame.
    pub fn raw_celestial_state(&self, path: &[usize], epoch: Epoch) -> (r: Result<
        BodyState,
        NyxError,
    >)
        ensures
            match self.spec_raw(path@, epoch) {
                Ok(state) => r == Ok::<BodyState, NyxError>(state),
                Err(f) => r matches Err(e) && explains(e, f),
            },
    {
        if path.len() == 0 {
            return Ok(BodyState { epoch, frame: self.frame_root.frame, segment: None });
        }
        let ephem = match self.xb.ephemeris_from_path(path) {
            Ok(ephem) => ephem,
            Err(e) => {
                return Err(e);
            },
        };
        let interp = match &ephem.interpolator {
            Some(interp) => interp,
            None => {
                return Err(NyxError::NoInterpolationData(ephem.name.clone()));
            },
        };
        if interp.position_degree <= 2 {
            let msg = String::from_str("position_degree is less than 3 for XB ").concat(
                ephem.name.as_str(),
            );
            return Err(NyxError::InvalidInterpolationData(msg));
        }
        let states = match &interp.state_data {
            Some(states) => states,
            None => {
                return Err(NyxError::NoStateData(ephem.name.clone()));
            },
        };
        let (index, offset) = match select_window(states, interp.start_epoch, epoch) {
            Some(found) => found,
            None => {
                return Err(NyxError::NoInterpolationData(ephem.name.clone()));
            },
        };
        let frame = match self.frame_path_from_ephem_path(path) {
            Some(frame_path) => match self.frame_root.get(frame_path.as_slice()) {
                Some(node) => node.frame,
                None => {
                    return Err(NyxError::ObjectNotFound("no frame for this body".to_string()));
                },
            },
            None => {
                return Err(NyxError::ObjectNotFound("no frame for this body".to_string()));
            },
        };
        Ok(
            BodyState {
                epoch,
                frame,
                segment: Some(
                    Segment {
                        index,
                        offset,
                        duration: states.window_duration,
                        degree: interp.position_degree as usize,
                    },
                ),
            },
        )
    }
}


/// Resolving a list of terms is resolving its front, then its back.
pub proof fn lemma_resolved_concat(cosm: Cosm, a: Seq<Term>, b: Seq<Term>, epoch: Epoch)
    ensures
        cosm.resolved(a + b, epoch) == match cosm.resolved(a, epoch) {
            Err(f) => Err::<Seq<TranslationModel>, Failure>(f),
            Ok(x) => match cosm.resolved(b, epoch) {
                Err(f) => Err(f),
                Ok(y) => Ok(x + y),
            },
        },
    decreases b.len(),
{
    if b.len() == 0 {
        assert(a + b =~= a);
        if let Ok(x) = cosm.resolved(a, epoch) {
            assert(x + Seq::<TranslationModel>::empty() =~= x);
        }
    } else {
        assert((a + b).drop_last() =~= a + b.drop_last());
        assert((a + b).last() == b.last());
        lemma_resolved_concat(cosm, a, b.drop_last(), epoch);
        if let Ok(x) = cosm.resolved(a, epoch) {
            if let Ok(y) = cosm.resolved(b.drop_last(), epoch) {
                if let Ok(state) = cosm.spec_raw(b.last().path, epoch) {
                    let item = TranslationModel {
                        path: b.last().path,
                        negated: b.last().negated,
                        state,
                    };
                    assert((x + y).push(item) =~= x + y.push(item));
                }
            }
        }
    }
}

/// What is resolved are the terms that were given, each with the place where
/// its body is to be read.
pub proof fn lemma_resolved_terms(cosm: Cosm, terms: Seq<Term>, epoch: Epoch)
    requires
        cosm.resolved(terms, epoch) is Ok,
    ensures
        terms_of(cosm.resolved(terms, epoch)->Ok_0) == terms,
        forall|j: int|
            0 <= j < terms.len() ==> cosm.spec_raw(terms[j].path, epoch) == Ok::<
                BodyState,
                Failure,
            >(#[trigger] cosm.resolved(terms, epoch)->Ok_0[j].state),
    decreases terms.len(),
{
    if terms.len() > 0 {
        let front = terms.drop_last();
        assert(cosm.resolved(front, epoch) is Ok);
        assert(cosm.spec_raw(terms.last().path, epoch) is Ok);
        lemma_resolved_terms(cosm, front, epoch);
        let done = cosm.resolved(front, epoch)->Ok_0;
        let all = cosm.resolved(terms, epoch)->Ok_0;
        let item = TranslationModel {
            path: terms.last().path,
            negated: terms.last().negated,
            state: cosm.spec_raw(terms.last().path, epoch)->Ok_0,
        };
        assert(all == done.push(item));
        assert(terms_of(done).len() == done.len());
        assert forall|j: int| 0 <= j < terms.len() implies terms_of(all)[j] == terms[j] by {
            if j < front.len() {
                assert(terms_of(all)[j] == terms_of(done)[j]);
                assert(front[j] == terms[j]);
            }
        }
        assert(terms_of(all) =~= terms);
        assert forall|j: int| 0 <= j < terms.len() implies cosm.spec_raw(terms[j].path, epoch)
            == Ok::<BodyState, Failure>(#[trigger] all[j].state) by {
            if j < front.len() {
                assert(all[j] == done[j]);
                assert(front[j] == terms[j]);
            }
        }
    } else {
        assert(terms_of(cosm.resolved(terms, epoch)->Ok_0) =~= terms);
    }
}

/// Whether a list of terms can be resolved does not depend on their signs.
pub proof fn lemma_resolved_sign(cosm: Cosm, paths: Seq<Seq<usize>>, negated: bool, epoch: Epoch)
    ensures
        cosm.resolved(signed(paths, negated), epoch) is Ok <==> cosm.resolved(
            signed(paths, !negated),
            epoch,
        ) is Ok,
    decreases paths.len(),
{
    if paths.len() > 0 {
        lemma_resolved_sign(cosm, paths.drop_last(), negated, epoch);
        assert(signed(paths, negated).drop_last() =~= signed(paths.drop_last(), negated));
        assert(signed(paths, !negated).drop_last() =~= signed(paths.drop_last(), !negated));
    }
}

/// A translation that can be resolved one way can be resolved the other way.
pub proof fn lemma_resolved_both_ways(cosm: Cosm, from: Seq<usize>, to: Seq<usize>, epoch: Epoch)
    requires
        cosm.resolved(translation(from, to), epoch) is Ok,
    ensures
        cosm.resolved(translation(to, from), epoch) is Ok,
{
    lemma_common_len(from, to);
    let k = common_len(from, to);
    lemma_resolved_concat(cosm, signed(ascent(from, k), false), signed(ascent(to, k), true), epoch);
    lemma_resolved_concat(cosm, signed(ascent(to, k), false), signed(ascent(from, k), true), epoch);
    lemma_resolved_sign(cosm, ascent(from, k), false, epoch);
    lemma_resolved_sign(cosm, ascent(to, k), false, epoch);
}

/// The rotations of a list of nodes are those of its front, then those of its
/// back.
pub proof fn lemma_turns_concat(
    cosm: Cosm,
    a: Seq<Seq<usize>>,
    b: Seq<Seq<usize>>,
    transposed: bool,
    epoch: Epoch,
)
    ensures
        cosm.turns(a + b, transposed, epoch) == cosm.turns(a, transposed, epoch) + cosm.turns(
            b,
            transposed,
            epoch,
        ),
    decreases b.len(),
{
    if b.len() == 0 {
        assert(a + b =~= a);
        assert(cosm.turns(a, transposed, epoch) + Seq::<RotationModel>::empty() =~= cosm.turns(
            a,
            transposed,
            epoch,
        ));
    } else {
        assert((a + b).drop_last() =~= a + b.drop_last());
        assert((a + b).last() == b.last());
        lemma_turns_concat(cosm, a, b.drop_last(), transposed, epoch);
        let x = cosm.turns(a, transposed, epoch);
        let y = cosm.turns(b.drop_last(), transposed, epoch);
        let item = RotationModel { path: b.last(), transposed, epoch };
        assert((x + y).push(item) =~= x + y.push(item));
    }
}

/// Undoing a product undoes its factors from the back.
pub proof fn lemma_inverse_concat(x: Seq<RotationModel>, y: Seq<RotationModel>)
    ensures
        inverse(x + y) == inverse(y) + inverse(x),
{
    assert(inverse(x + y) =~= inverse(y) + inverse(x));
}

/// Undoing the rotations of a list of nodes is taking the nodes in reverse
/// order and transposing the other way.
pub proof fn lemma_inverse_turns(
    cosm: Cosm,
    nodes: Seq<Seq<usize>>,
    transposed: bool,
    epoch: Epoch,
)
    ensures
        inverse(cosm.turns(nodes, transposed, epoch)) == cosm.turns(
            nodes.reverse(),
            !transposed,
            epoch,
        ),
    decreases nodes.len(),
{
    if nodes.len() == 0 {
        assert(nodes.reverse() =~= nodes);
        assert(inverse(Seq::<RotationModel>::empty()) =~= Seq::<RotationModel>::empty());
    } else {
        let front = nodes.drop_last();
        let last = seq![nodes.last()];
        assert(nodes.reverse() =~= last + front.reverse());
        lemma_turns_concat(cosm, last, front.reverse(), !transposed, epoch);
        lemma_inverse_turns(cosm, front, transposed, epoch);
        assert(last.drop_last() =~= Seq::<Seq<usize>>::empty());
        assert(last.last() == nodes.last());
        assert(cosm.turns(Seq::<Seq<usize>>::empty(), !transposed, epoch) =~= Seq::<
            RotationModel,
        >::empty());
        assert(cosm.turns(last.drop_last(), !transposed, epoch) =~= Seq::<RotationModel>::empty());
        let before = cosm.turns(front, transposed, epoch);
        if cosm.is_rotated(nodes.last()) {
            let item = RotationModel { path: nodes.last(), transposed, epoch };
            let flipped = RotationModel { path: nodes.last(), transposed: !transposed, epoch };
            assert(before.push(item) =~= before + seq![item]);
            lemma_inverse_concat(before, seq![item]);
            assert(inverse(seq![item]) =~= seq![flipped]);
            assert(cosm.turns(last, !transposed, epoch) =~= seq![flipped]);
        } else {
            assert(cosm.turns(last, !transposed, epoch) =~= Seq::<RotationModel>::empty());
            assert(Seq::<RotationModel>::empty() + cosm.turns(front.reverse(), !transposed, epoch)
                =~= cosm.turns(front.reverse(), !transposed, epoch));
        }
    }
}

/// The rotation from one frame to another and the rotation back undo each
/// other.
pub proof fn lemma_dcm_round_trip(cosm: Cosm, from: Seq<usize>, to: Seq<usize>, epoch: Epoch)
    requires
        cosm.spec_dcm(from, to, epoch) is Ok,
        from != to ==> cosm.frame_root.node_at(from) is Some && cosm.frame_root.node_at(to) is Some,
    ensures
        cosm.spec_dcm(to, from, epoch) is Ok,
        cosm.spec_dcm(to, from, epoch)->Ok_0 == inverse(cosm.spec_dcm(from, to, epoch)->Ok_0),
{
    if from == to {
        assert(inverse(Seq::<RotationModel>::empty()) =~= Seq::<RotationModel>::empty());
    } else {
        lemma_common_len(from, to);
        let k = common_len(from, to);
        let down = cosm.turns(ascent(to, k), false, epoch);
        let up = cosm.turns(ascent(from, k).reverse(), true, epoch);
        lemma_inverse_concat(down, up);
        lemma_inverse_turns(cosm, ascent(to, k), false, epoch);
        lemma_inverse_turns(cosm, ascent(from, k).reverse(), true, epoch);
        assert(ascent(from, k).reverse().reverse() =~= ascent(from, k));
    }
}

/// Round trip of a change of frame. When a state can be taken from `a` to
/// `b` at an epoch it can be taken back, and the two changes undo each other:
/// over both translations together every body is added as often as it is
/// taken away, each body is read at the same place both times, and the
/// rotation of the way back is the inverse of the rotation of the way out.
pub proof fn lemma_frame_chg_round_trip(cosm: Cosm, a: Frame, b: Frame, epoch: Epoch)
    requires
        cosm.spec_frame_chg(a, epoch, b) is Ok,
    ensures
        cosm.spec_frame_chg(b, epoch, a) is Ok,
        forall|p: Seq<usize>|
            coefficient(
                terms_of(cosm.spec_frame_chg(a, epoch, b)->Ok_0.translations) + terms_of(
                    cosm.spec_frame_chg(b, epoch, a)->Ok_0.translations,
                ),
                p,
            ) == 0,
        forall|i: int, j: int|
            #![trigger
                cosm.spec_frame_chg(a, epoch, b)->Ok_0.translations[i],
                cosm.spec_frame_chg(b, epoch, a)->Ok_0.translations[j]
            ]
            0 <= i < cosm.spec_frame_chg(a, epoch, b)->Ok_0.translations.len() && 0 <= j
                < cosm.spec_frame_chg(b, epoch, a)->Ok_0.translations.len() && cosm.spec_frame_chg(
                a,
                epoch,
                b,
            )->Ok_0.translations[i].path == cosm.spec_frame_chg(b, epoch, a)->Ok_0.translations[j].path
                ==> cosm.spec_frame_chg(a, epoch, b)->Ok_0.translations[i].state
                == cosm.spec_frame_chg(b, epoch, a)->Ok_0.translations[j].state,
        cosm.spec_frame_chg(b, epoch, a)->Ok_0.rotations == inverse(
            cosm.spec_frame_chg(a, epoch, b)->Ok_0.rotations,
        ),
{
    if a != b {
        lemma_resolved_both_ways(cosm, a.ephem_slots()@, b.ephem_slots()@, epoch);
        if a.frame_slots()@ != b.frame_slots()@ {
            lemma_dcm_round_trip(cosm, a.frame_slots()@, b.frame_slots()@, epoch);
        }
    }
    let out = cosm.spec_frame_chg(a, epoch, b)->Ok_0;
    let back = cosm.spec_frame_chg(b, epoch, a)->Ok_0;
    if a == b {
        assert(terms_of(out.translations) + terms_of(back.translations) =~= Seq::<Term>::empty());
        assert(inverse(Seq::<RotationModel>::empty()) =~= Seq::<RotationModel>::empty());
    } else {
        let ea = a.ephem_slots()@;
        let eb = b.ephem_slots()@;
        lemma_resolved_terms(cosm, translation(ea, eb), epoch);
        lemma_resolved_terms(cosm, translation(eb, ea), epoch);
        assert forall|p: Seq<usize>|
            coefficient(terms_of(out.translations) + terms_of(back.translations), p) == 0 by {
            lemma_translation_round_trip(ea, eb, p);
        }
        let fa = a.frame_slots()@;
        let fb = b.frame_slots()@;
        if fa == fb {
            assert(inverse(Seq::<RotationModel>::empty()) =~= Seq::<RotationModel>::empty());
        } else {
            lemma_dcm_round_trip(cosm, fa, fb, epoch);
        }
    }
}

/// A change of frame between two frames of one body translates nothing: what
/// lies above the body that both frames share never enters.
pub proof fn lemma_frame_chg_same_body(cosm: Cosm, a: Frame, b: Frame, epoch: Epoch)
    requires
        a.ephem_slots()@ == b.ephem_slots()@,
        cosm.spec_dcm(a.frame_slots()@, b.frame_slots()@, epoch) is Ok,
    ensures
        cosm.spec_frame_chg(a, epoch, b) is Ok,
        cosm.spec_frame_chg(a, epoch, b)->Ok_0.translations.len() == 0,
{
    crate::celestia::paths::lemma_translation_same_body(a.ephem_slots()@);
}

impl Cosm {
    /// Resolves the bodies on the way up from `path` to the prefix of length
    /// `k`, deepest first, and appends them to `out`, each to be added or each
    /// to be taken away.
    fn extend_translations(
        &self,
        out: &mut Vec<Translation>,
        path: &[usize],
        k: usize,
        negated: bool,
        epoch: Epoch,
    ) -> (r: Result<(), NyxError>)
        ensures
            match self.resolved(signed(ascent(path@, k as nat), negated), epoch) {
                Ok(items) => r is Ok && translation_views(final(out)@) == translation_views(
                    old(out)@,
                ) + items,
                Err(f) => r matches Err(e) && explains(e, f),
            },
    {
        let ghost terms = signed(ascent(path@, k as nat), negated);
        let n = path.len();
        let mut i: usize = n;
        proof {
            lemma_ascent(path@, k as nat);
            assert(terms.take(0) =~= Seq::<Term>::empty());
            assert(translation_views(out@) + Seq::<TranslationModel>::empty() =~= translation_views(
                out@,
            ));
        }
        while i > k
            invariant
                n == path@.len(),
                i <= n,
                i >= k || i == n,
                terms == signed(ascent(path@, k as nat), negated),
                terms.len() == if n <= k {
                    0
                } else {
                    n - k
                },
                forall|j: int|
                    0 <= j < terms.len() ==> #[trigger] ascent(path@, k as nat)[j] == path@.take(
                        n - j,
                    ),
                self.resolved(terms.take(n - i), epoch) is Ok,
                translation_views(out@) == translation_views(old(out)@) + self.resolved(
                    terms.take(n - i),
                    epoch,
                )->Ok_0,
            decreases i,
        {
            let ghost done = terms.take(n - i);
            let ghost next = terms.take(n - i + 1);
            let prefix = prefix_of(path, i);
            proof {
                assert(next.drop_last() =~= done);
                assert(ascent(path@, k as nat)[n - i] == path@.take(i as int));
                assert(next.last() == Term { path: prefix@, negated });
                lemma_resolved_concat(*self, next, terms.skip(n - i + 1), epoch);
                assert(next + terms.skip(n - i + 1) =~= terms);
            }
            match self.raw_celestial_state(prefix.as_slice(), epoch) {
                Err(e) => {
                    return Err(e);
                },
                Ok(state) => {
                    let ghost before = out@;
                    let item = Translation { path: prefix, negated, state };
                    out.push(item);
                    proof {
                        assert(translation_views(out@) =~= translation_views(before).push(item@));
                        assert(translation_views(out@) =~= translation_views(old(out)@)
                            + self.resolved(next, epoch)->Ok_0);
                    }
                },
            }
            i -= 1;
        }
        proof {
            assert(terms.take(terms.len() as int) =~= terms);
        }
        Ok(())
    }

    /// Appends to `out` the rotations of the nodes between the prefix of
    /// length `k` of `path` and `path` itself: from the deepest up when
    /// `descending`, from the shallowest down otherwise.
    fn extend_rotations(
        &self,
        out: &mut Vec<Rotation>,
        path: &[usize],
        k: usize,
        descending: bool,
        transposed: bool,
        epoch: Epoch,
    )
        ensures
            rotation_views(final(out)@) == rotation_views(old(out)@) + self.turns(
                if descending {
                    ascent(path@, k as nat)
                } else {
                    ascent(path@, k as nat).reverse()
                },
                transposed,
                epoch,
            ),
    {
        let ghost nodes = if descending {
            ascent(path@, k as nat)
        } else {
            ascent(path@, k as nat).reverse()
        };
        let n = path.len();
        let count: usize = if n <= k {
            0
        } else {
            n - k
        };
        let mut t: usize = 0;
        proof {
            lemma_ascent(path@, k as nat);
            assert(nodes.take(0) =~= Seq::<Seq<usize>>::empty());
            assert(rotation_views(out@) + Seq::<RotationModel>::empty() =~= rotation_views(out@));
        }
        while t < count
            invariant
                n == path@.len(),
                t <= count,
                count == nodes.len(),
                count == if n <= k {
                    0
                } else {
                    n - k
                },
                nodes == if descending {
                    ascent(path@, k as nat)
                } else {
                    ascent(path@, k as nat).reverse()
                },
                forall|j: int|
                    0 <= j < count ==> #[trigger] ascent(path@, k as nat)[j] == path@.take(n - j),
                rotation_views(out@) == rotation_views(old(out)@) + self.turns(
                    nodes.take(t as int),
                    transposed,
                    epoch,
                ),
            decreases count - t,
        {
            let len: usize = if descending {
                n - t
            } else {
                k + 1 + t
            };
            let prefix = prefix_of(path, len);
            proof {
                assert(nodes.take(t + 1).drop_last() =~= nodes.take(t as int));
                if descending {
                    assert(nodes[t as int] == path@.take(n - t));
                } else {
                    assert(nodes[t as int] == ascent(path@, k as nat)[count - 1 - t]);
                }
                assert(nodes.take(t + 1).last() == prefix@);
            }
            let rotated = match self.frame_root.get(prefix.as_slice()) {
                Some(node) => node.parent_rotation.is_some(),
                None => false,
            };
            if rotated {
                let ghost before = out@;
                let item = Rotation { path: prefix, transposed, epoch };
                out.push(item);
                proof {
                    assert(rotation_views(out@) =~= rotation_views(before).push(item@));
                }
            }
            t += 1;
        }
        proof {
            assert(nodes.take(count as int) =~= nodes);
        }
    }

    /// Returns the product of rotations that takes the axes of `from` to the
    /// axes of `to` at `dt`.
    ///
    /// Fails with `ObjectNotFound` when the two frame paths differ and one of
    /// them leads nowhere.
    pub fn try_frame_chg_dcm_from_to(&self, from: &Frame, to: &Frame, dt: Epoch) -> (r: Result<
        Vec<Rotation>,
        NyxError,
    >)
        ensures
            match self.spec_dcm(from.frame_slots()@, to.frame_slots()@, dt) {
                Ok(steps) => r is Ok && rotation_views(r->Ok_0@) == steps,
                Err(f) => r matches Err(e) && explains(e, f),
            },
    {
        let mut dcm: Vec<Rotation> = Vec::new();
        let state_frame_path = from.frame_path();
        let new_frame_path = to.frame_path();
        assert(rotation_views(dcm@) =~= Seq::<RotationModel>::empty());
        if crate::celestia::cosm::path_eq(new_frame_path.as_slice(), state_frame_path.as_slice()) {
            return Ok(dcm);
        }
        if self.frame_root.get(state_frame_path.as_slice()).is_none() || self.frame_root.get(
            new_frame_path.as_slice(),
        ).is_none() {
            return Err(NyxError::ObjectNotFound("no frame at this path".to_string()));
        }
        let f_common_path = match self.find_common_root(
            new_frame_path.as_slice(),
            state_frame_path.as_slice(),
        ) {
            Ok(path) => path,
            Err(e) => {
                return Err(e);
            },
        };
        let k = f_common_path.len();
        proof {
            lemma_common_len(new_frame_path@, state_frame_path@);
            lemma_common_len(state_frame_path@, new_frame_path@);
            assert(k == common_len(state_frame_path@, new_frame_path@));
        }
        self.extend_rotations(&mut dcm, new_frame_path.as_slice(), k, true, false, dt);
        self.extend_rotations(&mut dcm, state_frame_path.as_slice(), k, false, true, dt);
        proof {
            let down = self.turns(ascent(new_frame_path@, k as nat), false, dt);
            let up = self.turns(ascent(state_frame_path@, k as nat).reverse(), true, dt);
            assert((Seq::<RotationModel>::empty() + down) + up =~= down + up);
        }
        Ok(dcm)
    }

    /// How a state at `epoch` is taken from the frame `from` to the frame
    /// `to`.
    fn change(&self, from: Frame, epoch: Epoch, to: Frame) -> (r: Result<FrameChange, NyxError>)
        ensures
            match self.spec_frame_chg(from, epoch, to) {
                Ok(change) => r is Ok && r->Ok_0@ == change,
                Err(f) => r matches Err(e) && explains(e, f),
            },
    {
        let mut translations: Vec<Translation> = Vec::new();
        assert(translation_views(translations@) =~= Seq::<TranslationModel>::empty());
        if from == to {
            let rotations: Vec<Rotation> = Vec::new();
            assert(rotation_views(rotations@) =~= Seq::<RotationModel>::empty());
            return Ok(FrameChange { from, to, epoch, translations, rotations });
        }
        let new_ephem_path = to.ephem_path();
        let state_ephem_path = from.ephem_path();
        let e_common_path = match self.find_common_root(
            new_ephem_path.as_slice(),
            state_ephem_path.as_slice(),
        ) {
            Ok(path) => path,
            Err(e) => {
                return Err(e);
            },
        };
        let k = e_common_path.len();
        proof {
            lemma_common_len(new_ephem_path@, state_ephem_path@);
            lemma_common_len(state_ephem_path@, new_ephem_path@);
            assert(k == common_len(state_ephem_path@, new_ephem_path@));
            lemma_resolved_concat(
                *self,
                signed(ascent(state_ephem_path@, k as nat), false),
                signed(ascent(new_ephem_path@, k as nat), true),
                epoch,
            );
        }
        match self.extend_translations(
            &mut translations,
            state_ephem_path.as_slice(),
            k,
            false,
            epoch,
        ) {
            Err(e) => {
                return Err(e);
            },
            Ok(()) => {},
        }
        let ghost up = translation_views(translations@);
        match self.extend_translations(
            &mut translations,
            new_ephem_path.as_slice(),
            k,
            true,
            epoch,
        ) {
            Err(e) => {
                return Err(e);
            },
            Ok(()) => {},
        }
        proof {
            let first = self.resolved(signed(ascent(state_ephem_path@, k as nat), false), epoch)->Ok_0;
            assert(Seq::<TranslationModel>::empty() + first =~= first);
        }
        let rotations = match self.try_frame_chg_dcm_from_to(&from, &to, epoch) {
            Ok(rotations) => rotations,
            Err(e) => {
                return Err(e);
            },
        };
        Ok(FrameChange { from, to, epoch, translations, rotations })
    }

    /// Tells how `state` is taken to `new_frame`: which raw body states are
    /// added to it and taken from it, and by which rotations the translated
    /// state is then turned.
    ///
    /// Fails as `raw_celestial_state` does for the first body of the
    /// translation whose state cannot be had, and with `ObjectNotFound` when
    /// the frame paths differ and one of them leads nowhere.
    pub fn try_frame_chg(&self, state: &Orbit, new_frame: Frame) -> (r: Result<
        FrameChange,
        NyxError,
    >)
        ensures
            match self.spec_frame_chg(state.frame, state.dt, new_frame) {
                Ok(change) => r is Ok && r->Ok_0@ == change,
                Err(f) => r matches Err(e) && explains(e, f),
            },
    {
        self.change(state.frame, state.dt, new_frame)
    }

    /// Tells how `state` is taken to `new_frame`. The change must be possible.
    pub fn frame_chg(&self, state: &Orbit, new_frame: Frame) -> (r: FrameChange)
        requires
            self.spec_frame_chg(state.frame, state.dt, new_frame) is Ok,
        ensures
            r@ == self.spec_frame_chg(state.frame, state.dt, new_frame)->Ok_0,
    {
        match self.try_frame_chg(state, new_frame) {
            Ok(change) => change,
            Err(_) => {
                proof {
                    assert(false);
                }
                FrameChange {
                    from: state.frame,
                    to: new_frame,
                    epoch: state.dt,
                    translations: Vec::new(),
                    rotations: Vec::new(),
                }
            },
        }
    }

    /// The frame in which the states of the body at `ephem_path` are stored,
    /// if the table knows the body and the frame exists.
    fn linked_frame_of(&self, ephem_path: &[usize]) -> (r: Option<Frame>)
        ensures
            r == self.linked_frame(ephem_path@),
    {
        match self.frame_path_from_ephem_path(ephem_path) {
            Some(frame_path) => match self.frame_root.get(frame_path.as_slice()) {
                Some(node) => Some(node.frame),
                None => None,
            },
            None => None,
        }
    }

    /// Tells how the state of the body at `target_ephem` is computed at
    /// `datetime` for an observer in `frame`.
    ///
    /// Fails with `ObjectNotFound` when the target has no frame or, under a
    /// correction, the body of `frame` has none; otherwise as `try_frame_chg`
    /// does for the changes that the result holds.
    pub fn try_celestial_state(
        &self,
        target_ephem: &[usize],
        datetime: Epoch,
        frame: Frame,
        correction: LTCorr,
    ) -> (r: Result<CelestialState, NyxError>)
        ensures
            match self.spec_celestial(target_ephem@, datetime, frame, correction) {
                Ok(plan) => r is Ok && r->Ok_0@ == plan,
                Err(f) => r matches Err(e) && explains(e, f),
            },
    {
        let target_frame = match self.linked_frame_of(target_ephem) {
            Some(target_frame) => target_frame,
            None => {
                return Err(NyxError::ObjectNotFound("no frame for this body".to_string()));
            },
        };
        match correction {
            LTCorr::NoCorrection => {
                match self.change(target_frame, datetime, frame) {
                    Ok(change) => Ok(CelestialState::Geometric(change)),
                    Err(e) => Err(e),
                }
            },
            LTCorr::LightTime | LTCorr::Abberation => {
                let ssb2k = self.frame_root.frame;
                let observer_path = frame.ephem_path();
                let observer_frame = match self.linked_frame_of(observer_path.as_slice()) {
                    Some(observer_frame) => observer_frame,
                    None => {
                        return Err(NyxError::ObjectNotFound("no frame for this body".to_string()));
                    },
                };
                let observer = match self.change(observer_frame, datetime, ssb2k) {
                    Ok(change) => change,
                    Err(e) => {
                        return Err(e);
                    },
                };
                let target = match self.change(target_frame, datetime, ssb2k) {
                    Ok(change) => change,
                    Err(e) => {
                        return Err(e);
                    },
                };
                let aberration = match correction {
                    LTCorr::Abberation => true,
                    _ => false,
                };
                Ok(
                    CelestialState::Apparent {
                        observer,
                        target,
                        iterations: LIGHT_TIME_ITERATIONS,
                        aberration,
                        frame,
                    },
                )
            },
        }
    }

    /// Tells how the state of the body at `target_ephem` is computed at
    /// `datetime` for an observer in `frame`. It must be possible.
    pub fn celestial_state(
        &self,
        target_ephem: &[usize],
        datetime: Epoch,
        frame: Frame,
        correction: LTCorr,
    ) -> (r: CelestialState)
        requires
            self.spec_celestial(target_ephem@, datetime, frame, correction) is Ok,
        ensures
            r@ == self.spec_celestial(target_ephem@, datetime, frame, correction)->Ok_0,
    {
        match self.try_celestial_state(target_ephem, datetime, frame, correction) {
            Ok(plan) => plan,
            Err(_) => {
                proof {
                    assert(false);
                }
                CelestialState::Geometric(
                    FrameChange {
                        from: frame,
                        to: frame,
                        epoch: datetime,
                        translations: Vec::new(),
                        rotations: Vec::new(),
                    },
                )
            },
        }
    }
}

} // verus!
