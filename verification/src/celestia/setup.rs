use vstd::prelude::*;
use vstd::string::StringExecFns;
use crate::celestia::cosm::{Cosm, PathLink};
use crate::celestia::frames::{Frame, PathSlots};
use crate::celestia::tree::FrameTree;
use crate::celestia::wellformed::lemma_grown_wf;
use crate::celestia::xb::{Ephemeris, Xb};
use crate::errors::NyxError;
use crate::scalar::Scalar;
use crate::utils::{lowercase_of, str_eq, to_lowercase};

verus! {

/// The mass of the solar system in solar masses, 1.0014.
pub const SS_MASS_BITS: u64 = 0x3FF005BC01A36E2F;

/// The gravitational parameter of the Sun, 132 712 440 041.939 38 km^3/s^2.
pub const SUN_GM_BITS: u64 = 0x423EE64720E9F07B;

/// The gravitational parameter of the solar system, the product of the two
/// constants above: 132 898 237 457.998 11 km^3/s^2.
pub const SSB_GM_BITS: u64 = 0x423EF15A2C11FF84;

/// The flattening that the Moon gets when the store gives none, 0.0012.
pub const MOON_FLATTENING_BITS: u64 = 0x3F53A92A30553261;

/// The equatorial radius that the Moon gets when the store gives none,
/// 1738.1 km.
pub const MOON_RADIUS_BITS: u64 = 0x409B286666666666;

/// The semi-major radius of the frame made for the body called
/// `Earth Barycenter`, 6378.137 km.
pub const EARTH_SEMI_MAJOR_BITS: u64 = 0x40B8EA23126E978D;

/// The radius of the Sun, 696 342 km.
pub const SUN_RADIUS_BITS: u64 = 0x4125402C00000000;

/// A body of the store together with its path, as met when the store is
/// walked to make frames.
pub struct Candidate {
    pub path: PathSlots,
    pub body: Ephemeris,
}

/// A body gets a frame when the store gives its gravitational parameter, or
/// when it is the Sun.
pub open spec fn has_default_frame(body: Ephemeris) -> bool {
    body.spec_constant("GM"@) is Some || lowercase_of(body.name@) == "sun"@
}

/// The name of the frame made for a body.
pub open spec fn default_name(body: Ephemeris) -> Seq<char> {
    if body.spec_constant("GM"@) is Some {
        body.name@ + " J2000"@
    } else {
        "Sun J2000"@
    }
}

/// The frame made for a body that is met at `path` and becomes child `pos` of
/// the root.
///
/// With a gravitational parameter the body is oblate with what the store
/// says of its shape. Where the store is silent, the Moon gets a flattening
/// and an equatorial radius of its own and any other body gets zero; the
/// semi-major radius is the equatorial radius, but the body called
/// `Earth Barycenter` gets the one of the Earth when the store gives a radius.
/// The Sun without a gravitational parameter gets the constants of the Sun.
pub open spec fn default_frame(body: Ephemeris, path: PathSlots, pos: usize) -> Frame {
    let frame_path = PathSlots { first: Some(pos), second: None, third: None };
    match body.spec_constant("GM"@) {
        Some(gm) => {
            let moon = body.name@ == "Moon"@;
            let flattening = match body.spec_constant("Flattening"@) {
                Some(value) => value,
                None => if moon {
                    Scalar { bits: MOON_FLATTENING_BITS }
                } else {
                    Scalar { bits: 0 }
                },
            };
            let equatorial_radius = match body.spec_constant("Equatorial radius"@) {
                Some(value) => value,
                None => if moon {
                    Scalar { bits: MOON_RADIUS_BITS }
                } else {
                    Scalar { bits: 0 }
                },
            };
            let semi_major_radius = match body.spec_constant("Equatorial radius"@) {
                Some(value) => if body.name@ == "Earth Barycenter"@ {
                    Scalar { bits: EARTH_SEMI_MAJOR_BITS }
                } else {
                    value
                },
                None => equatorial_radius,
            };
            Frame::Geoid {
                axb_id: 0,
                exb_id: 0,
                gm,
                parent_axb_id: None,
                parent_exb_id: None,
                flattening,
                equatorial_radius,
                semi_major_radius,
                ephem_path: path,
                frame_path,
            }
        },
        None => Frame::Geoid {
            axb_id: 0,
            exb_id: 0,
            gm: Scalar { bits: SUN_GM_BITS },
            parent_axb_id: None,
            parent_exb_id: None,
            flattening: Scalar { bits: 0 },
            equatorial_radius: Scalar { bits: SUN_RADIUS_BITS },
            semi_major_radius: Scalar { bits: SUN_RADIUS_BITS },
            ephem_path: path,
            frame_path,
        },
    }
}

/// `node` is the frame made for the candidate `c` as child `pos` of the root:
/// a leaf with the axes of the root.
pub open spec fn planted(node: FrameTree, c: Candidate, pos: usize) -> bool {
    &&& node.name@ == default_name(c.body)
    &&& node.frame == default_frame(c.body, c.path, pos)
    &&& node.parent_rotation is None
    &&& node.children@.len() == 0
}

/// The first `upto` children of the body at index `i` of the root, in order.
pub open spec fn second_level(i: usize, children: Seq<Ephemeris>, upto: nat) -> Seq<Candidate>
    decreases upto,
{
    if upto == 0 || upto > children.len() {
        Seq::empty()
    } else {
        second_level(i, children, (upto - 1) as nat).push(
            Candidate {
                path: PathSlots {
                    first: Some(i),
                    second: Some((upto - 1) as usize),
                    third: None,
                },
                body: children[upto - 1],
            },
        )
    }
}

/// The first `upto` children of the root, each followed by its own children.
pub open spec fn first_level(children: Seq<Ephemeris>, upto: nat) -> Seq<Candidate>
    decreases upto,
{
    if upto == 0 || upto > children.len() {
        Seq::empty()
    } else {
        first_level(children, (upto - 1) as nat).push(
            Candidate {
                path: PathSlots { first: Some((upto - 1) as usize), second: None, third: None },
                body: children[upto - 1],
            },
        ) + second_level(
            (upto - 1) as usize,
            children[upto - 1].children@,
            children[upto - 1].children@.len(),
        )
    }
}

/// Those of the candidates that get a frame, in order.
pub open spec fn accepted(candidates: Seq<Candidate>) -> Seq<Candidate>
    decreases candidates.len(),
{
    if candidates.len() == 0 {
        Seq::empty()
    } else if has_default_frame(candidates.last().body) {
        accepted(candidates.drop_last()).push(candidates.last())
    } else {
        accepted(candidates.drop_last())
    }
}

/// The bodies of a store that get a frame, in the order in which the frames
/// are made.
pub open spec fn framed_bodies(xb: Xb) -> Seq<Candidate> {
    match xb.ephemeris_root {
        Some(root) => accepted(first_level(root.children@, root.children@.len())),
        None => Seq::empty(),
    }
}

impl Cosm {
    /// Makes the frame of the body `e`, which is met at `ephem_path` and
    /// becomes child `pos` of the root, if the body gets one.
    pub fn default_frame_value(e: &Ephemeris, ephem_path: PathSlots, pos: usize) -> (r: Option<
        FrameTree,
    >)
        ensures
            r is Some <==> has_default_frame(*e),
            r matches Some(node) ==> planted(node, Candidate { path: ephem_path, body: *e }, pos),
    {
        let frame_path = PathSlots { first: Some(pos), second: None, third: None };
        match e.constant("GM") {
            Some(gm) => {
                let moon = str_eq(e.name.as_str(), "Moon");
                let flattening = match e.constant("Flattening") {
                    Some(value) => value,
                    None => if moon {
                        Scalar { bits: MOON_FLATTENING_BITS }
                    } else {
                        Scalar { bits: 0 }
                    },
                };
                let equatorial_radius = match e.constant("Equatorial radius") {
                    Some(value) => value,
                    None => if moon {
                        Scalar { bits: MOON_RADIUS_BITS }
                    } else {
                        Scalar { bits: 0 }
                    },
                };
                let semi_major_radius = match e.constant("Equatorial radius") {
                    Some(value) => if str_eq(e.name.as_str(), "Earth Barycenter") {
                        Scalar { bits: EARTH_SEMI_MAJOR_BITS }
                    } else {
                        value
                    },
                    None => equatorial_radius,
                };
                Some(
                    FrameTree {
                        name: e.name.clone().concat(" J2000"),
                        frame: Frame::Geoid {
                            axb_id: 0,
                            exb_id: 0,
                            gm,
                            parent_axb_id: None,
                            parent_exb_id: None,
                            flattening,
                            equatorial_radius,
                            semi_major_radius,
                            ephem_path,
                            frame_path,
                        },
                        parent_rotation: None,
                        children: Vec::new(),
                    },
                )
            },
            None => {
                if str_eq(to_lowercase(e.name.as_str()).as_str(), "sun") {
                    Some(
                        FrameTree {
                            name: "Sun J2000".to_string(),
                            frame: Frame::Geoid {
                                axb_id: 0,
                                exb_id: 0,
                                gm: Scalar { bits: SUN_GM_BITS },
                                parent_axb_id: None,
                                parent_exb_id: None,
                                flattening: Scalar { bits: 0 },
                                equatorial_radius: Scalar { bits: SUN_RADIUS_BITS },
                                semi_major_radius: Scalar { bits: SUN_RADIUS_BITS },
                                ephem_path,
                                frame_path,
                            },
                            parent_rotation: None,
                            children: Vec::new(),
                        },
                    )
                } else {
                    None
                }
            },
        }
    }

    /// After the walk of the store: the tree has, behind the `kept` children
    /// that it had, one leaf for each body that gets a frame, and the table
    /// has, behind the `links` entries that it had, the entry of the root and
    /// one entry for each of those bodies.
    pub open spec fn grown_by(
        self,
        before: Cosm,
        bodies: Seq<Candidate>,
        kept: nat,
        links: nat,
    ) -> bool {
        &&& self.frame_root.name == before.frame_root.name
        &&& self.frame_root.frame == before.frame_root.frame
        &&& self.frame_root.parent_rotation == before.frame_root.parent_rotation
        &&& self.frame_root.children@.len() == kept + bodies.len()
        &&& forall|t: int|
            0 <= t < kept ==> self.frame_root.children@[t] == before.frame_root.children@[t]
        &&& forall|t: int|
            0 <= t < bodies.len() ==> planted(
                #[trigger] self.frame_root.children@[kept + t],
                bodies[t],
                (kept + t) as usize,
            )
        &&& self.ephem2frame_map@.len() == links + 1 + bodies.len()
        &&& forall|t: int|
            0 <= t < links ==> self.ephem2frame_map@[t] == before.ephem2frame_map@[t]
        &&& self.ephem2frame_map@[links as int].ephem@ == Seq::<usize>::empty()
        &&& self.ephem2frame_map@[links as int].frame@ == Seq::<usize>::empty()
        &&& forall|t: int|
            0 <= t < bodies.len() ==> {
                &&& (#[trigger] self.ephem2frame_map@[links + 1 + t]).ephem@ == bodies[t].path@
                &&& self.ephem2frame_map@[links + 1 + t].frame@ == seq![(kept + t) as usize]
            }
    }

    /// Walks the store and makes the frames of its bodies: for each child of
    /// the root its frame, then the frames of its own children. Every frame
    /// becomes a child of the root of the frame tree, and the table records
    /// for each body where its frame is; the root of the store is linked to
    /// the root of the tree. The store must have a root.
    pub fn append_xb(&mut self)
        requires
            old(self).xb.ephemeris_root is Some,
        ensures
            final(self).xb == old(self).xb,
            final(self).grown_by(
                *old(self),
                framed_bodies(old(self).xb),
                old(self).frame_root.children@.len(),
                old(self).ephem2frame_map@.len(),
            ),
            old(self).wf() ==> final(self).wf(),
    {
        let ghost kept = self.frame_root.children@.len();
        let ghost links = self.ephem2frame_map@.len();
        self.ephem2frame_map.push(PathLink { ephem: Vec::new(), frame: Vec::new() });
        let root = match &self.xb.ephemeris_root {
            Some(root) => root,
            None => {
                return ;
            },
        };
        let ghost all = root.children@;
        let mut i: usize = 0;
        while i < root.children.len()
            invariant
                i <= all.len(),
                all == root.children@,
                self.xb == old(self).xb,
                self.xb.ephemeris_root == Some(*root),
                self.grown_by(*old(self), accepted(first_level(all, i as nat)), kept, links),
                kept == old(self).frame_root.children@.len(),
                links == old(self).ephem2frame_map@.len(),
            decreases all.len() - i,
        {
            let child = &root.children[i];
            let ghost base = first_level(all, i as nat);
            let ghost own = Candidate {
                path: PathSlots { first: Some(i), second: None, third: None },
                body: *child,
            };
            let ghost with_own = base.push(own);
            proof {
                assert(with_own.drop_last() =~= base);
            }
            let pos = self.frame_root.children.len();
            if let Some(frame) = Self::default_frame_value(
                child,
                PathSlots { first: Some(i), second: None, third: None },
                pos,
            ) {
                self.frame_root.children.push(frame);
                let mut frame_path: Vec<usize> = Vec::new();
                frame_path.push(pos);
                let mut ephem: Vec<usize> = Vec::new();
                ephem.push(i);
                assert(ephem@ =~= own.path@);
                self.ephem2frame_map.push(PathLink { ephem, frame: frame_path });
            }
            assert(with_own + second_level(i, child.children@, 0) =~= with_own);
            let mut j: usize = 0;
            while j < child.children.len()
                invariant
                    j <= child.children@.len(),
                    i < all.len(),
                    all == root.children@,
                    *child == all[i as int],
                    self.xb == old(self).xb,
                    self.xb.ephemeris_root == Some(*root),
                    with_own == first_level(all, i as nat).push(own),
                    own == (Candidate {
                        path: PathSlots { first: Some(i), second: None, third: None },
                        body: *child,
                    }),
                    self.grown_by(
                        *old(self),
                        accepted(with_own + second_level(i, child.children@, j as nat)),
                        kept,
                        links,
                    ),
                    kept == old(self).frame_root.children@.len(),
                    links == old(self).ephem2frame_map@.len(),
                decreases child.children@.len() - j,
            {
                let next_child = &child.children[j];
                let ghost so_far = with_own + second_level(i, child.children@, j as nat);
                let ghost cand = Candidate {
                    path: PathSlots { first: Some(i), second: Some(j), third: None },
                    body: *next_child,
                };
                proof {
                    assert(with_own + second_level(i, child.children@, (j + 1) as nat)
                        =~= so_far.push(cand));
                    assert(so_far.push(cand).drop_last() =~= so_far);
                }
                let pos = self.frame_root.children.len();
                if let Some(frame) = Self::default_frame_value(
                    next_child,
                    PathSlots { first: Some(i), second: Some(j), third: None },
                    pos,
                ) {
                    self.frame_root.children.push(frame);
                    let mut frame_path: Vec<usize> = Vec::new();
                    frame_path.push(pos);
                    let mut ephem: Vec<usize> = Vec::new();
                    ephem.push(i);
                    ephem.push(j);
                    assert(ephem@ =~= cand.path@);
                    self.ephem2frame_map.push(PathLink { ephem, frame: frame_path });
                }
                j += 1;
            }
            i += 1;
        }
        proof {
            if old(self).wf() {
                lemma_grown_wf(*old(self), *self, framed_bodies(old(self).xb));
            }
        }
    }

    /// These are the frames of the store `xb` and nothing else: the root
    /// frame of the solar-system barycenter, called `SSB J2000`, and below it
    /// one frame for each body that gets one, in the order of the store; and
    /// the table leads from the root of the store to the root frame and from
    /// each of those bodies to its frame.
    pub open spec fn built_from(self, xb: Xb) -> bool {
        &&& self.wf()
        &&& self.xb == xb
        &&& self.frame_root.name@ == "SSB J2000"@
        &&& self.frame_root.frame == Self::root_frame()
        &&& self.frame_root.parent_rotation is None
        &&& self.frame_root.children@.len() == framed_bodies(xb).len()
        &&& forall|t: int|
            0 <= t < framed_bodies(xb).len() ==> planted(
                #[trigger] self.frame_root.children@[t],
                framed_bodies(xb)[t],
                t as usize,
            )
        &&& self.ephem2frame_map@.len() == 1 + framed_bodies(xb).len()
        &&& self.ephem2frame_map@[0].ephem@ == Seq::<usize>::empty()
        &&& self.ephem2frame_map@[0].frame@ == Seq::<usize>::empty()
        &&& forall|t: int|
            0 <= t < framed_bodies(xb).len() ==> {
                &&& (#[trigger] self.ephem2frame_map@[1 + t]).ephem@ == framed_bodies(xb)[t].path@
                &&& self.ephem2frame_map@[1 + t].frame@ == seq![t as usize]
            }
    }

    /// Builds the frames of a store: the root frame of the solar-system
    /// barycenter, called `SSB J2000`, and below it one frame for each body
    /// that gets one.
    ///
    /// Fails with `ObjectNotFound` when the store has no root.
    pub fn try_from_bodies(xb: Xb) -> (r: Result<Cosm, NyxError>)
        ensures
            r is Ok <==> xb.ephemeris_root is Some,
            r matches Err(e) ==> e matches NyxError::ObjectNotFound(m) && m@
                == "no ephemeris root"@,
            r matches Ok(cosm) ==> cosm.built_from(xb),
    {
        if xb.ephemeris_root.is_none() {
            return Err(NyxError::ObjectNotFound("no ephemeris root".to_string()));
        }
        let mut cosm = Cosm {
            xb,
            frame_root: FrameTree {
                name: "SSB J2000".to_string(),
                frame: Frame::Celestial {
                    axb_id: 0,
                    exb_id: 0,
                    gm: Scalar { bits: SSB_GM_BITS },
                    parent_axb_id: None,
                    parent_exb_id: None,
                    ephem_path: PathSlots { first: None, second: None, third: None },
                    frame_path: PathSlots { first: None, second: None, third: None },
                },
                parent_rotation: None,
                children: Vec::new(),
            },
            ephem2frame_map: Vec::new(),
        };
        let ghost before = cosm;
        proof {
            assert forall|q: Seq<usize>| before.frame_root.node_at(q) is Some implies (
            #[trigger] before.frame_root.node_at(q))->0.frame.frame_slots()@ == Seq::<
                usize,
            >::empty() + q by {
                assert(q.len() == 0);
                assert(before.frame_root.frame.frame_slots()@ =~= Seq::<usize>::empty() + q);
            }
            assert(before.wf());
        }
        cosm.append_xb();
        proof {
            let bodies = framed_bodies(xb);
            assert(cosm.grown_by(before, bodies, 0, 0));
            assert forall|t: int| 0 <= t < bodies.len() implies planted(
                #[trigger] cosm.frame_root.children@[t],
                bodies[t],
                t as usize,
            ) by {
                assert(planted(cosm.frame_root.children@[0 + t], bodies[t], (0 + t) as usize));
            }
            assert forall|t: int| 0 <= t < bodies.len() implies {
                &&& (#[trigger] cosm.ephem2frame_map@[1 + t]).ephem@ == bodies[t].path@
                &&& cosm.ephem2frame_map@[1 + t].frame@ == seq![t as usize]
            } by {
                assert(cosm.ephem2frame_map@[0 + 1 + t].ephem@ == bodies[t].path@);
            }
        }
        Ok(cosm)
    }

    /// The frame of the solar-system barycenter, the root of every tree.
    pub open spec fn root_frame() -> Frame {
        Frame::Celestial {
            axb_id: 0,
            exb_id: 0,
            gm: Scalar { bits: SSB_GM_BITS },
            parent_axb_id: None,
            parent_exb_id: None,
            ephem_path: PathSlots { first: None, second: None, third: None },
            frame_path: PathSlots { first: None, second: None, third: None },
        }
    }
}

} // verus!
