use vstd::prelude::*;
use crate::scalar::Scalar;

verus! {

/// A path of at most three levels below the root of a tree. The levels that
/// are present, taken in order, are the path.
#[derive(Clone, Copy, Debug, PartialEq, Eq, Structural)]
pub struct PathSlots {
    pub first: Option<usize>,
    pub second: Option<usize>,
    pub third: Option<usize>,
}

impl View for PathSlots {
    type V = Seq<usize>;

    open spec fn view(&self) -> Seq<usize> {
        let a: Seq<usize> = match self.first {
            Some(i) => seq![i],
            None => seq![],
        };
        let b: Seq<usize> = match self.second {
            Some(i) => seq![i],
            None => seq![],
        };
        let c: Seq<usize> = match self.third {
            Some(i) => seq![i],
            None => seq![],
        };
        a + b + c
    }
}

impl PathSlots {
    /// The path of the root: no level is present.
    pub fn root() -> (p: PathSlots)
        ensures
            p@ == Seq::<usize>::empty(),
            p == (PathSlots { first: None, second: None, third: None }),
    {
        PathSlots { first: None, second: None, third: None }
    }

    /// The slots filled from the front with the levels of `path`, or `None`
    /// when `path` has more than three levels.
    pub fn from_path(path: &[usize]) -> (p: Option<PathSlots>)
        ensures
            p is Some <==> path@.len() <= 3,
            p matches Some(s) ==> s@ == path@ && s.packed(),
            p matches Some(s) ==> s == (PathSlots {
                first: if path@.len() > 0 {
                    Some(path@[0])
                } else {
                    None
                },
                second: if path@.len() > 1 {
                    Some(path@[1])
                } else {
                    None
                },
                third: if path@.len() > 2 {
                    Some(path@[2])
                } else {
                    None
                },
            }),
    {
        let n = path.len();
        if n == 0 {
            Some(PathSlots { first: None, second: None, third: None })
        } else if n == 1 {
            let s = PathSlots { first: Some(path[0]), second: None, third: None };
            assert(s@ =~= path@);
            Some(s)
        } else if n == 2 {
            let s = PathSlots { first: Some(path[0]), second: Some(path[1]), third: None };
            assert(s@ =~= path@);
            Some(s)
        } else if n == 3 {
            let s = PathSlots { first: Some(path[0]), second: Some(path[1]), third: Some(path[2]) };
            assert(s@ =~= path@);
            Some(s)
        } else {
            None
        }
    }

    /// No level is present after an absent one.
    pub open spec fn packed(self) -> bool {
        &&& self.first is None ==> self.second is None
        &&& self.second is None ==> self.third is None
    }

    /// The levels that are present, in order.
    pub fn to_vec(&self) -> (v: Vec<usize>)
        ensures
            v@ == self@,
    {
        let mut v: Vec<usize> = Vec::new();
        if let Some(i) = self.first {
            v.push(i);
        }
        if let Some(i) = self.second {
            v.push(i);
        }
        if let Some(i) = self.third {
            v.push(i);
        }
        assert(v@ =~= self@);
        v
    }
}

/// A coordinate frame: a point mass, or an oblate body.
///
/// A frame is a value. It names its place in the ephemeris tree and in the
/// frame tree by path, and carries its physical parameters.
#[derive(Clone, Copy, Debug, PartialEq, Eq, Structural)]
pub enum Frame {
    /// A point mass.
    Celestial {
        axb_id: i32,
        exb_id: i32,
        gm: Scalar,
        parent_axb_id: Option<i32>,
        parent_exb_id: Option<i32>,
        ephem_path: PathSlots,
        frame_path: PathSlots,
    },
    /// An oblate body.
    Geoid {
        axb_id: i32,
        exb_id: i32,
        gm: Scalar,
        parent_axb_id: Option<i32>,
        parent_exb_id: Option<i32>,
        flattening: Scalar,
        equatorial_radius: Scalar,
        semi_major_radius: Scalar,
        ephem_path: PathSlots,
        frame_path: PathSlots,
    },
}

impl Frame {
    /// The slots of the ephemeris path.
    pub open spec fn ephem_slots(self) -> PathSlots {
        match self {
            Frame::Celestial { ephem_path, .. } => ephem_path,
            Frame::Geoid { ephem_path, .. } => ephem_path,
        }
    }

    /// The slots of the frame-tree path.
    pub open spec fn frame_slots(self) -> PathSlots {
        match self {
            Frame::Celestial { frame_path, .. } => frame_path,
            Frame::Geoid { frame_path, .. } => frame_path,
        }
    }

    /// The gravitational parameter.
    pub open spec fn spec_gm(self) -> Scalar {
        match self {
            Frame::Celestial { gm, .. } => gm,
            Frame::Geoid { gm, .. } => gm,
        }
    }

    /// The frame with its gravitational parameter replaced and nothing else
    /// changed.
    pub open spec fn with_gm(self, new_gm: Scalar) -> Frame {
        match self {
            Frame::Celestial {
                axb_id,
                exb_id,
                gm,
                parent_axb_id,
                parent_exb_id,
                ephem_path,
                frame_path,
            } => Frame::Celestial {
                axb_id,
                exb_id,
                gm: new_gm,
                parent_axb_id,
                parent_exb_id,
                ephem_path,
                frame_path,
            },
            Frame::Geoid {
                axb_id,
                exb_id,
                gm,
                parent_axb_id,
                parent_exb_id,
                flattening,
                equatorial_radius,
                semi_major_radius,
                ephem_path,
                frame_path,
            } => Frame::Geoid {
                axb_id,
                exb_id,
                gm: new_gm,
                parent_axb_id,
                parent_exb_id,
                flattening,
                equatorial_radius,
                semi_major_radius,
                ephem_path,
                frame_path,
            },
        }
    }

    /// The frame with both paths replaced and nothing else changed.
    pub open spec fn with_paths(self, ephem: PathSlots, frame: PathSlots) -> Frame {
        match self {
            Frame::Celestial {
                axb_id,
                exb_id,
                gm,
                parent_axb_id,
                parent_exb_id,
                ephem_path,
                frame_path,
            } => Frame::Celestial {
                axb_id,
                exb_id,
                gm,
                parent_axb_id,
                parent_exb_id,
                ephem_path: ephem,
                frame_path: frame,
            },
            Frame::Geoid {
                axb_id,
                exb_id,
                gm,
                parent_axb_id,
                parent_exb_id,
                flattening,
                equatorial_radius,
                semi_major_radius,
                ephem_path,
                frame_path,
            } => Frame::Geoid {
                axb_id,
                exb_id,
                gm,
                parent_axb_id,
                parent_exb_id,
                flattening,
                equatorial_radius,
                semi_major_radius,
                ephem_path: ephem,
                frame_path: frame,
            },
        }
    }

    /// The path of this frame's body in the ephemeris tree.
    pub fn ephem_path(&self) -> (v: Vec<usize>)
        ensures
            v@ == self.ephem_slots()@,
    {
        match self {
            Frame::Celestial { ephem_path, .. } => ephem_path.to_vec(),
            Frame::Geoid { ephem_path, .. } => ephem_path.to_vec(),
        }
    }

    /// The path of this frame in the frame tree.
    pub fn frame_path(&self) -> (v: Vec<usize>)
        ensures
            v@ == self.frame_slots()@,
    {
        match self {
            Frame::Celestial { frame_path, .. } => frame_path.to_vec(),
            Frame::Geoid { frame_path, .. } => frame_path.to_vec(),
        }
    }

    /// The gravitational parameter.
    pub fn gm(&self) -> (g: Scalar)
        ensures
            g == self.spec_gm(),
    {
        match self {
            Frame::Celestial { gm, .. } => *gm,
            Frame::Geoid { gm, .. } => *gm,
        }
    }

    /// Replaces the gravitational parameter.
    pub fn gm_mut(&mut self, new_gm: Scalar)
        ensures
            *final(self) == old(self).with_gm(new_gm),
    {
        match self {
            Frame::Celestial { gm, .. } => {
                *gm = new_gm;
            },
            Frame::Geoid { gm, .. } => {
                *gm = new_gm;
            },
        }
    }

    /// Replaces both paths.
    pub fn set_paths(&mut self, ephem: PathSlots, frame: PathSlots)
        ensures
            *final(self) == old(self).with_paths(ephem, frame),
    {
        match self {
            Frame::Celestial { ephem_path, frame_path, .. } => {
                *ephem_path = ephem;
                *frame_path = frame;
            },
            Frame::Geoid { ephem_path, frame_path, .. } => {
                *ephem_path = ephem;
                *frame_path = frame;
            },
        }
    }

    /// True for an oblate body.
    pub fn is_geoid(&self) -> (r: bool)
        ensures
            r == (*self is Geoid),
    {
        match self {
            Frame::Geoid { .. } => true,
            Frame::Celestial { .. } => false,
        }
    }

    /// The equatorial radius of an oblate body, zero for a point mass.
    pub fn equatorial_radius(&self) -> (r: Scalar)
        ensures
            r == (match *self {
                Frame::Geoid { equatorial_radius, .. } => equatorial_radius,
                Frame::Celestial { .. } => (Scalar { bits: 0 }),
            }),
    {
        match self {
            Frame::Geoid { equatorial_radius, .. } => *equatorial_radius,
            Frame::Celestial { .. } => Scalar::zero(),
        }
    }
}

} // verus!
