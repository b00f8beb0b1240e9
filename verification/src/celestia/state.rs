use vstd::prelude::*;
use crate::celestia::frames::Frame;
use crate::celestia::xb::Segment;
use crate::scalar::Scalar;
use crate::time::{Duration, Epoch, TimeTagged};

verus! {

/// A Cartesian state: position and velocity at an epoch, in a frame.
#[derive(Clone, Copy, Debug, PartialEq, Eq, Structural)]
pub struct Orbit {
    pub x: Scalar,
    pub y: Scalar,
    pub z: Scalar,
    pub vx: Scalar,
    pub vy: Scalar,
    pub vz: Scalar,
    pub dt: Epoch,
    pub frame: Frame,
}

impl Orbit {
    /// The state with these components.
    pub fn cartesian(
        x: Scalar,
        y: Scalar,
        z: Scalar,
        vx: Scalar,
        vy: Scalar,
        vz: Scalar,
        dt: Epoch,
        frame: Frame,
    ) -> (o: Orbit)
        ensures
            o == (Orbit { x, y, z, vx, vy, vz, dt, frame }),
    {
        Orbit { x, y, z, vx, vy, vz, dt, frame }
    }

    /// Two states can be added or subtracted only when they are in the same
    /// frame.
    pub fn same_frame(&self, other: &Orbit) -> (r: bool)
        ensures
            r == (self.frame == other.frame),
    {
        self.frame == other.frame
    }
}

impl TimeTagged for Orbit {
    open spec fn tagged_epoch(&self) -> Epoch {
        self.dt
    }

    fn epoch(&self) -> (e: Epoch) {
        self.dt
    }

    fn set_epoch(&mut self, epoch: Epoch) {
        self.dt = epoch;
    }
}

/// Where the state of a body at an epoch is to be read: the frame in which it
/// is stored, and the window of coefficients with the place of the epoch in
/// it. Without a window the state is zero: the body is the origin itself.
#[derive(Clone, Copy, Debug, PartialEq, Eq, Structural)]
pub struct BodyState {
    pub epoch: Epoch,
    pub frame: Frame,
    pub segment: Option<Segment>,
}

} // verus!
