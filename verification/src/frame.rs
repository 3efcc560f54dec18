//! Rigid frames: a position and an orientation.

use crate::fixed::{LIMIT, WIDE};
use crate::quat::{lemma_rotate_bound, Q4, Quat};
use crate::vec3::{Vec3, V3};
use vstd::prelude::*;

verus! {

/// A position and an orientation over the integers: what a `Frame` stands for.
pub struct FrameModel {
    pub position: V3,
    pub orientation: Q4,
}

impl FrameModel {
    /// The position lies in the box of stored coordinates and the orientation
    /// is a unit quaternion.
    pub open spec fn wf(self) -> bool {
        self.position.within(LIMIT as int) && self.orientation.is_unit()
    }

    /// The frame at rest at the origin.
    pub open spec fn identity() -> FrameModel {
        FrameModel { position: V3::zero(), orientation: Q4::identity() }
    }

    /// This frame moved by `local`, a displacement given in the frame's own
    /// axes; the orientation stays.
    pub open spec fn offset(self, local: V3) -> FrameModel {
        FrameModel {
            position: self.position.plus(self.orientation.rotate(local)).confined(),
            orientation: self.orientation,
        }
    }

    /// The point `p`, given in the frame's parent, in the frame's own axes.
    pub open spec fn to_local(self, p: V3) -> V3 {
        self.orientation.conjugate().rotate(p.minus(self.position))
    }
}

/// A rigid frame: where a body is and how it is turned.
#[derive(Clone, Copy, Debug, PartialEq, Eq, Structural)]
pub struct Frame {
    pub position: Vec3,
    pub orientation: Quat,
}

impl View for Frame {
    type V = FrameModel;

    open spec fn view(&self) -> FrameModel {
        FrameModel { position: self.position@, orientation: self.orientation@ }
    }
}

impl Frame {
    /// The position is stored and the orientation is a unit quaternion.
    pub open spec fn wf(self) -> bool {
        self@.wf()
    }

    /// The frame with the given position and orientation.
    pub fn new(position: Vec3, orientation: Quat) -> (f: Frame)
        ensures
            f.position == position,
            f.orientation == orientation,
    {
        Frame { position, orientation }
    }

    /// The frame at rest at the origin.
    pub fn identity() -> (f: Frame)
        ensures
            f@ == FrameModel::identity(),
            f.wf(),
    {
        Frame { position: Vec3::zero(), orientation: Quat::identity() }
    }

    /// Tells whether the frame is well formed.
    pub fn is_wf(&self) -> (b: bool)
        ensures
            b == self.wf(),
    {
        self.position.is_stored() && self.orientation.is_unit()
    }

    /// This frame moved by `local`, a displacement in the frame's own axes.
    pub fn offset(&self, local: Vec3) -> (f: Frame)
        requires
            self.wf(),
            local@.within(WIDE / 4),
        ensures
            f@ == self@.offset(local@),
            f.wf(),
    {
        let r: Vec3 = self.orientation.rotate(local);
        Frame { position: self.position.plus_confined(r), orientation: self.orientation }
    }

    /// The point `p` of the parent, in the frame's own axes.
    pub fn to_local(&self, p: Vec3) -> (r: Vec3)
        requires
            self.wf(),
            p.stored(),
        ensures
            r@ == self@.to_local(p@),
            r@.within(8 * LIMIT),
    {
        let d: Vec3 = p.minus(self.position);
        proof {
            crate::quat::lemma_unit_components(self.orientation@);
        }
        let c: Quat = self.orientation.conjugate();
        proof {
            lemma_rotate_bound(c@, d@, 2 * LIMIT);
        }
        c.rotate(d)
    }
}

} // verus!
