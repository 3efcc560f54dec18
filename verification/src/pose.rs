//! The pose of a skeleton: one frame for each landmark.

use crate::frame::{Frame, FrameModel};
use crate::landmark::{Landmark, LANDMARK_COUNT};
use vstd::prelude::*;

verus! {

/// The frames of all landmarks, by index: what a `SkeletonPose` stands for.
pub type PoseModel = Seq<FrameModel>;

/// Every landmark has a well-formed frame.
pub open spec fn pose_wf(pose: PoseModel) -> bool {
    pose.len() == LANDMARK_COUNT && forall|i: int|
        0 <= i < LANDMARK_COUNT ==> (#[trigger] pose[i]).wf()
}

/// World position and orientation of every landmark. One instance lives as
/// long as its skeleton and is reused from tick to tick.
pub struct SkeletonPose {
    nodes: [Frame; 25],
}

impl View for SkeletonPose {
    type V = PoseModel;

    closed spec fn view(&self) -> PoseModel {
        Seq::new(LANDMARK_COUNT as nat, |i: int| self.nodes@[i]@)
    }
}

impl SkeletonPose {
    /// Every position is stored and every orientation is a unit quaternion.
    pub open spec fn wf(&self) -> bool {
        pose_wf(self@)
    }

    /// The frame of a landmark.
    pub closed spec fn at(&self, l: Landmark) -> Frame {
        self.nodes@[l.ordinal()]
    }

    /// The view holds the frames that `at` gives.
    pub broadcast proof fn lemma_view(&self, l: Landmark)
        ensures
            self@.len() == LANDMARK_COUNT,
            #[trigger] self.at(l)@ == self@[l.ordinal()],
    {
    }

    /// The pose with every landmark at rest at the origin.
    pub fn new() -> (pose: SkeletonPose)
        ensures
            pose.wf(),
            forall|i: int| 0 <= i < LANDMARK_COUNT ==> pose@[i] == FrameModel::identity(),
    {
        SkeletonPose { nodes: [Frame::identity(); 25] }
    }

    /// Tells whether the pose is well formed.
    pub fn is_wf(&self) -> (b: bool)
        ensures
            b == self.wf(),
    {
        let mut i: usize = 0;
        while i < LANDMARK_COUNT
            invariant
                i <= LANDMARK_COUNT,
                forall|j: int| 0 <= j < i ==> (#[trigger] self@[j]).wf(),
            decreases LANDMARK_COUNT - i,
        {
            let f: Frame = self.nodes[i];
            assert(self@[i as int] == f@);
            if !f.is_wf() {
                return false;
            }
            i = i + 1;
        }
        true
    }

    /// The frame of a landmark.
    pub fn frame(&self, l: Landmark) -> (f: Frame)
        ensures
            f == self.at(l),
            f@ == self@[l.ordinal()],
            self.wf() ==> f.wf(),
    {
        let f: Frame = self.nodes[l.index()];
        assert(self@[l.ordinal()] == f@);
        f
    }

    /// Puts a landmark at a frame and leaves the others where they are.
    pub fn set_frame(&mut self, l: Landmark, f: Frame)
        ensures
            final(self)@ == old(self)@.update(l.ordinal(), f@),
            final(self).at(l) == f,
            old(self).wf() && f.wf() ==> final(self).wf(),
    {
        self.nodes[l.index()] = f;
        assert(self@ =~= old(self)@.update(l.ordinal(), f@));
    }
}

} // verus!
