//! The Gauss-Seidel solver: a fixed number of passes over the constraints,
//! each pass seeded anew with the driven landmarks.

use crate::constraint::{
    distance_step, project_distance, project_spherical, spherical_step, DistanceConstraint,
    SphericalConstraint,
};
use crate::frame::{Frame, FrameModel};
use crate::landmark::{Landmark, LANDMARK_COUNT};
use crate::pose::{pose_wf, PoseModel, SkeletonPose};
use vstd::prelude::*;

verus! {

/// The frames of the driven landmarks over the integers: what a
/// `DrivenFrames` stands for.
pub struct DrivenModel {
    pub hmd: FrameModel,
    pub head_center: FrameModel,
    pub neck_root: FrameModel,
    pub base: FrameModel,
    pub balance_point: FrameModel,
    pub left_aim: FrameModel,
    pub left_grip: FrameModel,
    pub left_palm: FrameModel,
    pub left_wrist: FrameModel,
    pub left_foot: FrameModel,
    pub right_aim: FrameModel,
    pub right_grip: FrameModel,
    pub right_palm: FrameModel,
    pub right_wrist: FrameModel,
    pub right_foot: FrameModel,
}

impl DrivenModel {
    /// The frame that a landmark is driven to, if it is driven.
    pub open spec fn frame_of(self, l: Landmark) -> Option<FrameModel> {
        match l {
            Landmark::Hmd => Some(self.hmd),
            Landmark::HeadCenter => Some(self.head_center),
            Landmark::NeckRoot => Some(self.neck_root),
            Landmark::Base => Some(self.base),
            Landmark::BalancePoint => Some(self.balance_point),
            Landmark::LeftAim => Some(self.left_aim),
            Landmark::LeftGrip => Some(self.left_grip),
            Landmark::LeftPalm => Some(self.left_palm),
            Landmark::LeftWrist => Some(self.left_wrist),
            Landmark::LeftFoot => Some(self.left_foot),
            Landmark::RightAim => Some(self.right_aim),
            Landmark::RightGrip => Some(self.right_grip),
            Landmark::RightPalm => Some(self.right_palm),
            Landmark::RightWrist => Some(self.right_wrist),
            Landmark::RightFoot => Some(self.right_foot),
            _ => None,
        }
    }

    /// Every driven frame is well formed.
    pub open spec fn wf(self) -> bool {
        forall|l: Landmark| l.driven() ==> (#[trigger] self.frame_of(l))->0.wf()
    }
}

/// The frames that the driven landmarks are held at during one tick.
#[derive(Clone, Copy, Debug, PartialEq, Eq, Structural)]
pub struct DrivenFrames {
    pub hmd: Frame,
    pub head_center: Frame,
    pub neck_root: Frame,
    pub base: Frame,
    pub balance_point: Frame,
    pub left_aim: Frame,
    pub left_grip: Frame,
    pub left_palm: Frame,
    pub left_wrist: Frame,
    pub left_foot: Frame,
    pub right_aim: Frame,
    pub right_grip: Frame,
    pub right_palm: Frame,
    pub right_wrist: Frame,
    pub right_foot: Frame,
}

impl View for DrivenFrames {
    type V = DrivenModel;

    open spec fn view(&self) -> DrivenModel {
        DrivenModel {
            hmd: self.hmd@,
            head_center: self.head_center@,
            neck_root: self.neck_root@,
            base: self.base@,
            balance_point: self.balance_point@,
            left_aim: self.left_aim@,
            left_grip: self.left_grip@,
            left_palm: self.left_palm@,
            left_wrist: self.left_wrist@,
            left_foot: self.left_foot@,
            right_aim: self.right_aim@,
            right_grip: self.right_grip@,
            right_palm: self.right_palm@,
            right_wrist: self.right_wrist@,
            right_foot: self.right_foot@,
        }
    }
}

/// The pose with every driven landmark put at its frame and every other
/// landmark left where it is.
pub open spec fn seeded(pose: PoseModel, d: DrivenModel) -> PoseModel {
    Seq::new(
        LANDMARK_COUNT as nat,
        |i: int|
            if i == Landmark::Hmd.ordinal() {
                d.hmd
            } else if i == Landmark::HeadCenter.ordinal() {
                d.head_center
            } else if i == Landmark::NeckRoot.ordinal() {
                d.neck_root
            } else if i == Landmark::Base.ordinal() {
                d.base
            } else if i == Landmark::BalancePoint.ordinal() {
                d.balance_point
            } else if i == Landmark::LeftAim.ordinal() {
                d.left_aim
            } else if i == Landmark::LeftGrip.ordinal() {
                d.left_grip
            } else if i == Landmark::LeftPalm.ordinal() {
                d.left_palm
            } else if i == Landmark::LeftWrist.ordinal() {
                d.left_wrist
            } else if i == Landmark::LeftFoot.ordinal() {
                d.left_foot
            } else if i == Landmark::RightAim.ordinal() {
                d.right_aim
            } else if i == Landmark::RightGrip.ordinal() {
                d.right_grip
            } else if i == Landmark::RightPalm.ordinal() {
                d.right_palm
            } else if i == Landmark::RightWrist.ordinal() {
                d.right_wrist
            } else if i == Landmark::RightFoot.ordinal() {
                d.right_foot
            } else {
                pose[i]
            },
    )
}

/// The pose after the ball joints `cs` have been projected in their order.
pub open spec fn spherical_pass(pose: PoseModel, cs: Seq<SphericalConstraint>) -> PoseModel
    decreases cs.len(),
{
    if cs.len() == 0 {
        pose
    } else {
        spherical_step(spherical_pass(pose, cs.drop_last()), cs.last()@)
    }
}

/// The pose after the fixed distances `cs` have been projected in their order.
pub open spec fn distance_pass(pose: PoseModel, cs: Seq<DistanceConstraint>) -> PoseModel
    decreases cs.len(),
{
    if cs.len() == 0 {
        pose
    } else {
        distance_step(distance_pass(pose, cs.drop_last()), cs.last()@)
    }
}

/// One pass: the driven landmarks are seeded, then every ball joint is
/// projected, then every fixed distance.
pub open spec fn pass(
    pose: PoseModel,
    d: DrivenModel,
    spherical: Seq<SphericalConstraint>,
    distance: Seq<DistanceConstraint>,
) -> PoseModel {
    distance_pass(spherical_pass(seeded(pose, d), spherical), distance)
}

/// The pose after `n` passes.
pub open spec fn relaxed(
    pose: PoseModel,
    d: DrivenModel,
    spherical: Seq<SphericalConstraint>,
    distance: Seq<DistanceConstraint>,
    n: nat,
) -> PoseModel
    decreases n,
{
    if n == 0 {
        pose
    } else {
        pass(relaxed(pose, d, spherical, distance, (n - 1) as nat), d, spherical, distance)
    }
}

/// The result of the solver: `n` passes, and the driven landmarks seeded
/// once more, so that they end where they are driven to.
pub open spec fn solved(
    pose: PoseModel,
    d: DrivenModel,
    spherical: Seq<SphericalConstraint>,
    distance: Seq<DistanceConstraint>,
    n: nat,
) -> PoseModel {
    seeded(relaxed(pose, d, spherical, distance, n), d)
}

/// Seeding puts each driven landmark at its frame, leaves every other
/// landmark alone, and keeps a pose well formed.
pub proof fn lemma_seeded(pose: PoseModel, d: DrivenModel, l: Landmark)
    requires
        pose.len() == LANDMARK_COUNT,
    ensures
        seeded(pose, d).len() == LANDMARK_COUNT,
        l.driven() ==> d.frame_of(l) == Some(seeded(pose, d)[l.ordinal()]),
        !l.driven() ==> seeded(pose, d)[l.ordinal()] == pose[l.ordinal()],
        pose_wf(pose) && d.wf() ==> pose_wf(seeded(pose, d)),
{
    if pose_wf(pose) && d.wf() {
        assert(d.frame_of(Landmark::Hmd)->0.wf());
        assert(d.frame_of(Landmark::HeadCenter)->0.wf());
        assert(d.frame_of(Landmark::NeckRoot)->0.wf());
        assert(d.frame_of(Landmark::Base)->0.wf());
        assert(d.frame_of(Landmark::BalancePoint)->0.wf());
        assert(d.frame_of(Landmark::LeftAim)->0.wf());
        assert(d.frame_of(Landmark::LeftGrip)->0.wf());
        assert(d.frame_of(Landmark::LeftPalm)->0.wf());
        assert(d.frame_of(Landmark::LeftWrist)->0.wf());
        assert(d.frame_of(Landmark::LeftFoot)->0.wf());
        assert(d.frame_of(Landmark::RightAim)->0.wf());
        assert(d.frame_of(Landmark::RightGrip)->0.wf());
        assert(d.frame_of(Landmark::RightPalm)->0.wf());
        assert(d.frame_of(Landmark::RightWrist)->0.wf());
        assert(d.frame_of(Landmark::RightFoot)->0.wf());
    }
}

impl DrivenFrames {
    /// Every driven frame is well formed.
    pub open spec fn wf(&self) -> bool {
        self@.wf()
    }

    /// Tells whether every driven frame is well formed.
    pub fn is_wf(&self) -> (b: bool)
        ensures
            b == self.wf(),
    {
        let b: bool = self.hmd.is_wf() && self.head_center.is_wf() && self.neck_root.is_wf()
            && self.base.is_wf() && self.balance_point.is_wf() && self.left_aim.is_wf()
            && self.left_grip.is_wf() && self.left_palm.is_wf() && self.left_wrist.is_wf()
            && self.left_foot.is_wf() && self.right_aim.is_wf() && self.right_grip.is_wf()
            && self.right_palm.is_wf() && self.right_wrist.is_wf() && self.right_foot.is_wf();
        proof {
            let d = self@;
            if b {
                assert forall|l: Landmark| l.driven() implies (
                #[trigger] d.frame_of(l))->0.wf() by {}
            } else {
                if d.wf() {
                    assert(d.frame_of(Landmark::Hmd)->0.wf());
                    assert(d.frame_of(Landmark::HeadCenter)->0.wf());
                    assert(d.frame_of(Landmark::NeckRoot)->0.wf());
                    assert(d.frame_of(Landmark::Base)->0.wf());
                    assert(d.frame_of(Landmark::BalancePoint)->0.wf());
                    assert(d.frame_of(Landmark::LeftAim)->0.wf());
                    assert(d.frame_of(Landmark::LeftGrip)->0.wf());
                    assert(d.frame_of(Landmark::LeftPalm)->0.wf());
                    assert(d.frame_of(Landmark::LeftWrist)->0.wf());
                    assert(d.frame_of(Landmark::LeftFoot)->0.wf());
                    assert(d.frame_of(Landmark::RightAim)->0.wf());
                    assert(d.frame_of(Landmark::RightGrip)->0.wf());
                    assert(d.frame_of(Landmark::RightPalm)->0.wf());
                    assert(d.frame_of(Landmark::RightWrist)->0.wf());
                    assert(d.frame_of(Landmark::RightFoot)->0.wf());
                }
            }
        }
        b
    }

    /// Puts every driven landmark of the pose at its frame.
    pub fn seed(&self, pose: &mut SkeletonPose)
        ensures
            final(pose)@ == seeded(old(pose)@, self@),
            old(pose).wf() && self.wf() ==> final(pose).wf(),
    {
        broadcast use SkeletonPose::lemma_view;

        pose.set_frame(Landmark::Hmd, self.hmd);
        pose.set_frame(Landmark::HeadCenter, self.head_center);
        pose.set_frame(Landmark::NeckRoot, self.neck_root);
        pose.set_frame(Landmark::Base, self.base);
        pose.set_frame(Landmark::BalancePoint, self.balance_point);
        pose.set_frame(Landmark::LeftAim, self.left_aim);
        pose.set_frame(Landmark::LeftGrip, self.left_grip);
        pose.set_frame(Landmark::LeftPalm, self.left_palm);
        pose.set_frame(Landmark::LeftWrist, self.left_wrist);
        pose.set_frame(Landmark::LeftFoot, self.left_foot);
        pose.set_frame(Landmark::RightAim, self.right_aim);
        pose.set_frame(Landmark::RightGrip, self.right_grip);
        pose.set_frame(Landmark::RightPalm, self.right_palm);
        pose.set_frame(Landmark::RightWrist, self.right_wrist);
        pose.set_frame(Landmark::RightFoot, self.right_foot);
        proof {
            assert(old(pose).at(Landmark::Hmd)@ == old(pose)@[0]);
            assert(pose@ =~= seeded(old(pose)@, self@));
            lemma_seeded(old(pose)@, self@, Landmark::Hmd);
        }
    }
}

/// Projects every ball joint in its order.
fn run_spherical(pose: &mut SkeletonPose, cs: &Vec<SphericalConstraint>)
    requires
        old(pose).wf(),
        forall|i: int| 0 <= i < cs.len() ==> (#[trigger] cs[i]).wf(),
    ensures
        final(pose)@ == spherical_pass(old(pose)@, cs@),
        final(pose).wf(),
{
    let mut k: usize = 0;
    assert(cs@.take(0) =~= Seq::<SphericalConstraint>::empty());
    while k < cs.len()
        invariant
            k <= cs.len(),
            pose.wf(),
            forall|i: int| 0 <= i < cs.len() ==> (#[trigger] cs[i]).wf(),
            pose@ == spherical_pass(old(pose)@, cs@.take(k as int)),
        decreases cs.len() - k,
    {
        assert(cs@.take(k + 1).drop_last() =~= cs@.take(k as int));
        assert(cs@.take(k + 1).last() == cs[k as int]);
        project_spherical(pose, &cs[k]);
        k = k + 1;
    }
    assert(cs@.take(k as int) =~= cs@);
}

/// Projects every fixed distance in its order.
fn run_distance(pose: &mut SkeletonPose, cs: &Vec<DistanceConstraint>)
    requires
        old(pose).wf(),
        forall|i: int| 0 <= i < cs.len() ==> (#[trigger] cs[i]).wf(),
    ensures
        final(pose)@ == distance_pass(old(pose)@, cs@),
        final(pose).wf(),
{
    let mut k: usize = 0;
    assert(cs@.take(0) =~= Seq::<DistanceConstraint>::empty());
    while k < cs.len()
        invariant
            k <= cs.len(),
            pose.wf(),
            forall|i: int| 0 <= i < cs.len() ==> (#[trigger] cs[i]).wf(),
            pose@ == distance_pass(old(pose)@, cs@.take(k as int)),
        decreases cs.len() - k,
    {
        assert(cs@.take(k + 1).drop_last() =~= cs@.take(k as int));
        assert(cs@.take(k + 1).last() == cs[k as int]);
        project_distance(pose, &cs[k]);
        k = k + 1;
    }
    assert(cs@.take(k as int) =~= cs@);
}

/// Relaxes the pose toward the constraints: `iterations` passes, each seeded
/// with the driven frames, with no test for convergence and no early exit.
/// The pose that comes in is the warm start. In the pose that goes out every
/// orientation is a unit quaternion and every driven landmark is at its frame.
pub fn solve(
    pose: &mut SkeletonPose,
    drivers: &DrivenFrames,
    spherical: &Vec<SphericalConstraint>,
    distance: &Vec<DistanceConstraint>,
    iterations: usize,
)
    requires
        old(pose).wf(),
        drivers.wf(),
        forall|i: int| 0 <= i < spherical.len() ==> (#[trigger] spherical[i]).wf(),
        forall|i: int| 0 <= i < distance.len() ==> (#[trigger] distance[i]).wf(),
    ensures
        final(pose)@ == solved(old(pose)@, drivers@, spherical@, distance@, iterations as nat),
        final(pose).wf(),
        forall|l: Landmark|
            l.driven() ==> drivers@.frame_of(l) == Some(#[trigger] final(pose)@[l.ordinal()]),
{
    let mut n: usize = 0;
    while n < iterations
        invariant
            n <= iterations,
            pose.wf(),
            drivers.wf(),
            forall|i: int| 0 <= i < spherical.len() ==> (#[trigger] spherical[i]).wf(),
            forall|i: int| 0 <= i < distance.len() ==> (#[trigger] distance[i]).wf(),
            pose@ == relaxed(old(pose)@, drivers@, spherical@, distance@, n as nat),
        decreases iterations - n,
    {
        drivers.seed(pose);
        run_spherical(pose, spherical);
        run_distance(pose, distance);
        n = n + 1;
    }
    let ghost before = pose@;
    drivers.seed(pose);
    proof {
        assert forall|l: Landmark| l.driven() implies drivers@.frame_of(l) == Some(
            #[trigger] pose@[l.ordinal()],
        ) by {
            lemma_seeded(before, drivers@, l);
        }
    }
}

} // verus!
