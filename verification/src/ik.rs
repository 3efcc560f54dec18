//! One tick of the inverse kinematics rig: drivers, stance, relaxation.

use crate::constraint::{DistanceConstraint, SphericalConstraint};
use crate::driver::{
    base_frame, base_frame_of, driven_frames, neck_root, neck_root_of, resolve_drivers,
    standing_foot, standing_foot_of, DriverOffsets, TrackingInput,
};
use crate::frame::{Frame, FrameModel};
use crate::landmark::Landmark;
use crate::locomotion::{
    plan_step, planned, LocomotionParams, Stance, StanceModel, WeightDistribution,
};
use crate::pose::SkeletonPose;
use crate::rig::{build_joints, build_links, skeleton_joints, skeleton_links, Anatomy};
use crate::solver::{solve, solved, DrivenFrames, DrivenModel};
use vstd::prelude::*;

verus! {

/// How many passes the solver makes unless it is told otherwise.
pub const STANDARD_ITERATIONS: usize = 10;

/// What the stepping remembers from tick to tick: who carries the weight,
/// and where each foot was sent. Before the first tick no foot has a target.
#[derive(Clone, Copy, Debug, PartialEq, Eq, Structural)]
pub struct LocomotionState {
    pub weight_distribution: WeightDistribution,
    pub left_foot: Option<Frame>,
    pub right_foot: Option<Frame>,
}

impl LocomotionState {
    /// A foot that has a target has a well-formed one.
    pub open spec fn wf(&self) -> bool {
        (self.left_foot is Some ==> self.left_foot->0.wf()) && (self.right_foot is Some
            ==> self.right_foot->0.wf())
    }

    /// The state before the first tick: the weight shared, no foot sent
    /// anywhere.
    pub fn new() -> (s: LocomotionState)
        ensures
            s.wf(),
            s.weight_distribution == WeightDistribution::SharedWeight,
            s.left_foot is None,
            s.right_foot is None,
    {
        LocomotionState {
            weight_distribution: WeightDistribution::SharedWeight,
            left_foot: None,
            right_foot: None,
        }
    }

    /// Tells whether the state is well formed.
    pub fn is_wf(&self) -> (b: bool)
        ensures
            b == self.wf(),
    {
        let l: bool = match self.left_foot {
            Some(f) => f.is_wf(),
            None => true,
        };
        let r: bool = match self.right_foot {
            Some(f) => f.is_wf(),
            None => true,
        };
        l && r
    }
}

/// Everything that lives as long as one skeleton and changes every tick.
pub struct IkState {
    pub locomotion: LocomotionState,
    pub pose: SkeletonPose,
}

impl IkState {
    /// The stepping state and the pose are well formed.
    pub open spec fn wf(&self) -> bool {
        self.locomotion.wf() && self.pose.wf()
    }

    /// Tells whether the state is well formed.
    pub fn is_wf(&self) -> (b: bool)
        ensures
            b == self.wf(),
    {
        self.locomotion.is_wf() && self.pose.is_wf()
    }

    /// The state of a skeleton that has not moved yet.
    pub fn new() -> (s: IkState)
        ensures
            s.wf(),
            s.locomotion.weight_distribution == WeightDistribution::SharedWeight,
            s.locomotion.left_foot is None,
            s.locomotion.right_foot is None,
            forall|i: int| 0 <= i < 25 ==> s.pose@[i] == FrameModel::identity(),
    {
        IkState { locomotion: LocomotionState::new(), pose: SkeletonPose::new() }
    }
}

/// What is fixed when a skeleton is built: its offsets, its tuning, its
/// constraints and the number of solver passes.
pub struct Rig {
    pub offsets: DriverOffsets,
    pub locomotion: LocomotionParams,
    pub spherical: Vec<SphericalConstraint>,
    pub distance: Vec<DistanceConstraint>,
    pub iterations: usize,
}

impl Rig {
    /// The offsets, the tuning and every constraint are well formed.
    pub open spec fn wf(&self) -> bool {
        &&& self.offsets.wf()
        &&& self.locomotion.wf()
        &&& forall|i: int| 0 <= i < self.spherical.len() ==> (#[trigger] self.spherical[i]).wf()
        &&& forall|i: int| 0 <= i < self.distance.len() ==> (#[trigger] self.distance[i]).wf()
    }

    /// Tells whether the rig is well formed.
    pub fn is_wf(&self) -> (b: bool)
        ensures
            b == self.wf(),
    {
        if !self.offsets.is_wf() || !self.locomotion.is_wf() {
            return false;
        }
        let mut i: usize = 0;
        while i < self.spherical.len()
            invariant
                i <= self.spherical.len(),
                forall|j: int| 0 <= j < i ==> (#[trigger] self.spherical[j]).wf(),
            decreases self.spherical.len() - i,
        {
            if !self.spherical[i].is_wf() {
                return false;
            }
            i = i + 1;
        }
        let mut k: usize = 0;
        while k < self.distance.len()
            invariant
                k <= self.distance.len(),
                forall|j: int|
                    0 <= j < self.spherical.len() ==> (#[trigger] self.spherical[j]).wf(),
                forall|j: int| 0 <= j < k ==> (#[trigger] self.distance[j]).wf(),
            decreases self.distance.len() - k,
        {
            if !self.distance[k].is_wf() {
                return false;
            }
            k = k + 1;
        }
        true
    }

    /// Builds the rig of a skeleton from its offsets, its measures and its
    /// tuning: twelve ball joints, two collarbones.
    pub fn build(
        offsets: DriverOffsets,
        anatomy: &Anatomy,
        locomotion: LocomotionParams,
        iterations: usize,
    ) -> (rig: Rig)
        requires
            offsets.wf(),
            anatomy.wf(),
            locomotion.wf(),
        ensures
            rig.wf(),
            rig.offsets == offsets,
            rig.locomotion == locomotion,
            rig.iterations == iterations,
            rig.spherical.len() == 12,
            forall|i: int|
                0 <= i < 12 ==> (#[trigger] rig.spherical[i])@ == skeleton_joints(
                    offsets,
                    *anatomy,
                )[i],
            rig.distance.len() == 2,
            forall|i: int|
                0 <= i < 2 ==> (#[trigger] rig.distance[i])@ == skeleton_links(*anatomy)[i],
    {
        Rig {
            offsets,
            locomotion,
            spherical: build_joints(&offsets, anatomy),
            distance: build_links(anatomy),
            iterations,
        }
    }

    /// The rig of a grown body with the standard tuning and ten passes.
    pub fn standard() -> (rig: Rig)
        ensures
            rig.wf(),
            rig.iterations == STANDARD_ITERATIONS,
            rig.spherical.len() == 12,
            rig.distance.len() == 2,
    {
        Rig::build(
            DriverOffsets::standard(),
            &Anatomy::standard(),
            LocomotionParams::standard(),
            STANDARD_ITERATIONS,
        )
    }
}

/// The base frame of a tick.
pub open spec fn tick_base(input: TrackingInput, offsets: DriverOffsets) -> FrameModel {
    base_frame(neck_root(input.hmd@, offsets))
}

/// The stance that a tick plans: from the feet where the last tick sent
/// them, or, before the first tick, from the feet to the sides of the base
/// origin.
pub open spec fn tick_stance(
    before: LocomotionState,
    input: TrackingInput,
    offsets: DriverOffsets,
    params: LocomotionParams,
) -> StanceModel {
    let base = tick_base(input, offsets);
    planned(
        before.weight_distribution,
        standing_foot(before.left_foot, base, -offsets.stance_half_width),
        standing_foot(before.right_foot, base, offsets.stance_half_width as int),
        base,
        params,
    )
}

/// The driven frames of a tick.
pub open spec fn tick_drivers(
    before: LocomotionState,
    input: TrackingInput,
    offsets: DriverOffsets,
    params: LocomotionParams,
) -> DrivenModel {
    driven_frames(
        input,
        offsets,
        tick_base(input, offsets),
        tick_stance(before, input, offsets, params),
    )
}

/// Advances a skeleton by one tick: finds the driven frames from tracking,
/// plans the stance and remembers it, and relaxes the pose toward the
/// constraints with the driven landmarks held fixed. The feet stand, for
/// this tick and as the start of the next, where the stance sends them.
pub fn tick(state: &mut IkState, input: &TrackingInput, rig: &Rig)
    requires
        old(state).wf(),
        input.wf(),
        rig.wf(),
    ensures
        final(state).wf(),
        ({
            let stance = tick_stance(
                old(state).locomotion,
                *input,
                rig.offsets,
                rig.locomotion,
            );
            &&& final(state).locomotion.weight_distribution == stance.distribution
            &&& final(state).locomotion.left_foot is Some
            &&& final(state).locomotion.left_foot->0@ == stance.left_foot
            &&& final(state).locomotion.right_foot is Some
            &&& final(state).locomotion.right_foot->0@ == stance.right_foot
        }),
        final(state).pose@ == solved(
            old(state).pose@,
            tick_drivers(old(state).locomotion, *input, rig.offsets, rig.locomotion),
            rig.spherical@,
            rig.distance@,
            rig.iterations as nat,
        ),
        forall|l: Landmark|
            l.driven() ==> tick_drivers(
                old(state).locomotion,
                *input,
                rig.offsets,
                rig.locomotion,
            ).frame_of(l) == Some(#[trigger] final(state).pose@[l.ordinal()]),
{
    let neck: Frame = neck_root_of(&input.hmd, &rig.offsets);
    let base: Frame = base_frame_of(&neck);
    let half: i64 = rig.offsets.stance_half_width;
    let left: Frame = standing_foot_of(state.locomotion.left_foot, &base, -half);
    let right: Frame = standing_foot_of(state.locomotion.right_foot, &base, half);
    let stance: Stance = plan_step(
        state.locomotion.weight_distribution,
        &left,
        &right,
        &base,
        &rig.locomotion,
    );
    state.locomotion = LocomotionState {
        weight_distribution: stance.distribution,
        left_foot: Some(stance.left_foot),
        right_foot: Some(stance.right_foot),
    };
    let drivers: DrivenFrames = resolve_drivers(input, &rig.offsets, &base, &stance);
    solve(&mut state.pose, &drivers, &rig.spherical, &rig.distance, rig.iterations);
}

} // verus!
