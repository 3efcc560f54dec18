//! The closed set of skeletal landmarks and their dense indices.

use vstd::prelude::*;

verus! {

/// How many landmarks there are.
pub const LANDMARK_COUNT: usize = 25;

/// A named point of the skeleton. The order of declaration is the order of
/// the indices, and tables are laid out by it.
#[derive(Clone, Copy, Debug, PartialEq, Eq, Hash, Structural)]
pub enum Landmark {
    Hmd,
    HeadCenter,
    NeckRoot,
    Torso,
    Pelvis,
    Base,
    BalancePoint,
    LeftAim,
    LeftGrip,
    LeftPalm,
    LeftWrist,
    LeftLowerArm,
    LeftUpperArm,
    LeftUpperLeg,
    LeftLowerLeg,
    LeftFoot,
    RightAim,
    RightGrip,
    RightPalm,
    RightWrist,
    RightLowerArm,
    RightUpperArm,
    RightUpperLeg,
    RightLowerLeg,
    RightFoot,
}

/// The marker that shows a landmark in a scene.
#[derive(Clone, Copy, Debug, PartialEq, Eq, Hash, Structural)]
pub enum MarkerModel {
    Axes,
    SmallAxes,
    TinyAxes,
    CrossAxes,
    DiscXZ,
}

impl MarkerModel {
    /// The name of the marker's model, as text.
    pub open spec fn name_text(self) -> Seq<char> {
        match self {
            MarkerModel::Axes => "Axes"@,
            MarkerModel::SmallAxes => "SmallAxes"@,
            MarkerModel::TinyAxes => "TinyAxes"@,
            MarkerModel::CrossAxes => "CrossAxes"@,
            MarkerModel::DiscXZ => "DiscXZ"@,
        }
    }

    /// The name under which the marker's model is found.
    pub fn name(self) -> (s: &'static str)
        ensures
            s@ == self.name_text(),
    {
        match self {
            MarkerModel::Axes => "Axes",
            MarkerModel::SmallAxes => "SmallAxes",
            MarkerModel::TinyAxes => "TinyAxes",
            MarkerModel::CrossAxes => "CrossAxes",
            MarkerModel::DiscXZ => "DiscXZ",
        }
    }
}

impl Landmark {
    /// The marker of the landmark: large axes for the headset and the base,
    /// tiny ones for the aims, crossed ones for the wrists, a disc for the
    /// feet, and small axes for everything else.
    pub open spec fn marker_of(self) -> MarkerModel {
        match self {
            Landmark::Hmd | Landmark::Base => MarkerModel::Axes,
            Landmark::LeftAim | Landmark::RightAim => MarkerModel::TinyAxes,
            Landmark::LeftWrist | Landmark::RightWrist => MarkerModel::CrossAxes,
            Landmark::LeftFoot | Landmark::RightFoot => MarkerModel::DiscXZ,
            _ => MarkerModel::SmallAxes,
        }
    }

    /// The marker of the landmark.
    pub fn marker(self) -> (m: MarkerModel)
        ensures
            m == self.marker_of(),
    {
        match self {
            Landmark::Hmd | Landmark::Base => MarkerModel::Axes,
            Landmark::LeftAim | Landmark::RightAim => MarkerModel::TinyAxes,
            Landmark::LeftWrist | Landmark::RightWrist => MarkerModel::CrossAxes,
            Landmark::LeftFoot | Landmark::RightFoot => MarkerModel::DiscXZ,
            _ => MarkerModel::SmallAxes,
        }
    }

    /// Position of the landmark in the order of declaration.
    pub open spec fn ordinal(self) -> int {
        match self {
            Landmark::Hmd => 0,
            Landmark::HeadCenter => 1,
            Landmark::NeckRoot => 2,
            Landmark::Torso => 3,
            Landmark::Pelvis => 4,
            Landmark::Base => 5,
            Landmark::BalancePoint => 6,
            Landmark::LeftAim => 7,
            Landmark::LeftGrip => 8,
            Landmark::LeftPalm => 9,
            Landmark::LeftWrist => 10,
            Landmark::LeftLowerArm => 11,
            Landmark::LeftUpperArm => 12,
            Landmark::LeftUpperLeg => 13,
            Landmark::LeftLowerLeg => 14,
            Landmark::LeftFoot => 15,
            Landmark::RightAim => 16,
            Landmark::RightGrip => 17,
            Landmark::RightPalm => 18,
            Landmark::RightWrist => 19,
            Landmark::RightLowerArm => 20,
            Landmark::RightUpperArm => 21,
            Landmark::RightUpperLeg => 22,
            Landmark::RightLowerLeg => 23,
            Landmark::RightFoot => 24,
        }
    }

    /// The landmark is dictated by tracking or by the locomotion state, not
    /// found by relaxation.
    pub open spec fn driven(self) -> bool {
        match self {
            Landmark::Torso
            | Landmark::Pelvis
            | Landmark::LeftLowerArm
            | Landmark::LeftUpperArm
            | Landmark::LeftUpperLeg
            | Landmark::LeftLowerLeg
            | Landmark::RightLowerArm
            | Landmark::RightUpperArm
            | Landmark::RightUpperLeg
            | Landmark::RightLowerLeg => false,
            _ => true,
        }
    }

    /// Index of the landmark in a table.
    pub fn index(self) -> (i: usize)
        ensures
            i == self.ordinal(),
            i < LANDMARK_COUNT,
    {
        match self {
            Landmark::Hmd => 0,
            Landmark::HeadCenter => 1,
            Landmark::NeckRoot => 2,
            Landmark::Torso => 3,
            Landmark::Pelvis => 4,
            Landmark::Base => 5,
            Landmark::BalancePoint => 6,
            Landmark::LeftAim => 7,
            Landmark::LeftGrip => 8,
            Landmark::LeftPalm => 9,
            Landmark::LeftWrist => 10,
            Landmark::LeftLowerArm => 11,
            Landmark::LeftUpperArm => 12,
            Landmark::LeftUpperLeg => 13,
            Landmark::LeftLowerLeg => 14,
            Landmark::LeftFoot => 15,
            Landmark::RightAim => 16,
            Landmark::RightGrip => 17,
            Landmark::RightPalm => 18,
            Landmark::RightWrist => 19,
            Landmark::RightLowerArm => 20,
            Landmark::RightUpperArm => 21,
            Landmark::RightUpperLeg => 22,
            Landmark::RightLowerLeg => 23,
            Landmark::RightFoot => 24,
        }
    }

    /// The landmark with the given index, if there is one.
    pub fn from_index(i: usize) -> (l: Option<Landmark>)
        ensures
            l is Some <==> i < LANDMARK_COUNT,
            l is Some ==> l->0.ordinal() == i,
    {
        match i {
            0 => Some(Landmark::Hmd),
            1 => Some(Landmark::HeadCenter),
            2 => Some(Landmark::NeckRoot),
            3 => Some(Landmark::Torso),
            4 => Some(Landmark::Pelvis),
            5 => Some(Landmark::Base),
            6 => Some(Landmark::BalancePoint),
            7 => Some(Landmark::LeftAim),
            8 => Some(Landmark::LeftGrip),
            9 => Some(Landmark::LeftPalm),
            10 => Some(Landmark::LeftWrist),
            11 => Some(Landmark::LeftLowerArm),
            12 => Some(Landmark::LeftUpperArm),
            13 => Some(Landmark::LeftUpperLeg),
            14 => Some(Landmark::LeftLowerLeg),
            15 => Some(Landmark::LeftFoot),
            16 => Some(Landmark::RightAim),
            17 => Some(Landmark::RightGrip),
            18 => Some(Landmark::RightPalm),
            19 => Some(Landmark::RightWrist),
            20 => Some(Landmark::RightLowerArm),
            21 => Some(Landmark::RightUpperArm),
            22 => Some(Landmark::RightUpperLeg),
            23 => Some(Landmark::RightLowerLeg),
            24 => Some(Landmark::RightFoot),
            _ => None,
        }
    }

    /// Tells whether the landmark is driven.
    pub fn is_driven(self) -> (b: bool)
        ensures
            b == self.driven(),
    {
        match self {
            Landmark::Torso
            | Landmark::Pelvis
            | Landmark::LeftLowerArm
            | Landmark::LeftUpperArm
            | Landmark::LeftUpperLeg
            | Landmark::LeftLowerLeg
            | Landmark::RightLowerArm
            | Landmark::RightUpperArm
            | Landmark::RightUpperLeg
            | Landmark::RightLowerLeg => false,
            _ => true,
        }
    }
}

/// Two landmarks with one index are one landmark, and every index below the
/// count belongs to a landmark.
pub proof fn lemma_index_is_dense(a: Landmark, b: Landmark)
    ensures
        0 <= a.ordinal() < LANDMARK_COUNT,
        a.ordinal() == b.ordinal() ==> a == b,
{
}

} // verus!
