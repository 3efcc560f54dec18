use hotham_xpbd::asteroid::Asteroid;
use hotham_xpbd::landmark::{Landmark, MarkerModel, LANDMARK_COUNT};

#[test]
fn there_are_twenty_five_landmarks() {
    assert_eq!(LANDMARK_COUNT, 25);
    for i in 0..LANDMARK_COUNT {
        assert_eq!(Landmark::from_index(i).unwrap().index(), i);
    }
    assert_eq!(Landmark::from_index(25), None);
    assert_eq!(Landmark::from_index(usize::MAX), None);
}

#[test]
fn indices_follow_the_order_of_declaration() {
    assert_eq!(Landmark::Hmd.index(), 0);
    assert_eq!(Landmark::HeadCenter.index(), 1);
    assert_eq!(Landmark::NeckRoot.index(), 2);
    assert_eq!(Landmark::Torso.index(), 3);
    assert_eq!(Landmark::Pelvis.index(), 4);
    assert_eq!(Landmark::Base.index(), 5);
    assert_eq!(Landmark::BalancePoint.index(), 6);
    assert_eq!(Landmark::LeftAim.index(), 7);
    assert_eq!(Landmark::LeftFoot.index(), 15);
    assert_eq!(Landmark::RightAim.index(), 16);
    assert_eq!(Landmark::RightFoot.index(), 24);
}

#[test]
fn fifteen_landmarks_are_driven() {
    let free = [
        Landmark::Torso,
        Landmark::Pelvis,
        Landmark::LeftLowerArm,
        Landmark::LeftUpperArm,
        Landmark::LeftUpperLeg,
        Landmark::LeftLowerLeg,
        Landmark::RightLowerArm,
        Landmark::RightUpperArm,
        Landmark::RightUpperLeg,
        Landmark::RightLowerLeg,
    ];
    let mut driven = 0;
    for i in 0..LANDMARK_COUNT {
        let l = Landmark::from_index(i).unwrap();
        assert_eq!(l.is_driven(), !free.contains(&l));
        if l.is_driven() {
            driven += 1;
        }
    }
    assert_eq!(driven, 15);
}

#[test]
fn a_new_asteroid_is_the_asteroid() {
    assert_eq!(Asteroid::new(), Asteroid {});
}

#[test]
fn markers_have_the_names_of_their_models() {
    assert_eq!(MarkerModel::Axes.name(), "Axes");
    assert_eq!(MarkerModel::SmallAxes.name(), "SmallAxes");
    assert_eq!(MarkerModel::TinyAxes.name(), "TinyAxes");
    assert_eq!(MarkerModel::CrossAxes.name(), "CrossAxes");
    assert_eq!(MarkerModel::DiscXZ.name(), "DiscXZ");
}

#[test]
fn every_landmark_has_its_marker() {
    assert_eq!(Landmark::Hmd.marker(), MarkerModel::Axes);
    assert_eq!(Landmark::Base.marker(), MarkerModel::Axes);
    assert_eq!(Landmark::HeadCenter.marker(), MarkerModel::SmallAxes);
    assert_eq!(Landmark::NeckRoot.marker(), MarkerModel::SmallAxes);
    assert_eq!(Landmark::BalancePoint.marker(), MarkerModel::SmallAxes);
    assert_eq!(Landmark::LeftGrip.marker(), MarkerModel::SmallAxes);
    assert_eq!(Landmark::RightGrip.marker(), MarkerModel::SmallAxes);
    assert_eq!(Landmark::LeftAim.marker(), MarkerModel::TinyAxes);
    assert_eq!(Landmark::RightAim.marker(), MarkerModel::TinyAxes);
    assert_eq!(Landmark::LeftPalm.marker(), MarkerModel::SmallAxes);
    assert_eq!(Landmark::RightPalm.marker(), MarkerModel::SmallAxes);
    assert_eq!(Landmark::LeftWrist.marker(), MarkerModel::CrossAxes);
    assert_eq!(Landmark::RightWrist.marker(), MarkerModel::CrossAxes);
    assert_eq!(Landmark::LeftFoot.marker(), MarkerModel::DiscXZ);
    assert_eq!(Landmark::RightFoot.marker(), MarkerModel::DiscXZ);
    assert_eq!(Landmark::Torso.marker(), MarkerModel::SmallAxes);
    assert_eq!(Landmark::Pelvis.marker(), MarkerModel::SmallAxes);
    assert_eq!(Landmark::LeftUpperLeg.marker(), MarkerModel::SmallAxes);
    assert_eq!(Landmark::RightLowerArm.marker(), MarkerModel::SmallAxes);
}
