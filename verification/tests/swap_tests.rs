use geolite::swap::{plan_promotion, promote, FileClass, FsAction, FsModel, GenSlot};

fn with_active(t: u64, d: u64) -> FsModel {
    FsModel {
        marker: GenSlot { active: Some(t), candidate: None, retiring: None },
        db: GenSlot { active: Some(d), candidate: None, retiring: None },
        staging: false,
    }
}

fn install(m: &mut FsModel, t: u64, d: u64) {
    m.marker.candidate = Some(t);
    m.db.candidate = Some(d);
    m.staging = true;
}

fn assert_exactly_one_generation(m: &FsModel, t: u64, d: u64) {
    assert_eq!(m.marker.active, Some(t));
    assert_eq!(m.marker.candidate, None);
    assert_eq!(m.marker.retiring, None);
    assert_eq!(m.db.active, Some(d));
    assert_eq!(m.db.candidate, None);
    assert_eq!(m.db.retiring, None);
    assert!(!m.staging);
}

#[test]
fn promote_replaces_active_generation() {
    let mut m = with_active(100, 7);
    install(&mut m, 200, 8);
    promote(&mut m).unwrap();
    assert_exactly_one_generation(&m, 200, 8);
}

#[test]
fn promote_with_no_previous_generation() {
    let mut m = FsModel {
        marker: GenSlot { active: None, candidate: Some(300), retiring: None },
        db: GenSlot { active: None, candidate: Some(9), retiring: None },
        staging: true,
    };
    promote(&mut m).unwrap();
    assert_exactly_one_generation(&m, 300, 9);
}

#[test]
fn promote_twice_keeps_one_generation() {
    let mut m = with_active(100, 1);
    install(&mut m, 200, 2);
    promote(&mut m).unwrap();
    assert_exactly_one_generation(&m, 200, 2);
    install(&mut m, 300, 3);
    promote(&mut m).unwrap();
    assert_exactly_one_generation(&m, 300, 3);
}

#[test]
fn plan_covers_both_classes_and_staging() {
    let plan = plan_promotion(true, true);
    assert_eq!(
        plan,
        vec![
            FsAction::RetireActive(FileClass::Marker),
            FsAction::PromoteCandidate(FileClass::Marker),
            FsAction::DropRetiring(FileClass::Marker),
            FsAction::RetireActive(FileClass::Db),
            FsAction::PromoteCandidate(FileClass::Db),
            FsAction::DropRetiring(FileClass::Db),
            FsAction::DropStaging,
        ]
    );
}

#[test]
fn plan_skips_retire_steps_for_missing_actives() {
    let plan = plan_promotion(false, false);
    assert_eq!(
        plan,
        vec![
            FsAction::PromoteCandidate(FileClass::Marker),
            FsAction::PromoteCandidate(FileClass::Db),
            FsAction::DropStaging,
        ]
    );
    let plan = plan_promotion(true, false);
    assert_eq!(
        plan,
        vec![
            FsAction::RetireActive(FileClass::Marker),
            FsAction::PromoteCandidate(FileClass::Marker),
            FsAction::DropRetiring(FileClass::Marker),
            FsAction::PromoteCandidate(FileClass::Db),
            FsAction::DropStaging,
        ]
    );
}
