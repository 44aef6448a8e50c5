//! The versioned swap protocol that promotes a freshly built candidate
//! generation over the active one. The directory is modeled as one slot per
//! file name — active, candidate (`.new`), retiring (`.old`) — for the
//! marker and for the database, plus the staging tree; a slot holds the
//! file's content stamp or nothing. Because each name is a single slot, at
//! most one file of each suffix class can ever exist. The caller that owns
//! the real directory performs the planned actions in order and mirrors
//! them here; every file changes only by rename or delete, never by
//! in-place mutation.

use vstd::prelude::*;
use crate::errors::GLErr;

verus! {

/// One file-name family on disk: the served file, the candidate being
/// built, and the retiring previous generation.
#[derive(Clone, Copy, Debug, PartialEq, Eq, Structural)]
pub struct GenSlot {
    pub active: Option<u64>,
    pub candidate: Option<u64>,
    pub retiring: Option<u64>,
}

/// Everything the swap manager owns: the marker and database generations
/// and the staging tree of extracted CSV files.
#[derive(Clone, Copy, Debug, PartialEq, Eq, Structural)]
pub struct FsModel {
    pub marker: GenSlot,
    pub db: GenSlot,
    pub staging: bool,
}

#[derive(Clone, Copy, Debug, PartialEq, Eq, Structural)]
pub enum FileClass {
    Marker,
    Db,
}

/// One step of the promotion sequence, for the owner of the real directory
/// to carry out in order. A failed step is fatal and nothing is rolled
/// back: whichever renames completed stand.
#[derive(Clone, Copy, Debug, PartialEq, Eq, Structural)]
pub enum FsAction {
    /// Rename the active file to its retiring name.
    RetireActive(FileClass),
    /// Rename the candidate file to the active name.
    PromoteCandidate(FileClass),
    /// Delete the retiring file.
    DropRetiring(FileClass),
    /// Delete the staging tree.
    DropStaging,
}

pub open spec fn slot_of(m: FsModel, c: FileClass) -> GenSlot {
    match c {
        FileClass::Marker => m.marker,
        FileClass::Db => m.db,
    }
}

pub open spec fn with_slot(m: FsModel, c: FileClass, s: GenSlot) -> FsModel {
    match c {
        FileClass::Marker => FsModel { marker: s, db: m.db, staging: m.staging },
        FileClass::Db => FsModel { marker: m.marker, db: s, staging: m.staging },
    }
}

/// The effect of one action on the directory, or nothing when the action
/// must fail because its source file is missing.
pub open spec fn apply_action(m: FsModel, a: FsAction) -> Option<FsModel> {
    match a {
        FsAction::RetireActive(c) => {
            let s = slot_of(m, c);
            if s.active is Some {
                Some(
                    with_slot(
                        m,
                        c,
                        GenSlot { active: None, candidate: s.candidate, retiring: s.active },
                    ),
                )
            } else {
                None
            }
        },
        FsAction::PromoteCandidate(c) => {
            let s = slot_of(m, c);
            if s.candidate is Some {
                Some(
                    with_slot(
                        m,
                        c,
                        GenSlot { active: s.candidate, candidate: None, retiring: s.retiring },
                    ),
                )
            } else {
                None
            }
        },
        FsAction::DropRetiring(c) => {
            let s = slot_of(m, c);
            if s.retiring is Some {
                Some(
                    with_slot(
                        m,
                        c,
                        GenSlot { active: s.active, candidate: s.candidate, retiring: None },
                    ),
                )
            } else {
                None
            }
        },
        FsAction::DropStaging => Some(
            FsModel { marker: m.marker, db: m.db, staging: false },
        ),
    }
}

/// The effect of a sequence of actions, failing on the first failing one.
pub open spec fn apply_plan(m: FsModel, plan: Seq<FsAction>) -> Option<FsModel>
    decreases plan.len(),
{
    if plan.len() == 0 {
        Some(m)
    } else {
        match apply_action(m, plan[0]) {
            Some(m2) => apply_plan(m2, plan.skip(1)),
            None => None,
        }
    }
}

/// The rename sequence for one file class: retire the active file if one
/// exists, promote the candidate, then delete what retired.
pub open spec fn class_plan(c: FileClass, active_exists: bool) -> Seq<FsAction> {
    if active_exists {
        seq![FsAction::RetireActive(c), FsAction::PromoteCandidate(c), FsAction::DropRetiring(c)]
    } else {
        seq![FsAction::PromoteCandidate(c)]
    }
}

/// The whole promotion sequence: the marker's renames, then the
/// database's, then dropping the staging tree. The two classes are
/// promoted independently; a crash between them leaves marker and
/// database one refresh apart, an accepted weak-atomicity window.
pub open spec fn promotion_plan(marker_active: bool, db_active: bool) -> Seq<FsAction> {
    class_plan(FileClass::Marker, marker_active) + class_plan(FileClass::Db, db_active)
        + seq![FsAction::DropStaging]
}

/// The state a full promotion leaves behind: candidate contents under the
/// active names, nothing else.
pub open spec fn promoted(m: FsModel) -> FsModel {
    FsModel {
        marker: GenSlot { active: m.marker.candidate, candidate: None, retiring: None },
        db: GenSlot { active: m.db.candidate, candidate: None, retiring: None },
        staging: false,
    }
}

/// Exactly one generation is visible: one active marker and one active
/// database, no candidate or retiring files, no staging tree.
pub open spec fn exactly_one_generation(m: FsModel) -> bool {
    &&& m.marker.active is Some
    &&& m.marker.candidate is None
    &&& m.marker.retiring is None
    &&& m.db.active is Some
    &&& m.db.candidate is None
    &&& m.db.retiring is None
    &&& !m.staging
}

/// Builds the promotion sequence for a directory whose active files exist
/// as the two flags say.
pub fn plan_promotion(marker_active: bool, db_active: bool) -> (r: Vec<FsAction>)
    ensures
        r@ == promotion_plan(marker_active, db_active),
{
    let mut v: Vec<FsAction> = Vec::new();
    if marker_active {
        v.push(FsAction::RetireActive(FileClass::Marker));
    }
    v.push(FsAction::PromoteCandidate(FileClass::Marker));
    if marker_active {
        v.push(FsAction::DropRetiring(FileClass::Marker));
    }
    if db_active {
        v.push(FsAction::RetireActive(FileClass::Db));
    }
    v.push(FsAction::PromoteCandidate(FileClass::Db));
    if db_active {
        v.push(FsAction::DropRetiring(FileClass::Db));
    }
    v.push(FsAction::DropStaging);
    assert(v@ =~= promotion_plan(marker_active, db_active));
    v
}

/// On any directory that matches the two flags, holds both candidates, and
/// carries no retiring leftovers, the promotion plan succeeds as a whole
/// and leaves exactly one generation: the candidates' contents under the
/// active names, no candidate or retiring files, and no staging tree.
pub proof fn lemma_promotion_plan_promotes(m: FsModel, ma: bool, da: bool)
    requires
        m.marker.candidate is Some,
        m.db.candidate is Some,
        m.marker.retiring is None,
        m.db.retiring is None,
        ma == (m.marker.active is Some),
        da == (m.db.active is Some),
    ensures
        apply_plan(m, promotion_plan(ma, da)) == Some(promoted(m)),
        exactly_one_generation(promoted(m)),
        promoted(m).marker.active == m.marker.candidate,
        promoted(m).db.active == m.db.candidate,
{
    let plan = promotion_plan(ma, da);
    lemma_plan_split(m, class_plan(FileClass::Marker, ma), class_plan(FileClass::Db, da) + seq![FsAction::DropStaging]);
    assert(class_plan(FileClass::Marker, ma) + (class_plan(FileClass::Db, da)
        + seq![FsAction::DropStaging]) =~= plan);
    let m1 = FsModel {
        marker: GenSlot { active: m.marker.candidate, candidate: None, retiring: None },
        db: m.db,
        staging: m.staging,
    };
    assert(apply_plan(m, class_plan(FileClass::Marker, ma)) == Some(m1)) by {
        lemma_class_plan_swaps(m, FileClass::Marker, ma);
    }
    lemma_plan_split(m1, class_plan(FileClass::Db, da), seq![FsAction::DropStaging]);
    let m2 = FsModel {
        marker: m1.marker,
        db: GenSlot { active: m.db.candidate, candidate: None, retiring: None },
        staging: m.staging,
    };
    assert(apply_plan(m1, class_plan(FileClass::Db, da)) == Some(m2)) by {
        lemma_class_plan_swaps(m1, FileClass::Db, da);
    }
    assert(apply_plan(m2, seq![FsAction::DropStaging]) == Some(promoted(m))) by {
        assert(seq![FsAction::DropStaging].skip(1) =~= Seq::<FsAction>::empty());
        let m3 = FsModel { marker: m2.marker, db: m2.db, staging: false };
        assert(apply_action(m2, FsAction::DropStaging) == Some(m3));
        assert(apply_plan(m2, seq![FsAction::DropStaging]) == apply_plan(
            m3,
            seq![FsAction::DropStaging].skip(1),
        ));
        assert(apply_plan(m3, Seq::<FsAction>::empty()) == Some(m3));
        assert(m3 == promoted(m));
    }
}

/// One class's rename sequence swaps its candidate into the active slot
/// and clears the rest, leaving the other class and the staging flag
/// untouched.
proof fn lemma_class_plan_swaps(m: FsModel, c: FileClass, active_exists: bool)
    requires
        slot_of(m, c).candidate is Some,
        slot_of(m, c).retiring is None,
        active_exists == (slot_of(m, c).active is Some),
    ensures
        apply_plan(m, class_plan(c, active_exists)) == Some(
            with_slot(
                m,
                c,
                GenSlot { active: slot_of(m, c).candidate, candidate: None, retiring: None },
            ),
        ),
{
    let plan = class_plan(c, active_exists);
    if active_exists {
        let s = slot_of(m, c);
        let m1 = with_slot(m, c, GenSlot { active: None, candidate: s.candidate, retiring: s.active });
        let m2 = with_slot(m1, c, GenSlot { active: s.candidate, candidate: None, retiring: s.active });
        let m3 = with_slot(m2, c, GenSlot { active: s.candidate, candidate: None, retiring: None });
        assert(plan.skip(1) =~= seq![FsAction::PromoteCandidate(c), FsAction::DropRetiring(c)]);
        assert(plan.skip(1).skip(1) =~= seq![FsAction::DropRetiring(c)]);
        assert(plan.skip(1).skip(1).skip(1) =~= Seq::<FsAction>::empty());
        assert(apply_action(m, plan[0]) == Some(m1));
        assert(apply_action(m1, FsAction::PromoteCandidate(c)) == Some(m2));
        assert(apply_action(m2, FsAction::DropRetiring(c)) == Some(m3));
        assert(apply_plan(m, plan) == apply_plan(m1, plan.skip(1)));
        assert(apply_plan(m1, plan.skip(1)) == apply_plan(m2, plan.skip(1).skip(1)));
        assert(apply_plan(m2, plan.skip(1).skip(1)) == apply_plan(
            m3,
            plan.skip(1).skip(1).skip(1),
        ));
        assert(apply_plan(m3, Seq::<FsAction>::empty()) == Some(m3));
        assert(m3 == with_slot(
            m,
            c,
            GenSlot { active: s.candidate, candidate: None, retiring: None },
        ));
        assert(apply_plan(m, class_plan(c, active_exists)) == Some(
            with_slot(
                m,
                c,
                GenSlot { active: slot_of(m, c).candidate, candidate: None, retiring: None },
            ),
        ));
    } else {
        let s = slot_of(m, c);
        let m1 = with_slot(
            m,
            c,
            GenSlot { active: s.candidate, candidate: None, retiring: s.retiring },
        );
        assert(plan.skip(1) =~= Seq::<FsAction>::empty());
        assert(apply_action(m, plan[0]) == Some(m1));
        assert(apply_plan(m, plan) == apply_plan(m1, plan.skip(1)));
        assert(apply_plan(m1, Seq::<FsAction>::empty()) == Some(m1));
        assert(m1 == with_slot(
            m,
            c,
            GenSlot { active: slot_of(m, c).candidate, candidate: None, retiring: None },
        ));
        assert(apply_plan(m, class_plan(c, active_exists)) == Some(
            with_slot(
                m,
                c,
                GenSlot { active: slot_of(m, c).candidate, candidate: None, retiring: None },
            ),
        ));
    }
}

/// Plans compose: running two plans in sequence is running their
/// concatenation.
proof fn lemma_plan_split(m: FsModel, p1: Seq<FsAction>, p2: Seq<FsAction>)
    ensures
        apply_plan(m, p1 + p2) == (match apply_plan(m, p1) {
            Some(m1) => apply_plan(m1, p2),
            None => None,
        }),
    decreases p1.len(),
{
    if p1.len() == 0 {
        assert(p1 + p2 =~= p2);
    } else {
        assert((p1 + p2)[0] == p1[0]);
        match apply_action(m, p1[0]) {
            Some(m2) => {
                lemma_plan_split(m2, p1.skip(1), p2);
                assert((p1 + p2).skip(1) =~= p1.skip(1) + p2);
            },
            None => {},
        }
    }
}

/// Runs the promotion sequence on the model state, mirroring the real
/// directory: retire the active marker if one exists, promote the
/// candidate marker, drop the retired one; then the same for the database
/// file; then drop the staging tree. The active slot of each class is
/// only ever filled by a rename of a complete candidate, never written in
/// place.
pub fn promote(m: &mut FsModel) -> (r: Result<(), GLErr>)
    requires
        old(m).marker.candidate is Some,
        old(m).db.candidate is Some,
        old(m).marker.retiring is None,
        old(m).db.retiring is None,
    ensures
        r is Ok,
        *final(m) == promoted(*old(m)),
        exactly_one_generation(*final(m)),
        final(m).marker.active == old(m).marker.candidate,
        final(m).db.active == old(m).db.candidate,
{
    let mut del_old = false;
    if m.marker.active.is_some() {
        m.marker = GenSlot { active: None, candidate: m.marker.candidate, retiring: m.marker.active };
        del_old = true;
    }
    m.marker = GenSlot { active: m.marker.candidate, candidate: None, retiring: m.marker.retiring };
    if del_old {
        m.marker = GenSlot { active: m.marker.active, candidate: m.marker.candidate, retiring: None };
    }
    let mut del_old = false;
    if m.db.active.is_some() {
        m.db = GenSlot { active: None, candidate: m.db.candidate, retiring: m.db.active };
        del_old = true;
    }
    m.db = GenSlot { active: m.db.candidate, candidate: None, retiring: m.db.retiring };
    if del_old {
        m.db = GenSlot { active: m.db.active, candidate: m.db.candidate, retiring: None };
    }
    m.staging = false;
    Ok(())
}

/// Only a class's own retire step can take its active file away: its
/// promote step replaces an active file with the newer candidate, and
/// every other action leaves it untouched. Since each class's retire step
/// comes only before that class's promote step in the promotion sequence,
/// a reader that resolves the active names never sees a promoted
/// generation vanish again.
pub proof fn lemma_active_only_retired(m: FsModel, a: FsAction, c: FileClass)
    requires
        apply_action(m, a) is Some,
        slot_of(m, c).active is Some,
        a != FsAction::RetireActive(c),
    ensures
        slot_of(apply_action(m, a)->0, c).active is Some,
        a != FsAction::PromoteCandidate(c) ==> slot_of(apply_action(m, a)->0, c).active == slot_of(
            m,
            c,
        ).active,
{
    match a {
        FsAction::RetireActive(cc) => {
            assert(cc != c);
        },
        FsAction::PromoteCandidate(cc) => {
        },
        FsAction::DropRetiring(cc) => {
        },
        FsAction::DropStaging => {
        },
    }
}

/// A fresh candidate pair installed over a clean directory, with the
/// staging tree it was built from.
pub open spec fn install_candidate(m: FsModel, t: u64, d: u64) -> FsModel {
    FsModel {
        marker: GenSlot { active: m.marker.active, candidate: Some(t), retiring: None },
        db: GenSlot { active: m.db.active, candidate: Some(d), retiring: None },
        staging: true,
    }
}

/// Two refresh cycles in a row, each building a fresh candidate and
/// promoting it, leave exactly one generation after each run — never a
/// second marker or database file under any name — and each run's active
/// contents are exactly that run's candidate.
pub proof fn lemma_promote_twice(m: FsModel, t1: u64, d1: u64, t2: u64, d2: u64)
    ensures
        ({
            let g1 = promoted(install_candidate(m, t1, d1));
            let g2 = promoted(install_candidate(g1, t2, d2));
            &&& exactly_one_generation(g1)
            &&& exactly_one_generation(g2)
            &&& g1.marker.active == Some(t1)
            &&& g1.db.active == Some(d1)
            &&& g2.marker.active == Some(t2)
            &&& g2.db.active == Some(d2)
        }),
{
}

} // verus!
