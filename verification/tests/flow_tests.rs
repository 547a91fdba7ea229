use magician_bot::cache::DatabaseCharactersCache;
use magician_bot::character::CharacterRef;
use magician_bot::flows::{
    classify_insert_failure, classify_register_failure, create_precheck, create_sync_outcome,
    deregister_precheck, error_code_value, find_owned, CreateFailure, CreateOutcome,
    DeregisterDecision, RegisterFailure, SQLITE_FOREIGN_KEY_CODE, SQLITE_PRIMARY_KEY_CODE,
};

fn chr(id: u16, name: &str) -> CharacterRef {
    CharacterRef::new(id, String::from(name))
}

#[test]
fn create_flow_updates_cache_only_after_commit() {
    // Owner has a profile and creates "Finn"; the store assigns id 7. The
    // cache must not hold the character before the durable insert is
    // confirmed, and must hold it afterwards.
    let mut cache = DatabaseCharactersCache::new();
    let owner = 11u64;
    assert_eq!(create_precheck(false), Ok(()));
    assert!(cache.get(owner).is_empty());
    let assigned_id = 7u16;
    cache.insert(owner, chr(assigned_id, "Finn"));
    let held = cache.get(owner);
    assert_eq!(held.len(), 1);
    assert_eq!(held[0].id, 7);
    assert_eq!(held[0].name, "Finn");
}

#[test]
fn duplicate_create_is_rejected_before_any_write() {
    let mut cache = DatabaseCharactersCache::new();
    cache.insert(11, chr(7, "Finn"));
    let before = cache.get(11).len();
    let decision = create_precheck(true);
    assert_eq!(decision, Err(CreateFailure::DuplicateName));
    assert_eq!(cache.get(11).len(), before);
}

#[test]
fn insert_failure_classification() {
    assert_eq!(
        classify_insert_failure(SQLITE_FOREIGN_KEY_CODE),
        CreateFailure::MissingProfile
    );
    assert_eq!(
        classify_insert_failure(0),
        CreateFailure::UnexpectedPersistenceFailure
    );
    assert_eq!(
        classify_insert_failure(SQLITE_PRIMARY_KEY_CODE),
        CreateFailure::UnexpectedPersistenceFailure
    );
}

#[test]
fn register_failure_classification() {
    assert_eq!(
        classify_register_failure(SQLITE_PRIMARY_KEY_CODE),
        RegisterFailure::AlreadyRegistered
    );
    assert_eq!(
        classify_register_failure(787),
        RegisterFailure::UnexpectedPersistenceFailure
    );
}

#[test]
fn error_code_values() {
    assert_eq!(error_code_value(&Some(String::from("787"))), 787);
    assert_eq!(error_code_value(&Some(String::from("1555"))), 1555);
    assert_eq!(error_code_value(&Some(String::from("abc"))), 0);
    assert_eq!(error_code_value(&Some(String::from(""))), 0);
    assert_eq!(error_code_value(&Some(String::from("12x"))), 0);
    assert_eq!(
        error_code_value(&Some(String::from("99999999999999999999999"))),
        0
    );
    assert_eq!(error_code_value(&None), 0);
}

#[test]
fn sync_outcome_reports_desynchronization() {
    assert_eq!(
        create_sync_outcome(true, 7),
        CreateOutcome::Created { id: 7 }
    );
    assert_eq!(
        create_sync_outcome(false, 7),
        CreateOutcome::CreatedDesynchronized { id: 7 }
    );
}

#[test]
fn deregister_prechecks_in_flow_order() {
    assert_eq!(deregister_precheck(false, 0), DeregisterDecision::NoProfile);
    assert_eq!(deregister_precheck(false, 3), DeregisterDecision::NoProfile);
    assert_eq!(
        deregister_precheck(true, 2),
        DeregisterDecision::HasCharacters
    );
    assert_eq!(deregister_precheck(true, 0), DeregisterDecision::Proceed);
}

#[test]
fn find_owned_returns_first_match_or_nothing() {
    let chars = vec![chr(7, "Finn"), chr(9, "Rey"), chr(9, "Shadow")];
    let hit = find_owned(&chars, 9).expect("id 9 is owned");
    assert_eq!(hit.id, 9);
    assert_eq!(hit.name, "Rey");
    assert!(find_owned(&chars, 42).is_none());
    assert!(find_owned(&Vec::new(), 7).is_none());
}
