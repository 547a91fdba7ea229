//! The decisions of the command flows, as functions from plain values to
//! plain values. The boundary code performs the durable writes and the
//! platform traffic; everything it decides — when a create is rejected, how a
//! database failure is classified, when a deregistration may proceed, which
//! character a delete refers to — is taken from these functions.

use vstd::prelude::*;

use crate::character::{views_of, CharacterRef, CharacterRefView};
use crate::text::{all_digits, digits_value, parse_u64, parses_as_u64};

verus! {

/// SQLite's extended result code for a foreign-key constraint violation: the
/// creating owner has no profile row.
pub const SQLITE_FOREIGN_KEY_CODE: u64 = 787;

/// SQLite's extended result code for a primary-key constraint violation: the
/// registering owner already has a profile row.
pub const SQLITE_PRIMARY_KEY_CODE: u64 = 1555;

/// Why a character create was not applied.
#[derive(Clone, Copy, Debug, PartialEq, Eq, Structural)]
pub enum CreateFailure {
    /// The owner already has a character of that name; found by the
    /// pre-create check, before any durable write.
    DuplicateName,
    /// The durable insert failed its foreign-key requirement: the owner has
    /// no profile.
    MissingProfile,
    /// Any other durable-write failure.
    UnexpectedPersistenceFailure,
}

/// The outcome of a create whose durable insert committed.
#[derive(Clone, Copy, Debug, PartialEq, Eq, Structural)]
pub enum CreateOutcome {
    /// The durable insert committed and the cache was brought up to date.
    Created { id: u16 },
    /// The durable insert committed but the cache update could not be
    /// applied: the in-memory view is now stale until the next full load.
    CreatedDesynchronized { id: u16 },
}

/// Why a profile registration was not applied.
#[derive(Clone, Copy, Debug, PartialEq, Eq, Structural)]
pub enum RegisterFailure {
    /// The owner already has a profile row.
    AlreadyRegistered,
    /// Any other durable-write failure.
    UnexpectedPersistenceFailure,
}

/// What the deregistration prechecks decided.
#[derive(Clone, Copy, Debug, PartialEq, Eq, Structural)]
pub enum DeregisterDecision {
    /// The owner has no profile row to remove.
    NoProfile,
    /// The owner still has characters; the profile must stay.
    HasCharacters,
    /// Both prechecks passed; the profile row may be removed.
    Proceed,
}

/// The pre-create uniqueness decision: a create is rejected as a duplicate
/// exactly when the durable store already holds a character of the same name
/// for the same owner. The check deliberately asks the store, never the
/// cache; the caller hands in what the store answered.
pub fn create_precheck(duplicate_found: bool) -> (r: Result<(), CreateFailure>)
    ensures
        r == if duplicate_found {
            Err::<(), CreateFailure>(CreateFailure::DuplicateName)
        } else {
            Ok::<(), CreateFailure>(())
        },
{
    if duplicate_found {
        Err(CreateFailure::DuplicateName)
    } else {
        Ok(())
    }
}

/// The classification a durable-insert error code receives: the foreign-key
/// code means the owner has no profile; everything else is unexpected.
pub open spec fn insert_failure_for(code: u64) -> CreateFailure {
    if code == SQLITE_FOREIGN_KEY_CODE {
        CreateFailure::MissingProfile
    } else {
        CreateFailure::UnexpectedPersistenceFailure
    }
}

/// The classification a profile-insert error code receives: the primary-key
/// code means the owner is already registered; everything else is unexpected.
pub open spec fn register_failure_for(code: u64) -> RegisterFailure {
    if code == SQLITE_PRIMARY_KEY_CODE {
        RegisterFailure::AlreadyRegistered
    } else {
        RegisterFailure::UnexpectedPersistenceFailure
    }
}

/// Classify a failed durable insert by its database error code.
pub fn classify_insert_failure(code: u64) -> (r: CreateFailure)
    ensures
        r == insert_failure_for(code),
{
    if code == SQLITE_FOREIGN_KEY_CODE {
        CreateFailure::MissingProfile
    } else {
        CreateFailure::UnexpectedPersistenceFailure
    }
}

/// Classify a failed profile insert by its database error code.
pub fn classify_register_failure(code: u64) -> (r: RegisterFailure)
    ensures
        r == register_failure_for(code),
{
    if code == SQLITE_PRIMARY_KEY_CODE {
        RegisterFailure::AlreadyRegistered
    } else {
        RegisterFailure::UnexpectedPersistenceFailure
    }
}

/// The numeric value of an optional database error code, read as the command
/// flows read it: a missing code, a non-numeric code or one too large to
/// represent counts as 0, which no classification matches.
pub fn error_code_value(code: &Option<String>) -> (r: u64)
    ensures
        r == match code {
            Some(s) => if parses_as_u64(s@) {
                digits_value(s@) as u64
            } else {
                0u64
            },
            None => 0u64,
        },
{
    match code {
        None => 0,
        Some(s) => match parse_u64(s.as_str()) {
            Some(v) => v,
            None => 0,
        },
    }
}

/// How a committed create is reported once the cache update was attempted:
/// success, or success with the operator-visible warning that the cache is
/// now stale. The durable store is authoritative either way.
pub fn create_sync_outcome(cache_applied: bool, id: u16) -> (r: CreateOutcome)
    ensures
        r == if cache_applied {
            CreateOutcome::Created { id }
        } else {
            CreateOutcome::CreatedDesynchronized { id }
        },
{
    if cache_applied {
        CreateOutcome::Created { id }
    } else {
        CreateOutcome::CreatedDesynchronized { id }
    }
}

/// The deregistration prechecks, in their flow order: no profile means
/// nothing to remove; remaining characters block the removal; otherwise the
/// removal may proceed.
pub fn deregister_precheck(profile_exists: bool, character_count: usize) -> (r: DeregisterDecision)
    ensures
        r == if !profile_exists {
            DeregisterDecision::NoProfile
        } else if character_count > 0 {
            DeregisterDecision::HasCharacters
        } else {
            DeregisterDecision::Proceed
        },
{
    if !profile_exists {
        DeregisterDecision::NoProfile
    } else if character_count > 0 {
        DeregisterDecision::HasCharacters
    } else {
        DeregisterDecision::Proceed
    }
}

/// The first of `chars` with the given id, if the requesting owner holds one.
/// A delete is scoped by this lookup: an id the owner does not hold is a
/// normal rejection and must mutate nothing.
pub fn find_owned(chars: &Vec<CharacterRef>, id: u16) -> (r: Option<CharacterRef>)
    ensures
        match r {
            Some(c) => exists|k: int|
                0 <= k < chars@.len() && #[trigger] views_of(chars@)[k] == c@
                    && views_of(chars@)[k].id == id && (forall|j: int|
                    0 <= j < k ==> views_of(chars@)[j].id != id),
            None => forall|k: int|
                0 <= k < chars@.len() ==> (#[trigger] views_of(chars@)[k]).id != id,
        },
{
    let n = chars.len();
    let mut i: usize = 0;
    while i < n
        invariant
            n == chars@.len(),
            0 <= i <= n,
            forall|j: int| 0 <= j < i ==> (#[trigger] views_of(chars@)[j]).id != id,
        decreases n - i,
    {
        if chars[i].id == id {
            let c = chars[i].clone();
            proof {
                assert(views_of(chars@)[i as int] == c@ && views_of(chars@)[i as int].id == id);
            }
            return Some(c);
        }
        i += 1;
    }
    None
}

} // verus!
