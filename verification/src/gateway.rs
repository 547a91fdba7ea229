//! The narrow face of the persistence gateway that the verified flows read:
//! the error a failed durable write came back with, reduced to its database
//! error code and classified. The queries themselves are performed by the
//! boundary code; only the inspection of the returned error stands here.

use vstd::prelude::*;

use crate::flows::{classify_insert_failure, classify_register_failure, error_code_value,
    insert_failure_for, register_failure_for, CreateFailure, RegisterFailure};

verus! {

#[verifier::external_type_specification]
#[verifier::external_body]
pub struct ExSqlxError(sqlx::Error);

/// Relies on sqlx's `Error::Database` variant and `DatabaseError::code`: the
/// error code the database reported, as text, if the failure came from the
/// database at all and it reported one. Which failure a call yields depends
/// on the store's state, so nothing more is promised.
#[verifier::external_body]
fn database_error_code(e: &sqlx::Error) -> (r: Option<String>) {
    match e {
        sqlx::Error::Database(db) => match db.code() {
            Some(c) => Some(c.into_owned()),
            None => None,
        },
        _ => None,
    }
}

/// Read a failed character insert's error code and classify it. Whatever the
/// store answered, the classification matches the code that was read, and a
/// duplicate name is never among the outcomes — duplicates are rejected by
/// the precheck, before any durable write.
pub fn classify_insert_error(e: &sqlx::Error) -> (r: (u64, CreateFailure))
    ensures
        r.1 == insert_failure_for(r.0),
        r.1 != CreateFailure::DuplicateName,
{
    let code = database_error_code(e);
    let v = error_code_value(&code);
    (v, classify_insert_failure(v))
}

/// Read a failed profile insert's error code and classify it. Whatever the
/// store answered, the classification matches the code that was read.
pub fn classify_register_error(e: &sqlx::Error) -> (r: (u64, RegisterFailure))
    ensures
        r.1 == register_failure_for(r.0),
{
    let code = database_error_code(e);
    let v = error_code_value(&code);
    (v, classify_register_failure(v))
}

} // verus!
