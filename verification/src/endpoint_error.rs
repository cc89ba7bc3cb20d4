//! The endpoint service's storage error type, and its translation into the
//! common one.

use vstd::prelude::*;

use crate::db_error;

verus! {

/// Storage errors as the endpoint service raises them.
#[derive(Debug)]
pub enum DbError {
    /// Row-store error while performing GetItem.
    GetItem(rusoto_core::RusotoError<rusoto_dynamodb::GetItemError>),
    /// Row-store error while performing UpdateItem.
    UpdateItem(rusoto_core::RusotoError<rusoto_dynamodb::UpdateItemError>),
    /// Row-store error while performing PutItem.
    PutItem(rusoto_core::RusotoError<rusoto_dynamodb::PutItemError>),
    /// Row-store error while performing DeleteItem.
    DeleteItem(rusoto_core::RusotoError<rusoto_dynamodb::DeleteItemError>),
    /// Row-store error while performing DescribeTable.
    DescribeTable(rusoto_core::RusotoError<rusoto_dynamodb::DescribeTableError>),
    /// A (de)serialization failure.
    Serialization(serde_dynamodb::Error),
    /// The table's status could not be determined.
    TableStatusUnknown,
}

/// Relies on the `Display` implementation of serde_dynamodb's error for
/// its message; nothing is promised of the text.
#[verifier::external_body]
fn serde_error_text(e: &serde_dynamodb::Error) -> String {
    e.to_string()
}

impl DbError {
    /// Translates an endpoint storage error into the common one, variant
    /// for variant; the serialization error is carried over as its
    /// message.
    pub fn from(err: DbError) -> (r: db_error::DbError)
        ensures
            (err matches DbError::GetItem(e) ==> r == db_error::DbError::DdbGetItem(e)),
            (err matches DbError::UpdateItem(e) ==> r == db_error::DbError::DdbUpdateItem(e)),
            (err matches DbError::PutItem(e) ==> r == db_error::DbError::DdbPutItem(e)),
            (err matches DbError::DeleteItem(e) ==> r == db_error::DbError::DdbDeleteItem(e)),
            (err matches DbError::DescribeTable(e) ==> r == db_error::DbError::DdbDescribeTable(
                e,
            )),
            (err matches DbError::Serialization(_) ==> r matches db_error::DbError::Serialization(
                _,
            )),
            (err matches DbError::TableStatusUnknown ==> r
                == db_error::DbError::TableStatusUnknown),
    {
        match err {
            DbError::GetItem(e) => db_error::DbError::DdbGetItem(e),
            DbError::UpdateItem(e) => db_error::DbError::DdbUpdateItem(e),
            DbError::PutItem(e) => db_error::DbError::DdbPutItem(e),
            DbError::DeleteItem(e) => db_error::DbError::DdbDeleteItem(e),
            DbError::DescribeTable(e) => db_error::DbError::DdbDescribeTable(e),
            DbError::Serialization(e) => db_error::DbError::Serialization(
                serde_error_text(&e),
            ),
            DbError::TableStatusUnknown => db_error::DbError::TableStatusUnknown,
        }
    }
}

} // verus!
