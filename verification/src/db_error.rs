//! The storage layer's error type and its observability classification.

use vstd::prelude::*;

verus! {

#[verifier::external_type_specification]
#[verifier::external_body]
#[verifier::reject_recursive_types(E)]
/// Declares rusoto's transport-level error wrapper so values of it can be
/// carried through the error enums.
pub struct ExRusotoError<E>(rusoto_core::RusotoError<E>);

#[verifier::external_type_specification]
#[verifier::external_body]
/// Declares the service error of a GetItem call.
pub struct ExGetItemError(rusoto_dynamodb::GetItemError);

#[verifier::external_type_specification]
#[verifier::external_body]
/// Declares the service error of an UpdateItem call.
pub struct ExUpdateItemError(rusoto_dynamodb::UpdateItemError);

#[verifier::external_type_specification]
#[verifier::external_body]
/// Declares the service error of a PutItem call.
pub struct ExPutItemError(rusoto_dynamodb::PutItemError);

#[verifier::external_type_specification]
#[verifier::external_body]
/// Declares the service error of a DeleteItem call.
pub struct ExDeleteItemError(rusoto_dynamodb::DeleteItemError);

#[verifier::external_type_specification]
#[verifier::external_body]
/// Declares the service error of a BatchWriteItem call.
pub struct ExBatchWriteItemError(rusoto_dynamodb::BatchWriteItemError);

#[verifier::external_type_specification]
#[verifier::external_body]
/// Declares the service error of a DescribeTable call.
pub struct ExDescribeTableError(rusoto_dynamodb::DescribeTableError);

#[verifier::external_type_specification]
#[verifier::external_body]
/// Declares the service error of a Query call.
pub struct ExQueryError(rusoto_dynamodb::QueryError);

#[verifier::external_type_specification]
#[verifier::external_body]
/// Declares serde_dynamodb's (de)serialization error.
pub struct ExSerdeDynamodbError(serde_dynamodb::Error);

/// Errors of the row-store transport underneath the pool.
#[derive(Debug)]
pub enum BigTableError {
    /// An administrative call failed (credentials, channel setup).
    Admin { message: String, detail: Option<String> },
    /// A pooled session outlived its lifespan or failed its health check
    /// and must be replaced.
    Recycle,
    /// The pool could not hand out a session.
    Pool(String),
}

impl BigTableError {
    /// Only administrative failures are worth a report to the
    /// observability channel.
    pub open spec fn spec_sentry(self) -> bool {
        self is Admin
    }

    /// Whether this error should raise an observability event.
    pub fn is_sentry_event(&self) -> (b: bool)
        ensures
            b == self.spec_sentry(),
    {
        match self {
            BigTableError::Admin { .. } => true,
            _ => false,
        }
    }

    /// The metric this error counts under.
    pub fn metric_label(&self) -> (r: &'static str)
        ensures
            (self is Admin ==> r@ == "storage.bigtable.error.admin"@),
            (self is Recycle ==> r@ == "storage.bigtable.error.recycle"@),
            (self is Pool ==> r@ == "storage.bigtable.error.pool"@),
    {
        match self {
            BigTableError::Admin { .. } => "storage.bigtable.error.admin",
            BigTableError::Recycle => "storage.bigtable.error.recycle",
            BigTableError::Pool(_) => "storage.bigtable.error.pool",
        }
    }
}

/// Errors of the storage driver as the rest of the core sees them.
#[derive(Debug)]
pub enum DbError {
    /// Row-store error while performing GetItem.
    DdbGetItem(rusoto_core::RusotoError<rusoto_dynamodb::GetItemError>),
    /// Row-store error while performing UpdateItem.
    DdbUpdateItem(rusoto_core::RusotoError<rusoto_dynamodb::UpdateItemError>),
    /// Row-store error while performing PutItem.
    DdbPutItem(rusoto_core::RusotoError<rusoto_dynamodb::PutItemError>),
    /// Row-store error while performing DeleteItem.
    DdbDeleteItem(rusoto_core::RusotoError<rusoto_dynamodb::DeleteItemError>),
    /// Row-store error while performing BatchWriteItem.
    DdbBatchWriteItem(rusoto_core::RusotoError<rusoto_dynamodb::BatchWriteItemError>),
    /// Row-store error while performing DescribeTable.
    DdbDescribeTable(rusoto_core::RusotoError<rusoto_dynamodb::DescribeTableError>),
    /// Row-store error while performing Query.
    DdbQuery(rusoto_core::RusotoError<rusoto_dynamodb::QueryError>),
    /// A (de)serialization failure, by message.
    Serialization(String),
    /// A value could not be read back as an integer.
    DeserializeU64(String),
    /// A value could not be read back as a string.
    DeserializeString(String),
    /// The table's status could not be determined.
    TableStatusUnknown,
    /// A transport-level error of the row store.
    BTError(BigTableError),
    /// The connection to the store could not be established.
    ConnectionError(String),
    /// A conditional write did not apply.
    Conditional,
    /// The store returned malformed data.
    Integrity(String),
    /// Anything else.
    General(String),
}

impl DbError {
    /// The inner error worth reporting onwards, if any: only the
    /// transport-level error carries one.
    pub fn reportable_source(&self) -> (r: Option<&BigTableError>)
        ensures
            (self matches DbError::BTError(e) ==> r matches Some(i) && *i == e),
            (!(self matches DbError::BTError(_)) ==> r is None),
    {
        match self {
            DbError::BTError(e) => Some(e),
            _ => None,
        }
    }

    /// Whether this error should raise an observability event.
    pub fn is_sentry_event(&self) -> (b: bool)
        ensures
            b == (self matches DbError::BTError(e) && e.spec_sentry()),
    {
        match self {
            DbError::BTError(e) => e.is_sentry_event(),
            _ => false,
        }
    }

    /// The metric this error counts under, when the transport names one.
    pub fn metric_label(&self) -> (r: Option<&'static str>)
        ensures
            (r is Some <==> self matches DbError::BTError(_)),
    {
        match self {
            DbError::BTError(e) => Some(e.metric_label()),
            _ => None,
        }
    }
}

} // verus!
