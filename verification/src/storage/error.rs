//! What can go wrong in the catalog and the row stores.

use crate::storage::tuple::TupleId;
use crate::storage::tuple_serde::{serde_message, SerdeError};
use vstd::prelude::*;
use vstd::string::StringExecFns;

verus! {

#[derive(Debug, Eq, PartialEq)]
pub enum StorageError {
    NoSuchTuple(TupleId),
    AlreadyExists(String),
    TupleSerdeError(String),
    /// A predicate could not be evaluated on a row.
    EvaluationError(String),
    /// A store has no slot left, or the catalog no store id.
    CapacityExceeded(String),
}

pub enum StorageErrorView {
    NoSuchTuple(TupleId),
    AlreadyExists(Seq<char>),
    TupleSerdeError(Seq<char>),
    EvaluationError(Seq<char>),
    CapacityExceeded,
}

impl View for StorageError {
    type V = StorageErrorView;

    open spec fn view(&self) -> StorageErrorView {
        match self {
            StorageError::NoSuchTuple(id) => StorageErrorView::NoSuchTuple(*id),
            StorageError::AlreadyExists(what) => StorageErrorView::AlreadyExists(what@),
            StorageError::TupleSerdeError(message) => StorageErrorView::TupleSerdeError(message@),
            StorageError::EvaluationError(message) => StorageErrorView::EvaluationError(message@),
            StorageError::CapacityExceeded(_) => StorageErrorView::CapacityExceeded,
        }
    }
}

impl Clone for StorageError {
    fn clone(&self) -> (r: Self)
        ensures
            r@ == self@,
    {
        match self {
            StorageError::NoSuchTuple(id) => StorageError::NoSuchTuple(*id),
            StorageError::AlreadyExists(what) => StorageError::AlreadyExists(what.clone()),
            StorageError::TupleSerdeError(message) => StorageError::TupleSerdeError(
                message.clone(),
            ),
            StorageError::EvaluationError(message) => StorageError::EvaluationError(
                message.clone(),
            ),
            StorageError::CapacityExceeded(what) => StorageError::CapacityExceeded(what.clone()),
        }
    }
}

/// The message of a storage error.
pub open spec fn storage_message(e: StorageError) -> Seq<char> {
    match e {
        StorageError::NoSuchTuple(_) => "no such tuple"@,
        StorageError::AlreadyExists(resource) => "resource ["@ + resource@ + "] already exists"@,
        StorageError::TupleSerdeError(message) => message@,
        StorageError::EvaluationError(message) => message@,
        StorageError::CapacityExceeded(what) => "no room left for "@ + what@,
    }
}

impl StorageError {
    /// The storage error that reports a codec error: it carries its message.
    pub fn from(error: SerdeError) -> (r: Self)
        ensures
            r@ == StorageErrorView::TupleSerdeError(serde_message(error@)),
    {
        StorageError::TupleSerdeError(error.to_string())
    }

    /// The message of this error.
    pub fn to_string(&self) -> (r: String)
        ensures
            r@ == storage_message(*self),
    {
        match self {
            StorageError::NoSuchTuple(_) => String::from_str("no such tuple"),
            StorageError::AlreadyExists(resource) => {
                let mut message = String::from_str("resource [");
                message.append(resource.as_str());
                message.append("] already exists");
                message
            },
            StorageError::TupleSerdeError(message) => message.clone(),
            StorageError::EvaluationError(message) => message.clone(),
            StorageError::CapacityExceeded(what) => String::from_str("no room left for ").concat(
                what.as_str(),
            ),
        }
    }
}

} // verus!
