//! Why a statement has no plan.

use crate::parser::ast::text_views;
use crate::storage::error::{storage_message, StorageError, StorageErrorView};
use vstd::prelude::*;
use vstd::string::StringExecFns;

verus! {

#[derive(Debug)]
pub enum TranslateError {
    DuplicateAttributeName(String),
    PrimaryKeyRequired,
    MultiplePrimaryKeys(Vec<String>),
    NoSuchTable(String),
    NoSuchAttribute(String),
    InvalidArguments(String),
    TypeError(String),
    StorageError(StorageError),
}

/// A translation error as a mathematical value. Of the two kinds that carry
/// a free message, only the kind is kept.
pub enum TranslateErrorView {
    DuplicateAttributeName(Seq<char>),
    PrimaryKeyRequired,
    MultiplePrimaryKeys(Seq<Seq<char>>),
    NoSuchTable(Seq<char>),
    NoSuchAttribute(Seq<char>),
    InvalidArguments,
    TypeError,
    StorageError(StorageErrorView),
}

impl View for TranslateError {
    type V = TranslateErrorView;

    open spec fn view(&self) -> TranslateErrorView {
        match self {
            TranslateError::DuplicateAttributeName(name) => {
                TranslateErrorView::DuplicateAttributeName(name@)
            },
            TranslateError::PrimaryKeyRequired => TranslateErrorView::PrimaryKeyRequired,
            TranslateError::MultiplePrimaryKeys(keys) => TranslateErrorView::MultiplePrimaryKeys(
                text_views(keys@),
            ),
            TranslateError::NoSuchTable(name) => TranslateErrorView::NoSuchTable(name@),
            TranslateError::NoSuchAttribute(name) => TranslateErrorView::NoSuchAttribute(name@),
            TranslateError::InvalidArguments(_) => TranslateErrorView::InvalidArguments,
            TranslateError::TypeError(_) => TranslateErrorView::TypeError,
            TranslateError::StorageError(e) => TranslateErrorView::StorageError(e@),
        }
    }
}

/// The message of a translation error.
pub open spec fn translate_message(e: TranslateError) -> Seq<char> {
    match e {
        TranslateError::DuplicateAttributeName(name) => "duplicate attribute name "@ + name@,
        TranslateError::StorageError(err) => storage_message(err),
        TranslateError::MultiplePrimaryKeys(_) => "multiple primary keys"@,
        TranslateError::PrimaryKeyRequired => "Primary key required"@,
        TranslateError::NoSuchTable(name) => "No such table ["@ + name@ + "]"@,
        TranslateError::NoSuchAttribute(name) => "No such attribute ["@ + name@ + "]"@,
        TranslateError::InvalidArguments(reason) => reason@,
        TranslateError::TypeError(reason) => reason@,
    }
}

impl TranslateError {
    /// The translation error that reports a storage error.
    pub fn from(error: StorageError) -> (r: Self)
        ensures
            r@ == TranslateErrorView::StorageError(error@),
    {
        TranslateError::StorageError(error)
    }

    /// The message of this error.
    pub fn to_string(&self) -> (r: String)
        ensures
            r@ == translate_message(*self),
    {
        match self {
            TranslateError::DuplicateAttributeName(name) => String::from_str(
                "duplicate attribute name ",
            ).concat(name.as_str()),
            TranslateError::StorageError(err) => err.to_string(),
            TranslateError::MultiplePrimaryKeys(_) => String::from_str("multiple primary keys"),
            TranslateError::PrimaryKeyRequired => String::from_str("Primary key required"),
            TranslateError::NoSuchTable(name) => {
                let mut message = String::from_str("No such table [");
                message.append(name.as_str());
                message.append("]");
                message
            },
            TranslateError::NoSuchAttribute(name) => {
                let mut message = String::from_str("No such attribute [");
                message.append(name.as_str());
                message.append("]");
                message
            },
            TranslateError::InvalidArguments(reason) => reason.clone(),
            TranslateError::TypeError(reason) => reason.clone(),
        }
    }
}

} // verus!
