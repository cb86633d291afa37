//! Errors of schema interpretation and of lookups in a parsed schema.

use vstd::prelude::*;

verus! {

/// A schema that could not be interpreted.
#[derive(Debug)]
pub enum Error {
    /// The blob does not start with the reserved magic number.
    InvalidPrefix,
    /// The version tag is not the supported one.
    InvalidVersion,
    /// A part of the descriptor was left in its encode-only form.
    ExpectedDecoded,
    /// An event argument type is malformed: the offending text and the reason.
    InvalidEventArg(String, &'static str),
}

/// Mathematical value of an [`Error`].
pub enum ErrorView {
    InvalidPrefix,
    InvalidVersion,
    ExpectedDecoded,
    InvalidEventArg(Seq<char>, Seq<char>),
}

impl View for Error {
    type V = ErrorView;

    open spec fn view(&self) -> ErrorView {
        match self {
            Error::InvalidPrefix => ErrorView::InvalidPrefix,
            Error::InvalidVersion => ErrorView::InvalidVersion,
            Error::ExpectedDecoded => ErrorView::ExpectedDecoded,
            Error::InvalidEventArg(text, reason) => ErrorView::InvalidEventArg(text@, reason@),
        }
    }
}

/// Whether `r` is the outcome `expected`, value for value.
pub open spec fn agrees<T: View>(r: Result<T, Error>, expected: Result<T::V, ErrorView>) -> bool {
    match r {
        Ok(value) => expected == Ok::<T::V, ErrorView>(value@),
        Err(e) => expected == Err::<T::V, ErrorView>(e@),
    }
}

/// A lookup in a parsed schema that found nothing, or found the wrong kind.
#[derive(Debug)]
pub enum MetadataError {
    /// No module has this name.
    ModuleNotFound(String),
    /// The module has no call of this name.
    CallNotFound(&'static str),
    /// Nothing is registered under this event ordinal.
    EventNotFound(u8),
    /// The module has no storage entry of this name.
    StorageNotFound(&'static str),
    /// The storage entry is not a map.
    StorageTypeError,
    /// The default value of the map does not decode as the value type.
    MapValueTypeError,
    /// The named module knows the call but has no call ordinal.
    IndexNotFound(String),
}

/// Mathematical value of a [`MetadataError`].
pub enum MetadataErrorView {
    ModuleNotFound(Seq<char>),
    CallNotFound(Seq<char>),
    EventNotFound(u8),
    StorageNotFound(Seq<char>),
    StorageTypeError,
    MapValueTypeError,
    IndexNotFound(Seq<char>),
}

impl View for MetadataError {
    type V = MetadataErrorView;

    open spec fn view(&self) -> MetadataErrorView {
        match self {
            MetadataError::ModuleNotFound(name) => MetadataErrorView::ModuleNotFound(name@),
            MetadataError::CallNotFound(name) => MetadataErrorView::CallNotFound(name@),
            MetadataError::EventNotFound(index) => MetadataErrorView::EventNotFound(*index),
            MetadataError::StorageNotFound(name) => MetadataErrorView::StorageNotFound(name@),
            MetadataError::StorageTypeError => MetadataErrorView::StorageTypeError,
            MetadataError::MapValueTypeError => MetadataErrorView::MapValueTypeError,
            MetadataError::IndexNotFound(name) => MetadataErrorView::IndexNotFound(name@),
        }
    }
}

impl MetadataError {
    /// The text that describes the error to a user.
    pub open spec fn message_text(self) -> Seq<char> {
        match self {
            MetadataError::ModuleNotFound(_) => "Module not found"@,
            MetadataError::CallNotFound(_) => "Call not found"@,
            MetadataError::EventNotFound(_) => "Event not found"@,
            MetadataError::StorageNotFound(_) => "Storage not found"@,
            MetadataError::StorageTypeError => "Storage type error"@,
            MetadataError::MapValueTypeError => "Map value type error"@,
            MetadataError::IndexNotFound(_) => "Index not found"@,
        }
    }

    /// Describes the error in words.
    pub fn message(&self) -> (text: &'static str)
        ensures
            text@ == self.message_text(),
    {
        match self {
            MetadataError::ModuleNotFound(_) => "Module not found",
            MetadataError::CallNotFound(_) => "Call not found",
            MetadataError::EventNotFound(_) => "Event not found",
            MetadataError::StorageNotFound(_) => "Storage not found",
            MetadataError::StorageTypeError => "Storage type error",
            MetadataError::MapValueTypeError => "Map value type error",
            MetadataError::IndexNotFound(_) => "Index not found",
        }
    }
}

} // verus!
