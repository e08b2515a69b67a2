//! The errors that decoding reports.

use vstd::prelude::*;

verus! {

/// Why a payload's fields could not be decoded.
#[derive(Debug)]
pub enum ValidationError {
    /// A structurally required field has the wrong shape.
    IncorrectFormat(String),
    /// A required field is absent.
    MissingField(String),
    /// A value lies outside a closed enumeration.
    OutOfRange(String, u8),
    /// A number or string could not be converted.
    ParseFailure,
}

/// The mathematical value of a `ValidationError`.
pub enum ValidationErrorView {
    IncorrectFormat(Seq<char>),
    MissingField(Seq<char>),
    OutOfRange(Seq<char>, u8),
    ParseFailure,
}

impl View for ValidationError {
    type V = ValidationErrorView;

    open spec fn view(&self) -> ValidationErrorView {
        match self {
            ValidationError::IncorrectFormat(f) => ValidationErrorView::IncorrectFormat(f@),
            ValidationError::MissingField(f) => ValidationErrorView::MissingField(f@),
            ValidationError::OutOfRange(f, v) => ValidationErrorView::OutOfRange(f@, *v),
            ValidationError::ParseFailure => ValidationErrorView::ParseFailure,
        }
    }
}

/// Why a container could not be opened or read.
#[derive(Debug)]
pub enum DatError {
    /// A table or payload reaches past the end of the container.
    Truncated,
    /// A payload with a recognised signature does not decode.
    Format(ValidationError),
}

/// The mathematical value of a `DatError`.
pub enum DatErrorView {
    Truncated,
    Format(ValidationErrorView),
}

impl View for DatError {
    type V = DatErrorView;

    open spec fn view(&self) -> DatErrorView {
        match self {
            DatError::Truncated => DatErrorView::Truncated,
            DatError::Format(e) => DatErrorView::Format(e@),
        }
    }
}

} // verus!
