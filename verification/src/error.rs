//! The failures of parsing, linking and rendering.

use vstd::prelude::*;

verus! {

/// Why a schema gave no document. Every failure carries a message for
/// the reader.
#[derive(Debug, PartialEq)]
pub enum AvroError {
    /// A node of another kind stands where a certain kind is required.
    InvalidASTDataType(String),
    /// The text does not follow the grammar.
    FailedParsing(String),
    /// A protocol, record or enum has no name.
    MissingName(String),
    /// A field refers to a type that no declaration defines.
    UndefinedReference(String),
}

/// The model of an [`AvroError`].
pub enum AvroErrorView {
    InvalidASTDataType(Seq<char>),
    FailedParsing(Seq<char>),
    MissingName(Seq<char>),
    UndefinedReference(Seq<char>),
}

impl AvroErrorView {
    /// The message that the failure carries.
    pub open spec fn message(self) -> Seq<char> {
        match self {
            AvroErrorView::InvalidASTDataType(message) => message,
            AvroErrorView::FailedParsing(message) => message,
            AvroErrorView::MissingName(message) => message,
            AvroErrorView::UndefinedReference(message) => message,
        }
    }
}

impl DeepView for AvroError {
    type V = AvroErrorView;

    open spec fn deep_view(&self) -> AvroErrorView {
        match self {
            AvroError::InvalidASTDataType(message) => AvroErrorView::InvalidASTDataType(message@),
            AvroError::FailedParsing(message) => AvroErrorView::FailedParsing(message@),
            AvroError::MissingName(message) => AvroErrorView::MissingName(message@),
            AvroError::UndefinedReference(message) => AvroErrorView::UndefinedReference(message@),
        }
    }
}

impl Clone for AvroError {
    fn clone(&self) -> (res: Self)
        ensures
            res == *self,
    {
        match self {
            AvroError::InvalidASTDataType(message) => AvroError::InvalidASTDataType(
                message.clone(),
            ),
            AvroError::FailedParsing(message) => AvroError::FailedParsing(message.clone()),
            AvroError::MissingName(message) => AvroError::MissingName(message.clone()),
            AvroError::UndefinedReference(message) => AvroError::UndefinedReference(
                message.clone(),
            ),
        }
    }
}

impl AvroError {
    /// The message of the failure, as it is shown to the reader.
    pub fn message(&self) -> (res: String)
        ensures
            res@ == self.deep_view().message(),
    {
        match self {
            AvroError::InvalidASTDataType(message) => message.clone(),
            AvroError::FailedParsing(message) => message.clone(),
            AvroError::MissingName(message) => message.clone(),
            AvroError::UndefinedReference(message) => message.clone(),
        }
    }
}

} // verus!
