//! The error taxonomy: one kind per syntactic construct that can fail to
//! parse; each carries the explanation of the expected token that was
//! missing.

use vstd::prelude::*;

verus! {

/// Mathematical model of an [`MdError`]: the same kinds over character
/// sequences.
pub enum MdErrorModel {
    ImageError(Seq<char>),
    NumberError(Seq<char>),
    LinkError(Seq<char>),
    ListError(Seq<char>),
    QuoteError(Seq<char>),
    ParagraphError(Seq<char>),
    TitleError(Seq<char>),
    TodoError(Seq<char>),
    FooterError(Seq<char>),
    TableError(Seq<char>),
}

/// A parse failure, localized to one block.
#[derive(Debug, Clone, PartialEq)]
pub enum MdError {
    ImageError(String),
    NumberError(String),
    LinkError(String),
    ListError(String),
    QuoteError(String),
    ParagraphError(String),
    TitleError(String),
    TodoError(String),
    FooterError(String),
    TableError(String),
}

impl DeepView for MdError {
    type V = MdErrorModel;

    open spec fn deep_view(&self) -> MdErrorModel {
        match self {
            MdError::ImageError(s) => MdErrorModel::ImageError(s@),
            MdError::NumberError(s) => MdErrorModel::NumberError(s@),
            MdError::LinkError(s) => MdErrorModel::LinkError(s@),
            MdError::ListError(s) => MdErrorModel::ListError(s@),
            MdError::QuoteError(s) => MdErrorModel::QuoteError(s@),
            MdError::ParagraphError(s) => MdErrorModel::ParagraphError(s@),
            MdError::TitleError(s) => MdErrorModel::TitleError(s@),
            MdError::TodoError(s) => MdErrorModel::TodoError(s@),
            MdError::FooterError(s) => MdErrorModel::FooterError(s@),
            MdError::TableError(s) => MdErrorModel::TableError(s@),
        }
    }
}

impl MdError {
    /// The explanation text carried by the error.
    pub fn message(&self) -> (r: &String)
        ensures
            r@ == match self.deep_view() {
                MdErrorModel::ImageError(s) => s,
                MdErrorModel::NumberError(s) => s,
                MdErrorModel::LinkError(s) => s,
                MdErrorModel::ListError(s) => s,
                MdErrorModel::QuoteError(s) => s,
                MdErrorModel::ParagraphError(s) => s,
                MdErrorModel::TitleError(s) => s,
                MdErrorModel::TodoError(s) => s,
                MdErrorModel::FooterError(s) => s,
                MdErrorModel::TableError(s) => s,
            },
    {
        match self {
            MdError::ImageError(s) => s,
            MdError::NumberError(s) => s,
            MdError::LinkError(s) => s,
            MdError::ListError(s) => s,
            MdError::QuoteError(s) => s,
            MdError::ParagraphError(s) => s,
            MdError::TitleError(s) => s,
            MdError::TodoError(s) => s,
            MdError::FooterError(s) => s,
            MdError::TableError(s) => s,
        }
    }
}

} // verus!
