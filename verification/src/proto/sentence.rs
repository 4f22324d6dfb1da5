//! The wire form of one inline unit: the payload of a sentence message.

use vstd::prelude::*;
use crate::bytes::opt_bytes_view;

verus! {

/// Model of a wire sentence payload.
pub enum SentenceModel {
    Text(super::TextModel),
    Link(super::LinkModel),
    Code(Seq<u8>),
    Math(Seq<u8>),
    Emoji(Seq<u8>),
    FooterIndex(Seq<u8>),
}

/// One inline unit on the wire.
#[derive(Debug, Clone, PartialEq)]
pub enum Sentence {
    Text(super::Text),
    Link(super::Link),
    Code(Vec<u8>),
    Math(Vec<u8>),
    Emoji(Vec<u8>),
    FooterIndex(super::FooterIndex),
}

impl DeepView for Sentence {
    type V = SentenceModel;

    open spec fn deep_view(&self) -> SentenceModel {
        match self {
            Sentence::Text(t) => SentenceModel::Text(
                super::TextModel {
                    content: t.content@,
                    is_bold: t.is_bold,
                    is_italic: t.is_italic,
                    is_strike: t.is_strike,
                },
            ),
            Sentence::Link(l) => SentenceModel::Link(
                super::LinkModel { content: l.content@, href: opt_bytes_view(l.href) },
            ),
            Sentence::Code(c) => SentenceModel::Code(c@),
            Sentence::Math(m) => SentenceModel::Math(m@),
            Sentence::Emoji(e) => SentenceModel::Emoji(e@),
            Sentence::FooterIndex(f) => SentenceModel::FooterIndex(f.index@),
        }
    }
}

} // verus!
