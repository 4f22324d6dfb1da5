//! The wire-format data model: the message types a target-representation
//! encoder serializes. They mirror the parsed document tree with plain
//! fields (numeric level codes, optional sub-messages) and carry text as
//! bytes; an encoder turns them into its wire bytes outside this crate.

use vstd::prelude::*;
use crate::bytes::opt_bytes_view;

pub mod block;
pub mod sentence;
pub mod title;

verus! {

/// Model of a [`Title`] message.
pub struct TitleMessageModel {
    pub level: i32,
    pub content: Option<Seq<Option<sentence::SentenceModel>>>,
}

/// Model of a [`ListItem`] message.
pub struct ListItemModel {
    pub level: u32,
    pub index: Option<u32>,
    pub content: Option<Seq<Option<sentence::SentenceModel>>>,
}

/// Model of a [`CodeBlock`] message.
pub struct CodeBlockModel {
    pub language: Option<Seq<u8>>,
    pub code: Seq<u8>,
}

/// Model of an [`Image`] message.
pub struct ImageModel {
    pub title: Option<Seq<u8>>,
    pub src: Option<Seq<u8>>,
}

/// Model of a [`TodoItem`] message.
pub struct TodoItemModel {
    pub is_finished: bool,
    pub content: Option<Seq<Option<sentence::SentenceModel>>>,
}

/// Model of a [`Footer`] message.
pub struct FooterMessageModel {
    pub index: Option<Seq<u8>>,
    pub content: Option<Seq<Option<sentence::SentenceModel>>>,
}

/// Model of a [`Text`] message.
pub struct TextModel {
    pub content: Seq<u8>,
    pub is_bold: bool,
    pub is_italic: bool,
    pub is_strike: bool,
}

/// Model of a [`Link`] message.
pub struct LinkModel {
    pub content: Seq<u8>,
    pub href: Option<Seq<u8>>,
}

/// The top-level wire message: one block, or nothing when the source block
/// could not be parsed.
#[derive(Debug, Clone, PartialEq)]
pub struct Block {
    pub block: Option<block::Block>,
}

impl DeepView for Block {
    type V = Option<block::BlockModel>;

    open spec fn deep_view(&self) -> Option<block::BlockModel> {
        match &self.block {
            Some(b) => Some(b.deep_view()),
            None => None,
        }
    }
}

/// A heading on the wire: a numeric level code and its inline content.
#[derive(Debug, Clone, PartialEq)]
pub struct Title {
    pub level: i32,
    pub content: Option<Paragraph>,
}

impl DeepView for Title {
    type V = TitleMessageModel;

    open spec fn deep_view(&self) -> TitleMessageModel {
        TitleMessageModel { level: self.level, content: self.content.deep_view() }
    }
}

/// An ordered sequence of wire sentences.
#[derive(Debug, Clone, PartialEq)]
pub struct Paragraph {
    pub sentences: Vec<Sentence>,
}

impl DeepView for Paragraph {
    type V = Seq<Option<sentence::SentenceModel>>;

    open spec fn deep_view(&self) -> Seq<Option<sentence::SentenceModel>> {
        self.sentences.deep_view()
    }
}

/// A quote on the wire: its inline content.
#[derive(Debug, Clone, PartialEq)]
pub struct Quote {
    pub sentences: Vec<Sentence>,
}

impl DeepView for Quote {
    type V = Seq<Option<sentence::SentenceModel>>;

    open spec fn deep_view(&self) -> Seq<Option<sentence::SentenceModel>> {
        self.sentences.deep_view()
    }
}

/// A list item on the wire.
#[derive(Debug, Clone, PartialEq)]
pub struct ListItem {
    pub level: u32,
    pub index: Option<u32>,
    pub content: Option<Paragraph>,
}

impl DeepView for ListItem {
    type V = ListItemModel;

    open spec fn deep_view(&self) -> ListItemModel {
        ListItemModel {
            level: self.level,
            index: self.index,
            content: self.content.deep_view(),
        }
    }
}

/// A code block on the wire.
#[derive(Debug, Clone, PartialEq)]
pub struct CodeBlock {
    pub language: Option<Vec<u8>>,
    pub code: Vec<u8>,
}

impl DeepView for CodeBlock {
    type V = CodeBlockModel;

    open spec fn deep_view(&self) -> CodeBlockModel {
        CodeBlockModel { language: opt_bytes_view(self.language), code: self.code@ }
    }
}

/// An image on the wire.
#[derive(Debug, Clone, PartialEq)]
pub struct Image {
    pub title: Option<Vec<u8>>,
    pub src: Option<Vec<u8>>,
}

impl DeepView for Image {
    type V = ImageModel;

    open spec fn deep_view(&self) -> ImageModel {
        ImageModel { title: opt_bytes_view(self.title), src: opt_bytes_view(self.src) }
    }
}

/// A thematic break on the wire; it carries nothing.
#[derive(Debug, Clone, PartialEq)]
pub struct Line {
}

/// A math block on the wire.
#[derive(Debug, Clone, PartialEq)]
pub struct MathBlock {
    pub math: Vec<u8>,
}

impl DeepView for MathBlock {
    type V = Seq<u8>;

    open spec fn deep_view(&self) -> Seq<u8> {
        self.math@
    }
}

/// A table block on the wire; the table extension carries no payload yet.
#[derive(Debug, Clone, PartialEq)]
pub struct TableBlock {
}

/// A todo item on the wire.
#[derive(Debug, Clone, PartialEq)]
pub struct TodoItem {
    pub is_finished: bool,
    pub content: Option<Paragraph>,
}

impl DeepView for TodoItem {
    type V = TodoItemModel;

    open spec fn deep_view(&self) -> TodoItemModel {
        TodoItemModel { is_finished: self.is_finished, content: self.content.deep_view() }
    }
}

/// A footnote definition on the wire.
#[derive(Debug, Clone, PartialEq)]
pub struct Footer {
    pub index: Option<FooterIndex>,
    pub content: Option<Paragraph>,
}

impl DeepView for Footer {
    type V = FooterMessageModel;

    open spec fn deep_view(&self) -> FooterMessageModel {
        FooterMessageModel { index: self.index.deep_view(), content: self.content.deep_view() }
    }
}

/// One inline unit on the wire: a sentence payload, or nothing.
#[derive(Debug, Clone, PartialEq)]
pub struct Sentence {
    pub sentence: Option<sentence::Sentence>,
}

impl DeepView for Sentence {
    type V = Option<sentence::SentenceModel>;

    open spec fn deep_view(&self) -> Option<sentence::SentenceModel> {
        match &self.sentence {
            Some(s) => Some(s.deep_view()),
            None => None,
        }
    }
}

/// A footnote reference label on the wire.
#[derive(Debug, Clone, PartialEq)]
pub struct FooterIndex {
    pub index: Vec<u8>,
}

impl DeepView for FooterIndex {
    type V = Seq<u8>;

    open spec fn deep_view(&self) -> Seq<u8> {
        self.index@
    }
}

/// A text run on the wire.
#[derive(Debug, Clone, PartialEq)]
pub struct Text {
    pub content: Vec<u8>,
    pub is_bold: bool,
    pub is_italic: bool,
    pub is_strike: bool,
}

impl DeepView for Text {
    type V = TextModel;

    open spec fn deep_view(&self) -> TextModel {
        TextModel {
            content: self.content@,
            is_bold: self.is_bold,
            is_italic: self.is_italic,
            is_strike: self.is_strike,
        }
    }
}

/// A link on the wire.
#[derive(Debug, Clone, PartialEq)]
pub struct Link {
    pub content: Vec<u8>,
    pub href: Option<Vec<u8>>,
}

impl DeepView for Link {
    type V = LinkModel;

    open spec fn deep_view(&self) -> LinkModel {
        LinkModel { content: self.content@, href: opt_bytes_view(self.href) }
    }
}

} // verus!
