//! The wire form of one document unit: the payload of a block message.

use vstd::prelude::*;

verus! {

/// Model of a wire block payload.
pub enum BlockModel {
    Title(super::TitleMessageModel),
    Paragraph(Seq<Option<super::sentence::SentenceModel>>),
    Quote(Seq<Option<super::sentence::SentenceModel>>),
    ListItem(super::ListItemModel),
    CodeBlock(super::CodeBlockModel),
    Image(super::ImageModel),
    Line,
    MathBlock(Seq<u8>),
    TableBlock,
    TodoItem(super::TodoItemModel),
    Footer(super::FooterMessageModel),
}

/// One document unit on the wire.
#[derive(Debug, Clone, PartialEq)]
pub enum Block {
    Title(super::Title),
    Paragraph(super::Paragraph),
    Quote(super::Quote),
    ListItem(super::ListItem),
    CodeBlock(super::CodeBlock),
    Image(super::Image),
    Line(super::Line),
    MathBlock(super::MathBlock),
    TableBlock(super::TableBlock),
    TodoItem(super::TodoItem),
    Footer(super::Footer),
}

impl DeepView for Block {
    type V = BlockModel;

    open spec fn deep_view(&self) -> BlockModel {
        match self {
            Block::Title(t) => BlockModel::Title(t.deep_view()),
            Block::Paragraph(p) => BlockModel::Paragraph(p.deep_view()),
            Block::Quote(q) => BlockModel::Quote(q.deep_view()),
            Block::ListItem(l) => BlockModel::ListItem(l.deep_view()),
            Block::CodeBlock(c) => BlockModel::CodeBlock(c.deep_view()),
            Block::Image(i) => BlockModel::Image(i.deep_view()),
            Block::Line(_) => BlockModel::Line,
            Block::MathBlock(m) => BlockModel::MathBlock(m.math@),
            Block::TableBlock(_) => BlockModel::TableBlock,
            Block::TodoItem(t) => BlockModel::TodoItem(t.deep_view()),
            Block::Footer(f) => BlockModel::Footer(f.deep_view()),
        }
    }
}

} // verus!
