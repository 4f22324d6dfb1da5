//! The wire-format generator: maps every parse result to its wire message,
//! through the parallel-capable dispatch pipeline.
//!
//! A parse error maps to an empty wire message rather than aborting: per-
//! block errors are locally recoverable, and a consumer that requires
//! whole-document success can test for the empty message itself.

use vstd::prelude::*;
use crate::bytes::{clone_bytes, clone_opt_bytes};
use crate::err::{MdError, MdErrorModel};
use crate::expr::{
    Block, BlockModel, Footer, FooterIndex, Image, Link, ListItem, Paragraph, Sentence,
    SentenceModel, Text, Title, TitleLevel, TodoItem,
};
use crate::generator::ParaGenerator;
use crate::proto;

verus! {

/// The wire sentence a parsed sentence maps to.
pub open spec fn proto_sentence_spec(s: SentenceModel) -> proto::sentence::SentenceModel {
    match s {
        SentenceModel::Text(t) => proto::sentence::SentenceModel::Text(
            proto::TextModel {
                content: t.content,
                is_bold: t.is_bold,
                is_italic: t.is_italic,
                is_strike: t.is_strike,
            },
        ),
        SentenceModel::Link(l) => proto::sentence::SentenceModel::Link(
            proto::LinkModel { content: l.content, href: l.href },
        ),
        SentenceModel::Code(c) => proto::sentence::SentenceModel::Code(c),
        SentenceModel::Math(m) => proto::sentence::SentenceModel::Math(m),
        SentenceModel::Emoji(e) => proto::sentence::SentenceModel::Emoji(e),
        SentenceModel::FooterIndex(f) => proto::sentence::SentenceModel::FooterIndex(f),
    }
}

/// The wire sentence sequence a paragraph maps to, in order.
pub open spec fn proto_paragraph_spec(ss: Seq<SentenceModel>) -> Seq<
    Option<proto::sentence::SentenceModel>,
> {
    ss.map_values(|s: SentenceModel| Some(proto_sentence_spec(s)))
}

/// The numeric wire code of a heading level.
pub open spec fn level_code(l: TitleLevel) -> i32 {
    match l {
        TitleLevel::H1 => 0,
        TitleLevel::H2 => 1,
        TitleLevel::H3 => 2,
        TitleLevel::H4 => 3,
        TitleLevel::H5 => 4,
        TitleLevel::H6 => 5,
    }
}

/// The wire block a parse result maps to: the mapped block for a success,
/// an empty message for a parse failure.
pub open spec fn proto_block_spec(r: Result<BlockModel, MdErrorModel>) -> Option<
    proto::block::BlockModel,
> {
    match r {
        Ok(b) => Some(
            match b {
                BlockModel::Title(t) => proto::block::BlockModel::Title(
                    proto::TitleMessageModel {
                        level: level_code(t.level),
                        content: Some(proto_paragraph_spec(t.content)),
                    },
                ),
                BlockModel::Paragraph(p) => proto::block::BlockModel::Paragraph(
                    proto_paragraph_spec(p),
                ),
                BlockModel::Quote(p) => proto::block::BlockModel::Quote(proto_paragraph_spec(p)),
                BlockModel::ListItem(li) => proto::block::BlockModel::ListItem(
                    proto::ListItemModel {
                        level: li.level as u32,
                        index: match li.index {
                            Some(i) => Some(i as u32),
                            None => None,
                        },
                        content: Some(proto_paragraph_spec(li.content)),
                    },
                ),
                BlockModel::CodeBlock(l, c) => proto::block::BlockModel::CodeBlock(
                    proto::CodeBlockModel { language: l, code: c },
                ),
                BlockModel::Image(i) => proto::block::BlockModel::Image(
                    proto::ImageModel { title: i.title, src: i.src },
                ),
                BlockModel::Line => proto::block::BlockModel::Line,
                BlockModel::MathBlock(m) => proto::block::BlockModel::MathBlock(m),
                BlockModel::TodoItem(t) => proto::block::BlockModel::TodoItem(
                    proto::TodoItemModel {
                        is_finished: t.is_finished,
                        content: Some(proto_paragraph_spec(t.content)),
                    },
                ),
                BlockModel::Footer(f) => proto::block::BlockModel::Footer(
                    proto::FooterMessageModel {
                        index: Some(f.index),
                        content: Some(proto_paragraph_spec(f.content)),
                    },
                ),
            },
        ),
        Err(_) => None,
    }
}

/// The wire-format generator; its threshold decides when the dispatch
/// pipeline fans out.
pub struct ProtoGenerator {
    parallel_threshold: usize,
}

impl ProtoGenerator {
    /// The configured span-count threshold.
    pub closed spec fn threshold(&self) -> usize {
        self.parallel_threshold
    }

    /// A generator with the given parallel threshold.
    pub fn new(parallel_threshold: usize) -> (r: Self)
        ensures
            r.threshold() == parallel_threshold,
    {
        Self { parallel_threshold }
    }

    /// The current parallel threshold.
    pub fn get_threshold(&self) -> (r: usize)
        ensures
            r == self.threshold(),
    {
        self.parallel_threshold
    }

    /// Reconfigures the parallel threshold.
    pub fn set_threshold(&mut self, parallel_threshold: usize)
        ensures
            final(self).threshold() == parallel_threshold,
    {
        self.parallel_threshold = parallel_threshold;
    }

    /// Maps a heading to its wire message.
    pub fn generate_title(&self, title: &Title) -> (r: proto::Title)
        ensures
            r.deep_view() == (proto::TitleMessageModel {
                level: level_code(title.level),
                content: Some(proto_paragraph_spec(title.content.deep_view())),
            }),
    {
        let level: i32 = match title.level {
            TitleLevel::H1 => 0,
            TitleLevel::H2 => 1,
            TitleLevel::H3 => 2,
            TitleLevel::H4 => 3,
            TitleLevel::H5 => 4,
            TitleLevel::H6 => 5,
        };
        proto::Title { level, content: Some(self.generate_paragraph(&title.content)) }
    }

    /// Maps inline content to its ordered wire sentences.
    pub fn generate_paragraph(&self, paragraph: &Paragraph) -> (r: proto::Paragraph)
        ensures
            r.deep_view() == proto_paragraph_spec(paragraph.deep_view()),
    {
        let ghost pm = paragraph.deep_view();
        let mut sentences: Vec<proto::Sentence> = Vec::new();
        proof {
            assert(sentences.deep_view() =~= proto_paragraph_spec(pm).take(0));
        }
        let n = paragraph.0.len();
        let mut i: usize = 0;
        while i < n
            invariant
                n == paragraph.0@.len(),
                pm == paragraph.deep_view(),
                pm.len() == n,
                0 <= i <= n,
                sentences.deep_view() == proto_paragraph_spec(pm).take(i as int),
            decreases n - i,
        {
            let s = self.generate_sentence(&paragraph.0[i]);
            proof {
                assert(paragraph.0@[i as int].deep_view() == pm[i as int]);
                assert(proto_paragraph_spec(pm)[i as int] == Some(
                    proto_sentence_spec(pm[i as int]),
                ));
            }
            let ghost odv = sentences.deep_view();
            sentences.push(s);
            proof {
                assert(sentences.deep_view() =~= odv.push(
                    sentences@[odv.len() as int].deep_view(),
                ));
                assert(proto_paragraph_spec(pm).take(i as int).push(
                    proto_paragraph_spec(pm)[i as int],
                ) =~= proto_paragraph_spec(pm).take(i + 1));
            }
            i = i + 1;
        }
        proof {
            assert(proto_paragraph_spec(pm).take(n as int) =~= proto_paragraph_spec(pm));
        }
        proto::Paragraph { sentences }
    }

    /// Maps quoted inline content to its ordered wire sentences.
    pub fn generate_quote(&self, quote: &Paragraph) -> (r: proto::Quote)
        ensures
            r.deep_view() == proto_paragraph_spec(quote.deep_view()),
    {
        let p = self.generate_paragraph(quote);
        proto::Quote { sentences: p.sentences }
    }

    /// Maps a code block to its wire message.
    pub fn generate_code_block(&self, language: Option<Vec<u8>>, code: &Vec<u8>) -> (r:
        proto::CodeBlock)
        ensures
            r.deep_view() == (proto::CodeBlockModel {
                language: crate::bytes::opt_bytes_view(language),
                code: code@,
            }),
    {
        proto::CodeBlock { language, code: clone_bytes(code) }
    }

    /// Maps a list item to its wire message; the nesting level and ordinal
    /// are truncated to the wire's 32-bit fields.
    pub fn generate_list_item(&self, list_item: &ListItem) -> (r: proto::ListItem)
        ensures
            r.deep_view() == (proto::ListItemModel {
                level: list_item.level as u32,
                index: match list_item.index {
                    Some(i) => Some(i as u32),
                    None => None,
                },
                content: Some(proto_paragraph_spec(list_item.content.deep_view())),
            }),
    {
        proto::ListItem {
            level: #[verifier::truncate] (list_item.level as u32),
            index: match list_item.index {
                Some(i) => Some(#[verifier::truncate] (i as u32)),
                None => None,
            },
            content: Some(self.generate_paragraph(&list_item.content)),
        }
    }

    /// Maps an image to its wire message.
    pub fn generate_image(&self, image: &Image) -> (r: proto::Image)
        ensures
            r.deep_view() == (proto::ImageModel {
                title: crate::bytes::opt_bytes_view(image.title),
                src: crate::bytes::opt_bytes_view(image.src),
            }),
    {
        proto::Image {
            title: clone_opt_bytes(&image.title),
            src: clone_opt_bytes(&image.src),
        }
    }

    /// Maps a math block to its wire message.
    pub fn generate_math_block(&self, math_block: &Vec<u8>) -> (r: proto::MathBlock)
        ensures
            r.deep_view() == math_block@,
    {
        proto::MathBlock { math: clone_bytes(math_block) }
    }

    /// Maps the table extension's empty payload to its wire message.
    pub fn generate_table_block(&self, _table_block: Option<()>) -> (r: proto::TableBlock) {
        proto::TableBlock {  }
    }

    /// Maps a todo item to its wire message.
    pub fn generate_todo_item(&self, todo_item: &TodoItem) -> (r: proto::TodoItem)
        ensures
            r.deep_view() == (proto::TodoItemModel {
                is_finished: todo_item.is_finished,
                content: Some(proto_paragraph_spec(todo_item.content.deep_view())),
            }),
    {
        proto::TodoItem {
            is_finished: todo_item.is_finished,
            content: Some(self.generate_paragraph(&todo_item.content)),
        }
    }

    /// Maps a footnote definition to its wire message.
    pub fn generate_footer(&self, footer: &Footer) -> (r: proto::Footer)
        ensures
            r.deep_view() == (proto::FooterMessageModel {
                index: Some(footer.index.deep_view()),
                content: Some(proto_paragraph_spec(footer.content.deep_view())),
            }),
    {
        proto::Footer {
            index: Some(self.generate_footer_index(&footer.index)),
            content: Some(self.generate_paragraph(&footer.content)),
        }
    }

    /// Maps a footnote reference label to its wire message.
    pub fn generate_footer_index(&self, footer_index: &FooterIndex) -> (r: proto::FooterIndex)
        ensures
            r.deep_view() == footer_index.deep_view(),
    {
        proto::FooterIndex { index: clone_bytes(&footer_index.0) }
    }

    /// Maps one sentence to its wire message.
    pub fn generate_sentence(&self, sentence: &Sentence) -> (r: proto::Sentence)
        ensures
            r.deep_view() == Some(proto_sentence_spec(sentence.deep_view())),
    {
        proto::Sentence {
            sentence: Some(
                match sentence {
                    Sentence::Text(text) => proto::sentence::Sentence::Text(
                        self.generate_text(text),
                    ),
                    Sentence::Link(link) => proto::sentence::Sentence::Link(
                        self.generate_link(link),
                    ),
                    Sentence::Code(code) => proto::sentence::Sentence::Code(clone_bytes(code)),
                    Sentence::Math(math) => proto::sentence::Sentence::Math(clone_bytes(math)),
                    Sentence::Emoji(emoji) => proto::sentence::Sentence::Emoji(
                        clone_bytes(emoji),
                    ),
                    Sentence::FooterIndex(index) => proto::sentence::Sentence::FooterIndex(
                        self.generate_footer_index(index),
                    ),
                },
            ),
        }
    }

    /// Maps a link to its wire message.
    pub fn generate_link(&self, link: &Link) -> (r: proto::Link)
        ensures
            r.deep_view() == (proto::LinkModel {
                content: link.content@,
                href: crate::bytes::opt_bytes_view(link.href),
            }),
    {
        proto::Link { content: clone_bytes(&link.content), href: clone_opt_bytes(&link.href) }
    }

    /// Maps a text run to its wire message.
    pub fn generate_text(&self, text: &Text) -> (r: proto::Text)
        ensures
            r.deep_view() == (proto::TextModel {
                content: text.content@,
                is_bold: text.is_bold,
                is_italic: text.is_italic,
                is_strike: text.is_strike,
            }),
    {
        proto::Text {
            content: clone_bytes(&text.content),
            is_bold: text.is_bold,
            is_italic: text.is_italic,
            is_strike: text.is_strike,
        }
    }
}

impl ParaGenerator<proto::Block> for ProtoGenerator {
    open spec fn gen_spec(&self, block: Result<BlockModel, MdErrorModel>) -> Option<
        proto::block::BlockModel,
    > {
        proto_block_spec(block)
    }

    fn parallel_threshold(&self) -> usize {
        self.parallel_threshold
    }

    fn generate(&self, block: &Result<Block, MdError>) -> (r: proto::Block) {
        let b = match block {
            Ok(block) => Some(
                match block {
                    Block::Title(title) => proto::block::Block::Title(
                        self.generate_title(title),
                    ),
                    Block::Paragraph(paragraph) => proto::block::Block::Paragraph(
                        self.generate_paragraph(paragraph),
                    ),
                    Block::Quote(paragraph) => proto::block::Block::Quote(
                        self.generate_quote(paragraph),
                    ),
                    Block::Image(image) => proto::block::Block::Image(
                        self.generate_image(image),
                    ),
                    Block::CodeBlock(lang, code) => proto::block::Block::CodeBlock(
                        self.generate_code_block(clone_opt_bytes(lang), code),
                    ),
                    Block::MathBlock(math) => proto::block::Block::MathBlock(
                        self.generate_math_block(math),
                    ),
                    Block::Line => proto::block::Block::Line(proto::Line {  }),
                    Block::Footer(footer) => proto::block::Block::Footer(
                        self.generate_footer(footer),
                    ),
                    Block::ListItem(list_item) => proto::block::Block::ListItem(
                        self.generate_list_item(list_item),
                    ),
                    Block::TodoItem(todo_item) => proto::block::Block::TodoItem(
                        self.generate_todo_item(todo_item),
                    ),
                },
            ),
            Err(_) => None,
        };
        proto::Block { block: b }
    }
}

} // verus!
