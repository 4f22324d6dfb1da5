//! The document tree: raw block spans produced by the splitter and typed
//! blocks produced by the parser, together with their mathematical models.
//!
//! All text is carried as bytes of the source document; every node owns its
//! bytes, so no node can dangle.

use vstd::prelude::*;
use crate::bytes::{MdChars, opt_bytes_view};

verus! {

/// Model of a raw, still unparsed block span.
pub enum SplitBlockModel {
    Paragraph(Seq<u8>),
    CodeBlock(Option<Seq<u8>>, Seq<u8>),
    Line,
    MathBlock(Seq<u8>),
}

/// A raw block span as the splitter classified it: a paragraph line, a
/// fenced code block with its optional language tag, a thematic break, or a
/// fenced math block.
#[derive(Debug, Clone, PartialEq)]
pub enum SplitBlock {
    Paragraph(MdChars),
    CodeBlock(Option<Vec<u8>>, MdChars),
    Line,
    MathBlock(MdChars),
}

impl DeepView for SplitBlock {
    type V = SplitBlockModel;

    open spec fn deep_view(&self) -> SplitBlockModel {
        match self {
            SplitBlock::Paragraph(s) => SplitBlockModel::Paragraph(s@),
            SplitBlock::CodeBlock(l, s) => SplitBlockModel::CodeBlock(opt_bytes_view(*l), s@),
            SplitBlock::Line => SplitBlockModel::Line,
            SplitBlock::MathBlock(s) => SplitBlockModel::MathBlock(s@),
        }
    }
}

/// Model of a [`Text`] run.
pub struct TextModel {
    pub content: Seq<u8>,
    pub is_bold: bool,
    pub is_italic: bool,
    pub is_strike: bool,
}

/// Model of a [`Link`].
pub struct LinkModel {
    pub content: Seq<u8>,
    pub href: Option<Seq<u8>>,
}

/// Model of a [`Sentence`].
pub enum SentenceModel {
    Text(TextModel),
    Link(LinkModel),
    Code(Seq<u8>),
    Math(Seq<u8>),
    Emoji(Seq<u8>),
    FooterIndex(Seq<u8>),
}

/// Model of a [`RawLink`].
pub struct RawLinkModel {
    pub content: Seq<u8>,
    pub href: Option<Seq<u8>>,
    pub is_md: bool,
}

/// Model of a [`RawTitle`].
pub struct RawTitleModel {
    pub line: usize,
    pub level: TitleLevel,
    pub content: Seq<u8>,
}

/// Model of an [`Image`].
pub struct ImageModel {
    pub title: Option<Seq<u8>>,
    pub src: Option<Seq<u8>>,
}

/// Model of a [`ListItem`].
pub struct ListItemModel {
    pub level: usize,
    pub index: Option<usize>,
    pub content: Seq<SentenceModel>,
}

/// Model of a [`TodoItem`].
pub struct TodoItemModel {
    pub is_finished: bool,
    pub content: Seq<SentenceModel>,
}

/// Model of a [`Footer`].
pub struct FooterModel {
    pub index: Seq<u8>,
    pub content: Seq<SentenceModel>,
}

/// Model of a [`Title`].
pub struct TitleModel {
    pub level: TitleLevel,
    pub content: Seq<SentenceModel>,
}

/// Model of a [`Block`].
pub enum BlockModel {
    Title(TitleModel),
    Paragraph(Seq<SentenceModel>),
    Quote(Seq<SentenceModel>),
    ListItem(ListItemModel),
    CodeBlock(Option<Seq<u8>>, Seq<u8>),
    Image(ImageModel),
    Line,
    MathBlock(Seq<u8>),
    TodoItem(TodoItemModel),
    Footer(FooterModel),
}

/// A heading depth, clamped to six levels.
#[derive(Debug, Clone, PartialEq)]
pub enum TitleLevel {
    H1,
    H2,
    H3,
    H4,
    H5,
    H6,
}

impl DeepView for TitleLevel {
    type V = TitleLevel;

    open spec fn deep_view(&self) -> TitleLevel {
        *self
    }
}

impl TitleLevel {
    /// The level a numeric heading depth denotes.
    pub open spec fn spec_from_level(level: int) -> TitleLevel {
        if level <= 1 {
            TitleLevel::H1
        } else if level == 2 {
            TitleLevel::H2
        } else if level == 3 {
            TitleLevel::H3
        } else if level == 4 {
            TitleLevel::H4
        } else if level == 5 {
            TitleLevel::H5
        } else {
            TitleLevel::H6
        }
    }

    /// Converts a heading depth between 1 and 6 into a level.
    pub fn from_level(level: usize) -> (r: TitleLevel)
        requires
            1 <= level <= 6,
        ensures
            r == TitleLevel::spec_from_level(level as int),
    {
        if level == 1 {
            TitleLevel::H1
        } else if level == 2 {
            TitleLevel::H2
        } else if level == 3 {
            TitleLevel::H3
        } else if level == 4 {
            TitleLevel::H4
        } else if level == 5 {
            TitleLevel::H5
        } else {
            TitleLevel::H6
        }
    }
}

/// A plain text run with the emphasis flags that were in force when it was
/// scanned. Escape processing has already removed the backslashes from
/// `content`.
#[derive(Debug, Clone, PartialEq)]
pub struct Text {
    pub content: Vec<u8>,
    pub is_bold: bool,
    pub is_italic: bool,
    pub is_strike: bool,
}

impl DeepView for Text {
    type V = TextModel;

    open spec fn deep_view(&self) -> TextModel {
        TextModel {
            content: self.content@,
            is_bold: self.is_bold,
            is_italic: self.is_italic,
            is_strike: self.is_strike,
        }
    }
}

impl Default for Text {
    /// An empty, unemphasized text run.
    fn default() -> (r: Self)
        ensures
            r.deep_view() == (TextModel {
                content: Seq::<u8>::empty(),
                is_bold: false,
                is_italic: false,
                is_strike: false,
            }),
    {
        Text { content: Vec::new(), is_bold: false, is_italic: false, is_strike: false }
    }
}

/// An inline link: the bracketed text and the optional target.
#[derive(Debug, Clone, PartialEq)]
pub struct Link {
    pub content: Vec<u8>,
    pub href: Option<Vec<u8>>,
}

impl DeepView for Link {
    type V = LinkModel;

    open spec fn deep_view(&self) -> LinkModel {
        LinkModel { content: self.content@, href: opt_bytes_view(self.href) }
    }
}

/// Does the target start with the `md://` scheme prefix
/// (bytes `m`, `d`, `:`, `/`, `/`)?
pub open spec fn is_md_href(h: Seq<u8>) -> bool {
    h.len() >= 5 && h[0] == 109 && h[1] == 100 && h[2] == 58 && h[3] == 47 && h[4] == 47
}

/// What [`RawLink`] a [`Link`] flattens to.
pub open spec fn raw_link_of(l: LinkModel) -> RawLinkModel {
    RawLinkModel {
        content: l.content,
        href: l.href,
        is_md: match l.href {
            Some(h) => is_md_href(h),
            None => false,
        },
    }
}

/// A link flattened for reference extraction: `is_md` records whether the
/// target starts with the `md://` scheme prefix.
#[derive(Debug, Clone, PartialEq)]
pub struct RawLink {
    pub content: Vec<u8>,
    pub href: Option<Vec<u8>>,
    pub is_md: bool,
}

impl DeepView for RawLink {
    type V = RawLinkModel;

    open spec fn deep_view(&self) -> RawLinkModel {
        RawLinkModel {
            content: self.content@,
            href: opt_bytes_view(self.href),
            is_md: self.is_md,
        }
    }
}

impl RawLink {
    /// Flattens a parsed link, testing its target for the `md://` prefix.
    pub fn from_link(value: &Link) -> (r: RawLink)
        ensures
            r.deep_view() == raw_link_of(value.deep_view()),
    {
        let (href, is_md) = match &value.href {
            Some(h) => {
                let is_md = if h.len() >= 5 {
                    h[0] == 109 && h[1] == 100 && h[2] == 58 && h[3] == 47 && h[4] == 47
                } else {
                    false
                };
                (Some(crate::bytes::clone_bytes(h)), is_md)
            },
            None => (None, false),
        };
        RawLink { content: crate::bytes::clone_bytes(&value.content), href, is_md }
    }
}

/// A sentence: one inline unit within a paragraph.
#[derive(Debug, Clone, PartialEq)]
pub enum Sentence {
    Text(Text),
    Link(Link),
    Code(Vec<u8>),
    Math(Vec<u8>),
    Emoji(Vec<u8>),
    FooterIndex(FooterIndex),
}

impl DeepView for Sentence {
    type V = SentenceModel;

    open spec fn deep_view(&self) -> SentenceModel {
        match self {
            Sentence::Text(t) => SentenceModel::Text(t.deep_view()),
            Sentence::Link(l) => SentenceModel::Link(l.deep_view()),
            Sentence::Code(c) => SentenceModel::Code(c@),
            Sentence::Math(m) => SentenceModel::Math(m@),
            Sentence::Emoji(e) => SentenceModel::Emoji(e@),
            Sentence::FooterIndex(f) => SentenceModel::FooterIndex(f.0@),
        }
    }
}

/// An ordered sequence of sentences; the order is significant and
/// re-serialization must reproduce it.
#[derive(Debug, Clone, PartialEq)]
pub struct Paragraph(pub Vec<Sentence>);

impl DeepView for Paragraph {
    type V = Seq<SentenceModel>;

    open spec fn deep_view(&self) -> Seq<SentenceModel> {
        self.0.deep_view()
    }
}

/// A parsed heading: its clamped level and its inline content.
#[derive(Debug, Clone, PartialEq)]
pub struct Title {
    pub level: TitleLevel,
    pub content: Paragraph,
}

impl DeepView for Title {
    type V = TitleModel;

    open spec fn deep_view(&self) -> TitleModel {
        TitleModel { level: self.level, content: self.content.deep_view() }
    }
}

/// A heading reduced for outline extraction: its 0-based span position, its
/// level and its raw text.
#[derive(Debug, Clone, PartialEq)]
pub struct RawTitle {
    pub line: usize,
    pub level: TitleLevel,
    pub content: Vec<u8>,
}

impl DeepView for RawTitle {
    type V = RawTitleModel;

    open spec fn deep_view(&self) -> RawTitleModel {
        RawTitleModel { line: self.line, level: self.level, content: self.content@ }
    }
}

/// An image: optional title text and optional source.
#[derive(Debug, Clone, PartialEq)]
pub struct Image {
    pub title: Option<Vec<u8>>,
    pub src: Option<Vec<u8>>,
}

impl DeepView for Image {
    type V = ImageModel;

    open spec fn deep_view(&self) -> ImageModel {
        ImageModel { title: opt_bytes_view(self.title), src: opt_bytes_view(self.src) }
    }
}

/// A list item: `level` counts leading tabs; `index` is present exactly for
/// ordered-list markers.
#[derive(Debug, Clone, PartialEq)]
pub struct ListItem {
    pub level: usize,
    pub index: Option<usize>,
    pub content: Paragraph,
}

impl DeepView for ListItem {
    type V = ListItemModel;

    open spec fn deep_view(&self) -> ListItemModel {
        ListItemModel {
            level: self.level,
            index: self.index.deep_view(),
            content: self.content.deep_view(),
        }
    }
}

/// A todo item: finished state and inline content.
#[derive(Debug, Clone, PartialEq)]
pub struct TodoItem {
    pub is_finished: bool,
    pub content: Paragraph,
}

impl DeepView for TodoItem {
    type V = TodoItemModel;

    open spec fn deep_view(&self) -> TodoItemModel {
        TodoItemModel { is_finished: self.is_finished, content: self.content.deep_view() }
    }
}

/// A footnote reference by label, as a sentence within a paragraph.
#[derive(Debug, Clone, PartialEq)]
pub struct FooterIndex(pub Vec<u8>);

impl DeepView for FooterIndex {
    type V = Seq<u8>;

    open spec fn deep_view(&self) -> Seq<u8> {
        self.0@
    }
}

/// A footnote definition: its label and its body.
#[derive(Debug, Clone, PartialEq)]
pub struct Footer {
    pub index: FooterIndex,
    pub content: Paragraph,
}

impl DeepView for Footer {
    type V = FooterModel;

    open spec fn deep_view(&self) -> FooterModel {
        FooterModel { index: self.index.deep_view(), content: self.content.deep_view() }
    }
}

/// One parsed top-level document unit.
#[derive(Debug, Clone, PartialEq)]
pub enum Block {
    Title(Title),
    Paragraph(Paragraph),
    Quote(Paragraph),
    ListItem(ListItem),
    CodeBlock(Option<Vec<u8>>, Vec<u8>),
    Image(Image),
    Line,
    MathBlock(Vec<u8>),
    TodoItem(TodoItem),
    Footer(Footer),
}

impl DeepView for Block {
    type V = BlockModel;

    open spec fn deep_view(&self) -> BlockModel {
        match self {
            Block::Title(t) => BlockModel::Title(t.deep_view()),
            Block::Paragraph(p) => BlockModel::Paragraph(p.deep_view()),
            Block::Quote(p) => BlockModel::Quote(p.deep_view()),
            Block::ListItem(l) => BlockModel::ListItem(l.deep_view()),
            Block::CodeBlock(l, c) => BlockModel::CodeBlock(opt_bytes_view(*l), c@),
            Block::Image(i) => BlockModel::Image(i.deep_view()),
            Block::Line => BlockModel::Line,
            Block::MathBlock(m) => BlockModel::MathBlock(m@),
            Block::TodoItem(t) => BlockModel::TodoItem(t.deep_view()),
            Block::Footer(f) => BlockModel::Footer(f.deep_view()),
        }
    }
}

/// The model of a parse result.
pub open spec fn result_view(r: Result<Block, crate::err::MdError>) -> Result<
    BlockModel,
    crate::err::MdErrorModel,
> {
    match r {
        Ok(b) => Ok(b.deep_view()),
        Err(e) => Err(e.deep_view()),
    }
}

} // verus!
