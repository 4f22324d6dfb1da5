//! The block parser with its inline sub-parser, together with the spec
//! functions that define what parsing means.
//!
//! Every exec function is proved equal to a spec function over the span's
//! bytes and the parser's emphasis-toggle state, so the whole pipeline has a
//! mathematical reading: `process_spec` says exactly which block (or which
//! error) every raw span parses to.

use vstd::prelude::*;
use crate::bytes::{clone_opt_bytes, remaining};
use crate::err::{MdError, MdErrorModel};
use crate::expr::{
    Block, BlockModel, Footer, FooterIndex, FooterModel, Image, ImageModel, Link, LinkModel,
    ListItem, ListItemModel, Paragraph, RawLink, RawLinkModel, RawTitle, RawTitleModel, Sentence,
    SentenceModel, SplitBlock, SplitBlockModel, Text, TextModel, Title, TitleLevel, TitleModel,
    TodoItem, TodoItemModel, is_md_href, raw_link_of,
};

verus! {

/// Model of the parser's per-block emphasis-toggle state: two bold styles,
/// two italic styles, and strike-through. The flags persist across sentence
/// boundaries within one block; markers act as on/off switches, not as
/// matched pairs.
pub struct ParserModel {
    pub is_bold_1: bool,
    pub is_bold_2: bool,
    pub is_italic_1: bool,
    pub is_italic_2: bool,
    pub is_strike: bool,
}

/// The state every fresh parser starts in: all toggles off.
pub open spec fn init_parser() -> ParserModel {
    ParserModel {
        is_bold_1: false,
        is_bold_2: false,
        is_italic_1: false,
        is_italic_2: false,
        is_strike: false,
    }
}

/// Bytes that end a plain text run: emphasis markers, span openers and the
/// structural bracket bytes.
pub open spec fn is_plain_stop(b: u8) -> bool {
    ||| b == 96
    ||| b == 95
    ||| b == 42
    ||| b == 91
    ||| b == 93
    ||| b == 40
    ||| b == 41
    ||| b == 36
    ||| b == 126
    ||| b == 123
    ||| b == 125
    ||| b == 58
}

/// Scans a plain text run beginning at `i`: the pair of how many bytes the
/// run occupies in the source and the run's content. A backslash escapes the
/// byte after it: the backslash is dropped from the content and the escaped
/// byte is kept without being tested as a stop byte. A backslash as the very
/// last byte is consumed and contributes nothing.
pub open spec fn plain_scan(s: Seq<u8>, i: int) -> (nat, Seq<u8>)
    decreases remaining(s, i),
{
    if i < 0 || i >= s.len() {
        (0 as nat, Seq::<u8>::empty())
    } else if is_plain_stop(s[i]) {
        (0 as nat, Seq::<u8>::empty())
    } else if s[i] == 92 {
        if i + 1 < s.len() {
            let r = plain_scan(s, i + 2);
            ((2 + r.0) as nat, seq![s[i + 1]] + r.1)
        } else {
            (1 as nat, Seq::<u8>::empty())
        }
    } else {
        let r = plain_scan(s, i + 1);
        ((1 + r.0) as nat, seq![s[i]] + r.1)
    }
}

/// How many bytes lie between position `i` and the next occurrence of `end`
/// (or the end of the span, when `end` never occurs).
pub open spec fn special_scan(s: Seq<u8>, i: int, end: u8) -> nat
    decreases remaining(s, i),
{
    if i < 0 || i >= s.len() {
        0
    } else if s[i] == end {
        0
    } else {
        (1 + special_scan(s, i + 1, end)) as nat
    }
}

/// How many consecutive ASCII digits begin at position `i`.
pub open spec fn digits_len(s: Seq<u8>, i: int) -> nat
    decreases remaining(s, i),
{
    if i < 0 || i >= s.len() {
        0
    } else if 48 <= s[i] <= 57 {
        (1 + digits_len(s, i + 1)) as nat
    } else {
        0
    }
}

/// The decimal value of the `n` digits starting at position `i`.
pub open spec fn digits_val(s: Seq<u8>, i: int, n: int) -> int
    decreases n,
{
    if n <= 0 {
        0
    } else {
        digits_val(s, i, n - 1) * 10 + (s[i + n - 1] - 48)
    }
}

/// How many consecutive leading tab bytes `s` has from position `i`.
pub open spec fn tabs_len(s: Seq<u8>, i: int) -> nat
    decreases remaining(s, i),
{
    if i < 0 || i >= s.len() {
        0
    } else if s[i] == 9 {
        (1 + tabs_len(s, i + 1)) as nat
    } else {
        0
    }
}

/// What parsing an ordered-list ordinal at position `i` yields: the digit
/// count and the value, or a `NumberError`. The digits must be followed by
/// `.` or by the end of the span; a value that does not fit in `usize` is
/// rejected rather than wrapped.
pub open spec fn number_spec(s: Seq<u8>, i: int) -> Result<(nat, int), MdErrorModel> {
    let n = digits_len(s, i);
    if digits_val(s, i, n as int) > usize::MAX {
        Err(MdErrorModel::NumberError("expect a number that fits the machine"@))
    } else if i + n < s.len() && s[i + n] != 46 {
        Err(MdErrorModel::NumberError("expect 'Number' or '.'"@))
    } else {
        Ok((n, digits_val(s, i, n as int)))
    }
}

/// The emphasis flags a text run carries under state `st`.
pub open spec fn flags_text(st: ParserModel, content: Seq<u8>) -> TextModel {
    TextModel {
        content: content,
        is_bold: st.is_bold_1 || st.is_bold_2,
        is_italic: st.is_italic_1 || st.is_italic_2,
        is_strike: st.is_strike,
    }
}

/// The plain run that follows `marker` consumed bytes of emphasis markers,
/// under the already-toggled state `st`: total consumed bytes and the text
/// sentence. A run whose content is empty yields no sentence — a zero-length
/// plain-text run never becomes an empty text node, even when it consumed a
/// byte (a lone backslash at the very end of the span).
pub open spec fn marked_text(st: ParserModel, s: Seq<u8>, i: int, marker: nat) -> (
    ParserModel,
    nat,
    Option<TextModel>,
) {
    let r = plain_scan(s, i + marker);
    if r.1.len() == 0 {
        (st, (marker + r.0) as nat, None)
    } else {
        (st, (marker + r.0) as nat, Some(flags_text(st, r.1)))
    }
}

/// One step of the inline scanner's text arm at position `i` (which must
/// hold a byte): the new toggle state, how many bytes are consumed, and the
/// text sentence produced, if any. `*` and `**` toggle the first italic and
/// bold styles, `_` and `__` the second ones; `~~` toggles strike-through,
/// and a single `~` is consumed silently.
pub open spec fn text_spec(st: ParserModel, s: Seq<u8>, i: int) -> (
    ParserModel,
    nat,
    Option<TextModel>,
) {
    if i < 0 || i >= s.len() {
        (st, 0 as nat, None)
    } else {
        let b = s[i];
        if b == 42 {
            if i + 1 < s.len() && s[i + 1] == 42 {
                marked_text(ParserModel { is_bold_1: !st.is_bold_1, ..st }, s, i, 2)
            } else {
                marked_text(ParserModel { is_italic_1: !st.is_italic_1, ..st }, s, i, 1)
            }
        } else if b == 95 {
            if i + 1 < s.len() && s[i + 1] == 95 {
                marked_text(ParserModel { is_bold_2: !st.is_bold_2, ..st }, s, i, 2)
            } else {
                marked_text(ParserModel { is_italic_2: !st.is_italic_2, ..st }, s, i, 1)
            }
        } else if b == 126 {
            if i + 1 < s.len() && s[i + 1] == 126 {
                marked_text(ParserModel { is_strike: !st.is_strike, ..st }, s, i, 2)
            } else {
                marked_text(st, s, i, 1)
            }
        } else {
            marked_text(st, s, i, 0)
        }
    }
}

/// Prepends already-scanned sentences to the outcome of scanning the rest.
pub open spec fn para_cont(
    prefix: Seq<SentenceModel>,
    rest: (ParserModel, Result<Seq<SentenceModel>, MdErrorModel>),
) -> (ParserModel, Result<Seq<SentenceModel>, MdErrorModel>) {
    (
        rest.0,
        match rest.1 {
            Ok(t) => Ok(prefix + t),
            Err(e) => Err(e),
        },
    )
}

/// What scanning the span's bytes from position `i` under state `st` yields:
/// the final state and the sentence sequence, or the first structural error.
///
/// Backtick, `$` and `:` open code, math and emoji spans that must be closed
/// by the same byte; empty spans are dropped. `[^` opens a footnote
/// reference closed by `]`. Any other `[` opens a link, `](`, target, `)`.
/// Everything else is a text run; a structural byte that no arm accepts
/// (a stray bracket, parenthesis or brace) becomes a one-byte text run, so
/// scanning always advances.
pub open spec fn paragraph_spec(st: ParserModel, s: Seq<u8>, i: int) -> (
    ParserModel,
    Result<Seq<SentenceModel>, MdErrorModel>,
)
    decreases remaining(s, i),
{
    if i < 0 || i >= s.len() {
        (st, Ok(Seq::<SentenceModel>::empty()))
    } else {
        let b = s[i];
        if b == 96 {
            let n = special_scan(s, i + 1, 96);
            if i + 1 + n < s.len() && s[i + 1 + n] == 96 {
                let rest = paragraph_spec(st, s, i + n + 2);
                if n == 0 {
                    rest
                } else {
                    para_cont(
                        seq![SentenceModel::Code(s.subrange(i + 1, i + 1 + n))],
                        rest,
                    )
                }
            } else {
                (st, Err(MdErrorModel::ParagraphError("expect '`'"@)))
            }
        } else if b == 36 {
            let n = special_scan(s, i + 1, 36);
            if i + 1 + n < s.len() && s[i + 1 + n] == 36 {
                let rest = paragraph_spec(st, s, i + n + 2);
                if n == 0 {
                    rest
                } else {
                    para_cont(
                        seq![SentenceModel::Math(s.subrange(i + 1, i + 1 + n))],
                        rest,
                    )
                }
            } else {
                (st, Err(MdErrorModel::ParagraphError("expect '$'"@)))
            }
        } else if b == 58 {
            let n = special_scan(s, i + 1, 58);
            if i + 1 + n < s.len() && s[i + 1 + n] == 58 {
                let rest = paragraph_spec(st, s, i + n + 2);
                if n == 0 {
                    rest
                } else {
                    para_cont(
                        seq![SentenceModel::Emoji(s.subrange(i + 1, i + 1 + n))],
                        rest,
                    )
                }
            } else {
                (st, Err(MdErrorModel::ParagraphError("expect ':'"@)))
            }
        } else if b == 91 {
            if i + 1 < s.len() && s[i + 1] == 94 {
                let n = special_scan(s, i + 2, 93);
                if i + 2 + n < s.len() && s[i + 2 + n] == 93 {
                    para_cont(
                        seq![SentenceModel::FooterIndex(s.subrange(i + 2, i + 2 + n))],
                        paragraph_spec(st, s, i + n + 3),
                    )
                } else {
                    (st, Err(MdErrorModel::ParagraphError("expect ']'"@)))
                }
            } else {
                let r = plain_scan(s, i + 1);
                let j = i + 1 + r.0;
                if j < s.len() && s[j] == 93 && j + 1 < s.len() && s[j + 1] == 40 {
                    let hn = special_scan(s, j + 2, 41);
                    let k = j + 2 + hn;
                    if k < s.len() && s[k] == 41 {
                        let href = if hn == 0 {
                            Option::<Seq<u8>>::None
                        } else {
                            Some(s.subrange(j + 2, k))
                        };
                        para_cont(
                            seq![
                                SentenceModel::Link(LinkModel { content: r.1, href: href })
                            ],
                            paragraph_spec(st, s, k + 1),
                        )
                    } else {
                        (st, Err(MdErrorModel::LinkError("expect ')'"@)))
                    }
                } else {
                    (st, Err(MdErrorModel::LinkError("expect ']' && '('"@)))
                }
            }
        } else {
            let t = text_spec(st, s, i);
            if t.1 == 0 {
                para_cont(
                    seq![SentenceModel::Text(flags_text(st, seq![b]))],
                    paragraph_spec(st, s, i + 1),
                )
            } else {
                match t.2 {
                    Some(tx) => para_cont(
                        seq![SentenceModel::Text(tx)],
                        paragraph_spec(t.0, s, i + t.1),
                    ),
                    None => paragraph_spec(t.0, s, i + t.1),
                }
            }
        }
    }
}

/// The heading prefix: starting after the first `#` with level 1, further
/// `#` bytes raise the level up to six and spaces are skipped; the first
/// other byte (or a seventh `#`) starts the content.
pub open spec fn title_scan(s: Seq<u8>, i: int, level: int) -> (int, int)
    decreases remaining(s, i),
{
    if i < 0 || i >= s.len() {
        (level, i)
    } else if s[i] == 35 {
        if level >= 6 {
            (level, i)
        } else {
            title_scan(s, i + 1, level + 1)
        }
    } else if s[i] == 32 {
        title_scan(s, i + 1, level)
    } else {
        (level, i)
    }
}

/// What a heading span parses to: the clamped level and the inline content
/// of the rest.
pub open spec fn title_spec(st: ParserModel, s: Seq<u8>) -> (
    ParserModel,
    Result<TitleModel, MdErrorModel>,
) {
    let lc = title_scan(s, 1, 1);
    let p = paragraph_spec(st, s, lc.1);
    (
        p.0,
        match p.1 {
            Ok(ss) => Ok(TitleModel { level: TitleLevel::spec_from_level(lc.0), content: ss }),
            Err(e) => Err(e),
        },
    )
}

/// What a heading span reduces to for outline extraction: the clamped level
/// and the raw bytes of the rest.
pub open spec fn raw_title_spec(line: usize, s: Seq<u8>) -> RawTitleModel {
    let lc = title_scan(s, 1, 1);
    RawTitleModel {
        line: line,
        level: TitleLevel::spec_from_level(lc.0),
        content: s.subrange(if lc.1 <= s.len() { lc.1 } else { s.len() as int }, s.len() as int),
    }
}

/// What a list-item span parses to: leading tabs give the nesting level;
/// then either a bullet (`-` or `+`) or a decimal ordinal followed by `.`,
/// each with a mandatory space before the inline content.
pub open spec fn list_spec(st: ParserModel, s: Seq<u8>) -> (
    ParserModel,
    Result<ListItemModel, MdErrorModel>,
) {
    let t = tabs_len(s, 0);
    let j = t as int;
    if j >= s.len() || !(s[j] == 45 || s[j] == 43 || (48 <= s[j] <= 57)) {
        (st, Err(MdErrorModel::ListError("expect 'Tab' or '-' or '+' or '0'..='9'"@)))
    } else if s[j] == 45 || s[j] == 43 {
        if j + 1 < s.len() && s[j + 1] == 32 {
            let p = paragraph_spec(st, s, j + 2);
            (
                p.0,
                match p.1 {
                    Ok(ss) => Ok(
                        ListItemModel { level: t as usize, index: None, content: ss },
                    ),
                    Err(e) => Err(e),
                },
            )
        } else {
            (st, Err(MdErrorModel::ListError("expect 'Space'"@)))
        }
    } else {
        match number_spec(s, j) {
            Err(e) => (st, Err(e)),
            Ok((dn, val)) => {
                if j + dn < s.len() && s[j + dn] == 46 && j + dn + 1 < s.len() && s[j + dn + 1]
                    == 32 {
                    let p = paragraph_spec(st, s, j + dn + 2);
                    (
                        p.0,
                        match p.1 {
                            Ok(ss) => Ok(
                                ListItemModel {
                                    level: t as usize,
                                    index: Some(val as usize),
                                    content: ss,
                                },
                            ),
                            Err(e) => Err(e),
                        },
                    )
                } else {
                    (st, Err(MdErrorModel::ListError("expect '.' && 'Space'"@)))
                }
            },
        }
    }
}

/// What a quote span parses to: `>` must be followed by a space; the rest is
/// inline content.
pub open spec fn quote_spec(st: ParserModel, s: Seq<u8>) -> (
    ParserModel,
    Result<Seq<SentenceModel>, MdErrorModel>,
) {
    if 1 < s.len() && s[1] == 32 {
        paragraph_spec(st, s, 2)
    } else {
        (st, Err(MdErrorModel::QuoteError("expect 'Space'"@)))
    }
}

/// What an image span parses to: `![`, plain title text, `](`, source text,
/// `)`. Empty title and source become `None`.
pub open spec fn image_spec(s: Seq<u8>) -> Result<ImageModel, MdErrorModel> {
    if 1 < s.len() && s[1] == 91 {
        let r = plain_scan(s, 2);
        let j = 2 + r.0 as int;
        if j < s.len() && s[j] == 93 && j + 1 < s.len() && s[j + 1] == 40 {
            let sn = special_scan(s, j + 2, 41);
            let k = j + 2 + sn as int;
            if k < s.len() && s[k] == 41 {
                Ok(
                    ImageModel {
                        title: if r.1.len() == 0 {
                            None
                        } else {
                            Some(r.1)
                        },
                        src: if sn == 0 {
                            None
                        } else {
                            Some(s.subrange(j + 2, k))
                        },
                    },
                )
            } else {
                Err(MdErrorModel::ImageError("expect ')'"@))
            }
        } else {
            Err(MdErrorModel::ImageError("expect ']' && '('"@))
        }
    } else {
        Err(MdErrorModel::ImageError("expect '['"@))
    }
}

/// What a todo span parses to: after `- [`, a space or `x` and `]` give the
/// finished state; the rest is inline content.
pub open spec fn todo_spec(st: ParserModel, s: Seq<u8>) -> (
    ParserModel,
    Result<TodoItemModel, MdErrorModel>,
) {
    if 3 < s.len() && (s[3] == 32 || s[3] == 120) && 4 < s.len() && s[4] == 93 {
        let p = paragraph_spec(st, s, 5);
        (
            p.0,
            match p.1 {
                Ok(ss) => Ok(TodoItemModel { is_finished: s[3] == 120, content: ss }),
                Err(e) => Err(e),
            },
        )
    } else {
        (st, Err(MdErrorModel::TodoError("expect 'Space' or 'x' and ']'"@)))
    }
}

/// What a footnote-definition span parses to: `[^`, the label up to `]`,
/// then the exact close `]: ` and the inline content.
pub open spec fn footer_spec(st: ParserModel, s: Seq<u8>) -> (
    ParserModel,
    Result<FooterModel, MdErrorModel>,
) {
    let n = special_scan(s, 2, 93);
    let j = 2 + n as int;
    if j < s.len() && s[j] == 93 && j + 1 < s.len() && s[j + 1] == 58 && j + 2 < s.len() && s[j
        + 2] == 32 {
        let p = paragraph_spec(st, s, j + 3);
        (
            p.0,
            match p.1 {
                Ok(ss) => Ok(FooterModel { index: s.subrange(2, j), content: ss }),
                Err(e) => Err(e),
            },
        )
    } else {
        (st, Err(MdErrorModel::FooterError("expect ']: '"@)))
    }
}

/// Which block a raw span parses to under state `st`, and the state the
/// parser is left in. Code, math and thematic-break spans pass through;
/// a paragraph span dispatches on its first byte.
pub open spec fn process_spec(st: ParserModel, sb: SplitBlockModel) -> (
    ParserModel,
    Result<BlockModel, MdErrorModel>,
) {
    match sb {
        SplitBlockModel::CodeBlock(l, c) => (st, Ok(BlockModel::CodeBlock(l, c))),
        SplitBlockModel::Line => (st, Ok(BlockModel::Line)),
        SplitBlockModel::MathBlock(m) => (st, Ok(BlockModel::MathBlock(m))),
        SplitBlockModel::Paragraph(p) => {
            if p.len() == 0 {
                (st, Ok(BlockModel::Paragraph(Seq::<SentenceModel>::empty())))
            } else if p[0] == 35 {
                let t = title_spec(st, p);
                (
                    t.0,
                    match t.1 {
                        Ok(x) => Ok(BlockModel::Title(x)),
                        Err(e) => Err(e),
                    },
                )
            } else if p[0] == 43 || (48 <= p[0] <= 57) || p[0] == 9 {
                let t = list_spec(st, p);
                (
                    t.0,
                    match t.1 {
                        Ok(x) => Ok(BlockModel::ListItem(x)),
                        Err(e) => Err(e),
                    },
                )
            } else if p[0] == 45 {
                if p.len() > 4 && p[1] == 32 && p[2] == 91 && (p[3] == 32 || p[3] == 120)
                    && p[4] == 93 {
                    let t = todo_spec(st, p);
                    (
                        t.0,
                        match t.1 {
                            Ok(x) => Ok(BlockModel::TodoItem(x)),
                            Err(e) => Err(e),
                        },
                    )
                } else {
                    let t = list_spec(st, p);
                    (
                        t.0,
                        match t.1 {
                            Ok(x) => Ok(BlockModel::ListItem(x)),
                            Err(e) => Err(e),
                        },
                    )
                }
            } else if p[0] == 62 {
                let t = quote_spec(st, p);
                (
                    t.0,
                    match t.1 {
                        Ok(x) => Ok(BlockModel::Quote(x)),
                        Err(e) => Err(e),
                    },
                )
            } else if p[0] == 33 {
                (
                    st,
                    match image_spec(p) {
                        Ok(x) => Ok(BlockModel::Image(x)),
                        Err(e) => Err(e),
                    },
                )
            } else if p[0] == 91 && p.len() > 1 && p[1] == 94 {
                let t = footer_spec(st, p);
                (
                    t.0,
                    match t.1 {
                        Ok(x) => Ok(BlockModel::Footer(x)),
                        Err(e) => Err(e),
                    },
                )
            } else {
                let t = paragraph_spec(st, p, 0);
                (
                    t.0,
                    match t.1 {
                        Ok(x) => Ok(BlockModel::Paragraph(x)),
                        Err(e) => Err(e),
                    },
                )
            }
        },
    }
}

/// What a span reduces to for outline extraction: a raw title for a heading
/// paragraph whose parse succeeds, `None` for everything else. A heading
/// parse only fails when its inline content fails, and the failure is
/// swallowed here; the raw reduction itself never fails.
pub open spec fn title_only_spec(line: usize, sb: SplitBlockModel) -> Option<RawTitleModel> {
    match sb {
        SplitBlockModel::Paragraph(p) => {
            if p.len() > 0 && p[0] == 35 {
                Some(raw_title_spec(line, p))
            } else {
                None
            }
        },
        _ => None,
    }
}

/// The links of a sentence sequence, flattened in order.
pub open spec fn links_of(ss: Seq<SentenceModel>) -> Seq<RawLinkModel>
    decreases ss.len(),
{
    if ss.len() == 0 {
        Seq::<RawLinkModel>::empty()
    } else {
        (match ss[0] {
            SentenceModel::Link(l) => seq![raw_link_of(l)],
            _ => Seq::<RawLinkModel>::empty(),
        }) + links_of(ss.skip(1))
    }
}

/// A link is well formed when its note flag can only be set over a target
/// of at least the scheme prefix's five bytes.
pub open spec fn wf_raw_link(l: RawLinkModel) -> bool {
    l.is_md ==> match l.href {
        Some(h) => h.len() >= 5,
        None => false,
    }
}

/// Every link a sentence sequence flattens to is well formed.
pub proof fn lemma_links_of_wf_at(ss: Seq<SentenceModel>, k: int)
    requires
        0 <= k < links_of(ss).len(),
    ensures
        wf_raw_link(links_of(ss)[k]),
    decreases ss.len(),
{
    let head = (match ss[0] {
        SentenceModel::Link(l) => seq![raw_link_of(l)],
        _ => Seq::<RawLinkModel>::empty(),
    });
    if k < head.len() {
        assert(links_of(ss)[k] == head[0]);
    } else {
        lemma_links_of_wf_at(ss.skip(1), k - head.len());
        assert(links_of(ss)[k] == links_of(ss.skip(1))[k - head.len()]);
    }
}

/// What a span reduces to for reference extraction under state `st`: the
/// links of a paragraph span that parses successfully, in left-to-right
/// order; empty for spans of any other kind and for spans whose parse fails.
pub open spec fn link_only_spec(st: ParserModel, sb: SplitBlockModel) -> Seq<RawLinkModel> {
    match sb {
        SplitBlockModel::Paragraph(p) => {
            match paragraph_spec(st, p, 0).1 {
                Ok(ss) => links_of(ss),
                Err(_) => Seq::<RawLinkModel>::empty(),
            }
        },
        _ => Seq::<RawLinkModel>::empty(),
    }
}

/// The decimal value of a prefix of the leading digit run is nonnegative
/// and grows with the prefix.
proof fn lemma_digits_val_bounds(s: Seq<u8>, i: int, n: int)
    requires
        0 <= n <= digits_len(s, i),
    ensures
        0 <= digits_val(s, i, n),
        forall|m: int| 0 <= m <= n ==> #[trigger] digits_val(s, i, m) <= digits_val(s, i, n),
    decreases n,
{
    if n > 0 {
        lemma_digits_range_at(s, i, i + n - 1);
        assert(0 <= i + n - 1 < s.len() && 48 <= s[i + n - 1] <= 57);
        lemma_digits_val_bounds(s, i, n - 1);
        assert(digits_val(s, i, n) == digits_val(s, i, n - 1) * 10 + (s[i + n - 1] - 48));
        assert(digits_val(s, i, n - 1) * 10 >= digits_val(s, i, n - 1)) by {
            assert(digits_val(s, i, n - 1) * 10 - digits_val(s, i, n - 1) == digits_val(
                s,
                i,
                n - 1,
            ) * 9);
            assert(digits_val(s, i, n - 1) * 9 >= 0);
        }
        assert forall|m: int| 0 <= m <= n implies #[trigger] digits_val(s, i, m) <= digits_val(
            s,
            i,
            n,
        ) by {
            if m < n {
                assert(digits_val(s, i, m) <= digits_val(s, i, n - 1));
            }
        }
    }
}

/// The parser: per-block emphasis-toggle state, created fresh for every
/// block so that state never crosses block boundaries.
#[derive(Debug, Clone)]
pub struct Parser {
    is_bold_1: bool,
    is_bold_2: bool,
    is_italic_1: bool,
    is_italic_2: bool,
    is_strike: bool,
}

impl DeepView for Parser {
    type V = ParserModel;

    closed spec fn deep_view(&self) -> ParserModel {
        ParserModel {
            is_bold_1: self.is_bold_1,
            is_bold_2: self.is_bold_2,
            is_italic_1: self.is_italic_1,
            is_italic_2: self.is_italic_2,
            is_strike: self.is_strike,
        }
    }
}

/// Does this byte end a plain text run?
fn plain_stop(b: u8) -> (r: bool)
    ensures
        r == is_plain_stop(b),
{
    b == 96 || b == 95 || b == 42 || b == 91 || b == 93 || b == 40 || b == 41 || b == 36 || b
        == 126 || b == 123 || b == 125 || b == 58
}

impl Parser {
    /// A fresh parser with every toggle off.
    pub fn new() -> (r: Self)
        ensures
            r.deep_view() == init_parser(),
    {
        Parser {
            is_bold_1: false,
            is_bold_2: false,
            is_italic_1: false,
            is_italic_2: false,
            is_strike: false,
        }
    }

    /// Collects bytes from `at` up to the next `end` byte (exclusive) or the
    /// end of the span.
    #[verifier::loop_isolation(false)]
    fn parse_special_plain(&self, input: &[u8], at: usize, end: u8) -> (r: (usize, Vec<u8>))
        requires
            at <= input@.len(),
        ensures
            r.0 == special_scan(input@, at as int, end),
            at + r.0 <= input@.len(),
            r.1@ == input@.subrange(at as int, at + r.0),
            at + r.0 == input@.len() || input@[at + r.0] == end,
    {
        let ghost s = input@;
        let mut j: usize = at;
        let mut out: Vec<u8> = Vec::new();
        loop
            invariant
                at <= j <= s.len(),
                out@ == s.subrange(at as int, j as int),
                special_scan(s, at as int, end) == j - at + special_scan(s, j as int, end),
            decreases s.len() - j,
        {
            if j >= input.len() {
                return (j - at, out);
            }
            let b = input[j];
            if b == end {
                return (j - at, out);
            }
            out.push(b);
            j = j + 1;
            assert(out@ =~= s.subrange(at as int, j as int));
        }
    }

    /// Scans a plain text run from `at`: how many source bytes it occupies
    /// and its content with backslash escapes resolved.
    #[verifier::loop_isolation(false)]
    fn parse_plain(&self, input: &[u8], at: usize) -> (r: (usize, Vec<u8>))
        requires
            at <= input@.len(),
        ensures
            r.0 == plain_scan(input@, at as int).0,
            r.1@ == plain_scan(input@, at as int).1,
            at + r.0 <= input@.len(),
    {
        let ghost s = input@;
        let mut j: usize = at;
        let mut out: Vec<u8> = Vec::new();
        loop
            invariant
                at <= j <= s.len(),
                plain_scan(s, at as int).0 == j - at + plain_scan(s, j as int).0,
                plain_scan(s, at as int).1 == out@ + plain_scan(s, j as int).1,
            decreases s.len() - j,
        {
            if j >= input.len() {
                assert(plain_scan(s, at as int).1 =~= out@);
                return (j - at, out);
            }
            let b = input[j];
            if plain_stop(b) {
                assert(plain_scan(s, at as int).1 =~= out@);
                return (j - at, out);
            }
            if b == 92 {
                if input.len() - j > 1 {
                    out.push(input[j + 1]);
                    j = j + 2;
                    assert(plain_scan(s, at as int).1 =~= out@ + plain_scan(s, j as int).1);
                } else {
                    let consumed = j + 1 - at;
                    assert(plain_scan(s, j as int).0 == 1);
                    assert(plain_scan(s, at as int).1 =~= out@);
                    return (consumed, out);
                }
            } else {
                out.push(b);
                j = j + 1;
                assert(plain_scan(s, at as int).1 =~= out@ + plain_scan(s, j as int).1);
            }
        }
    }

    /// Parses an ordered-list ordinal: ASCII digits terminated by `.` or by
    /// the end of the span. Any other terminator, or a value that does not
    /// fit in `usize`, is a `NumberError`.
    #[verifier::loop_isolation(false)]
    fn parse_number(&self, input: &[u8], at: usize) -> (r: Result<(usize, usize), MdError>)
        requires
            at <= input@.len(),
        ensures
            match r {
                Ok(p) => {
                    &&& number_spec(input@, at as int) == Ok::<(nat, int), MdErrorModel>(
                        (p.0 as nat, p.1 as int),
                    )
                    &&& at + p.0 <= input@.len()
                },
                Err(e) => number_spec(input@, at as int) == Err::<(nat, int), MdErrorModel>(
                    e.deep_view(),
                ),
            },
    {
        let ghost s = input@;
        let mut j: usize = at;
        let mut n: usize = 0;
        loop
            invariant
                at <= j <= s.len(),
                digits_len(s, at as int) == j - at + digits_len(s, j as int),
                forall|k: int| at <= k < j ==> 48 <= #[trigger] s[k] <= 57,
                n == digits_val(s, at as int, j - at),
            decreases s.len() - j,
        {
            if j >= input.len() {
                break;
            }
            let b = input[j];
            if 48 <= b && b <= 57 {
                let d: usize = (b - 48) as usize;
                if n > (usize::MAX - d) / 10 {
                    proof {
                        let full = digits_len(s, at as int) as int;
                        assert(n * 10 + d > usize::MAX) by {
                            assert(n > (usize::MAX - d) / 10);
                            assert(n >= (usize::MAX - d) / 10 + 1);
                            assert(n * 10 >= ((usize::MAX - d) / 10 + 1) * 10) by (nonlinear_arith)
                                requires
                                    n >= (usize::MAX - d) / 10 + 1,
                            ;
                            assert(((usize::MAX - d) / 10) * 10 + 10 > usize::MAX - d);
                        }
                        assert(digits_val(s, at as int, j - at + 1) == n * 10 + d);
                        assert(digits_len(s, j as int) >= 1);
                        assert(j - at + 1 <= full);
                        lemma_digits_val_bounds(s, at as int, full);
                        assert(digits_val(s, at as int, full) > usize::MAX);
                    }
                    return Err(
                        MdError::NumberError("expect a number that fits the machine".to_owned()),
                    );
                }
                n = n * 10 + d;
                j = j + 1;
            } else if b == 46 {
                break;
            } else {
                proof {
                    assert(digits_len(s, j as int) == 0);
                    assert(digits_len(s, at as int) == j - at);
                }
                return Err(MdError::NumberError("expect 'Number' or '.'".to_owned()));
            }
        }
        proof {
            assert(digits_len(s, j as int) == 0);
            assert(digits_len(s, at as int) == j - at);
        }
        Ok((j - at, n))
    }
}

/// Prepending no sentences changes nothing.
proof fn lemma_para_cont_nil(p: (ParserModel, Result<Seq<SentenceModel>, MdErrorModel>))
    ensures
        para_cont(Seq::<SentenceModel>::empty(), p) == p,
{
    match p.1 {
        Ok(t) => {
            assert(Seq::<SentenceModel>::empty() + t =~= t);
        },
        Err(_) => {},
    }
}

/// Prepending twice is prepending the concatenation.
proof fn lemma_para_cont_app(
    a: Seq<SentenceModel>,
    b: Seq<SentenceModel>,
    p: (ParserModel, Result<Seq<SentenceModel>, MdErrorModel>),
)
    ensures
        para_cont(a, para_cont(b, p)) == para_cont(a + b, p),
{
    match p.1 {
        Ok(t) => {
            assert(a + (b + t) =~= (a + b) + t);
        },
        Err(_) => {},
    }
}

/// Each position inside the leading digit run holds a digit.
proof fn lemma_digits_range_at(s: Seq<u8>, i: int, k: int)
    requires
        i <= k < i + digits_len(s, i),
    ensures
        0 <= k < s.len() && 48 <= s[k] <= 57,
    decreases k - i,
{
    if k > i {
        lemma_digits_range_at(s, i + 1, k);
    }
}

impl Parser {
    /// One step of the inline text arm: toggles the emphasis flags for a
    /// leading marker and scans the plain run after it.
    fn parse_text(&mut self, input: &[u8], at: usize) -> (r: (usize, Option<Text>))
        requires
            at < input@.len(),
        ensures
            ({
                let t = text_spec(old(self).deep_view(), input@, at as int);
                &&& final(self).deep_view() == t.0
                &&& r.0 == t.1
                &&& r.1.deep_view() == t.2
                &&& at + r.0 <= input@.len()
            }),
    {
        let l = input.len();
        let b = input[at];
        let marker: usize;
        if b == 42 {
            if at + 1 < l && input[at + 1] == 42 {
                self.is_bold_1 = !self.is_bold_1;
                marker = 2;
            } else {
                self.is_italic_1 = !self.is_italic_1;
                marker = 1;
            }
        } else if b == 95 {
            if at + 1 < l && input[at + 1] == 95 {
                self.is_bold_2 = !self.is_bold_2;
                marker = 2;
            } else {
                self.is_italic_2 = !self.is_italic_2;
                marker = 1;
            }
        } else if b == 126 {
            if at + 1 < l && input[at + 1] == 126 {
                self.is_strike = !self.is_strike;
                marker = 2;
            } else {
                marker = 1;
            }
        } else {
            marker = 0;
        }
        let p = self.parse_plain(input, at + marker);
        let n = p.0;
        if p.1.len() == 0 {
            (marker + n, None)
        } else {
            (
                marker + n,
                Some(
                    Text {
                        content: p.1,
                        is_bold: self.is_bold_1 || self.is_bold_2,
                        is_italic: self.is_italic_1 || self.is_italic_2,
                        is_strike: self.is_strike,
                    },
                ),
            )
        }
    }

    /// Scans a span's inline content from `at`, building the ordered
    /// sentence sequence and threading the emphasis toggles through every
    /// marker encountered.
    #[verifier::rlimit(100)]
    pub fn parse_paragraph(&mut self, input: &[u8], at: usize) -> (r: Result<Paragraph, MdError>)
        requires
            at <= input@.len(),
        ensures
            ({
                let p = paragraph_spec(old(self).deep_view(), input@, at as int);
                &&& final(self).deep_view() == p.0
                &&& match r {
                    Ok(par) => p.1 == Ok::<Seq<SentenceModel>, MdErrorModel>(par.deep_view()),
                    Err(e) => p.1 == Err::<Seq<SentenceModel>, MdErrorModel>(e.deep_view()),
                }
            }),
    {
        let ghost s = input@;
        let ghost st0 = self.deep_view();
        let l = input.len();
        let mut j: usize = at;
        let mut content: Vec<Sentence> = Vec::new();
        proof {
            lemma_para_cont_nil(paragraph_spec(st0, s, at as int));
            assert(content.deep_view() =~= Seq::<SentenceModel>::empty());
        }
        while j < l
            invariant
                s == input@,
                l == input@.len(),
                st0 == old(self).deep_view(),
                at <= j <= l,
                paragraph_spec(st0, s, at as int) == para_cont(
                    content.deep_view(),
                    paragraph_spec(self.deep_view(), s, j as int),
                ),
            decreases l - j,
        {
            let ghost stc = self.deep_view();
            let ghost cdv = content.deep_view();
            let b = input[j];
            if b == 96 || b == 36 || b == 58 {
                let p = self.parse_special_plain(input, j + 1, b);
                let n = p.0;
                let close = j + 1 + n;
                if close < l && input[close] == b {
                    if n != 0 {
                        let x = if b == 96 {
                            Sentence::Code(p.1)
                        } else if b == 36 {
                            Sentence::Math(p.1)
                        } else {
                            Sentence::Emoji(p.1)
                        };
                        proof {
                            assert(paragraph_spec(stc, s, j as int) == para_cont(
                                seq![x.deep_view()],
                                paragraph_spec(stc, s, close + 1),
                            ));
                            lemma_para_cont_app(
                                cdv,
                                seq![x.deep_view()],
                                paragraph_spec(stc, s, close + 1),
                            );
                        }
                        content.push(x);
                        proof {
                            assert(content.deep_view() =~= cdv + seq![content@[cdv.len() as int].deep_view()]);
                        }
                    }
                    j = close + 1;
                } else {
                    proof {
                        assert(paragraph_spec(stc, s, j as int).1 is Err);
                    }
                    if b == 96 {
                        return Err(MdError::ParagraphError("expect '`'".to_owned()));
                    } else if b == 36 {
                        return Err(MdError::ParagraphError("expect '$'".to_owned()));
                    } else {
                        return Err(MdError::ParagraphError("expect ':'".to_owned()));
                    }
                }
            } else if b == 91 {
                if j + 1 < l && input[j + 1] == 94 {
                    let p = self.parse_special_plain(input, j + 2, 93);
                    let n = p.0;
                    let close = j + 2 + n;
                    if close < l && input[close] == 93 {
                        let x = Sentence::FooterIndex(FooterIndex(p.1));
                        proof {
                            assert(paragraph_spec(stc, s, j as int) == para_cont(
                                seq![x.deep_view()],
                                paragraph_spec(stc, s, close + 1),
                            ));
                            lemma_para_cont_app(
                                cdv,
                                seq![x.deep_view()],
                                paragraph_spec(stc, s, close + 1),
                            );
                        }
                        content.push(x);
                        proof {
                            assert(content.deep_view() =~= cdv + seq![content@[cdv.len() as int].deep_view()]);
                        }
                        j = close + 1;
                    } else {
                        return Err(MdError::ParagraphError("expect ']'".to_owned()));
                    }
                } else {
                    let p = self.parse_plain(input, j + 1);
                    let jj = j + 1 + p.0;
                    if jj < l && input[jj] == 93 && jj + 1 < l && input[jj + 1] == 40 {
                        let h = self.parse_special_plain(input, jj + 2, 41);
                        let k = jj + 2 + h.0;
                        if k < l && input[k] == 41 {
                            let href = if h.0 == 0 {
                                None
                            } else {
                                Some(h.1)
                            };
                            let x = Sentence::Link(Link { content: p.1, href });
                            proof {
                                assert(paragraph_spec(stc, s, j as int) == para_cont(
                                    seq![x.deep_view()],
                                    paragraph_spec(stc, s, k + 1),
                                ));
                                lemma_para_cont_app(
                                    cdv,
                                    seq![x.deep_view()],
                                    paragraph_spec(stc, s, k + 1),
                                );
                            }
                            content.push(x);
                            proof {
                                assert(content.deep_view() =~= cdv + seq![content@[cdv.len() as int].deep_view()]);
                            }
                            j = k + 1;
                        } else {
                            return Err(MdError::LinkError("expect ')'".to_owned()));
                        }
                    } else {
                        return Err(MdError::LinkError("expect ']' && '('".to_owned()));
                    }
                }
            } else {
                let t = self.parse_text(input, j);
                let k = t.0;
                if k == 0 {
                    let mut single: Vec<u8> = Vec::new();
                    single.push(b);
                    let x = Sentence::Text(
                        Text {
                            content: single,
                            is_bold: self.is_bold_1 || self.is_bold_2,
                            is_italic: self.is_italic_1 || self.is_italic_2,
                            is_strike: self.is_strike,
                        },
                    );
                    proof {
                        assert(single@ =~= seq![b]);
                        assert(paragraph_spec(stc, s, j as int) == para_cont(
                            seq![x.deep_view()],
                            paragraph_spec(stc, s, j + 1),
                        ));
                        lemma_para_cont_app(
                            cdv,
                            seq![x.deep_view()],
                            paragraph_spec(stc, s, j + 1),
                        );
                    }
                    content.push(x);
                    proof {
                        assert(content.deep_view() =~= cdv + seq![content@[cdv.len() as int].deep_view()]);
                    }
                    j = j + 1;
                } else {
                    match t.1 {
                        Some(tx) => {
                            let ghost stn = self.deep_view();
                            let x = Sentence::Text(tx);
                            proof {
                                assert(paragraph_spec(stc, s, j as int) == para_cont(
                                    seq![x.deep_view()],
                                    paragraph_spec(stn, s, j + k),
                                ));
                                lemma_para_cont_app(
                                    cdv,
                                    seq![x.deep_view()],
                                    paragraph_spec(stn, s, j + k),
                                );
                            }
                            content.push(x);
                            proof {
                                assert(content.deep_view() =~= cdv + seq![content@[cdv.len() as int].deep_view()]);
                            }
                        },
                        None => {},
                    }
                    j = j + k;
                }
            }
        }
        proof {
            assert(paragraph_spec(self.deep_view(), s, j as int) == (
                self.deep_view(),
                Ok::<Seq<SentenceModel>, MdErrorModel>(Seq::<SentenceModel>::empty()),
            ));
            assert(content.deep_view() + Seq::<SentenceModel>::empty() =~= content.deep_view());
        }
        Ok(Paragraph(content))
    }

    /// Parses a heading span: counts `#` bytes (clamped at six), skips
    /// spaces, and parses the rest as inline content.
    fn parse_title(&mut self, input: &[u8]) -> (r: Result<Title, MdError>)
        requires
            input@.len() > 0,
            input@[0] == 35,
        ensures
            ({
                let t = title_spec(old(self).deep_view(), input@);
                &&& final(self).deep_view() == t.0
                &&& match r {
                    Ok(x) => t.1 == Ok::<TitleModel, MdErrorModel>(x.deep_view()),
                    Err(e) => t.1 == Err::<TitleModel, MdErrorModel>(e.deep_view()),
                }
            }),
    {
        let ghost s = input@;
        let l = input.len();
        let mut level: usize = 1;
        let mut j: usize = 1;
        loop
            invariant
                s == input@,
                l == input@.len(),
                1 <= j <= l,
                1 <= level <= 6,
                title_scan(s, 1, 1) == title_scan(s, j as int, level as int),
            ensures
                j <= l,
                1 <= level <= 6,
                title_scan(s, 1, 1) == (level as int, j as int),
            decreases l - j,
        {
            if j >= l {
                break;
            }
            let b = input[j];
            if b == 35 {
                if level >= 6 {
                    break;
                }
                level = level + 1;
                j = j + 1;
            } else if b == 32 {
                j = j + 1;
            } else {
                break;
            }
        }
        let content = match self.parse_paragraph(input, j) {
            Ok(p) => p,
            Err(e) => {
                return Err(e);
            },
        };
        Ok(Title { level: TitleLevel::from_level(level), content })
    }

    /// Reduces a heading span for outline extraction: the clamped level and
    /// the raw bytes of the rest, with no inline parsing.
    fn parse_raw_title(&self, line: usize, input: &[u8]) -> (r: RawTitle)
        requires
            input@.len() > 0,
            input@[0] == 35,
        ensures
            r.deep_view() == raw_title_spec(line, input@),
    {
        let ghost s = input@;
        let l = input.len();
        let mut level: usize = 1;
        let mut j: usize = 1;
        loop
            invariant
                s == input@,
                l == input@.len(),
                1 <= j <= l,
                1 <= level <= 6,
                title_scan(s, 1, 1) == title_scan(s, j as int, level as int),
            ensures
                j <= l,
                1 <= level <= 6,
                title_scan(s, 1, 1) == (level as int, j as int),
            decreases l - j,
        {
            if j >= l {
                break;
            }
            let b = input[j];
            if b == 35 {
                if level >= 6 {
                    break;
                }
                level = level + 1;
                j = j + 1;
            } else if b == 32 {
                j = j + 1;
            } else {
                break;
            }
        }
        let content = vstd::slice::slice_to_vec(&input[j..l]);
        RawTitle { line, level: TitleLevel::from_level(level), content }
    }

    /// Parses a list-item span: leading tabs, then a bullet or a decimal
    /// ordinal with `.`, each followed by a mandatory space and the inline
    /// content.
    fn parse_list(&mut self, input: &[u8]) -> (r: Result<ListItem, MdError>)
        ensures
            ({
                let t = list_spec(old(self).deep_view(), input@);
                &&& final(self).deep_view() == t.0
                &&& match r {
                    Ok(x) => t.1 == Ok::<ListItemModel, MdErrorModel>(x.deep_view()),
                    Err(e) => t.1 == Err::<ListItemModel, MdErrorModel>(e.deep_view()),
                }
            }),
    {
        let ghost s = input@;
        let l = input.len();
        let mut t: usize = 0;
        loop
            invariant
                s == input@,
                l == input@.len(),
                0 <= t <= l,
                tabs_len(s, 0) == t + tabs_len(s, t as int),
            ensures
                0 <= t <= l,
                tabs_len(s, 0) == t,
            decreases l - t,
        {
            if t >= l {
                break;
            }
            if input[t] == 9 {
                t = t + 1;
            } else {
                break;
            }
        }
        let j = t;
        if j >= l || !(input[j] == 45 || input[j] == 43 || (48 <= input[j] && input[j] <= 57)) {
            return Err(MdError::ListError("expect 'Tab' or '-' or '+' or '0'..='9'".to_owned()));
        }
        let b = input[j];
        if b == 45 || b == 43 {
            if j + 1 < l && input[j + 1] == 32 {
                let content = match self.parse_paragraph(input, j + 2) {
                    Ok(p) => p,
                    Err(e) => {
                        return Err(e);
                    },
                };
                Ok(ListItem { level: t, index: None, content })
            } else {
                Err(MdError::ListError("expect 'Space'".to_owned()))
            }
        } else {
            let idx = match self.parse_number(input, j) {
                Ok(x) => x,
                Err(e) => {
                    return Err(e);
                },
            };
            let jd = j + idx.0;
            if jd < l && input[jd] == 46 && jd + 1 < l && input[jd + 1] == 32 {
                let content = match self.parse_paragraph(input, jd + 2) {
                    Ok(p) => p,
                    Err(e) => {
                        return Err(e);
                    },
                };
                Ok(ListItem { level: t, index: Some(idx.1), content })
            } else {
                Err(MdError::ListError("expect '.' && 'Space'".to_owned()))
            }
        }
    }

    /// Parses a quote span: `>` must be followed by a space; the rest is
    /// inline content.
    fn parse_quote(&mut self, input: &[u8]) -> (r: Result<Paragraph, MdError>)
        requires
            input@.len() > 0,
        ensures
            ({
                let t = quote_spec(old(self).deep_view(), input@);
                &&& final(self).deep_view() == t.0
                &&& match r {
                    Ok(p) => t.1 == Ok::<Seq<SentenceModel>, MdErrorModel>(p.deep_view()),
                    Err(e) => t.1 == Err::<Seq<SentenceModel>, MdErrorModel>(e.deep_view()),
                }
            }),
    {
        if input.len() > 1 && input[1] == 32 {
            self.parse_paragraph(input, 2)
        } else {
            Err(MdError::QuoteError("expect 'Space'".to_owned()))
        }
    }

    /// Parses an image span: `![`, optional plain title, `](`, optional
    /// source, `)`.
    fn parse_image(&self, input: &[u8]) -> (r: Result<Image, MdError>)
        requires
            input@.len() > 0,
        ensures
            match r {
                Ok(x) => image_spec(input@) == Ok::<ImageModel, MdErrorModel>(x.deep_view()),
                Err(e) => image_spec(input@) == Err::<ImageModel, MdErrorModel>(e.deep_view()),
            },
    {
        let l = input.len();
        if l > 1 && input[1] == 91 {
            let p = self.parse_plain(input, 2);
            let j = 2 + p.0;
            if j < l && input[j] == 93 && j + 1 < l && input[j + 1] == 40 {
                let sp = self.parse_special_plain(input, j + 2, 41);
                let k = j + 2 + sp.0;
                if k < l && input[k] == 41 {
                    let title = if p.1.len() == 0 {
                        None
                    } else {
                        Some(p.1)
                    };
                    let src = if sp.0 == 0 {
                        None
                    } else {
                        Some(sp.1)
                    };
                    Ok(Image { title, src })
                } else {
                    Err(MdError::ImageError("expect ')'".to_owned()))
                }
            } else {
                Err(MdError::ImageError("expect ']' && '('".to_owned()))
            }
        } else {
            Err(MdError::ImageError("expect '['".to_owned()))
        }
    }

    /// Parses a todo span: after `- [`, a space or `x` and `]` give the
    /// finished state; the rest is inline content.
    fn parse_todo(&mut self, input: &[u8]) -> (r: Result<TodoItem, MdError>)
        ensures
            ({
                let t = todo_spec(old(self).deep_view(), input@);
                &&& final(self).deep_view() == t.0
                &&& match r {
                    Ok(x) => t.1 == Ok::<TodoItemModel, MdErrorModel>(x.deep_view()),
                    Err(e) => t.1 == Err::<TodoItemModel, MdErrorModel>(e.deep_view()),
                }
            }),
    {
        let l = input.len();
        if 3 < l && (input[3] == 32 || input[3] == 120) && 4 < l && input[4] == 93 {
            let is_finished = input[3] == 120;
            let content = match self.parse_paragraph(input, 5) {
                Ok(p) => p,
                Err(e) => {
                    return Err(e);
                },
            };
            Ok(TodoItem { is_finished, content })
        } else {
            Err(MdError::TodoError("expect 'Space' or 'x' and ']'".to_owned()))
        }
    }

    /// Reads a footnote label: the bytes up to the closing `]` (or the end
    /// of the span) and how many of them there are.
    fn parse_footer_index(&self, input: &[u8], at: usize) -> (r: (usize, FooterIndex))
        requires
            at <= input@.len(),
        ensures
            r.0 == special_scan(input@, at as int, 93),
            at + r.0 <= input@.len(),
            r.1.deep_view() == input@.subrange(at as int, at + r.0),
    {
        let p = self.parse_special_plain(input, at, 93);
        (p.0, FooterIndex(p.1))
    }

    /// Parses a footnote-definition span: `[^`, the label, the exact close
    /// `]: `, and the inline content.
    fn parse_footer(&mut self, input: &[u8]) -> (r: Result<Footer, MdError>)
        requires
            input@.len() >= 2,
        ensures
            ({
                let t = footer_spec(old(self).deep_view(), input@);
                &&& final(self).deep_view() == t.0
                &&& match r {
                    Ok(x) => t.1 == Ok::<FooterModel, MdErrorModel>(x.deep_view()),
                    Err(e) => t.1 == Err::<FooterModel, MdErrorModel>(e.deep_view()),
                }
            }),
    {
        let l = input.len();
        let fi = self.parse_footer_index(input, 2);
        let j = 2 + fi.0;
        if j < l && input[j] == 93 && j + 1 < l && input[j + 1] == 58 && j + 2 < l && input[j + 2]
            == 32 {
            let content = match self.parse_paragraph(input, j + 3) {
                Ok(p) => p,
                Err(e) => {
                    return Err(e);
                },
            };
            Ok(Footer { index: fi.1, content })
        } else {
            Err(MdError::FooterError("expect ']: '".to_owned()))
        }
    }

    /// Parses one raw span into a typed block. Code, math and thematic-break
    /// spans pass through; a paragraph span dispatches on its first byte.
    pub fn process(&mut self, input: &SplitBlock) -> (r: Result<Block, MdError>)
        ensures
            ({
                let p = process_spec(old(self).deep_view(), input.deep_view());
                &&& final(self).deep_view() == p.0
                &&& match r {
                    Ok(b) => p.1 == Ok::<BlockModel, MdErrorModel>(b.deep_view()),
                    Err(e) => p.1 == Err::<BlockModel, MdErrorModel>(e.deep_view()),
                }
            }),
    {
        match input {
            SplitBlock::CodeBlock(lb, cb) => Ok(
                Block::CodeBlock(clone_opt_bytes(lb), cb.to_vec()),
            ),
            SplitBlock::Line => Ok(Block::Line),
            SplitBlock::MathBlock(mb) => Ok(Block::MathBlock(mb.to_vec())),
            SplitBlock::Paragraph(pa) => {
                let bytes: &[u8] = pa.as_bytes();
                let l = bytes.len();
                if l == 0 {
                    match self.parse_paragraph(bytes, 0) {
                        Ok(p) => Ok(Block::Paragraph(p)),
                        Err(e) => Err(e),
                    }
                } else {
                    let b0 = bytes[0];
                    if b0 == 35 {
                        match self.parse_title(bytes) {
                            Ok(t) => Ok(Block::Title(t)),
                            Err(e) => Err(e),
                        }
                    } else if b0 == 43 || (48 <= b0 && b0 <= 57) || b0 == 9 {
                        match self.parse_list(bytes) {
                            Ok(t) => Ok(Block::ListItem(t)),
                            Err(e) => Err(e),
                        }
                    } else if b0 == 45 {
                        if l > 4 && bytes[1] == 32 && bytes[2] == 91 && (bytes[3] == 32 || bytes[3]
                            == 120) && bytes[4] == 93 {
                            match self.parse_todo(bytes) {
                                Ok(t) => Ok(Block::TodoItem(t)),
                                Err(e) => Err(e),
                            }
                        } else {
                            match self.parse_list(bytes) {
                                Ok(t) => Ok(Block::ListItem(t)),
                                Err(e) => Err(e),
                            }
                        }
                    } else if b0 == 62 {
                        match self.parse_quote(bytes) {
                            Ok(p) => Ok(Block::Quote(p)),
                            Err(e) => Err(e),
                        }
                    } else if b0 == 33 {
                        match self.parse_image(bytes) {
                            Ok(i) => Ok(Block::Image(i)),
                            Err(e) => Err(e),
                        }
                    } else if b0 == 91 && l > 1 && bytes[1] == 94 {
                        match self.parse_footer(bytes) {
                            Ok(f) => Ok(Block::Footer(f)),
                            Err(e) => Err(e),
                        }
                    } else {
                        match self.parse_paragraph(bytes, 0) {
                            Ok(p) => Ok(Block::Paragraph(p)),
                            Err(e) => Err(e),
                        }
                    }
                }
            },
        }
    }

    /// Reduces one span for outline extraction: a raw title for a heading
    /// paragraph, `None` for every other span. The toggle state is not
    /// touched.
    pub fn parse_title_only(&mut self, line: usize, input: &SplitBlock) -> (r: Option<RawTitle>)
        ensures
            final(self).deep_view() == old(self).deep_view(),
            r.deep_view() == title_only_spec(line, input.deep_view()),
    {
        match input {
            SplitBlock::Paragraph(pa) => {
                let bytes: &[u8] = pa.as_bytes();
                if bytes.len() > 0 && bytes[0] == 35 {
                    Some(self.parse_raw_title(line, bytes))
                } else {
                    None
                }
            },
            _ => None,
        }
    }

    /// Reduces one span for reference extraction: the links of a paragraph
    /// span that parses, flattened in left-to-right order; an empty sequence
    /// for every other span and for spans whose parse fails.
    #[verifier::loop_isolation(false)]
    pub fn parse_link_only(&mut self, input: &SplitBlock) -> (r: Vec<RawLink>)
        ensures
            r.deep_view() == link_only_spec(old(self).deep_view(), input.deep_view()),
            final(self).deep_view() == (match input.deep_view() {
                SplitBlockModel::Paragraph(p) => paragraph_spec(old(self).deep_view(), p, 0).0,
                _ => old(self).deep_view(),
            }),
    {
        match input {
            SplitBlock::Paragraph(pa) => {
                let bytes: &[u8] = pa.as_bytes();
                match self.parse_paragraph(bytes, 0) {
                    Ok(p) => {
                        let ghost ssm = p.deep_view();
                        let mut out: Vec<RawLink> = Vec::new();
                        proof {
                            assert(out.deep_view() =~= links_of(ssm.take(0))) by {
                                assert(ssm.take(0) =~= Seq::<SentenceModel>::empty());
                            }
                        }
                        let n = p.0.len();
                        let mut i: usize = 0;
                        while i < n
                            invariant
                                0 <= i <= n,
                                out.deep_view() == links_of(ssm.take(i as int)),
                            decreases n - i,
                        {
                            let ghost odv = out.deep_view();
                            proof {
                                assert(ssm.take(i as int).push(ssm[i as int]) =~= ssm.take(
                                    i + 1,
                                ));
                                lemma_links_of_snoc(ssm.take(i as int), ssm[i as int]);
                            }
                            let sen: &Sentence = &p.0[i];
                            match sen {
                                Sentence::Link(link) => {
                                    out.push(RawLink::from_link(link));
                                    proof {
                                        assert(out.deep_view() =~= links_of(ssm.take(i + 1)));
                                    }
                                },
                                _ => {
                                    proof {
                                        assert(out.deep_view() =~= links_of(ssm.take(i + 1)));
                                    }
                                },
                            }
                            i = i + 1;
                        }
                        proof {
                            assert(ssm.take(n as int) =~= ssm);
                        }
                        out
                    },
                    Err(_) => {
                        let out: Vec<RawLink> = Vec::new();
                        proof {
                            assert(out.deep_view() =~= Seq::<RawLinkModel>::empty());
                        }
                        out
                    },
                }
            },
            _ => {
                let out: Vec<RawLink> = Vec::new();
                proof {
                    assert(out.deep_view() =~= Seq::<RawLinkModel>::empty());
                }
                out
            },
        }
    }
}

/// Appending one sentence appends its links.
proof fn lemma_links_of_snoc(ss: Seq<SentenceModel>, x: SentenceModel)
    ensures
        links_of(ss.push(x)) == links_of(ss) + (match x {
            SentenceModel::Link(l) => seq![raw_link_of(l)],
            _ => Seq::<RawLinkModel>::empty(),
        }),
    decreases ss.len(),
{
    let tail = (match x {
        SentenceModel::Link(l) => seq![raw_link_of(l)],
        _ => Seq::<RawLinkModel>::empty(),
    });
    if ss.len() == 0 {
        assert(ss.push(x)[0] == x);
        assert(ss.push(x).skip(1) =~= Seq::<SentenceModel>::empty());
        assert(links_of(ss.push(x)) == tail + links_of(Seq::<SentenceModel>::empty()));
        assert(tail + Seq::<RawLinkModel>::empty() =~= tail);
        assert(links_of(ss) + tail =~= tail);
    } else {
        lemma_links_of_snoc(ss.skip(1), x);
        assert(ss.push(x).skip(1) =~= ss.skip(1).push(x));
        assert(ss.push(x)[0] == ss[0]);
        let head = (match ss[0] {
            SentenceModel::Link(l) => seq![raw_link_of(l)],
            _ => Seq::<RawLinkModel>::empty(),
        });
        assert(links_of(ss.push(x)) == head + (links_of(ss.skip(1)) + tail));
        assert(head + (links_of(ss.skip(1)) + tail) =~= (head + links_of(ss.skip(1))) + tail);
    }
}

/// The title level clamps: a heading span whose first seven bytes are all
/// `#` parses at level six, however many more `#` bytes follow.
pub proof fn lemma_title_level_clamp(st: ParserModel, s: Seq<u8>)
    requires
        s.len() >= 7,
        forall|k: int| 0 <= k < 7 ==> #[trigger] s[k] == 35,
    ensures
        title_scan(s, 1, 1).0 == 6,
        match title_spec(st, s).1 {
            Ok(t) => t.level == TitleLevel::H6,
            Err(_) => true,
        },
{
    assert(title_scan(s, 1, 1) == title_scan(s, 2, 2));
    assert(title_scan(s, 2, 2) == title_scan(s, 3, 3));
    assert(title_scan(s, 3, 3) == title_scan(s, 4, 4));
    assert(title_scan(s, 4, 4) == title_scan(s, 5, 5));
    assert(title_scan(s, 5, 5) == title_scan(s, 6, 6));
    assert(title_scan(s, 6, 6) == (6int, 6int));
}

/// With a single `#`, the level stays one: when no later byte is a `#`, the
/// heading parses at level one.
pub proof fn lemma_title_level_one(st: ParserModel, s: Seq<u8>)
    requires
        s.len() >= 1,
        s[0] == 35,
        forall|k: int| 1 <= k < s.len() ==> #[trigger] s[k] != 35,
    ensures
        title_scan(s, 1, 1).0 == 1,
        match title_spec(st, s).1 {
            Ok(t) => t.level == TitleLevel::H1,
            Err(_) => true,
        },
{
    lemma_title_scan_no_hash(s, 1);
}

/// Scanning a heading prefix that holds no further `#` leaves the level
/// untouched.
proof fn lemma_title_scan_no_hash(s: Seq<u8>, i: int)
    requires
        1 <= i,
        forall|k: int| i <= k < s.len() ==> #[trigger] s[k] != 35,
    ensures
        title_scan(s, i, 1).0 == 1,
    decreases remaining(s, i),
{
    if 0 <= i < s.len() && s[i] == 32 {
        lemma_title_scan_no_hash(s, i + 1);
    }
}

/// The leading tab run never reaches past the end of the span.
proof fn lemma_tabs_len_le(s: Seq<u8>, i: int)
    requires
        0 <= i <= s.len(),
    ensures
        tabs_len(s, i) <= s.len() - i,
    decreases remaining(s, i),
{
    if i < s.len() && s[i] == 9 {
        lemma_tabs_len_le(s, i + 1);
    }
}

/// List classification, in general: whenever a span parses as a list item,
/// its nesting level counts exactly the leading tabs, a bullet marker
/// records no ordinal, and an ordinal marker records exactly the decimal
/// value of its digits.
pub proof fn lemma_list_classification(st: ParserModel, s: Seq<u8>)
    requires
        s.len() <= usize::MAX,
    ensures
        match list_spec(st, s).1 {
            Ok(li) => {
                let t = tabs_len(s, 0) as int;
                &&& li.level == tabs_len(s, 0)
                &&& ((li.index is None) <==> (s[t] == 45 || s[t] == 43))
                &&& match li.index {
                    Some(n) => n == digits_val(s, t, digits_len(s, t) as int),
                    None => true,
                }
            },
            Err(_) => true,
        },
{
    lemma_tabs_len_le(s, 0);
    let t = tabs_len(s, 0) as int;
    if t < s.len() && 48 <= s[t] && s[t] <= 57 {
        match number_spec(s, t) {
            Ok(dv) => {
                lemma_digits_val_bounds(s, t, digits_len(s, t) as int);
                assert(dv.1 == digits_val(s, t, digits_len(s, t) as int));
                assert(0 <= dv.1 <= usize::MAX);
            },
            Err(_) => {},
        }
    }
}

/// The link sentences of a sentence sequence, in left-to-right order.
pub open spec fn link_sentences(ss: Seq<SentenceModel>) -> Seq<SentenceModel> {
    ss.filter(|s: SentenceModel| s is Link)
}

/// The link sentences of a sentence sequence, each flattened by
/// [`raw_link_of`], in left-to-right order.
pub open spec fn links_projected(ss: Seq<SentenceModel>) -> Seq<RawLinkModel> {
    link_sentences(ss).map_values(|s: SentenceModel| raw_link_of(s->Link_0))
}

/// Reference extraction is exact: the flattened links of a sentence
/// sequence are precisely its link sentences, in left-to-right order, each
/// flattened by [`raw_link_of`] — so a paragraph with `N` links yields
/// exactly `N` entries, and an entry's note flag is set exactly when its
/// target starts with the `md://` scheme prefix.
pub proof fn lemma_links_of_exact(ss: Seq<SentenceModel>)
    ensures
        links_of(ss) == links_projected(ss),
        links_of(ss).len() == link_sentences(ss).len(),
        forall|j: int|
            0 <= j < links_of(ss).len() ==> ((#[trigger] links_of(ss)[j]).is_md <==> match links_of(
                ss,
            )[j].href {
                Some(h) => is_md_href(h),
                None => false,
            }),
    decreases ss.len(),
{
    reveal(Seq::filter);
    if ss.len() == 0 {
        assert(link_sentences(ss) == ss);
        assert(links_of(ss) =~= links_projected(ss));
    } else {
        let d = ss.drop_last();
        let x = ss.last();
        lemma_links_of_exact(d);
        assert(d.push(x) =~= ss);
        lemma_links_of_snoc(d, x);
        if x is Link {
            assert(link_sentences(ss) == link_sentences(d).push(x));
            assert(links_projected(ss) =~= links_projected(d).push(raw_link_of(x->Link_0)));
            assert(links_of(d) + seq![raw_link_of(x->Link_0)] =~= links_of(d).push(
                raw_link_of(x->Link_0),
            ));
        } else {
            assert(link_sentences(ss) == link_sentences(d));
            assert(links_of(d) + Seq::<RawLinkModel>::empty() =~= links_of(d));
        }
        assert(links_of(ss) == links_projected(ss));
    }
    assert forall|j: int| 0 <= j < links_of(ss).len() implies ((#[trigger] links_of(ss)[j]).is_md
        <==> match links_of(ss)[j].href {
        Some(h) => is_md_href(h),
        None => false,
    }) by {
        assert(links_of(ss)[j] == links_projected(ss)[j]);
        assert(links_projected(ss)[j] == raw_link_of(link_sentences(ss)[j]->Link_0));
    }
}

/// Parses one raw span with a fresh parser.
pub fn parse(sb: &SplitBlock) -> (r: Result<Block, MdError>)
    ensures
        match r {
            Ok(b) => process_spec(init_parser(), sb.deep_view()).1 == Ok::<
                BlockModel,
                MdErrorModel,
            >(b.deep_view()),
            Err(e) => process_spec(init_parser(), sb.deep_view()).1 == Err::<
                BlockModel,
                MdErrorModel,
            >(e.deep_view()),
        },
{
    let mut parser = Parser::new();
    parser.process(sb)
}

/// Reduces one span for outline extraction with a fresh parser.
pub fn parse_title_only(line: usize, sb: &SplitBlock) -> (r: Option<RawTitle>)
    ensures
        r.deep_view() == title_only_spec(line, sb.deep_view()),
{
    let mut parser = Parser::new();
    parser.parse_title_only(line, sb)
}

/// Reduces one span for reference extraction with a fresh parser.
pub fn parse_link_only(sb: &SplitBlock) -> (r: Vec<RawLink>)
    ensures
        r.deep_view() == link_only_spec(init_parser(), sb.deep_view()),
{
    let mut parser = Parser::new();
    parser.parse_link_only(sb)
}

} // verus!
