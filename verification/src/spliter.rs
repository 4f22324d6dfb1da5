//! The splitter: one forward scan with bounded lookahead over the whole
//! document, emitting the ordered sequence of raw block spans. It never
//! fails: an unterminated fence folds the rest of the document into that
//! block's body.

use vstd::prelude::*;
use vstd::string::StringSliceAdditionalSpecFns;
use crate::bytes::{
    MdChars, MdCharsIter, lemma_scan_to_byte_first, lemma_scan_to_byte_result,
    lemma_scan_to_seq_first, lemma_scan_to_seq_result, match_at, remaining, scan_to_byte,
    scan_to_seq,
};
use crate::expr::{SplitBlock, SplitBlockModel};

verus! {

/// The math fence: two dollar signs.
pub open spec fn math_fence() -> Seq<u8> {
    seq![36u8, 36u8]
}

/// The code fence: three backticks.
pub open spec fn code_fence() -> Seq<u8> {
    seq![96u8, 96u8, 96u8]
}

/// The thematic-break marker: three dashes.
pub open spec fn break_marker() -> Seq<u8> {
    seq![45u8, 45u8, 45u8]
}

/// What the scanner's slice-to-byte step yields from position `j`: the bytes
/// taken and the cursor position afterwards (the end of the document when
/// the terminator never occurs).
pub open spec fn take_to_byte(s: Seq<u8>, j: int, end: u8) -> (Seq<u8>, int) {
    let p = scan_to_byte(s, j, end);
    if p >= 0 {
        (
            s.subrange(j, p),
            if p < s.len() {
                p + 1
            } else {
                s.len() as int
            },
        )
    } else {
        (s.subrange(j, s.len() as int), s.len() as int)
    }
}

/// What the scanner's slice-to-sequence step yields from position `j`.
pub open spec fn take_to_seq(s: Seq<u8>, j: int, pat: Seq<u8>) -> (Seq<u8>, int) {
    let p = scan_to_seq(s, j, pat);
    if p >= 0 {
        (s.subrange(j, p), p + pat.len())
    } else {
        (s.subrange(j, s.len() as int), s.len() as int)
    }
}

/// The ordered spans the splitter emits from cursor position `i` to the end
/// of the document. A math fence consumes its marker and one following
/// newline, the body up to the closing `$$`, and one newline after the
/// close. A code fence consumes its marker, the language tag up to the next
/// newline, the body up to the closing fence, and one newline after the
/// close. `---` consumes through the end of its line. Anything else is a
/// paragraph up to the next newline; an empty paragraph is dropped, and the
/// scan stops once the whole document is consumed.
pub open spec fn split_scan(s: Seq<u8>, i: int) -> Seq<SplitBlockModel>
    decreases remaining(s, i),
        via split_scan_decreases
{
    if i < 0 || i > s.len() {
        Seq::<SplitBlockModel>::empty()
    } else if match_at(s, i, math_fence()) {
        let j = i + 2;
        let j2 = if j < s.len() && s[j] == 10 {
            j + 1
        } else {
            j
        };
        let bk = take_to_seq(s, j2, math_fence());
        let k = if bk.1 < s.len() && s[bk.1] == 10 {
            bk.1 + 1
        } else {
            bk.1
        };
        seq![SplitBlockModel::MathBlock(bk.0)] + split_scan(s, k)
    } else if match_at(s, i, code_fence()) {
        let lg = take_to_byte(s, i + 3, 10);
        let lang = if lg.0.len() == 0 {
            Option::<Seq<u8>>::None
        } else {
            Some(lg.0)
        };
        let bk = take_to_seq(s, lg.1, code_fence());
        let k = if bk.1 < s.len() && s[bk.1] == 10 {
            bk.1 + 1
        } else {
            bk.1
        };
        seq![SplitBlockModel::CodeBlock(lang, bk.0)] + split_scan(s, k)
    } else if match_at(s, i, break_marker()) {
        let lk = take_to_byte(s, i + 3, 10);
        seq![SplitBlockModel::Line] + split_scan(s, lk.1)
    } else {
        let bk = take_to_byte(s, i, 10);
        let blocks = if bk.0.len() == 0 {
            Seq::<SplitBlockModel>::empty()
        } else {
            seq![SplitBlockModel::Paragraph(bk.0)]
        };
        if bk.1 >= s.len() {
            blocks
        } else {
            blocks + split_scan(s, bk.1)
        }
    }
}

#[via_fn]
proof fn split_scan_decreases(s: Seq<u8>, i: int) {
    if 0 <= i <= s.len() {
        if match_at(s, i, math_fence()) {
            let j = i + 2;
            let j2 = if j < s.len() && s[j] == 10 {
                j + 1
            } else {
                j
            };
            lemma_scan_to_seq_result(s, j2, math_fence());
        } else if match_at(s, i, code_fence()) {
            lemma_scan_to_byte_result(s, i + 3, 10);
            let lg = take_to_byte(s, i + 3, 10);
            lemma_scan_to_seq_result(s, lg.1, code_fence());
        } else if match_at(s, i, break_marker()) {
            lemma_scan_to_byte_result(s, i + 3, 10);
        } else {
            lemma_scan_to_byte_result(s, i, 10);
        }
    }
}

/// What splitting a whole document yields.
pub open spec fn split_spec(s: Seq<u8>) -> Seq<SplitBlockModel> {
    split_scan(s, 0)
}

/// Does the text end with a newline byte?
pub open spec fn ends_nl(s: Seq<u8>) -> bool {
    s.len() > 0 && s[s.len() - 1] == 10
}

/// The canonical text of a raw span: the block text a re-serializer emits,
/// with a newline inserted before a fence close only when the body does not
/// already end in one.
pub open spec fn to_text_spec(sb: SplitBlockModel) -> Seq<u8> {
    match sb {
        SplitBlockModel::Paragraph(s) => s,
        SplitBlockModel::CodeBlock(lang, body) => code_fence() + (match lang {
            Some(l) => l,
            None => Seq::<u8>::empty(),
        }) + seq![10u8] + body + (if ends_nl(body) {
            Seq::<u8>::empty()
        } else {
            seq![10u8]
        }) + code_fence(),
        SplitBlockModel::Line => break_marker(),
        SplitBlockModel::MathBlock(body) => math_fence() + seq![10u8] + body + (if ends_nl(body) {
            Seq::<u8>::empty()
        } else {
            seq![10u8]
        }) + math_fence(),
    }
}

impl SplitBlock {
    /// The canonical text of this span.
    pub fn to_text(&self) -> (r: Vec<u8>)
        ensures
            r@ == to_text_spec(self.deep_view()),
    {
        let mut out: Vec<u8> = Vec::new();
        match self {
            SplitBlock::Paragraph(s) => {
                crate::bytes::append_bytes(&mut out, s.as_bytes());
                proof {
                    assert(out@ =~= to_text_spec(self.deep_view()));
                }
            },
            SplitBlock::CodeBlock(lang, body) => {
                out.push(96);
                out.push(96);
                out.push(96);
                match lang {
                    Some(l) => {
                        crate::bytes::append_bytes(&mut out, l.as_slice());
                    },
                    None => {},
                }
                out.push(10);
                crate::bytes::append_bytes(&mut out, body.as_bytes());
                let blen = body.len();
                if !(blen > 0 && body.at(blen - 1) == 10) {
                    out.push(10);
                }
                out.push(96);
                out.push(96);
                out.push(96);
                proof {
                    assert(out@ =~= to_text_spec(self.deep_view()));
                }
            },
            SplitBlock::Line => {
                out.push(45);
                out.push(45);
                out.push(45);
                proof {
                    assert(out@ =~= to_text_spec(self.deep_view()));
                }
            },
            SplitBlock::MathBlock(body) => {
                out.push(36);
                out.push(36);
                out.push(10);
                crate::bytes::append_bytes(&mut out, body.as_bytes());
                let blen = body.len();
                if !(blen > 0 && body.at(blen - 1) == 10) {
                    out.push(10);
                }
                out.push(36);
                out.push(36);
                proof {
                    assert(out@ =~= to_text_spec(self.deep_view()));
                }
            },
        }
        out
    }
}

/// A span in the shape the splitter itself emits, tightened to bodies that
/// end in a newline: a paragraph is non-empty, holds no newline and opens no
/// fence or break at its head; a fenced body never contains its own closing
/// fence and ends in a newline; a language tag holds no newline and is
/// absent exactly when it is empty.
pub open spec fn wf_span(sb: SplitBlockModel) -> bool {
    match sb {
        SplitBlockModel::Paragraph(s) => {
            &&& s.len() > 0
            &&& (forall|k: int| 0 <= k < s.len() ==> #[trigger] s[k] != 10)
            &&& !match_at(s, 0, math_fence())
            &&& !match_at(s, 0, code_fence())
            &&& !match_at(s, 0, break_marker())
        },
        SplitBlockModel::CodeBlock(lang, body) => {
            &&& (match lang {
                Some(l) => l.len() > 0 && (forall|k: int| 0 <= k < l.len() ==> #[trigger] l[k]
                    != 10),
                None => true,
            })
            &&& ends_nl(body)
            &&& (forall|d: int| !(#[trigger] match_at(body, d, code_fence())))
        },
        SplitBlockModel::Line => true,
        SplitBlockModel::MathBlock(body) => {
            &&& ends_nl(body)
            &&& (forall|d: int| !(#[trigger] match_at(body, d, math_fence())))
        },
    }
}

/// The document a re-serializer reassembles: each span's canonical text
/// followed by one separating newline.
pub open spec fn rejoin(sbs: Seq<SplitBlockModel>) -> Seq<u8>
    decreases sbs.len(),
{
    if sbs.len() == 0 {
        Seq::<u8>::empty()
    } else {
        to_text_spec(sbs[0]) + seq![10u8] + rejoin(sbs.skip(1))
    }
}

/// One paragraph step: at a position holding the paragraph's bytes and a
/// newline right after them, the scan emits the paragraph and either stops
/// (nothing but the newline is left) or continues after the newline.
proof fn lemma_resplit_paragraph(s: Seq<u8>, i: int, p: Seq<u8>)
    requires
        0 <= i,
        wf_span(SplitBlockModel::Paragraph(p)),
        i + p.len() < s.len(),
        forall|d: int| i <= d < i + p.len() ==> #[trigger] s[d] == p[d - i],
        s[i + p.len()] == 10,
    ensures
        ({
            let jn = i + p.len();
            split_scan(s, i) == (if jn + 1 >= s.len() {
                seq![SplitBlockModel::Paragraph(p)]
            } else {
                seq![SplitBlockModel::Paragraph(p)] + split_scan(s, jn + 1)
            })
        }),
{
    let jn = i + p.len();
    assert(!match_at(s, i, math_fence())) by {
        if match_at(s, i, math_fence()) {
            assert(s.subrange(i, i + 2)[0] == 36 && s.subrange(i, i + 2)[1] == 36);
            if p.len() >= 2 {
                assert(p.subrange(0, 2) =~= math_fence());
                assert(match_at(p, 0, math_fence()));
            }
        }
    }
    assert(!match_at(s, i, code_fence())) by {
        if match_at(s, i, code_fence()) {
            assert(s.subrange(i, i + 3)[0] == 96 && s.subrange(i, i + 3)[1] == 96 && s.subrange(
                i,
                i + 3,
            )[2] == 96);
            if p.len() >= 3 {
                assert(p.subrange(0, 3) =~= code_fence());
                assert(match_at(p, 0, code_fence()));
            }
        }
    }
    assert(!match_at(s, i, break_marker())) by {
        if match_at(s, i, break_marker()) {
            assert(s.subrange(i, i + 3)[0] == 45 && s.subrange(i, i + 3)[1] == 45 && s.subrange(
                i,
                i + 3,
            )[2] == 45);
            if p.len() >= 3 {
                assert(p.subrange(0, 3) =~= break_marker());
                assert(match_at(p, 0, break_marker()));
            }
        }
    }
    lemma_scan_to_byte_first(s, i, jn, 10);
    let bk = take_to_byte(s, i, 10);
    assert(bk.0 =~= p);
    assert(bk.1 == jn + 1);
}

/// One thematic-break step: at a position holding `---` and a newline right
/// after it, the scan emits the break and continues after the newline.
proof fn lemma_resplit_line(s: Seq<u8>, i: int)
    requires
        0 <= i,
        i + 3 < s.len(),
        forall|d: int| i <= d < i + 3 ==> #[trigger] s[d] == break_marker()[d - i],
        s[i + 3] == 10,
    ensures
        split_scan(s, i) == seq![SplitBlockModel::Line] + split_scan(s, i + 4),
{
    assert(match_at(s, i, break_marker())) by {
        assert(s.subrange(i, i + 3) =~= break_marker());
    }
    assert(!match_at(s, i, math_fence())) by {
        if match_at(s, i, math_fence()) {
            assert(s.subrange(i, i + 2)[0] == 36);
        }
    }
    assert(!match_at(s, i, code_fence())) by {
        if match_at(s, i, code_fence()) {
            assert(s.subrange(i, i + 3)[0] == 96);
        }
    }
    lemma_scan_to_byte_first(s, i + 3, i + 3, 10);
    let lk = take_to_byte(s, i + 3, 10);
    assert(lk.1 == i + 4);
}

/// One code-fence step: at a position holding the span's canonical text and
/// a newline right after it, the scan emits the code block and continues
/// after the newline.
proof fn lemma_resplit_code(s: Seq<u8>, i: int, lang: Option<Seq<u8>>, body: Seq<u8>)
    requires
        0 <= i,
        wf_span(SplitBlockModel::CodeBlock(lang, body)),
        ({
            let t0 = to_text_spec(SplitBlockModel::CodeBlock(lang, body));
            &&& i + t0.len() < s.len()
            &&& (forall|d: int| i <= d < i + t0.len() ==> #[trigger] s[d] == t0[d - i])
            &&& s[i + t0.len()] == 10
        }),
    ensures
        ({
            let t0 = to_text_spec(SplitBlockModel::CodeBlock(lang, body));
            split_scan(s, i) == seq![SplitBlockModel::CodeBlock(lang, body)] + split_scan(
                s,
                i + t0.len() + 1,
            )
        }),
{
    let t0 = to_text_spec(SplitBlockModel::CodeBlock(lang, body));
    let lm = (match lang {
        Some(l) => l,
        None => Seq::<u8>::empty(),
    });
    let t0n = code_fence() + lm + seq![10u8] + body + code_fence();
    assert(ends_nl(body));
    assert(t0 =~= t0n);
    let jn = i + t0.len();
    let p1 = i + 3 + lm.len();
    let q = p1 + 1 + body.len();
    assert forall|d: int| i <= d < jn implies s[d] == t0n[d - i] by {
        assert(s[d] == t0[d - i]);
    }
    assert(match_at(s, i, code_fence())) by {
        assert(s.subrange(i, i + 3) =~= code_fence());
    }
    assert(!match_at(s, i, math_fence())) by {
        if match_at(s, i, math_fence()) {
            assert(s.subrange(i, i + 2)[0] == 36);
        }
    }
    assert(s[p1] == 10);
    assert forall|d: int| i + 3 <= d < p1 implies s[d] != 10 by {
        assert(t0n[d - i] == lm[d - i - 3]);
    }
    lemma_scan_to_byte_first(s, i + 3, p1, 10);
    let lg = take_to_byte(s, i + 3, 10);
    assert(lg.0 =~= lm);
    assert(lg.1 == p1 + 1);
    assert(match_at(s, q, code_fence())) by {
        assert(s.subrange(q, q + 3) =~= code_fence());
    }
    assert forall|d: int| p1 + 1 <= d < q implies !(#[trigger] match_at(s, d, code_fence())) by {
        if match_at(s, d, code_fence()) {
            if d + 3 <= q {
                assert(body.subrange(d - p1 - 1, d - p1 - 1 + 3) =~= code_fence()) by {
                    assert(s.subrange(d, d + 3)[0] == 96 && s.subrange(d, d + 3)[1] == 96
                        && s.subrange(d, d + 3)[2] == 96);
                }
                assert(match_at(body, d - p1 - 1, code_fence()));
            } else if d == q - 1 {
                assert(s[d] == body[body.len() - 1]);
                assert(s.subrange(d, d + 3)[0] == 96);
            } else {
                assert(d == q - 2);
                assert(s[d + 1] == body[body.len() - 1]);
                assert(s.subrange(d, d + 3)[1] == 96);
            }
        }
    }
    lemma_scan_to_seq_first(s, p1 + 1, q, code_fence());
    let bk = take_to_seq(s, p1 + 1, code_fence());
    assert(bk.0 =~= body);
    assert(bk.1 == q + 3);
    assert(q + 3 == jn);
    let langm = (if lg.0.len() == 0 {
        Option::<Seq<u8>>::None
    } else {
        Some(lg.0)
    });
    assert(langm == lang) by {
        match lang {
            Some(l) => {
                assert(l.len() > 0);
            },
            None => {},
        }
    }
}

/// One math-fence step: at a position holding the span's canonical text and
/// a newline right after it, the scan emits the math block and continues
/// after the newline.
proof fn lemma_resplit_math(s: Seq<u8>, i: int, body: Seq<u8>)
    requires
        0 <= i,
        wf_span(SplitBlockModel::MathBlock(body)),
        ({
            let t0 = to_text_spec(SplitBlockModel::MathBlock(body));
            &&& i + t0.len() < s.len()
            &&& (forall|d: int| i <= d < i + t0.len() ==> #[trigger] s[d] == t0[d - i])
            &&& s[i + t0.len()] == 10
        }),
    ensures
        ({
            let t0 = to_text_spec(SplitBlockModel::MathBlock(body));
            split_scan(s, i) == seq![SplitBlockModel::MathBlock(body)] + split_scan(
                s,
                i + t0.len() + 1,
            )
        }),
{
    let t0 = to_text_spec(SplitBlockModel::MathBlock(body));
    let t0n = math_fence() + seq![10u8] + body + math_fence();
    assert(ends_nl(body));
    assert(t0 =~= t0n);
    let jn = i + t0.len();
    let q = i + 3 + body.len();
    assert forall|d: int| i <= d < jn implies s[d] == t0n[d - i] by {
        assert(s[d] == t0[d - i]);
    }
    assert(match_at(s, i, math_fence())) by {
        assert(s.subrange(i, i + 2) =~= math_fence());
    }
    assert(s[i + 2] == 10);
    assert(match_at(s, q, math_fence())) by {
        assert(s.subrange(q, q + 2) =~= math_fence());
    }
    assert forall|d: int| i + 3 <= d < q implies !(#[trigger] match_at(s, d, math_fence())) by {
        if match_at(s, d, math_fence()) {
            if d + 2 <= q {
                assert(body.subrange(d - i - 3, d - i - 3 + 2) =~= math_fence()) by {
                    assert(s.subrange(d, d + 2)[0] == 36 && s.subrange(d, d + 2)[1] == 36);
                }
                assert(match_at(body, d - i - 3, math_fence()));
            } else {
                assert(d == q - 1);
                assert(s[d] == body[body.len() - 1]);
                assert(s.subrange(d, d + 2)[0] == 36);
            }
        }
    }
    lemma_scan_to_seq_first(s, i + 3, q, math_fence());
    let bk = take_to_seq(s, i + 3, math_fence());
    assert(bk.0 =~= body);
    assert(bk.1 == q + 2);
    assert(q + 2 == jn);
}

/// From position `i`, splitting text whose rest is the rejoined canonical
/// text of well-formed spans yields exactly those spans.
proof fn lemma_resplit_from(s: Seq<u8>, i: int, sbs: Seq<SplitBlockModel>)
    requires
        0 <= i <= s.len(),
        s.skip(i) == rejoin(sbs),
        forall|k: int| 0 <= k < sbs.len() ==> wf_span(#[trigger] sbs[k]),
    ensures
        split_scan(s, i) == sbs,
    decreases sbs.len(),
{
    assert(s.skip(i).len() == s.len() - i);
    if sbs.len() == 0 {
        assert(i == s.len());
        assert(split_scan(s, i) =~= Seq::<SplitBlockModel>::empty());
        assert(sbs =~= Seq::<SplitBlockModel>::empty());
    } else {
        let b0 = sbs[0];
        let t0 = to_text_spec(b0);
        let rest = sbs.skip(1);
        let rj = rejoin(rest);
        let t = t0 + seq![10u8] + rj;
        assert(s.skip(i) == t);
        assert(i + t.len() == s.len());
        assert forall|d: int| i <= d < i + t.len() implies s[d] == t[d - i] by {
            assert(s.skip(i)[d - i] == s[d]);
        }
        let jn = i + t0.len();
        assert forall|d: int| i <= d < jn implies #[trigger] s[d] == t0[d - i] by {
            assert(s[d] == t[d - i]);
            assert(t[d - i] == t0[d - i]);
        }
        assert(s[jn] == 10) by {
            assert(t[t0.len() as int] == 10);
        }
        assert(wf_span(b0));
        if rest.len() > 0 {
            assert(wf_span(rest[0]));
            assert(rj.len() >= to_text_spec(rest[0]).len() + 1);
            assert(to_text_spec(rest[0]).len() >= 1);
        }
        assert(s.skip(jn + 1) =~= rj);
        lemma_resplit_from(s, jn + 1, rest);
        match b0 {
            SplitBlockModel::Paragraph(p) => {
                lemma_resplit_paragraph(s, i, p);
                if rest.len() == 0 {
                    assert(jn + 1 == s.len());
                    assert(split_scan(s, i) =~= sbs);
                } else {
                    assert(jn + 1 < s.len());
                    assert(split_scan(s, i) =~= sbs);
                }
            },
            SplitBlockModel::Line => {
                lemma_resplit_line(s, i);
                assert(split_scan(s, i) =~= sbs);
            },
            SplitBlockModel::CodeBlock(lang, body) => {
                lemma_resplit_code(s, i, lang, body);
                assert(split_scan(s, i) =~= sbs);
            },
            SplitBlockModel::MathBlock(body) => {
                lemma_resplit_math(s, i, body);
                assert(split_scan(s, i) =~= sbs);
            },
        }
    }
}


/// Re-splitting is idempotent: splitting the rejoined canonical text of
/// well-formed spans yields the same span sequence back. Well-formedness
/// (see [`wf_span`]) holds of everything the splitter emits, except that a
/// fenced body must end in a newline: a body cut short by the end of the
/// document need not round-trip.
pub proof fn lemma_resplit_idempotent(sbs: Seq<SplitBlockModel>)
    requires
        forall|k: int| 0 <= k < sbs.len() ==> wf_span(#[trigger] sbs[k]),
    ensures
        split_spec(rejoin(sbs)) == sbs,
{
    let s = rejoin(sbs);
    assert(s.skip(0) =~= s);
    lemma_resplit_from(s, 0, sbs);
}

/// An unterminated code fence never fails: when the closing fence does not
/// occur after the language line, the whole rest of the document becomes
/// the block's body, the document splits into that one span, and the span
/// parses without error.
pub proof fn lemma_unterminated_fence(s: Seq<u8>)
    requires
        match_at(s, 0, code_fence()),
        ({
            let lg = take_to_byte(s, 3, 10);
            scan_to_seq(s, lg.1, code_fence()) == -1
        }),
    ensures
        ({
            let lg = take_to_byte(s, 3, 10);
            let lang = if lg.0.len() == 0 {
                Option::<Seq<u8>>::None
            } else {
                Some(lg.0)
            };
            split_spec(s) == seq![
                SplitBlockModel::CodeBlock(lang, s.subrange(lg.1, s.len() as int)),
            ]
        }),
        split_spec(s).len() == 1 && crate::parser::process_spec(
            crate::parser::init_parser(),
            split_spec(s)[0],
        ).1 is Ok,
{
    lemma_scan_to_byte_result(s, 3, 10);
    let lg = take_to_byte(s, 3, 10);
    let bk = take_to_seq(s, lg.1, code_fence());
    assert(bk.1 == s.len());
    assert(!match_at(s, 0, math_fence()));
    assert(split_scan(s, s.len() as int) =~= Seq::<SplitBlockModel>::empty());
    let lang = if lg.0.len() == 0 {
        Option::<Seq<u8>>::None
    } else {
        Some(lg.0)
    };
    assert(split_scan(s, 0) =~= seq![
        SplitBlockModel::CodeBlock(lang, s.subrange(lg.1, s.len() as int)),
    ]);
}

/// Splits a document into its ordered raw block spans. Total: malformed or
/// unterminated fences degrade to "rest of the input" spans, never an error.
pub fn split(input: &str) -> (r: Vec<SplitBlock>)
    ensures
        r.deep_view() == split_spec(input.spec_bytes()),
{
    let ghost s = input.spec_bytes();
    let chars = MdChars::new(input.as_bytes());
    let mut it = MdCharsIter::new(chars);
    let mut blocks: Vec<SplitBlock> = Vec::new();
    let mut mm: Vec<u8> = Vec::new();
    mm.push(36);
    mm.push(36);
    let mut ff: Vec<u8> = Vec::new();
    ff.push(96);
    ff.push(96);
    ff.push(96);
    let mut dd: Vec<u8> = Vec::new();
    dd.push(45);
    dd.push(45);
    dd.push(45);
    proof {
        assert(mm@ =~= math_fence());
        assert(ff@ =~= code_fence());
        assert(dd@ =~= break_marker());
        assert(blocks.deep_view() =~= Seq::<SplitBlockModel>::empty());
        assert(Seq::<SplitBlockModel>::empty() + split_scan(s, 0) =~= split_scan(s, 0));
    }
    loop
        invariant_except_break
            it.wf(),
            it.bytes() == s,
            mm@ == math_fence(),
            ff@ == code_fence(),
            dd@ == break_marker(),
            split_scan(s, 0) == blocks.deep_view() + split_scan(s, it.pos()),
        ensures
            split_scan(s, 0) == blocks.deep_view(),
        decreases s.len() - it.pos(),
    {
        let ghost i = it.pos();
        let ghost bdv = blocks.deep_view();
        if it.check_multi(mm.as_slice()) {
            it.next();
            it.next();
            if it.check(10) {
                it.next();
            }
            proof {
                lemma_scan_to_seq_result(s, it.pos(), math_fence());
            }
            let body = it.slice_to_array(mm.as_slice());
            if it.check(10) {
                it.next();
            }
            let x = SplitBlock::MathBlock(MdChars::new(body.as_slice()));
            proof {
                assert(split_scan(s, i) == seq![x.deep_view()] + split_scan(s, it.pos()));
                assert(bdv + (seq![x.deep_view()] + split_scan(s, it.pos())) =~= (bdv + seq![
                    x.deep_view(),
                ]) + split_scan(s, it.pos()));
            }
            blocks.push(x);
            proof {
                assert(blocks.deep_view() =~= bdv + seq![blocks@[bdv.len() as int].deep_view()]);
            }
        } else if it.check_multi(ff.as_slice()) {
            it.next();
            it.next();
            it.next();
            proof {
                lemma_scan_to_byte_result(s, it.pos(), 10);
            }
            let lang_bytes = it.slice_to_byte(10);
            let lang = if lang_bytes.len() == 0 {
                None
            } else {
                Some(lang_bytes)
            };
            proof {
                lemma_scan_to_seq_result(s, it.pos(), code_fence());
            }
            let body = it.slice_to_array(ff.as_slice());
            if it.check(10) {
                it.next();
            }
            let x = SplitBlock::CodeBlock(lang, MdChars::new(body.as_slice()));
            proof {
                assert(split_scan(s, i) == seq![x.deep_view()] + split_scan(s, it.pos()));
                assert(bdv + (seq![x.deep_view()] + split_scan(s, it.pos())) =~= (bdv + seq![
                    x.deep_view(),
                ]) + split_scan(s, it.pos()));
            }
            blocks.push(x);
            proof {
                assert(blocks.deep_view() =~= bdv + seq![blocks@[bdv.len() as int].deep_view()]);
            }
        } else if it.check_multi(dd.as_slice()) {
            it.next();
            it.next();
            it.next();
            proof {
                lemma_scan_to_byte_result(s, it.pos(), 10);
            }
            let _skipped = it.slice_to_byte(10);
            let x = SplitBlock::Line;
            proof {
                assert(split_scan(s, i) == seq![x.deep_view()] + split_scan(s, it.pos()));
                assert(bdv + (seq![x.deep_view()] + split_scan(s, it.pos())) =~= (bdv + seq![
                    x.deep_view(),
                ]) + split_scan(s, it.pos()));
            }
            blocks.push(x);
            proof {
                assert(blocks.deep_view() =~= bdv + seq![blocks@[bdv.len() as int].deep_view()]);
            }
        } else {
            proof {
                lemma_scan_to_byte_result(s, it.pos(), 10);
            }
            let body = it.slice_to_byte(10);
            if body.len() != 0 {
                let x = SplitBlock::Paragraph(MdChars::new(body.as_slice()));
                let ghost stop = it.pos() >= s.len();
                proof {
                    if stop {
                        assert(split_scan(s, i) == seq![x.deep_view()]);
                    } else {
                        assert(split_scan(s, i) == seq![x.deep_view()] + split_scan(
                            s,
                            it.pos(),
                        ));
                        assert(bdv + (seq![x.deep_view()] + split_scan(s, it.pos())) =~= (bdv
                            + seq![x.deep_view()]) + split_scan(s, it.pos()));
                    }
                }
                blocks.push(x);
                proof {
                    assert(blocks.deep_view() =~= bdv + seq![
                        blocks@[bdv.len() as int].deep_view(),
                    ]);
                }
            } else {
                proof {
                    assert(Seq::<SplitBlockModel>::empty() + split_scan(s, it.pos())
                        =~= split_scan(s, it.pos()));
                    assert(bdv + Seq::<SplitBlockModel>::empty() =~= bdv);
                }
            }
            if it.is_end() {
                break;
            }
        }
    }
    blocks
}

} // verus!
