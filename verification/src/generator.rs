//! Generator dispatch: the generic pipeline that splits a document, parses
//! every span with a fresh parser, and maps each parse result through a
//! caller-supplied generator — sequentially, or in a data-parallel fan-out
//! that always preserves input order.
//!
//! Each generator trait carries a spec method `gen_spec` saying what its
//! `generate` returns for a given parse result; `process` is then pinned
//! down exactly: element `i` of its output is `gen_spec` of the parse of
//! span `i`. In particular the output never depends on whether the
//! sequential or the parallel path ran.

use vstd::prelude::*;
use vstd::string::StringSliceAdditionalSpecFns;
use rayon::prelude::{IntoParallelRefIterator, ParallelIterator};
use crate::err::{MdError, MdErrorModel};
use crate::expr::{
    Block, BlockModel, Paragraph, RawLink, RawLinkModel, RawTitle, RawTitleModel, Sentence,
    SentenceModel, SplitBlock, SplitBlockModel, Text, TextModel, result_view,
};
use crate::parser::{init_parser, link_only_spec, process_spec, title_only_spec};
use crate::spliter::split_spec;

verus! {

/// The UTF-8 bytes of an owned string's characters.
pub open spec fn string_bytes(s: Seq<char>) -> Seq<u8> {
    vstd::utf8::encode_utf8(s)
}

/// The block every span of a document parses to (or its error), each span
/// parsed with a fresh parser, in input order.
pub open spec fn parsed_spans(s: Seq<char>) -> Seq<Result<BlockModel, MdErrorModel>> {
    split_spec(string_bytes(s)).map_values(
        |sb: SplitBlockModel| process_spec(init_parser(), sb).1,
    )
}

/// The block the single-span dispatch hands to its generator: the parse of
/// the first span, or the fallback paragraph holding one empty text run when
/// the document produced no spans at all.
pub open spec fn single_span(s: Seq<char>) -> Result<BlockModel, MdErrorModel> {
    let spans = split_spec(string_bytes(s));
    if spans.len() > 0 {
        process_spec(init_parser(), spans[0]).1
    } else {
        Ok(
            BlockModel::Paragraph(
                seq![
                    SentenceModel::Text(
                        TextModel {
                            content: Seq::<u8>::empty(),
                            is_bold: false,
                            is_italic: false,
                            is_strike: false,
                        },
                    ),
                ],
            ),
        )
    }
}

/// The raw titles of a span sequence whose first span sits at position
/// `base`, in order.
pub open spec fn titles_from(sbs: Seq<SplitBlockModel>, base: usize) -> Seq<RawTitleModel>
    decreases sbs.len(),
{
    if sbs.len() == 0 {
        Seq::<RawTitleModel>::empty()
    } else {
        (match title_only_spec(base, sbs[0]) {
            Some(t) => seq![t],
            None => Seq::<RawTitleModel>::empty(),
        }) + titles_from(sbs.skip(1), (base + 1) as usize)
    }
}

/// The document outline: every span's raw title, with its 0-based span
/// position, in order.
pub open spec fn titles_spec(s: Seq<char>) -> Seq<RawTitleModel> {
    titles_from(split_spec(string_bytes(s)), 0)
}

/// The flattened links of a span sequence, each span reduced with a fresh
/// parser, in order.
pub open spec fn refs_from(sbs: Seq<SplitBlockModel>) -> Seq<RawLinkModel>
    decreases sbs.len(),
{
    if sbs.len() == 0 {
        Seq::<RawLinkModel>::empty()
    } else {
        link_only_spec(init_parser(), sbs[0]) + refs_from(sbs.skip(1))
    }
}

/// Every reference a span sequence flattens to is well formed.
pub proof fn lemma_refs_from_wf_at(sbs: Seq<SplitBlockModel>, j: int)
    requires
        0 <= j < refs_from(sbs).len(),
    ensures
        crate::parser::wf_raw_link(refs_from(sbs)[j]),
    decreases sbs.len(),
{
    let head = link_only_spec(init_parser(), sbs[0]);
    if j < head.len() {
        assert(refs_from(sbs)[j] == head[j]);
        match sbs[0] {
            SplitBlockModel::Paragraph(p) => {
                match crate::parser::paragraph_spec(init_parser(), p, 0).1 {
                    Ok(ss) => {
                        crate::parser::lemma_links_of_wf_at(ss, j);
                    },
                    Err(_) => {},
                }
            },
            _ => {},
        }
    } else {
        lemma_refs_from_wf_at(sbs.skip(1), j - head.len());
        assert(refs_from(sbs)[j] == refs_from(sbs.skip(1))[j - head.len()]);
    }
}

/// All references of a document, in reading order.
pub open spec fn refs_spec(s: Seq<char>) -> Seq<RawLinkModel> {
    refs_from(split_spec(string_bytes(s)))
}

/// Parses every span with a fresh parser, span by span in order.
fn parse_spans(blocks: &Vec<SplitBlock>) -> (r: Vec<Result<Block, MdError>>)
    ensures
        r@.len() == blocks.deep_view().len(),
        forall|k: int|
            0 <= k < r@.len() ==> result_view(#[trigger] r@[k]) == process_spec(
                init_parser(),
                blocks.deep_view()[k],
            ).1,
{
    let ghost spans = blocks.deep_view();
    let mut bs: Vec<Result<Block, MdError>> = Vec::new();
    let mut i: usize = 0;
    while i < blocks.len()
        invariant
            blocks.deep_view() == spans,
            0 <= i <= blocks@.len(),
            blocks@.len() == spans.len(),
            bs@.len() == i,
            forall|k: int|
                0 <= k < i ==> result_view(#[trigger] bs@[k]) == process_spec(
                    init_parser(),
                    spans[k],
                ).1,
        decreases blocks@.len() - i,
    {
        let b = crate::parser::parse(&blocks[i]);
        bs.push(b);
        i = i + 1;
    }
    bs
}

/// A generator that maps every parsed block of a document to a target type.
pub trait Generator<T: DeepView> {
    /// The model of what [`Self::generate`] returns for a given parse
    /// result.
    spec fn gen_spec(&self, block: Result<BlockModel, MdErrorModel>) -> T::V;

    /// Maps one parse result — a block or a propagated parse error — to the
    /// target type; recovering or aborting on an error is this generator's
    /// policy.
    fn generate(&self, block: &Result<Block, MdError>) -> (r: T)
        ensures
            r.deep_view() == self.gen_spec(result_view(*block)),
    ;

    /// Splits the document, parses each span with a fresh parser, and maps
    /// each result through [`Self::generate`], preserving input order.
    fn process(&self, input: String) -> (r: Vec<T>)
        ensures
            r@.len() == parsed_spans(input@).len(),
            forall|k: int|
                0 <= k < r@.len() ==> (#[trigger] r@[k]).deep_view() == self.gen_spec(
                    parsed_spans(input@)[k],
                ),
    {
        let ghost spans = split_spec(string_bytes(input@));
        let split_blocks = crate::spliter::split(input.as_str());
        let bs = parse_spans(&split_blocks);
        let mut out: Vec<T> = Vec::new();
        let mut i: usize = 0;
        while i < bs.len()
            invariant
                bs@.len() == spans.len(),
                spans == split_spec(string_bytes(input@)),
                forall|k: int|
                    0 <= k < bs@.len() ==> result_view(#[trigger] bs@[k]) == process_spec(
                        init_parser(),
                        spans[k],
                    ).1,
                0 <= i <= bs@.len(),
                out@.len() == i,
                forall|k: int|
                    0 <= k < i ==> (#[trigger] out@[k]).deep_view() == self.gen_spec(
                        result_view(bs@[k]),
                    ),
        decreases bs@.len() - i,
        {
            let t = self.generate(&bs[i]);
            out.push(t);
            i = i + 1;
        }
        out
    }
}

/// Relies on rayon's indexed parallel iterator: `par_iter().map(..).collect()`
/// over a vector yields the images in the input's order. Each span is parsed
/// by a fresh parser, so the fan-out shares no mutable state.
#[verifier::external_body]
fn par_parse(blocks: &Vec<SplitBlock>) -> (r: Vec<Result<Block, MdError>>)
    ensures
        r@.len() == blocks.deep_view().len(),
        forall|k: int|
            0 <= k < r@.len() ==> result_view(#[trigger] r@[k]) == process_spec(
                init_parser(),
                blocks.deep_view()[k],
            ).1,
{
    blocks.par_iter().map(|sb| crate::parser::parse(sb)).collect()
}

/// A generator that may fan the per-span work out over a worker pool once a
/// document holds at least `parallel_threshold` spans. The output is pinned
/// to the same sequence on both paths, so the choice of path can never show
/// in the result.
pub trait ParaGenerator<T: Send + DeepView>: Sized + Sync {
    /// The model of what [`Self::generate`] returns for a given parse
    /// result.
    spec fn gen_spec(&self, block: Result<BlockModel, MdErrorModel>) -> T::V;

    /// The span count at which [`Self::process`] switches from the
    /// sequential to the parallel path.
    fn parallel_threshold(&self) -> usize;

    /// Maps one parse result to the target type.
    fn generate(&self, block: &Result<Block, MdError>) -> (r: T)
        ensures
            r.deep_view() == self.gen_spec(result_view(*block)),
    ;

    /// Relies on rayon's indexed parallel iterator: `par_iter().map(..).collect()`
    /// over a vector yields the images in the input's order; the closure
    /// only calls this generator's verified [`Self::generate`].
    #[verifier::external_body]
    fn par_generate(&self, blocks: &Vec<Result<Block, MdError>>) -> (r: Vec<T>)
        ensures
            r@.len() == blocks@.len(),
            forall|k: int|
                0 <= k < r@.len() ==> (#[trigger] r@[k]).deep_view() == self.gen_spec(
                    result_view(blocks@[k]),
                ),
    {
        blocks.par_iter().map(|b| self.generate(b)).collect()
    }

    /// Splits the document, parses each span, and maps each result through
    /// [`Self::generate`]; below the threshold span by span in order, at or
    /// above it in a data-parallel fan-out whose results are collected back
    /// into input order.
    fn process(&self, input: String) -> (r: Vec<T>)
        ensures
            r@.len() == parsed_spans(input@).len(),
            forall|k: int|
                0 <= k < r@.len() ==> (#[trigger] r@[k]).deep_view() == self.gen_spec(
                    parsed_spans(input@)[k],
                ),
    {
        let ghost spans = split_spec(string_bytes(input@));
        let split_blocks = crate::spliter::split(input.as_str());
        if split_blocks.len() < self.parallel_threshold() {
            let bs = parse_spans(&split_blocks);
            let mut out: Vec<T> = Vec::new();
            let mut i: usize = 0;
            while i < bs.len()
                invariant
                    bs@.len() == spans.len(),
                    spans == split_spec(string_bytes(input@)),
                    forall|k: int|
                        0 <= k < bs@.len() ==> result_view(#[trigger] bs@[k]) == process_spec(
                            init_parser(),
                            spans[k],
                        ).1,
                    0 <= i <= bs@.len(),
                    out@.len() == i,
                    forall|k: int|
                        0 <= k < i ==> (#[trigger] out@[k]).deep_view() == self.gen_spec(
                            result_view(bs@[k]),
                        ),
                decreases bs@.len() - i,
            {
                let t = self.generate(&bs[i]);
                out.push(t);
                i = i + 1;
            }
            out
        } else {
            let bs = par_parse(&split_blocks);
            self.par_generate(&bs)
        }
    }
}

/// Order preservation: any two outputs that `process` can return for the
/// same document — one from the sequential path and one from the parallel
/// path, whatever the thresholds were — agree element for element; the
/// output is a function of the document alone.
pub proof fn lemma_order_preservation<T: Send + DeepView, G: ParaGenerator<T>>(
    g: &G,
    input: Seq<char>,
    r1: Seq<T::V>,
    r2: Seq<T::V>,
)
    requires
        r1.len() == parsed_spans(input).len(),
        forall|k: int|
            0 <= k < r1.len() ==> #[trigger] r1[k] == g.gen_spec(parsed_spans(input)[k]),
        r2.len() == parsed_spans(input).len(),
        forall|k: int|
            0 <= k < r2.len() ==> #[trigger] r2[k] == g.gen_spec(parsed_spans(input)[k]),
    ensures
        r1 == r2,
{
    assert(r1 =~= r2);
}

/// A generator fed exactly one parsed unit: the document's first span, or a
/// fallback empty-text paragraph when the document produced no spans; it
/// never fails on empty input.
pub trait SingleGenerator<T: DeepView> {
    /// The model of what [`Self::generate`] returns for a given parse
    /// result.
    spec fn gen_spec(&self, block: Result<BlockModel, MdErrorModel>) -> T::V;

    /// Maps one parse result to the target type.
    fn generate(&self, block: &Result<Block, MdError>) -> (r: T)
        ensures
            r.deep_view() == self.gen_spec(result_view(*block)),
    ;

    /// Parses the document's first span (or substitutes the fallback block)
    /// and maps it through [`Self::generate`].
    fn process(&self, input: String) -> (r: T)
        ensures
            r.deep_view() == self.gen_spec(single_span(input@)),
    {
        let split_blocks = crate::spliter::split(input.as_str());
        let b: Result<Block, MdError> = if split_blocks.len() > 0 {
            crate::parser::parse(&split_blocks[0])
        } else {
            let mut sentences: Vec<Sentence> = Vec::new();
            sentences.push(Sentence::Text(Text::default()));
            let ghost sdv = sentences.deep_view();
            proof {
                assert(sdv =~= seq![
                    SentenceModel::Text(
                        TextModel {
                            content: Seq::<u8>::empty(),
                            is_bold: false,
                            is_italic: false,
                            is_strike: false,
                        },
                    ),
                ]);
            }
            Ok(Block::Paragraph(Paragraph(sentences)))
        };
        self.generate(&b)
    }
}

/// An outline-only generator: it reduces a document to the ordered sequence
/// of its raw titles without materializing the other blocks.
pub trait StatusGenerator {
    /// Splits the document and reduces every span to its raw title, keeping
    /// each title's 0-based span position.
    fn get_titles(&self, input: String) -> (r: Vec<RawTitle>)
        ensures
            r.deep_view() == titles_spec(input@),
    {
        let ghost spans = split_spec(string_bytes(input@));
        let split_blocks = crate::spliter::split(input.as_str());
        let mut bs: Vec<RawTitle> = Vec::new();
        proof {
            assert(bs.deep_view() =~= Seq::<RawTitleModel>::empty());
            assert(spans.skip(0) =~= spans);
            assert(Seq::<RawTitleModel>::empty() + titles_from(spans, 0) =~= titles_from(
                spans,
                0,
            ));
        }
        let mut i: usize = 0;
        while i < split_blocks.len()
            invariant
                split_blocks.deep_view() == spans,
                spans == split_spec(string_bytes(input@)),
                split_blocks@.len() == spans.len(),
                0 <= i <= spans.len(),
                titles_from(spans, 0) == bs.deep_view() + titles_from(
                    spans.skip(i as int),
                    i,
                ),
            decreases spans.len() - i,
        {
            let ghost bdv = bs.deep_view();
            proof {
                assert(spans.skip(i as int)[0] == spans[i as int]);
                assert(spans.skip(i as int).skip(1) =~= spans.skip(i + 1));
            }
            let t = crate::parser::parse_title_only(i, &split_blocks[i]);
            match t {
                Some(t) => {
                    proof {
                        assert(bdv + (seq![t.deep_view()] + titles_from(spans.skip(i + 1), (i
                            + 1) as usize)) =~= (bdv + seq![t.deep_view()]) + titles_from(
                            spans.skip(i + 1),
                            (i + 1) as usize,
                        ));
                    }
                    bs.push(t);
                    proof {
                        assert(bs.deep_view() =~= bdv + seq![
                            bs@[bdv.len() as int].deep_view(),
                        ]);
                    }
                },
                None => {
                    proof {
                        assert(Seq::<RawTitleModel>::empty() + titles_from(
                            spans.skip(i + 1),
                            (i + 1) as usize,
                        ) =~= titles_from(spans.skip(i + 1), (i + 1) as usize));
                    }
                },
            }
            i = i + 1;
        }
        proof {
            assert(spans.skip(spans.len() as int) =~= Seq::<SplitBlockModel>::empty());
            assert(bs.deep_view() + Seq::<RawTitleModel>::empty() =~= bs.deep_view());
        }
        bs
    }
}

/// A reference-only generator: it reduces a document to the ordered sequence
/// of its links.
pub trait NetGenerator {
    /// Splits the document and concatenates every span's flattened links.
    fn get_refs(&self, input: &str) -> (r: Vec<RawLink>)
        ensures
            r.deep_view() == refs_spec(input@),
    {
        let ghost spans = split_spec(string_bytes(input@));
        let split_blocks = crate::spliter::split(input);
        let mut bs: Vec<RawLink> = Vec::new();
        proof {
            assert(bs.deep_view() =~= Seq::<RawLinkModel>::empty());
            assert(spans.skip(0) =~= spans);
            assert(Seq::<RawLinkModel>::empty() + refs_from(spans) =~= refs_from(spans));
        }
        let mut i: usize = 0;
        while i < split_blocks.len()
            invariant
                split_blocks.deep_view() == spans,
                spans == split_spec(string_bytes(input@)),
                split_blocks@.len() == spans.len(),
                0 <= i <= spans.len(),
                refs_spec(input@) == bs.deep_view() + refs_from(spans.skip(i as int)),
            decreases spans.len() - i,
        {
            let ghost bdv = bs.deep_view();
            proof {
                assert(spans.skip(i as int)[0] == spans[i as int]);
                assert(spans.skip(i as int).skip(1) =~= spans.skip(i + 1));
            }
            let mut l = crate::parser::parse_link_only(&split_blocks[i]);
            let ghost ldv = l.deep_view();
            bs.append(&mut l);
            proof {
                assert(bs.deep_view() =~= bdv + ldv);
                assert(bdv + (ldv + refs_from(spans.skip(i + 1))) =~= (bdv + ldv) + refs_from(
                    spans.skip(i + 1),
                ));
            }
            i = i + 1;
        }
        proof {
            assert(spans.skip(spans.len() as int) =~= Seq::<SplitBlockModel>::empty());
            assert(bs.deep_view() + Seq::<RawLinkModel>::empty() =~= bs.deep_view());
        }
        bs
    }
}

} // verus!
