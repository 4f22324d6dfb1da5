//! The note-graph consumer: builds node and link schemas from a set of
//! notes and their already-read contents, using the reference extractor.
//! Reading the note files from disk is the caller's business; the graph
//! construction itself is pure.

use vstd::prelude::*;
use crate::bytes::{bytes_eq, clone_bytes};
use crate::expr::RawLinkModel;
use crate::generator::{NetGenerator, refs_spec, string_bytes};

verus! {

/// Model of a [`NoteSchema`].
pub struct NoteModel {
    pub id: usize,
    pub name: Seq<char>,
    pub url: Seq<char>,
}

/// One note: its identifier, its display name and where its text lives.
#[derive(Debug, Clone)]
pub struct NoteSchema {
    id: usize,
    name: String,
    url: String,
}

impl DeepView for NoteSchema {
    type V = NoteModel;

    closed spec fn deep_view(&self) -> NoteModel {
        NoteModel { id: self.id, name: self.name@, url: self.url@ }
    }
}

impl NoteSchema {
    /// A note with the given identifier, name and text location.
    pub fn new(id: usize, name: String, url: String) -> (r: Self)
        ensures
            r.deep_view() == (NoteModel { id: id, name: name@, url: url@ }),
    {
        Self { id, name, url }
    }

    /// Where the note's text lives.
    pub fn url(&self) -> (r: &String)
        ensures
            r@ == self.deep_view().url,
    {
        &self.url
    }
}

/// An integer position for a graph node; layout happens elsewhere.
#[derive(Debug, Clone, PartialEq, Eq, Structural)]
pub struct Vector {
    pub x: usize,
    pub y: usize,
}

/// Model of a [`NetNodeSchema`].
pub struct NetNodeModel {
    pub id: usize,
    pub data: Seq<u8>,
    pub is_md: bool,
    pub pos: Vector,
}

/// One graph node: a note (`is_md`) or an outside resource.
#[derive(Debug, Clone)]
pub struct NetNodeSchema {
    pub id: usize,
    pub data: Vec<u8>,
    pub is_md: bool,
    pub pos: Vector,
}

impl DeepView for NetNodeSchema {
    type V = NetNodeModel;

    open spec fn deep_view(&self) -> NetNodeModel {
        NetNodeModel { id: self.id, data: self.data@, is_md: self.is_md, pos: self.pos }
    }
}

/// One undirected graph edge between node positions; two edges are the same
/// edge whichever way round they are written.
#[derive(Debug, Clone, Copy, Hash)]
pub struct NetLinkSchema {
    pub source: usize,
    pub target: usize,
}

/// Are two edges the same, disregarding direction?
pub open spec fn link_eq(a: NetLinkSchema, b: NetLinkSchema) -> bool {
    ||| (a.source == b.source && a.target == b.target)
    ||| (a.source == b.target && a.target == b.source)
}

impl PartialEq for NetLinkSchema {
    fn eq(&self, other: &Self) -> (r: bool) {
        (self.source == other.source && self.target == other.target) || (self.source
            == other.target && self.target == other.source)
    }
}

impl vstd::std_specs::cmp::PartialEqSpecImpl for NetLinkSchema {
    open spec fn obeys_eq_spec() -> bool {
        true
    }

    open spec fn eq_spec(&self, other: &NetLinkSchema) -> bool {
        link_eq(*self, *other)
    }
}

impl Eq for NetLinkSchema {

}

/// The whole graph: its nodes and its deduplicated edges.
#[derive(Debug, Clone)]
pub struct NetSchema {
    pub nodes: Vec<NetNodeSchema>,
    pub links: Vec<NetLinkSchema>,
}

/// Is an edge equal (disregarding direction) to one already collected?
pub open spec fn contains_link(links: Seq<NetLinkSchema>, l: NetLinkSchema) -> bool {
    exists|k: int| 0 <= k < links.len() && link_eq(links[k], l)
}

/// Adds an edge unless an equal one is already there.
pub open spec fn add_link(links: Seq<NetLinkSchema>, l: NetLinkSchema) -> Seq<NetLinkSchema> {
    if contains_link(links, l) {
        links
    } else {
        links.push(l)
    }
}

/// The first node position at or after `i` whose data equals `name`; `-1`
/// when there is none.
pub open spec fn find_node(nodes: Seq<NetNodeModel>, name: Seq<u8>, i: int) -> int
    decreases nodes.len() - i,
{
    if i < 0 || i >= nodes.len() {
        -1
    } else if nodes[i].data == name {
        i
    } else {
        find_node(nodes, name, i + 1)
    }
}

/// The node each note starts out as: its id and name, marked as a note, at
/// the origin.
pub open spec fn md_nodes(notes: Seq<NoteModel>) -> Seq<NetNodeModel> {
    notes.map_values(
        |n: NoteModel|
            NetNodeModel {
                id: n.id,
                data: string_bytes(n.name),
                is_md: true,
                pos: Vector { x: 0, y: 0 },
            },
    )
}

/// How one extracted reference changes the graph. A reference without a
/// target changes nothing. A non-note reference becomes a fresh resource
/// node plus an edge to it. A note reference (scheme `md://`) becomes an
/// edge to the first node whose data equals the target without its scheme
/// prefix, if there is one.
pub open spec fn apply_link(
    st: (Seq<NetNodeModel>, Seq<NetLinkSchema>),
    source: usize,
    l: RawLinkModel,
) -> (Seq<NetNodeModel>, Seq<NetLinkSchema>) {
    match l.href {
        None => st,
        Some(h) => {
            if !l.is_md {
                (
                    st.0.push(
                        NetNodeModel {
                            id: 0,
                            data: l.content,
                            is_md: false,
                            pos: Vector { x: 0, y: 0 },
                        },
                    ),
                    add_link(st.1, NetLinkSchema { source: source, target: st.0.len() as usize }),
                )
            } else {
                let idx = find_node(st.0, h.skip(5), 0);
                if idx >= 0 {
                    (st.0, add_link(st.1, NetLinkSchema { source: source, target: idx as usize }))
                } else {
                    st
                }
            }
        },
    }
}

/// Applies one note's extracted references in order.
pub open spec fn apply_links(
    st: (Seq<NetNodeModel>, Seq<NetLinkSchema>),
    source: usize,
    ls: Seq<RawLinkModel>,
) -> (Seq<NetNodeModel>, Seq<NetLinkSchema>)
    decreases ls.len(),
{
    if ls.len() == 0 {
        st
    } else {
        apply_links(apply_link(st, source, ls[0]), source, ls.skip(1))
    }
}

/// Applies every note's references from note `k` on, each note's references
/// extracted from its own text.
pub open spec fn apply_notes(
    st: (Seq<NetNodeModel>, Seq<NetLinkSchema>),
    notes: Seq<NoteModel>,
    texts: Seq<Seq<char>>,
    k: int,
) -> (Seq<NetNodeModel>, Seq<NetLinkSchema>)
    decreases notes.len() - k,
{
    if k < 0 || k >= notes.len() {
        st
    } else {
        apply_notes(apply_links(st, notes[k].id, refs_spec(texts[k])), notes, texts, k + 1)
    }
}

/// The whole graph a note set with its texts builds: one node per note, then
/// every note's references applied in order.
pub open spec fn net_spec(notes: Seq<NoteModel>, texts: Seq<Seq<char>>) -> (
    Seq<NetNodeModel>,
    Seq<NetLinkSchema>,
) {
    apply_notes((md_nodes(notes), Seq::<NetLinkSchema>::empty()), notes, texts, 0)
}

/// The note-graph builder.
pub struct MultiNetGenerator;

impl NetGenerator for MultiNetGenerator {

}

/// Pushes an edge unless an equal one (disregarding direction) is there.
fn insert_link(links: &mut Vec<NetLinkSchema>, l: NetLinkSchema)
    ensures
        final(links)@ == add_link(old(links)@, l),
{
    let n = links.len();
    let mut m: usize = 0;
    while m < n
        invariant
            n == links@.len(),
            0 <= m <= n,
            forall|k: int| 0 <= k < m ==> !link_eq(links@[k], l),
        decreases n - m,
    {
        if links[m] == l {
            assert(contains_link(links@, l));
            return ;
        }
        m = m + 1;
    }
    assert(!contains_link(links@, l));
    links.push(l);
}

/// The first node whose data equals the target without its five scheme
/// bytes, if any.
fn find_node_exec(nodes: &Vec<NetNodeSchema>, h: &Vec<u8>) -> (r: Option<usize>)
    requires
        h@.len() >= 5,
    ensures
        ({
            let idx = find_node(nodes.deep_view(), h@.skip(5), 0);
            match r {
                Some(t) => idx == t && t < nodes@.len(),
                None => idx == -1,
            }
        }),
{
    let ghost name = h@.skip(5);
    let target = vstd::slice::slice_subrange(h.as_slice(), 5, h.len());
    proof {
        assert(target@ =~= name);
    }
    let n = nodes.len();
    let mut m: usize = 0;
    while m < n
        invariant
            n == nodes@.len(),
            0 <= m <= n,
            target@ == name,
            name == h@.skip(5),
            find_node(nodes.deep_view(), name, 0) == find_node(nodes.deep_view(), name, m as int),
        decreases n - m,
    {
        let nd = &nodes[m];
        if bytes_eq(&nd.data, target) {
            proof {
                assert(nodes.deep_view()[m as int].data == name);
            }
            return Some(m);
        }
        proof {
            assert(nodes.deep_view()[m as int].data != name);
        }
        m = m + 1;
    }
    None
}

impl MultiNetGenerator {
    /// A fresh graph builder.
    pub fn new() -> (r: Self) {
        Self
    }

    /// Builds the graph for the given notes, whose texts have already been
    /// read for it: one node per note, then every reference either adds a
    /// resource node with its edge or an edge to the note it names; edges
    /// are deduplicated disregarding direction, in first-seen order.
    pub fn generate(&self, notes: &Vec<NoteSchema>, texts: &Vec<String>) -> (r: NetSchema)
        requires
            notes@.len() == texts@.len(),
        ensures
            ({
                let m = net_spec(notes.deep_view(), texts.deep_view());
                &&& r.nodes.deep_view() == m.0
                &&& r.links@ == m.1
            }),
    {
        let ghost nm = notes.deep_view();
        let ghost tm = texts.deep_view();
        let mut nodes: Vec<NetNodeSchema> = Vec::new();
        proof {
            assert(nodes.deep_view() =~= md_nodes(nm).take(0));
        }
        let n = notes.len();
        let mut i: usize = 0;
        while i < n
            invariant
                n == notes@.len(),
                nm == notes.deep_view(),
                tm == texts.deep_view(),
                notes@.len() == texts@.len(),
                0 <= i <= n,
                nodes.deep_view() == md_nodes(nm).take(i as int),
            decreases n - i,
        {
            let note = &notes[i];
            let name_bytes = vstd::slice::slice_to_vec(note.name.as_str().as_bytes());
            let x = NetNodeSchema {
                id: note.id,
                data: name_bytes,
                is_md: true,
                pos: Vector { x: 0, y: 0 },
            };
            let ghost odv = nodes.deep_view();
            nodes.push(x);
            proof {
                assert(notes@[i as int].deep_view() == nm[i as int]);
                assert(nodes.deep_view() =~= odv.push(nodes@[odv.len() as int].deep_view()));
                assert(md_nodes(nm).take(i as int).push(md_nodes(nm)[i as int]) =~= md_nodes(
                    nm,
                ).take(i + 1));
            }
            i = i + 1;
        }
        proof {
            assert(md_nodes(nm).take(n as int) =~= md_nodes(nm));
        }
        let mut links: Vec<NetLinkSchema> = Vec::new();
        proof {
            assert(links@ =~= Seq::<NetLinkSchema>::empty());
        }
        let mut k: usize = 0;
        while k < n
            invariant
                n == notes@.len(),
                nm == notes.deep_view(),
                tm == texts.deep_view(),
                notes@.len() == texts@.len(),
                0 <= k <= n,
                net_spec(nm, tm) == apply_notes((nodes.deep_view(), links@), nm, tm, k as int),
            decreases n - k,
        {
            let note = &notes[k];
            let source = note.id;
            let text = &texts[k];
            let refs = self.get_refs(text.as_str());
            let ghost rm = refs.deep_view();
            proof {
                assert(texts@[k as int].deep_view() == tm[k as int]);
                assert(notes@[k as int].deep_view() == nm[k as int]);
                assert(rm == refs_spec(tm[k as int]));
                assert(rm.skip(0) =~= rm);
            }
            let rn = refs.len();
            let mut j: usize = 0;
            while j < rn
                invariant
                    rn == refs@.len(),
                    rm == refs.deep_view(),
                    rm == refs_spec(tm[k as int]),
                    rm.len() == rn,
                    source == nm[k as int].id,
                    0 <= k < nm.len(),
                    nm == notes.deep_view(),
                    tm == texts.deep_view(),
                    0 <= j <= rn,
                    net_spec(nm, tm) == apply_notes(
                        apply_links((nodes.deep_view(), links@), source, rm.skip(j as int)),
                        nm,
                        tm,
                        k + 1,
                    ),
                decreases rn - j,
            {
                let ghost st0 = (nodes.deep_view(), links@);
                proof {
                    assert(refs@[j as int].deep_view() == rm[j as int]);
                    assert(rm.skip(j as int)[0] == rm[j as int]);
                    assert(rm.skip(j as int).skip(1) =~= rm.skip(j + 1));
                }
                let l = &refs[j];
                match &l.href {
                    Some(h) => {
                        if !l.is_md {
                            let x = NetNodeSchema {
                                id: 0,
                                data: clone_bytes(&l.content),
                                is_md: false,
                                pos: Vector { x: 0, y: 0 },
                            };
                            let ghost odv = nodes.deep_view();
                            nodes.push(x);
                            let target = nodes.len() - 1;
                            proof {
                                assert(nodes.deep_view() =~= odv.push(
                                    nodes@[odv.len() as int].deep_view(),
                                ));
                                assert(nodes.deep_view() == st0.0.push(
                                    NetNodeModel {
                                        id: 0,
                                        data: rm[j as int].content,
                                        is_md: false,
                                        pos: Vector { x: 0, y: 0 },
                                    },
                                ));
                            }
                            insert_link(&mut links, NetLinkSchema { source, target });
                            proof {
                                assert((nodes.deep_view(), links@) == apply_link(
                                    st0,
                                    source,
                                    rm[j as int],
                                ));
                            }
                        } else {
                            proof {
                                crate::generator::lemma_refs_from_wf_at(
                                    crate::spliter::split_spec(
                                        crate::generator::string_bytes(tm[k as int]),
                                    ),
                                    j as int,
                                );
                                assert(h@.len() >= 5);
                            }
                            match find_node_exec(&nodes, h) {
                                Some(target) => {
                                    insert_link(&mut links, NetLinkSchema { source, target });
                                },
                                None => {},
                            }
                            proof {
                                assert((nodes.deep_view(), links@) == apply_link(
                                    st0,
                                    source,
                                    rm[j as int],
                                ));
                            }
                        }
                    },
                    None => {
                        proof {
                            assert((nodes.deep_view(), links@) == apply_link(
                                st0,
                                source,
                                rm[j as int],
                            ));
                        }
                    },
                }
                j = j + 1;
            }
            proof {
                assert(rm.skip(rn as int) =~= Seq::<RawLinkModel>::empty());
            }
            k = k + 1;
        }
        NetSchema { nodes, links }
    }
}

} // verus!
