use md_parser::generator::{NetGenerator, ParaGenerator};
use md_parser::net::NetLinkSchema;
use md_parser::proto::title::TitleLevel;
use md_parser::net::{MultiNetGenerator, NoteSchema};
use md_parser::proto;
use md_parser::proto_generator::ProtoGenerator;

#[test]
fn test_order_preserved_sequential_vs_parallel() {
    let doc = "# head\npara one\n```rs\ncode\n```\n+ item\n> quoted\n![t](/p.png)\n---\n$$\nm\n$$\n";
    let sequential = ProtoGenerator::new(usize::MAX);
    let parallel = ProtoGenerator::new(0);
    let a = sequential.process(doc.to_string());
    let b = parallel.process(doc.to_string());
    assert_eq!(a, b);
    assert_eq!(a.len(), 8);
}

#[test]
fn test_proto_generator_blocks() {
    let g = ProtoGenerator::new(1000);
    let out = g.process("# T\n".to_string());
    assert_eq!(out.len(), 1);
    let expected = proto::Block {
        block: Some(proto::block::Block::Title(proto::Title {
            level: 0,
            content: Some(proto::Paragraph {
                sentences: vec![proto::Sentence {
                    sentence: Some(proto::sentence::Sentence::Text(proto::Text {
                        content: b"T".to_vec(),
                        is_bold: false,
                        is_italic: false,
                        is_strike: false,
                    })),
                }],
            }),
        })),
    };
    assert_eq!(out[0], expected);
}

#[test]
fn test_proto_generator_error_block_is_empty() {
    let g = ProtoGenerator::new(1000);
    let out = g.process("`unclosed\n".to_string());
    assert_eq!(out.len(), 1);
    assert_eq!(out[0], proto::Block { block: None });
}

#[test]
fn test_threshold_accessors() {
    let mut g = ProtoGenerator::new(7);
    assert_eq!(g.get_threshold(), 7);
    g.set_threshold(42);
    assert_eq!(g.get_threshold(), 42);
}

#[test]
fn test_title_level_names() {
    assert_eq!(TitleLevel::H3.as_str_name(), "H3");
    assert_eq!(TitleLevel::from_str_name("H6"), Some(TitleLevel::H6));
    assert_eq!(TitleLevel::from_str_name("H7"), None);
    assert_eq!(TitleLevel::from_str_name(""), None);
}

#[test]
fn test_get_refs() {
    let g = MultiNetGenerator::new();
    let refs = g.get_refs("a [one](md://n) b\nplain\nc [two](http://x)\n");
    assert_eq!(refs.len(), 2);
    assert_eq!(refs[0].content, b"one".to_vec());
    assert!(refs[0].is_md);
    assert_eq!(refs[1].content, b"two".to_vec());
    assert!(!refs[1].is_md);
}

#[test]
fn test_net_generate() {
    let notes = vec![
        NoteSchema::new(0, "first".to_string(), "a.md".to_string()),
        NoteSchema::new(1, "second".to_string(), "b.md".to_string()),
    ];
    let texts = vec![
        "see [link](md://second) and [ext](http://x)\n".to_string(),
        "back [to](md://first)\n".to_string(),
    ];
    let g = MultiNetGenerator::new();
    let net = g.generate(&notes, &texts);
    assert_eq!(net.nodes.len(), 3);
    assert_eq!(net.nodes[0].data, b"first".to_vec());
    assert!(net.nodes[0].is_md);
    assert_eq!(net.nodes[1].data, b"second".to_vec());
    assert_eq!(net.nodes[2].data, b"ext".to_vec());
    assert!(!net.nodes[2].is_md);
    // The back-link {1,0} is the same undirected edge as {0,1}: deduplicated.
    assert_eq!(net.links.len(), 2);
    assert_eq!((net.links[0].source, net.links[0].target), (0, 1));
    assert_eq!((net.links[1].source, net.links[1].target), (0, 2));
}

#[test]
fn test_net_link_symmetric_eq() {
    let a = NetLinkSchema { source: 1, target: 2 };
    let b = NetLinkSchema { source: 2, target: 1 };
    assert_eq!(a, b);
    let c = NetLinkSchema { source: 1, target: 3 };
    assert!(a != c);
}
