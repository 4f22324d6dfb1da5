use md_parser::expr::{Block, SplitBlock};
use md_parser::parser::parse;
use md_parser::spliter::split;

#[test]
fn test_short() {
    let input = "";
    let result = split(&input);
    assert!(result.is_empty());
}

#[test]
fn test_split_kinds() {
    let input = "# head\n```rs\ncode\n```\n$$\nmath\n$$\n---\npara\n";
    let result = split(input);
    assert_eq!(result.len(), 5);
    assert!(matches!(&result[0], SplitBlock::Paragraph(_)));
    assert!(matches!(&result[1], SplitBlock::CodeBlock(_, _)));
    assert!(matches!(&result[2], SplitBlock::MathBlock(_)));
    assert!(matches!(&result[3], SplitBlock::Line));
    assert!(matches!(&result[4], SplitBlock::Paragraph(_)));
    match &result[1] {
        SplitBlock::CodeBlock(lang, body) => {
            assert_eq!(lang, &Some(b"rs".to_vec()));
            assert_eq!(body.as_bytes(), b"code\n");
        }
        _ => unreachable!(),
    }
}

#[test]
fn test_final_short_paragraph_kept() {
    let result = split("a\nb");
    assert_eq!(result.len(), 2);
    match (&result[0], &result[1]) {
        (SplitBlock::Paragraph(a), SplitBlock::Paragraph(b)) => {
            assert_eq!(a.as_bytes(), b"a");
            assert_eq!(b.as_bytes(), b"b");
        }
        other => panic!("expected two paragraphs, got {:?}", other),
    }
}

#[test]
fn test_empty_paragraphs_are_dropped() {
    let result = split("a\n\n\nb\n");
    assert_eq!(result.len(), 2);
}

#[test]
fn test_unterminated_fence() {
    let result = split("```rust\nlet x;");
    assert_eq!(result.len(), 1);
    match &result[0] {
        SplitBlock::CodeBlock(lang, body) => {
            assert_eq!(lang, &Some(b"rust".to_vec()));
            assert_eq!(body.as_bytes(), b"let x;");
        }
        other => panic!("expected a code block, got {:?}", other),
    }
    let parsed = parse(&result[0]);
    assert_eq!(
        parsed,
        Ok(Block::CodeBlock(Some(b"rust".to_vec()), b"let x;".to_vec()))
    );
}

#[test]
fn test_to_text() {
    let blocks = split("# head\n```rs\ncode\n```\n---\n$$\nmath\n$$\n");
    assert_eq!(blocks[0].to_text(), b"# head".to_vec());
    assert_eq!(blocks[1].to_text(), b"```rs\ncode\n```".to_vec());
    assert_eq!(blocks[2].to_text(), b"---".to_vec());
    assert_eq!(blocks[3].to_text(), b"$$\nmath\n$$".to_vec());
}

#[test]
fn test_resplit_is_idempotent() {
    let input = "# head\nplain paragraph\n```rs\ncode line\n```\n$$\nx = 1\n$$\n---\nlast one\n";
    let first = split(input);
    let mut rejoined: Vec<u8> = Vec::new();
    for b in &first {
        rejoined.extend_from_slice(&b.to_text());
        rejoined.push(b'\n');
    }
    let second = split(std::str::from_utf8(&rejoined).unwrap());
    assert_eq!(first, second);
}
