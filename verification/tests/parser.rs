use md_parser::err::MdError;
use md_parser::expr::{
    Block, Image, Link, ListItem, Paragraph, Sentence, Text, Title, TitleLevel, TodoItem,
};
use md_parser::parser::Parser;
use md_parser::spliter::split;

fn plain(content: &[u8]) -> Sentence {
    Sentence::Text(Text {
        content: content.to_vec(),
        is_bold: false,
        is_italic: false,
        is_strike: false,
    })
}

fn styled(content: &[u8], is_bold: bool, is_italic: bool) -> Sentence {
    Sentence::Text(Text {
        content: content.to_vec(),
        is_bold,
        is_italic,
        is_strike: false,
    })
}

fn parse_all(input: &str) -> Vec<Result<Block, MdError>> {
    let mut parser = Parser::new();
    split(input).iter().map(|r| parser.process(r)).collect()
}

#[test]
fn test_code_block() {
    let input = String::from("```\nlet a = 10\n```");
    let result = parse_all(&input);
    assert_eq!(
        result,
        vec![Ok(Block::CodeBlock(None, b"let a = 10\n".to_vec()))]
    );
}

#[test]
fn test_img() {
    let input = String::from("![](/asset/pic.png)\n");
    let result = parse_all(&input);
    assert_eq!(
        result,
        vec![Ok(Block::Image(Image {
            title: None,
            src: Some(b"/asset/pic.png".to_vec())
        }))]
    );
}

#[test]
fn test_title() {
    let input = String::from(
        "# Title 1\n## Title 2\n### Title 3\n#### Title 4\n##### Title 5\n###### Title 6\n",
    );
    let result = parse_all(&input);
    let expected: Vec<Result<Block, MdError>> = vec![
        (TitleLevel::H1, b"Title 1".to_vec()),
        (TitleLevel::H2, b"Title 2".to_vec()),
        (TitleLevel::H3, b"Title 3".to_vec()),
        (TitleLevel::H4, b"Title 4".to_vec()),
        (TitleLevel::H5, b"Title 5".to_vec()),
        (TitleLevel::H6, b"Title 6".to_vec()),
    ]
    .into_iter()
    .map(|(level, content)| {
        Ok(Block::Title(Title {
            level,
            content: Paragraph(vec![plain(&content)]),
        }))
    })
    .collect();
    assert_eq!(result, expected);
}

#[test]
fn test_line() {
    let input = String::from("---\n");
    let result = parse_all(&input);
    assert_eq!(result, vec![Ok(Block::Line)]);
}

#[test]
fn test_quote() {
    let input = String::from("> This is quote\n");
    let result = parse_all(&input);
    assert_eq!(
        result,
        vec![Ok(Block::Quote(Paragraph(vec![plain(b"This is quote")])))]
    );
}

#[test]
fn test_list() {
    let input = String::from("+ This is disorder list\n\t11. This is order list");
    let result = parse_all(&input);
    assert_eq!(
        result,
        vec![
            Ok(Block::ListItem(ListItem {
                level: 0,
                index: None,
                content: Paragraph(vec![plain(b"This is disorder list")])
            })),
            Ok(Block::ListItem(ListItem {
                level: 1,
                index: Some(11),
                content: Paragraph(vec![plain(b"This is order list")])
            }))
        ]
    );
}

#[test]
fn test_paragraph() {
    let input =
        String::from("This is **bold**, this is *italic*, this is ***bold and italic***\n");
    let result = parse_all(&input);
    assert_eq!(
        result,
        vec![Ok(Block::Paragraph(Paragraph(vec![
            styled(b"This is ", false, false),
            styled(b"bold", true, false),
            styled(b", this is ", false, false),
            styled(b"italic", false, true),
            styled(b", this is ", false, false),
            styled(b"bold and italic", true, true),
        ])))]
    );
}

#[test]
fn test_paragraph_2() {
    let input = String::from("A **little *complex* sentence.**\n");
    let result = parse_all(&input);
    assert_eq!(
        result,
        vec![Ok(Block::Paragraph(Paragraph(vec![
            styled(b"A ", false, false),
            styled(b"little ", true, false),
            styled(b"complex", true, true),
            styled(b" sentence.", true, false),
        ])))]
    );
}

#[test]
fn test_paragraph_3() {
    let input =
        String::from("`let x = 10` and [link](http://example.com) and $x_a = 10$ and :happy:\n");
    let result = parse_all(&input);
    assert_eq!(
        result,
        vec![Ok(Block::Paragraph(Paragraph(vec![
            Sentence::Code(b"let x = 10".to_vec()),
            plain(b" and "),
            Sentence::Link(Link {
                content: b"link".to_vec(),
                href: Some(b"http://example.com".to_vec())
            }),
            plain(b" and "),
            Sentence::Math(b"x_a = 10".to_vec()),
            plain(b" and "),
            Sentence::Emoji(b"happy".to_vec()),
        ])))]
    );
}

#[test]
fn test_math_block() {
    let input = String::from("$$\nx_i = 10\n$$");
    let result = parse_all(&input);
    assert_eq!(result, vec![Ok(Block::MathBlock(b"x_i = 10\n".to_vec()))]);
}

#[test]
fn test_title_level_clamps_at_six() {
    let result = parse_all("####### over-deep\n");
    match &result[0] {
        Ok(Block::Title(t)) => {
            assert_eq!(t.level, TitleLevel::H6);
            // The seventh `#` is not absorbed into the prefix: it opens the content.
            assert_eq!(t.content, Paragraph(vec![plain(b"# over-deep")]));
        }
        other => panic!("expected a title, got {:?}", other),
    }
    let result = parse_all("# one\n");
    match &result[0] {
        Ok(Block::Title(t)) => assert_eq!(t.level, TitleLevel::H1),
        other => panic!("expected a title, got {:?}", other),
    }
}

#[test]
fn test_list_classification() {
    let result = parse_all("+ item\n");
    assert_eq!(
        result,
        vec![Ok(Block::ListItem(ListItem {
            level: 0,
            index: None,
            content: Paragraph(vec![plain(b"item")])
        }))]
    );
    let result = parse_all("\t11. item");
    assert_eq!(
        result,
        vec![Ok(Block::ListItem(ListItem {
            level: 1,
            index: Some(11),
            content: Paragraph(vec![plain(b"item")])
        }))]
    );
}

#[test]
fn test_todo_vs_list() {
    let result = parse_all("- [ ] task");
    assert_eq!(
        result,
        vec![Ok(Block::TodoItem(TodoItem {
            is_finished: false,
            content: Paragraph(vec![plain(b" task")])
        }))]
    );
    let result = parse_all("- [x] task");
    assert_eq!(
        result,
        vec![Ok(Block::TodoItem(TodoItem {
            is_finished: true,
            content: Paragraph(vec![plain(b" task")])
        }))]
    );
    let result = parse_all("- plain");
    assert_eq!(
        result,
        vec![Ok(Block::ListItem(ListItem {
            level: 0,
            index: None,
            content: Paragraph(vec![plain(b"plain")])
        }))]
    );
}

#[test]
fn test_emphasis_toggling() {
    let result = parse_all("This is **bold**, this is *italic*");
    assert_eq!(
        result,
        vec![Ok(Block::Paragraph(Paragraph(vec![
            styled(b"This is ", false, false),
            styled(b"bold", true, false),
            styled(b", this is ", false, false),
            styled(b"italic", false, true),
        ])))]
    );
}

#[test]
fn test_inline_span_integrity() {
    let result = parse_all("`code` and [text](url)");
    assert_eq!(
        result,
        vec![Ok(Block::Paragraph(Paragraph(vec![
            Sentence::Code(b"code".to_vec()),
            plain(b" and "),
            Sentence::Link(Link {
                content: b"text".to_vec(),
                href: Some(b"url".to_vec())
            }),
        ])))]
    );
}

#[test]
fn test_trailing_backslash_yields_no_empty_text() {
    let result = parse_all("\\");
    assert_eq!(result, vec![Ok(Block::Paragraph(Paragraph(vec![])))]);
    let result = parse_all("x\\");
    assert_eq!(result, vec![Ok(Block::Paragraph(Paragraph(vec![plain(b"x")])))]);
}

#[test]
fn test_bold_style_b_toggles() {
    let result = parse_all("__a__b");
    assert_eq!(
        result,
        vec![Ok(Block::Paragraph(Paragraph(vec![
            styled(b"a", true, false),
            styled(b"b", false, false),
        ])))]
    );
}

#[test]
fn test_escapes_in_plain_text() {
    let result = parse_all("a \\*literal\\* star");
    assert_eq!(
        result,
        vec![Ok(Block::Paragraph(Paragraph(vec![plain(
            b"a *literal* star"
        )])))]
    );
}

#[test]
fn test_footer_definition_and_reference() {
    let result = parse_all("[^note]: the definition");
    match &result[0] {
        Ok(Block::Footer(f)) => {
            assert_eq!(f.index.0, b"note".to_vec());
            assert_eq!(f.content, Paragraph(vec![plain(b"the definition")]));
        }
        other => panic!("expected a footer, got {:?}", other),
    }
    let result = parse_all("see [^note]");
    assert_eq!(
        result,
        vec![Ok(Block::Paragraph(Paragraph(vec![
            plain(b"see "),
            Sentence::FooterIndex(md_parser::expr::FooterIndex(b"note".to_vec())),
        ])))]
    );
}

#[test]
fn test_error_variants() {
    let img = parse_all("!no-bracket");
    assert!(matches!(&img[0], Err(MdError::ImageError(_))));
    let link = parse_all("[text]no-paren");
    assert!(matches!(&link[0], Err(MdError::LinkError(_))));
    let list = parse_all("\tx after tab");
    assert!(matches!(&list[0], Err(MdError::ListError(_))));
    let quote = parse_all(">no-space");
    assert!(matches!(&quote[0], Err(MdError::QuoteError(_))));
    let code_span = parse_all("`unclosed");
    assert!(matches!(&code_span[0], Err(MdError::ParagraphError(_))));
    let number = parse_all("12x item");
    assert!(matches!(&number[0], Err(MdError::NumberError(_))));
    let footer = parse_all("[^label]missing");
    assert!(matches!(&footer[0], Err(MdError::FooterError(_))));
}

#[test]
fn test_error_is_local_to_its_block() {
    let result = parse_all("`unclosed\ngood paragraph\n");
    assert!(matches!(&result[0], Err(MdError::ParagraphError(_))));
    assert_eq!(
        result[1],
        Ok(Block::Paragraph(Paragraph(vec![plain(b"good paragraph")])))
    );
}

#[test]
fn test_number_overflow_is_rejected() {
    let result = parse_all("99999999999999999999999999. item");
    assert!(matches!(&result[0], Err(MdError::NumberError(_))));
}

#[test]
fn test_link_only_extraction() {
    let spans = split("a [one](md://first) b [two](http://x) c [three]()\n");
    let links = md_parser::parser::parse_link_only(&spans[0]);
    assert_eq!(links.len(), 3);
    assert_eq!(links[0].content, b"one".to_vec());
    assert_eq!(links[0].href, Some(b"md://first".to_vec()));
    assert!(links[0].is_md);
    assert_eq!(links[1].content, b"two".to_vec());
    assert_eq!(links[1].href, Some(b"http://x".to_vec()));
    assert!(!links[1].is_md);
    assert_eq!(links[2].href, None);
    assert!(!links[2].is_md);
}

#[test]
fn test_title_only_extraction() {
    let spans = split("## Outline\nbody text\n");
    let t = md_parser::parser::parse_title_only(0, &spans[0]);
    match t {
        Some(raw) => {
            assert_eq!(raw.line, 0);
            assert_eq!(raw.level, TitleLevel::H2);
            assert_eq!(raw.content, b"Outline".to_vec());
        }
        None => panic!("expected a raw title"),
    }
    assert_eq!(md_parser::parser::parse_title_only(1, &spans[1]), None);
}
