use md_parser::bytes::{MdChars, MdCharsIter};

#[test]
fn test_index() {
    let chars = MdChars::new(&[1, 2, 3, 4, 5]);
    for i in 0..5 {
        assert_eq!(chars.at(i) - 1, i as u8)
    }
}

#[test]
fn test_index_mut() {
    let mut chars = MdChars::new(&[1, 2, 3, 4, 5]);
    chars.set(0, 10);
    assert_eq!(chars.at(0), 10);
    for i in 1..5 {
        assert_eq!(chars.at(i) - 1, i as u8)
    }
}

#[test]
fn test_from() {
    let chars = MdChars::new("12345".as_bytes());
    for i in 0..5 {
        assert_eq!(chars.at(i) - b'0', i as u8 + 1)
    }
}

#[test]
fn test_len() {
    let chars = MdChars::new("\u{6d4b}\u{8bd5}".as_bytes());
    assert_eq!(chars.len(), 6)
}

#[test]
fn test_empty() {
    let chars = MdChars::new(&[]);
    assert_eq!(chars.is_empty(), true);
    let chars = MdChars::new(&[1]);
    assert_eq!(chars.is_empty(), false);
}

const CHARS: &[u8] = &[1, 2, 3, 4, 5];

#[test]
fn test_peek() {
    let chars = MdChars::new(CHARS);
    assert_eq!(MdCharsIter::new(chars).peek(), 1)
}

#[test]
fn test_next() {
    let chars = MdChars::new(CHARS);
    let mut chars_iter = MdCharsIter::new(chars);
    for i in 0..5 {
        assert_eq!(chars_iter.next(), Some(i + 1));
    }
}

#[test]
fn test_check() {
    let chars = MdChars::new(CHARS);
    assert_eq!(MdCharsIter::new(chars).check(b'1' - b'0'), true);
}

#[test]
fn test_check_multi() {
    let chars = MdChars::new(CHARS);
    assert_eq!(
        MdCharsIter::new(chars.clone()).check_multi(&[b'1' - b'0', b'2' - b'0']),
        true
    );
    assert_ne!(
        MdCharsIter::new(chars).check_multi(&[
            b'1' - b'0',
            b'2' - b'0',
            b'3' - b'0',
            b'4' - b'0',
            b'5' - b'0',
            b'6' - b'0'
        ]),
        true
    );
}

#[test]
fn test_slice() {
    let mut chars = MdCharsIter::new(MdChars::new("123\n456\n789".as_bytes()));
    assert_eq!(chars.slice_to_byte(b'\n'), vec![b'1', b'2', b'3']);
    assert_eq!(chars.slice_to_byte(b'\n'), vec![b'4', b'5', b'6']);
    assert_eq!(chars.slice_to_byte(b'\n'), vec![b'7', b'8', b'9']);
    assert_eq!(chars.is_end(), true);
}

#[test]
fn test_slice_multi() {
    let mut chars = MdCharsIter::new(MdChars::new("$$123\n$$789\n".as_bytes()));
    chars.slice_to_array(&[b'$', b'$']);
    assert_eq!(
        chars.slice_to_array(&[b'$', b'$']),
        vec![b'1', b'2', b'3', b'\n']
    );
    assert_eq!(
        chars.slice_to_array(&[b'$', b'$']),
        vec![b'7', b'8', b'9', b'\n']
    );
}

#[test]
fn test_slice_by_str() {
    let mut chars = MdCharsIter::new(MdChars::new("$$123\n$$789\n000".as_bytes()));
    chars.slice_to_str("$$");
    assert_eq!(chars.slice_to_str("$$"), vec![b'1', b'2', b'3', b'\n']);
    assert_eq!(
        chars.slice_to_str("$$"),
        vec![b'7', b'8', b'9', b'\n', b'0', b'0', b'0']
    );
}

#[test]
fn test_slice_two_terminators() {
    // The long close is preferred where both match; the short close still
    // ends the slice on its own.
    let mut chars = MdCharsIter::new(MdChars::new("abc\n$$rest".as_bytes()));
    assert_eq!(chars.slice_to_str_2("\n$$", "$$"), b"abc".to_vec());
    let mut chars = MdCharsIter::new(MdChars::new("abc$$rest".as_bytes()));
    assert_eq!(chars.slice_to_str_2("\n$$", "$$"), b"abc".to_vec());
}

#[test]
fn test_check_str() {
    let chars = MdCharsIter::new(MdChars::new("```rust".as_bytes()));
    assert_eq!(chars.check_str("```"), true);
    assert_eq!(chars.check_str("$$"), false);
}
