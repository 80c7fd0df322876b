use lsp_froggy::position::{PositionMapper, MAX_TEXT_LEN};
use lsp_froggy::{MapError, Position};

fn mapper_for(text: &[u8]) -> (PositionMapper, Vec<u8>) {
    let owned = text.to_vec();
    assert!(owned.len() <= MAX_TEXT_LEN);
    let m = PositionMapper::new(&owned);
    (m, owned)
}

#[test]
fn empty_text_has_one_line() {
    let (m, t) = mapper_for(b"");
    assert_eq!(m.line_count(), 1);
    assert_eq!(
        m.byte_to_position(&t, 0),
        Ok(Position { line: 0, character: 0 })
    );
    assert_eq!(m.position_to_byte(&t, Position { line: 0, character: 5 }), Ok(0));
}

#[test]
fn ascii_positions() {
    let (m, t) = mapper_for(b"abc\ndef");
    assert_eq!(m.line_count(), 2);
    assert_eq!(
        m.byte_to_position(&t, 5),
        Ok(Position { line: 1, character: 1 })
    );
    assert_eq!(m.position_to_byte(&t, Position { line: 1, character: 1 }), Ok(5));
    // Offset of the line break belongs to the line it ends.
    assert_eq!(
        m.byte_to_position(&t, 3),
        Ok(Position { line: 0, character: 3 })
    );
}

#[test]
fn offset_out_of_range_fails() {
    let (m, t) = mapper_for(b"abc");
    assert_eq!(
        m.byte_to_position(&t, 4),
        Err(MapError::PositionOutOfRange)
    );
}

#[test]
fn line_not_found_fails() {
    let (m, t) = mapper_for(b"abc\ndef");
    assert_eq!(
        m.position_to_byte(&t, Position { line: 2, character: 0 }),
        Err(MapError::LineNotFound)
    );
}

#[test]
fn column_clamps_to_line_end() {
    let (m, t) = mapper_for(b"ab\ncd");
    // Column far beyond the first line's width clamps before the break.
    assert_eq!(m.position_to_byte(&t, Position { line: 0, character: 99 }), Ok(2));
    // And on the last line, to the end of the text.
    assert_eq!(m.position_to_byte(&t, Position { line: 1, character: 99 }), Ok(5));
}

#[test]
fn utf16_columns_count_units_not_bytes() {
    // "aé😀b": 'a' 1 byte/1 unit, 'é' 2 bytes/1 unit, the emoji 4 bytes/2
    // units (a surrogate pair), 'b' 1 byte/1 unit.
    let text = "a\u{e9}\u{1F600}b".as_bytes();
    let (m, t) = mapper_for(text);
    assert_eq!(
        m.byte_to_position(&t, 3),
        Ok(Position { line: 0, character: 2 })
    );
    assert_eq!(
        m.byte_to_position(&t, 7),
        Ok(Position { line: 0, character: 4 })
    );
    assert_eq!(m.position_to_byte(&t, Position { line: 0, character: 2 }), Ok(3));
    assert_eq!(m.position_to_byte(&t, Position { line: 0, character: 4 }), Ok(7));
    // A column landing inside the surrogate pair rounds down to the
    // character's start.
    assert_eq!(m.position_to_byte(&t, Position { line: 0, character: 3 }), Ok(3));
}

#[test]
fn round_trip_on_every_character_boundary() {
    let text = "a\u{e9}\u{1F600}\nxy\nz\n\u{3b1}\u{3b2}".as_bytes();
    let (m, t) = mapper_for(text);
    for o in 0..=t.len() {
        let is_boundary = o == t.len() || (t[o] & 0xc0) != 0x80;
        if is_boundary {
            let p = m.byte_to_position(&t, o).unwrap();
            assert_eq!(m.position_to_byte(&t, p), Ok(o));
        }
    }
}

#[test]
fn trailing_line_break_opens_an_empty_line() {
    let (m, t) = mapper_for(b"ab\n");
    assert_eq!(m.line_count(), 2);
    assert_eq!(
        m.byte_to_position(&t, 3),
        Ok(Position { line: 1, character: 0 })
    );
    assert_eq!(m.position_to_byte(&t, Position { line: 1, character: 0 }), Ok(3));
}
