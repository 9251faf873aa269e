use streamutils::string_stream::{ByteCursor, StringStream};

#[test]
fn one_byte_test() {
    let s = "h";
    let cur = ByteCursor::new(s.as_bytes().to_vec());
    let mut stream = StringStream::new(cur);
    assert_eq!(stream.next_scalar(), Some('h'));
}

#[test]
fn two_byte_test() {
    let s = "\u{1B1}";
    let cur = ByteCursor::new(s.as_bytes().to_vec());
    let mut stream = StringStream::new(cur);
    assert_eq!(stream.next_scalar(), Some('\u{1B1}'));
}

#[test]
fn three_byte_test() {
    let s = "\u{2713}";
    let cur = ByteCursor::new(s.as_bytes().to_vec());
    let mut stream = StringStream::new(cur);
    assert_eq!(stream.next_scalar(), Some('\u{2713}'));
}

#[test]
fn four_byte_test() {
    let s = "😉";
    let cur = ByteCursor::new(s.as_bytes().to_vec());
    let mut stream = StringStream::new(cur);
    assert_eq!(stream.next_scalar(), Some('😉'));
}

#[test]
fn next_line_test() {
    let with_trailing = ByteCursor::new("hi\nhow\r\nare\nyou?\n".as_bytes().to_vec());
    let without_trailing = ByteCursor::new("hi\nhow\r\nare\nyou?\n".as_bytes().to_vec());

    let expected = ["hi", "how", "are", "you?"];

    let get_lines = |data: ByteCursor| {
        let mut stream = StringStream::new(data);
        let mut lines = Vec::new();
        while let Some(l) = stream.next_line() {
            lines.push(l);
        }

        lines
    };

    assert_eq!(get_lines(with_trailing), expected);
    assert_eq!(get_lines(without_trailing), expected);
}

#[test]
fn lines_test() {
    let s = ByteCursor::new("how\nmuch\nwood\nwould\na\nwoodchuck\nchuck?".as_bytes().to_vec());
    let stream = StringStream::new(s);
    let lines = stream.lines();

    assert_eq!(
        lines,
        vec!["how", "much", "wood", "would", "a", "woodchuck", "chuck?"]
    )
}

#[test]
fn ascii_scalar_test() {
    let cur = ByteCursor::new("A".as_bytes().to_vec());
    let mut stream = StringStream::new(cur);
    assert_eq!(stream.next_scalar(), Some('A'));
    assert_eq!(stream.next_scalar(), None);
}

#[test]
fn scalar_round_trip_test() {
    for c in ['A', '\u{1B1}', '\u{2713}', '\u{1F609}'] {
        let mut buf = [0u8; 4];
        let encoded = c.encode_utf8(&mut buf).as_bytes().to_vec();
        let mut stream = StringStream::new(ByteCursor::new(encoded));
        assert_eq!(stream.next_scalar(), Some(c));
        assert_eq!(stream.next_scalar(), None);
    }
}

#[test]
fn truncated_lead_test() {
    for lead in [0xC3u8, 0xE2, 0xF0] {
        let mut stream = StringStream::new(ByteCursor::new(vec![lead]));
        assert_eq!(stream.next_scalar(), None);
    }
}

#[test]
fn surrogate_bytes_test() {
    // The three-byte pattern for U+D800, which is not a scalar value.
    let mut stream = StringStream::new(ByteCursor::new(vec![0xED, 0xA0, 0x80]));
    assert_eq!(stream.next_scalar(), None);
}

#[test]
fn malformed_continuation_test() {
    // A two-byte lead followed by a non-continuation byte consumes further
    // bytes looking for longer patterns and then gives up for good.
    let mut stream = StringStream::new(ByteCursor::new(vec![0xC3, 0x41, 0x42, 0x43, 0x44]));
    assert_eq!(stream.next_scalar(), None);
    assert_eq!(stream.next_scalar(), Some('D'));
}

#[test]
fn overlong_encoding_accepted_test() {
    // Overlong encodings are not rejected: decoding only checks the byte
    // patterns and the assembled scalar value.
    let mut stream = StringStream::new(ByteCursor::new(vec![0xC1, 0xBF]));
    assert_eq!(stream.next_scalar(), Some('\u{7F}'));
}

#[test]
fn empty_source_test() {
    let mut stream = StringStream::new(ByteCursor::new(Vec::new()));
    assert_eq!(stream.next_scalar(), None);
    let mut stream = StringStream::new(ByteCursor::new(Vec::new()));
    assert_eq!(stream.next_line(), None);
}

#[test]
fn no_trailing_terminator_test() {
    let stream = StringStream::new(ByteCursor::new("hi\nhow\r\nare\nyou?".as_bytes().to_vec()));
    assert_eq!(stream.lines(), vec!["hi", "how", "are", "you?"]);
}

#[test]
fn lone_cr_lookahead_test() {
    // The carriage return is kept, and the look-ahead scalar after it is
    // consumed and discarded.
    let mut stream = StringStream::new(ByteCursor::new("a\rb".as_bytes().to_vec()));
    assert_eq!(stream.next_line(), Some(String::from("a\r")));
    assert_eq!(stream.next_line(), None);
}

#[test]
fn crlf_terminator_test() {
    let mut stream = StringStream::new(ByteCursor::new("a\r\nb".as_bytes().to_vec()));
    assert_eq!(stream.next_line(), Some(String::from("a")));
    assert_eq!(stream.next_line(), Some(String::from("b")));
    assert_eq!(stream.next_line(), None);
}

#[test]
fn lines_match_manual_reads_test() {
    let input = "one\r\ntwo\rx3\nfour";
    let all = StringStream::new(ByteCursor::new(input.as_bytes().to_vec())).lines();
    let mut stream = StringStream::new(ByteCursor::new(input.as_bytes().to_vec()));
    let mut manual = Vec::new();
    while let Some(l) = stream.next_line() {
        manual.push(l);
    }
    assert_eq!(all, manual);
}

#[test]
fn empty_line_ends_lines_test() {
    // An empty line yields "no more lines", exhausting the reader for good.
    let stream = StringStream::new(ByteCursor::new("a\n\nb".as_bytes().to_vec()));
    assert_eq!(stream.lines(), vec!["a"]);
}
