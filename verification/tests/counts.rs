use ccwc::counts::count_all;

#[test]
fn test_count_bytes_stdin() {
    let stdin: Vec<u8> = b"hello\n".to_vec();
    let n = count_all(&stdin).bytes;
    assert_eq!(n, 6);
}

#[test]
fn test_count_lines_stdin() {
    let stdin: Vec<u8> = b"a\nb\nc\n".to_vec();
    let n = count_all(&stdin).lines;
    assert_eq!(n, 3);
}

#[test]
fn test_count_words_stdin() {
    let stdin: Vec<u8> = b"one two\tthree\nfour".to_vec();
    let n = count_all(&stdin).words;
    assert_eq!(n, 4);
}

#[test]
fn test_count_characters_stdin() {
    let stdin: Vec<u8> = "hélló".as_bytes().to_vec();
    let n = count_all(&stdin).chars;
    assert_eq!(n, 5);
}

#[test]
fn test_hello_all_counts() {
    let input: Vec<u8> = b"hello\n".to_vec();
    let c = count_all(&input);
    assert_eq!(c.bytes, 6);
    assert_eq!(c.lines, 1);
    assert_eq!(c.words, 1);
    assert_eq!(c.chars, 6);
}

#[test]
fn test_empty_input_all_zero() {
    let input: Vec<u8> = Vec::new();
    let c = count_all(&input);
    assert_eq!(c.bytes, 0);
    assert_eq!(c.lines, 0);
    assert_eq!(c.words, 0);
    assert_eq!(c.chars, 0);
}

#[test]
fn test_unterminated_final_line_counts() {
    let input: Vec<u8> = b"abc".to_vec();
    let c = count_all(&input);
    assert_eq!(c.lines, 1);
    let input: Vec<u8> = b"abc\ndef".to_vec();
    let c = count_all(&input);
    assert_eq!(c.lines, 2);
}

#[test]
fn test_nonempty_input_has_a_line() {
    let input: Vec<u8> = b" ".to_vec();
    let c = count_all(&input);
    assert_eq!(c.lines, 1);
}

#[test]
fn test_whitespace_only_has_no_words() {
    let input: Vec<u8> = b" \t\r\n \x0b\x0c \n ".to_vec();
    let c = count_all(&input);
    assert_eq!(c.words, 0);
}

#[test]
fn test_unicode_whitespace_separates_words() {
    // EN QUAD, NO-BREAK SPACE and IDEOGRAPHIC SPACE all separate words.
    let input: Vec<u8> = "a\u{2000}b\u{00A0}c\u{3000}d".as_bytes().to_vec();
    let c = count_all(&input);
    assert_eq!(c.words, 4);
}

#[test]
fn test_unicode_whitespace_only_has_no_words() {
    let input: Vec<u8> = "\u{2003}\u{00A0}\u{3000}\u{0085}".as_bytes().to_vec();
    let c = count_all(&input);
    assert_eq!(c.words, 0);
}

#[test]
fn test_multibyte_chars_fewer_than_bytes() {
    let input: Vec<u8> = "hélló".as_bytes().to_vec();
    let c = count_all(&input);
    assert_eq!(c.chars, 5);
    assert_eq!(c.bytes, 7);
    assert!(c.bytes > c.chars);
}

#[test]
fn test_invalid_bytes_count_as_replacement_chars() {
    // Two invalid bytes and one ASCII letter: three scalars after lossy decoding.
    let input: Vec<u8> = vec![0xFF, 0xFE, 0x61];
    let c = count_all(&input);
    assert_eq!(c.bytes, 3);
    assert_eq!(c.chars, 3);
}

#[test]
fn test_chars_never_exceed_bytes() {
    let inputs: Vec<Vec<u8>> = vec![
        Vec::new(),
        b"plain ascii".to_vec(),
        "üñïçödé".as_bytes().to_vec(),
        vec![0x80, 0x80, 0x80],
        vec![0xE0, 0xA0],
        vec![0xF0, 0x9F, 0x98],
    ];
    for input in &inputs {
        let c = count_all(input);
        assert!(c.chars <= c.bytes);
    }
}

#[test]
fn test_counts_match_lossy_decoding() {
    // The engine must agree with counting over the lossily decoded text:
    // lines as newline-terminated or final unterminated segments, words as
    // maximal whitespace-delimited runs, characters as scalar values.
    let inputs: Vec<Vec<u8>> = vec![
        Vec::new(),
        b"hello\n".to_vec(),
        b"one two\tthree\nfour".to_vec(),
        b"\n\n\n".to_vec(),
        b"no newline at end".to_vec(),
        "h\u{00E9}ll\u{00F3} w\u{00F6}rld\n".as_bytes().to_vec(),
        "\u{2028}x\u{2029}y\u{202F}z".as_bytes().to_vec(),
        "\u{10348} \u{1F600}\n\u{FFFD}".as_bytes().to_vec(),
        vec![0xC2, 0x0A, 0x41],
        vec![0xE0, 0x80, 0x41],
        vec![0xED, 0xA0, 0x80],
        vec![0xF0, 0x80, 0x41, 0x0A],
        vec![0xF4, 0x90, 0x80, 0x80],
        vec![0xC2],
        vec![0xE2, 0x82],
        vec![0xF0, 0x9F, 0x98],
        vec![0x61, 0xC0, 0xAF, 0x62, 0x20, 0xFE, 0x0A],
    ];
    for input in &inputs {
        let c = count_all(input);
        let decoded = String::from_utf8_lossy(input);
        assert_eq!(c.bytes as usize, input.len());
        assert_eq!(c.lines as usize, decoded.lines().count());
        assert_eq!(c.words as usize, decoded.split_whitespace().count());
        assert_eq!(c.chars as usize, decoded.chars().count());
    }
}
