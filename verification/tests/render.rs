use ccwc::args::UsageError;
use ccwc::counts::count_all;
use ccwc::render::mode_of_flag;
use ccwc::render::process;
use ccwc::render::render_field;
use ccwc::render::select_count;
use ccwc::render::Mode;

#[test]
fn test_render_field_pads_to_seven_columns() {
    assert_eq!(render_field(0), b"      0".to_vec());
    assert_eq!(render_field(42), b"     42".to_vec());
    assert_eq!(render_field(1234567), b"1234567".to_vec());
}

#[test]
fn test_render_field_keeps_wide_numbers_whole() {
    assert_eq!(render_field(12345678), b"12345678".to_vec());
    assert_eq!(render_field(u64::MAX), b"18446744073709551615".to_vec());
}

#[test]
fn test_render_field_matches_std_formatting() {
    let values: Vec<u64> = vec![0, 1, 9, 10, 99, 100, 7145, 58164, 342190, 9999999, 10000000];
    for &n in &values {
        let rendered = String::from_utf8(render_field(n)).unwrap();
        assert_eq!(rendered, format!("{:>7}", n));
    }
}

#[test]
fn test_mode_of_flag_recognizes_the_four_flags() {
    assert_eq!(mode_of_flag(&b"-c".to_vec()), Some(Mode::Bytes));
    assert_eq!(mode_of_flag(&b"-l".to_vec()), Some(Mode::Lines));
    assert_eq!(mode_of_flag(&b"-w".to_vec()), Some(Mode::Words));
    assert_eq!(mode_of_flag(&b"-m".to_vec()), Some(Mode::Chars));
}

#[test]
fn test_mode_of_flag_rejects_anything_else() {
    assert_eq!(mode_of_flag(&b"-x".to_vec()), None);
    assert_eq!(mode_of_flag(&b"-cc".to_vec()), None);
    assert_eq!(mode_of_flag(&b"c".to_vec()), None);
    assert_eq!(mode_of_flag(&b"".to_vec()), None);
    assert_eq!(mode_of_flag(&b"--lines".to_vec()), None);
}

#[test]
fn test_select_count_picks_each_metric() {
    let c = count_all(&b"one two\n".to_vec());
    assert_eq!(select_count(&c, Mode::Bytes), c.bytes);
    assert_eq!(select_count(&c, Mode::Lines), c.lines);
    assert_eq!(select_count(&c, Mode::Words), c.words);
    assert_eq!(select_count(&c, Mode::Chars), c.chars);
}

#[test]
fn test_process_default_report() {
    let input: Vec<u8> = b"hello\n".to_vec();
    let out = process(&input, None).unwrap();
    assert_eq!(out, b"      1       1       6".to_vec());
}

#[test]
fn test_process_single_count_reports() {
    let input: Vec<u8> = b"hello\n".to_vec();
    assert_eq!(process(&input, Some(&b"-c".to_vec())).unwrap(), b"      6".to_vec());
    assert_eq!(process(&input, Some(&b"-l".to_vec())).unwrap(), b"      1".to_vec());
    assert_eq!(process(&input, Some(&b"-w".to_vec())).unwrap(), b"      1".to_vec());
    assert_eq!(process(&input, Some(&b"-m".to_vec())).unwrap(), b"      6".to_vec());
}

#[test]
fn test_process_unknown_flag_is_usage_error() {
    let input: Vec<u8> = b"hello\n".to_vec();
    let r = process(&input, Some(&b"-x".to_vec()));
    assert_eq!(r, Err(UsageError::UnknownFlag));
}

#[test]
fn test_default_report_matches_single_modes() {
    // The default report must carry, field for field, the numbers that the
    // single-count modes report on the same input.
    let inputs: Vec<Vec<u8>> = vec![
        Vec::new(),
        b"hello\n".to_vec(),
        b"one two\tthree\nfour".to_vec(),
        "h\u{00E9}ll\u{00F3}\n\n seven words over three lines \n".as_bytes().to_vec(),
        vec![0xFF, 0x20, 0x61, 0x0A],
    ];
    for input in &inputs {
        let all = process(input, None).unwrap();
        let lines = process(input, Some(&b"-l".to_vec())).unwrap();
        let words = process(input, Some(&b"-w".to_vec())).unwrap();
        let bytes = process(input, Some(&b"-c".to_vec())).unwrap();
        let mut joined: Vec<u8> = Vec::new();
        joined.extend_from_slice(&lines);
        joined.push(b' ');
        joined.extend_from_slice(&words);
        joined.push(b' ');
        joined.extend_from_slice(&bytes);
        assert_eq!(all, joined);
    }
}
