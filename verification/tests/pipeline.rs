use mdu2d::endings::convert_line_endings;
use mdu2d::endings::is_binary;
use mdu2d::endings::needs_conversion;
use mdu2d::pipeline::decide;
use mdu2d::pipeline::exit_code;
use mdu2d::pipeline::Decision;
use mdu2d::pipeline::Outcome;

#[test]
fn test_unix_file_conversion() {
    let content = b"line1\nline2\nline3\n";
    let expected = b"line1\r\nline2\r\nline3\r\n";
    match decide(content) {
        Decision::Convert(result) => assert_eq!(result, expected),
        _ => panic!("a buffer of bare line feeds must be converted"),
    }
}

#[test]
fn test_dos_file_skipped() {
    let content = b"line1\r\nline2\r\nline3\r\n";
    assert!(matches!(decide(content), Decision::SkipAlreadyConverted));
}

#[test]
fn test_binary_file_skipped() {
    let content = b"binary\0content\0with\0nulls";
    assert!(matches!(decide(content), Decision::SkipBinary));
}

#[test]
fn test_mixed_endings_converted() {
    let content = b"line1\r\nline2\nline3\r\nline4\n";
    let expected = b"line1\r\nline2\r\nline3\r\nline4\r\n";
    match decide(content) {
        Decision::Convert(result) => assert_eq!(result, expected),
        _ => panic!("a buffer with any bare line feed must be converted"),
    }
}

#[test]
fn test_empty_file() {
    let content: &[u8] = b"";
    assert!(matches!(decide(content), Decision::SkipAlreadyConverted));
}

#[test]
fn test_empty_inputs() {
    let empty: &[u8] = b"";
    assert!(!is_binary(empty));
    assert!(!needs_conversion(empty));
    assert_eq!(convert_line_endings(empty), Vec::<u8>::new());
}

#[test]
fn test_convert_idempotent_concrete() {
    let inputs: Vec<&[u8]> = vec![
        b"line1\nline2\nline3\n",
        b"line1\r\nline2\nline3\r\nline4\n",
        b"\n",
        b"\r",
        b"no terminator at all",
        b"",
    ];
    for input in inputs {
        let once = convert_line_endings(input);
        assert!(!needs_conversion(&once));
        let twice = convert_line_endings(&once);
        assert_eq!(twice, once);
    }
}

#[test]
fn test_convert_keeps_bytes_in_order() {
    let input = b"a\nb\r\nc\rd\n";
    let output = convert_line_endings(input);
    assert_eq!(output, b"a\r\nb\r\nc\rd\r\n");
    let without_cr_in: Vec<u8> = input.iter().copied().filter(|&b| b != b'\r').collect();
    let without_cr_out: Vec<u8> = output.iter().copied().filter(|&b| b != b'\r').collect();
    assert_eq!(without_cr_in, without_cr_out);
}

#[test]
fn test_lf_at_start_is_bare() {
    let input = b"\nabc";
    assert!(needs_conversion(input));
    assert_eq!(convert_line_endings(input), b"\r\nabc");
}

#[test]
fn test_lone_cr_needs_nothing() {
    let input = b"line1\rline2";
    assert!(!needs_conversion(input));
    assert!(matches!(decide(input), Decision::SkipAlreadyConverted));
}

#[test]
fn test_binary_null_at_start() {
    assert!(is_binary(b"\0rest"));
}

#[test]
fn test_binary_prefix_boundary() {
    let clean = vec![b'a'; 512];
    assert!(!is_binary(&clean));

    let mut null_at_last_checked = vec![b'a'; 512];
    null_at_last_checked[511] = 0;
    assert!(is_binary(&null_at_last_checked));

    let mut null_past_prefix = vec![b'a'; 513];
    null_past_prefix[512] = 0;
    assert!(!is_binary(&null_past_prefix));
}

#[test]
fn test_null_past_prefix_still_converted() {
    let mut content = vec![b'a'; 512];
    content.push(0);
    content.push(b'\n');
    match decide(&content) {
        Decision::Convert(result) => {
            let mut expected = vec![b'a'; 512];
            expected.push(0);
            expected.push(b'\r');
            expected.push(b'\n');
            assert_eq!(result, expected);
        }
        _ => panic!("a null byte past the inspected prefix must not stop conversion"),
    }
}

#[test]
fn test_exit_code_all_success() {
    let outcomes = vec![
        Outcome::Converted,
        Outcome::SkippedBinary,
        Outcome::SkippedAlreadyConverted,
    ];
    assert_eq!(exit_code(&outcomes), 0);
}

#[test]
fn test_exit_code_missing_path_fails_run() {
    let outcomes = vec![
        Outcome::Converted,
        Outcome::SkippedMissing,
        Outcome::Converted,
    ];
    assert_eq!(exit_code(&outcomes), 1);
}

#[test]
fn test_exit_code_io_failure_fails_run() {
    let outcomes = vec![
        Outcome::SkippedAlreadyConverted,
        Outcome::Failed(String::from("permission denied")),
    ];
    assert_eq!(exit_code(&outcomes), 1);
}

#[test]
fn test_exit_code_no_paths_is_usage_error() {
    let outcomes: Vec<Outcome> = Vec::new();
    assert_eq!(exit_code(&outcomes), 1);
}
