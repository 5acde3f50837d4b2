use purr::args::input_args;
use purr::errors::{InputError, TestError};
use purr::input::{checked_path, resolve_arg, InputSource};
use purr::print::{handle_file, handle_stdin};
use purr::text::split_lines;
use purr::{read_file, PrintManager, PurrArgs};

#[test]
fn new_manager_starts_at_zero() {
    let pm = PrintManager::new();
    assert_eq!(pm.line_num(), 0);
    assert!(!pm.display_line_numbers);
    let d = PrintManager::default();
    assert_eq!(d.line_num(), 0);
    assert!(!d.display_line_numbers);
}

#[test]
fn write_line_plain() {
    let mut pm = PrintManager::new();
    let mut out = Vec::new();
    pm.write_line(b"hello", &mut out);
    assert_eq!(out, b"hello\n");
    assert_eq!(pm.line_num(), 1);
}

#[test]
fn write_line_numbered_formats() {
    let mut pm = PrintManager::new();
    pm.display_line_numbers = true;
    let mut out = Vec::new();
    pm.write_line(b"first", &mut out);
    assert_eq!(out, b"1  first\n");
    for _ in 0..8 {
        pm.write_line(b"", &mut out);
    }
    out.clear();
    pm.write_line(b"tenth", &mut out);
    assert_eq!(out, b"10  tenth\n");
    assert_eq!(pm.line_num(), 10);
}

#[test]
fn write_lines_continues_count() {
    let mut pm = PrintManager::new();
    pm.display_line_numbers = true;
    let mut out = Vec::new();
    let lines = vec![b"a".to_vec(), b"b".to_vec()];
    pm.write_lines(&lines, &mut out);
    pm.write_lines(&lines, &mut out);
    assert_eq!(out, b"1  a\n2  b\n3  a\n4  b\n");
    assert_eq!(pm.line_num(), 4);
}

#[test]
fn write_lines_empty_list() {
    let mut pm = PrintManager::new();
    let mut out = b"x".to_vec();
    pm.write_lines(&Vec::new(), &mut out);
    assert_eq!(out, b"x");
    assert_eq!(pm.line_num(), 0);
}

#[test]
fn split_lines_terminators() {
    assert_eq!(split_lines(b""), Vec::<Vec<u8>>::new());
    assert_eq!(split_lines(b"\n"), vec![b"".to_vec()]);
    assert_eq!(split_lines(b"a\n\n"), vec![b"a".to_vec(), b"".to_vec()]);
    assert_eq!(split_lines(b"a\r\nb"), vec![b"a".to_vec(), b"b".to_vec()]);
    assert_eq!(split_lines(b"a\rb\r"), vec![b"a\rb\r".to_vec()]);
    assert_eq!(split_lines(b"x\r\r\n"), vec![b"x\r".to_vec()]);
}

#[test]
fn read_file_replaces_invalid_bytes() {
    let out = read_file(&[0x41, 0x80, 0x42]);
    assert_eq!(String::from_utf8(out).unwrap(), "A\u{FFFD}B");
    let out = read_file(&[0xFF]);
    assert_eq!(out, vec![0xEF, 0xBF, 0xBD]);
}

#[test]
fn read_file_drops_byte_order_mark() {
    let out = read_file(&[0xEF, 0xBB, 0xBF, b'h', b'i']);
    assert_eq!(out, b"hi");
}

#[test]
fn read_file_keeps_valid_text() {
    let text = "na\u{ef}ve \u{1F600}\n";
    assert_eq!(read_file(text.as_bytes()), text.as_bytes());
    assert_eq!(read_file(b""), b"");
}

#[test]
fn handle_stdin_end_of_input() {
    let mut pm = PrintManager::new();
    let mut out = Vec::new();
    assert!(!handle_stdin(&mut pm, b"", &mut out));
    assert!(out.is_empty());
    assert_eq!(pm.line_num(), 0);
}

#[test]
fn handle_stdin_one_line() {
    let mut pm = PrintManager::new();
    pm.display_line_numbers = true;
    let mut out = Vec::new();
    assert!(handle_stdin(&mut pm, b"A test\r\n", &mut out));
    assert!(handle_stdin(&mut pm, b"\xC3more\n", &mut out));
    assert_eq!(String::from_utf8(out).unwrap(), "1  A test\n2  \u{FFFD}more\n");
    assert_eq!(pm.line_num(), 2);
}

#[test]
fn input_args_defaults_to_stdin() {
    let none = input_args(PurrArgs { files: None, number_output_lines: false });
    assert_eq!(none, vec!["-".to_string()]);
    let empty = input_args(PurrArgs { files: Some(vec![]), number_output_lines: true });
    assert_eq!(empty, vec!["-".to_string()]);
    let given = vec!["a".to_string(), "-".to_string()];
    assert_eq!(input_args(PurrArgs { files: Some(given.clone()), number_output_lines: false }), given);
}

#[test]
fn checked_path_both_ways() {
    assert!(matches!(checked_path("p".to_string(), true), Ok(p) if p == "p"));
    assert!(matches!(checked_path("p".to_string(), false), Err(InputError::NotFound(p)) if p == "p"));
}

#[test]
fn resolve_arg_dash_is_stdin() {
    assert!(matches!(resolve_arg("-".to_string()), Ok(InputSource::Stdin)));
    let r = resolve_arg("no/such/dir/missing.txt".to_string());
    assert!(matches!(r, Err(InputError::NotFound(p)) if p == "no/such/dir/missing.txt"));
}

#[test]
fn error_messages() {
    let e = InputError::NotFound("missing.txt".to_string());
    assert_eq!(e.message(), "No such file or directory: missing.txt");
    let t = TestError::Custom("boom".to_string());
    assert_eq!(t.message(), "boom");
}

#[test]
fn with_numbering_first_line() {
    let mut pm = PrintManager::with_numbering(true);
    assert!(pm.display_line_numbers);
    assert_eq!(pm.line_num(), 0);
    let mut out = Vec::new();
    pm.write_line(b"text", &mut out);
    assert_eq!(out, b"1  text\n");
    let plain = PrintManager::with_numbering(false);
    assert!(!plain.display_line_numbers);
}

#[test]
fn handle_file_decodes_and_numbers() {
    let mut pm = PrintManager::with_numbering(true);
    let mut out = Vec::new();
    assert!(handle_file(&mut pm, b"\xEF\xBB\xBFa\r\nb\xFF", &mut out));
    assert_eq!(String::from_utf8(out.clone()).unwrap(), "1  a\n2  b\u{FFFD}\n");
    assert!(handle_file(&mut pm, b"", &mut out));
    assert_eq!(pm.line_num(), 2);
}

#[test]
fn handle_stdin_keeps_byte_order_mark() {
    let mut pm = PrintManager::new();
    let mut out = Vec::new();
    assert!(handle_stdin(&mut pm, b"\xEF\xBB\xBFx\n", &mut out));
    assert_eq!(String::from_utf8(out).unwrap(), "\u{FEFF}x\n");
}

#[test]
fn handle_stdin_cut_off_character() {
    let mut pm = PrintManager::new();
    let mut out = Vec::new();
    assert!(handle_stdin(&mut pm, b"hello!\xE2\x82", &mut out));
    assert_eq!(String::from_utf8(out).unwrap(), "hello!\u{FFFD}\n");
}

#[test]
fn read_file_cut_off_character() {
    let out = read_file(b"hello!\xE2\x82");
    assert_eq!(String::from_utf8(out).unwrap(), "hello!\u{FFFD}");
}
