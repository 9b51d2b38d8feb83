use batchmv::grammar::Prefix;
use batchmv::line::LineReader;
use batchmv::line::Separator;
use batchmv::path::examine;
use batchmv::path::parse_decoded;
use batchmv::path::parse_line;
use batchmv::path::preview_line;
use batchmv::path::preview_text;
use batchmv::path::ErrorCause;
use batchmv::path::PathKind;
use batchmv::path::PathReader;
use batchmv::path::MAX_LINE;
use batchmv::stream::ByteStream;

fn reader_over(input: &[u8], separator: Separator) -> PathReader {
    PathReader::new(LineReader::new(ByteStream::new(input.to_vec()), separator))
}

fn pair<'a>(src: &'a str, dst: &'a str) -> Option<(&'a [u8], &'a [u8])> {
    Some((src.as_bytes(), dst.as_bytes()))
}

#[test]
fn path_reader_newline() {
    let mut reader = reader_over(b"<x\n<a\n>bc\n>def", Separator::Newline);
    assert_eq!(reader.read(), Ok(pair("a", "bc")));
    assert_eq!(reader.read(), Ok(pair("a", "def")));
    assert_eq!(reader.read(), Ok(None));
}

#[test]
fn path_reader_null() {
    let mut reader = reader_over(b"<x\0<a\0>bc\0>def", Separator::Null);
    assert_eq!(reader.read(), Ok(pair("a", "bc")));
    assert_eq!(reader.read(), Ok(pair("a", "def")));
    assert_eq!(reader.read(), Ok(None));
}

#[test]
fn path_reader_fans_out_one_source() {
    let mut reader = reader_over(b"<a\n>b\n>c", Separator::Newline);
    assert_eq!(reader.read(), Ok(pair("a", "b")));
    assert_eq!(reader.read(), Ok(pair("a", "c")));
    assert_eq!(reader.read(), Ok(None));
}

#[test]
fn path_reader_last_source_wins() {
    let mut reader = reader_over(b"<x\n<a\n>b", Separator::Newline);
    assert_eq!(reader.read(), Ok(pair("a", "b")));
    assert_eq!(reader.read(), Ok(None));
}

#[test]
fn path_reader_crlf_records() {
    let mut reader = reader_over(b"<a\r\n>b\r\n", Separator::Newline);
    assert_eq!(reader.read(), Ok(pair("a", "b")));
    assert_eq!(reader.read(), Ok(None));
}

#[test]
fn path_reader_dest_without_source() {
    let mut reader = reader_over(b">b\n<a", Separator::Newline);
    let error = reader.read().unwrap_err();
    assert_eq!(error.cause(), ErrorCause::NoSourcePath);
    assert_eq!(error.line(), 1);
    assert_eq!(error.preview(), ">b");
}

#[test]
fn path_reader_counts_lines_up_to_the_error() {
    let mut reader = reader_over(b"<a\n>b\n<c\n\n>d", Separator::Newline);
    assert_eq!(reader.read(), Ok(pair("a", "b")));
    let error = reader.read().unwrap_err();
    assert_eq!(error.cause(), ErrorCause::EmptyLine);
    assert_eq!(error.line(), 4);
    assert_eq!(error.preview(), "");
}

#[test]
fn path_reader_invalid_prefix() {
    let mut reader = reader_over(b"<a\nxyz\n", Separator::Newline);
    let error = reader.read().unwrap_err();
    assert_eq!(error.cause(), ErrorCause::InvalidPrefix(Prefix::Byte(b'x')));
    assert_eq!(error.line(), 2);
    assert_eq!(error.preview(), "xyz");
}

#[test]
fn path_reader_reports_the_offending_prefix() {
    let mut reader = reader_over("<a\n\tb\n".as_bytes(), Separator::Newline);
    match reader.read().unwrap_err().cause() {
        ErrorCause::InvalidPrefix(prefix) => assert_eq!(prefix.to_text(), "\\t"),
        other => panic!("unexpected cause {:?}", other),
    }
    let mut reader = reader_over("é\n".as_bytes(), Separator::Newline);
    match reader.read().unwrap_err().cause() {
        ErrorCause::InvalidPrefix(prefix) => {
            assert_eq!(prefix, Prefix::Char('é'));
            assert_eq!(prefix.to_text(), "é");
        }
        other => panic!("unexpected cause {:?}", other),
    }
    let mut reader = reader_over(b"\xff\n", Separator::Newline);
    match reader.read().unwrap_err().cause() {
        ErrorCause::InvalidPrefix(prefix) => assert_eq!(prefix.to_text(), "\\xff"),
        other => panic!("unexpected cause {:?}", other),
    }
}

#[test]
fn path_reader_pairs_are_never_empty() {
    let mut reader = reader_over(b"<a\n>b\n<cd\n>e", Separator::Newline);
    assert!(!reader.has_source());
    while let Some((src, dst)) = reader.read().unwrap() {
        assert!(!src.is_empty());
        assert!(!dst.is_empty());
    }
    assert!(reader.has_source());
}

#[test]
fn path_reader_empty_path() {
    let mut reader = reader_over(b"<\n>b", Separator::Newline);
    let error = reader.read().unwrap_err();
    assert_eq!(error.cause(), ErrorCause::EmptyPath);
    assert_eq!(error.line(), 1);
    assert_eq!(error.preview(), "<");
}

#[test]
fn path_reader_io_error() {
    let broken = ByteStream::failing(b"<a\n>b\n>c".to_vec());
    let mut reader = PathReader::new(LineReader::new(broken, Separator::Newline));
    assert_eq!(reader.read(), Ok(pair("a", "b")));
    let error = reader.read().unwrap_err();
    assert_eq!(error.cause(), ErrorCause::IoError);
    assert_eq!(error.line(), 3);
    assert_eq!(error.preview(), "");
}

#[test]
fn path_reader_line_overflow() {
    let mut input = b"<a\n>".to_vec();
    input.resize(4 + MAX_LINE, b'x');
    let mut reader = reader_over(&input, Separator::Newline);
    let error = reader.read().unwrap_err();
    assert_eq!(error.cause(), ErrorCause::LineOverflow);
    assert_eq!(error.line(), 2);
    assert_eq!(error.preview(), format!(">{}...", "x".repeat(59)));
}

#[test]
fn path_reader_accepts_the_longest_line() {
    let mut input = b"<a\n>".to_vec();
    input.resize(3 + MAX_LINE - 1, b'x');
    input.push(b'\n');
    let mut reader = reader_over(&input, Separator::Newline);
    let (src, dst) = reader.read().unwrap().unwrap();
    assert_eq!(src, b"a");
    assert_eq!(dst.len(), MAX_LINE - 2);
    assert_eq!(reader.read(), Ok(None));
}

#[test]
fn parse_line_cases() {
    assert_eq!(parse_line(b"<a"), Ok((PathKind::Source, b"a".to_vec())));
    assert_eq!(parse_line(b">b c"), Ok((PathKind::Dest, b"b c".to_vec())));
    assert_eq!(parse_line(b"<<"), Ok((PathKind::Source, b"<".to_vec())));
    assert_eq!(parse_line(b""), Err(ErrorCause::EmptyLine));
    assert_eq!(parse_line(b"<"), Err(ErrorCause::EmptyPath));
    assert_eq!(parse_line(b">"), Err(ErrorCause::EmptyPath));
    assert_eq!(parse_line(b"x"), Err(ErrorCause::InvalidPrefix(Prefix::Byte(b'x'))));
    assert_eq!(parse_line(b" <a"), Err(ErrorCause::InvalidPrefix(Prefix::Byte(b' '))));
    assert_eq!(parse_line(b"\xc3\xa1"), Err(ErrorCause::InvalidPrefix(Prefix::Char('á'))));
    assert_eq!(parse_line(b"\xc3"), Err(ErrorCause::InvalidPrefix(Prefix::Byte(0xc3))));
}

#[test]
fn parse_decoded_cases() {
    assert_eq!(parse_decoded(b"<a", false), Err(ErrorCause::InvalidEncoding));
    assert_eq!(parse_decoded(b">a", false), Err(ErrorCause::InvalidEncoding));
    assert_eq!(parse_decoded(b"<a", true), Ok((PathKind::Source, b"a".to_vec())));
    assert_eq!(parse_decoded(b"<", false), Err(ErrorCause::EmptyPath));
    assert_eq!(
        parse_decoded(b"x", false),
        Err(ErrorCause::InvalidPrefix(Prefix::Byte(b'x')))
    );
    assert_eq!(parse_decoded(b"", false), Err(ErrorCause::EmptyLine));
}

#[test]
fn examine_cases() {
    assert_eq!(examine(b"<a", false), Ok((PathKind::Source, b"a".to_vec())));
    assert_eq!(examine(b">a", true), Ok((PathKind::Dest, b"a".to_vec())));
    assert_eq!(
        examine(b">a", false),
        Err((ErrorCause::NoSourcePath, String::from(">a")))
    );
    assert_eq!(
        examine(b"?", true),
        Err((ErrorCause::InvalidPrefix(Prefix::Byte(b'?')), String::from("?")))
    );
}

#[test]
fn preview_line_cases() {
    assert_eq!(preview_line(b""), "");
    assert_eq!(preview_line(b"abc"), "abc");
    assert_eq!(preview_line("x".repeat(31).as_bytes()), "x".repeat(31));
    assert_eq!(preview_line("x".repeat(60).as_bytes()), "x".repeat(60));
    assert_eq!(
        preview_line("x".repeat(61).as_bytes()),
        format!("{}...", "x".repeat(60))
    );
    assert_eq!(preview_line(b"a\xffb"), "a\u{FFFD}b");
}

#[test]
fn preview_line_is_cut_between_characters() {
    // Thirty two-byte characters fill the preview; one more does not fit.
    let fits = "á".repeat(30);
    assert_eq!(preview_line(fits.as_bytes()), fits);
    let long = "á".repeat(31);
    assert_eq!(preview_line(long.as_bytes()), format!("{}...", fits));
    // Fifty-nine bytes and then two two-byte characters: the character
    // that would cross the limit is left out whole.
    let mixed = format!("{}éé", "a".repeat(59));
    assert_eq!(preview_line(mixed.as_bytes()), format!("{}...", "a".repeat(59)));
}

#[test]
fn preview_text_cases() {
    let short: Vec<char> = "abc".chars().collect();
    assert_eq!(preview_text(&short), "abc");
    let long: Vec<char> = "x".repeat(61).chars().collect();
    assert_eq!(preview_text(&long), format!("{}...", "x".repeat(60)));
}
