use batchmv::input::LinePreview;
use batchmv::input::PathErrorKind;
use batchmv::input::PathReader;
use batchmv::input::Prefix;
use batchmv::input::Record;
use batchmv::input::RecordError;
use batchmv::input::RecordKind;
use batchmv::stream::StreamError;
use bstr::io::BufReadExt;
use bstr::B;
use std::collections::VecDeque;

fn items(input: &[u8]) -> VecDeque<Result<Vec<u8>, StreamError>> {
    input.byte_lines().map(|line| line.map_err(|_| StreamError)).collect()
}

fn both<'a>(src: &'a str, dst: &'a str) -> Option<(&'a [u8], &'a [u8])> {
    Some((src.as_bytes(), dst.as_bytes()))
}

#[test]
fn path_reader() {
    let mut reader = PathReader::new(items(B("<a\n>b\n>c")));
    assert_eq!(reader.read(), Ok(both("a", "b")));
    assert_eq!(reader.read(), Ok(both("a", "c")));
    assert_eq!(reader.read(), Ok(None));
}

#[test]
fn input_reader_last_source_wins() {
    let mut reader = PathReader::new(items(b"<x\n<a\n>b"));
    assert_eq!(reader.read(), Ok(both("a", "b")));
    assert_eq!(reader.read(), Ok(None));
}

#[test]
fn input_reader_dest_without_source() {
    let mut reader = PathReader::new(items(b">b\n<a"));
    let error = reader.read().unwrap_err();
    assert_eq!(error.kind(), PathErrorKind::NoSourcePath);
    assert_eq!(error.line(), 1);
    assert_eq!(error.value().value(), ">b");
    assert_eq!(error.value().to_text(), "'>b'");
}

#[test]
fn input_reader_checks_a_source_at_once() {
    let mut reader = PathReader::new(items(b"<\n<a\n>b"));
    let error = reader.read().unwrap_err();
    assert_eq!(error.kind(), PathErrorKind::InvalidRecord(RecordError::EmptyPath));
    assert_eq!(error.line(), 1);
}

#[test]
fn input_reader_io_error() {
    let mut list: VecDeque<Result<Vec<u8>, StreamError>> = VecDeque::new();
    list.push_back(Ok(b"<a".to_vec()));
    list.push_back(Ok(b">b".to_vec()));
    list.push_back(Err(StreamError));
    list.push_back(Ok(b">c".to_vec()));
    let mut reader = PathReader::new(list);
    assert_eq!(reader.read(), Ok(both("a", "b")));
    let error = reader.read().unwrap_err();
    assert_eq!(error.kind(), PathErrorKind::IoError(StreamError));
    assert_eq!(error.line(), 3);
    assert_eq!(error.value().value(), "");
    assert!(!error.value().shortened());
    assert_eq!(reader.read(), Ok(both("a", "c")));
}

#[test]
fn input_reader_fetch_and_process_line() {
    let mut reader = PathReader::new(items(b"<a\n>b\n?"));
    assert_eq!(reader.fetch(), Ok(Some(RecordKind::SourcePath)));
    assert_eq!(reader.fetch(), Ok(Some(RecordKind::DestPath)));
    let error = reader.fetch().unwrap_err();
    assert_eq!(
        error.kind(),
        PathErrorKind::InvalidRecord(RecordError::InvalidPrefix(Prefix::Ascii(b'?')))
    );
    assert_eq!(error.line(), 3);
    assert_eq!(reader.fetch(), Ok(None));

    let mut fresh = PathReader::new(VecDeque::new());
    assert_eq!(fresh.process_line(b">b"), Err(PathErrorKind::NoSourcePath));
    assert_eq!(fresh.process_line(b"<a"), Ok(RecordKind::SourcePath));
    assert_eq!(fresh.process_line(b">c"), Ok(RecordKind::DestPath));
    assert_eq!(
        fresh.process_line(b""),
        Err(PathErrorKind::InvalidRecord(RecordError::EmptyLine))
    );
}

#[test]
fn input_prefix_from_cases() {
    assert_eq!(Prefix::from(b""), None);
    assert_eq!(Prefix::from(b"<a"), Some(Prefix::Ascii(b'<')));
    assert_eq!(Prefix::from("áb".as_bytes()), Some(Prefix::Unicode('á')));
    assert_eq!(Prefix::from(&[195]), Some(Prefix::Ascii(195)));
    assert_eq!(Prefix::decoded(b'a', Some('a')), Prefix::Ascii(b'a'));
    assert_eq!(Prefix::decoded(0xff, Some('\u{FFFD}')), Prefix::Ascii(0xff));
    assert_eq!(Prefix::decoded(0xff, None), Prefix::Ascii(0xff));
    assert_eq!(Prefix::decoded(0xc3, Some('á')), Prefix::Unicode('á'));
    assert_eq!(Prefix::Ascii(b'\t').to_text(), "\\t");
    assert_eq!(Prefix::Unicode('☃').to_text(), "☃");
}

#[test]
fn record_try_from_cases() {
    assert_eq!(
        Record::try_from(b"<a"),
        Ok(Record { kind: RecordKind::SourcePath, path: b"a".to_vec() })
    );
    assert_eq!(
        Record::try_from(b">b/c"),
        Ok(Record { kind: RecordKind::DestPath, path: b"b/c".to_vec() })
    );
    assert_eq!(Record::try_from(b""), Err(RecordError::EmptyLine));
    assert_eq!(Record::try_from(b">"), Err(RecordError::EmptyPath));
    assert_eq!(
        Record::try_from(b"a<"),
        Err(RecordError::InvalidPrefix(Prefix::Ascii(b'a')))
    );
    assert_eq!(
        Record::try_from("á".as_bytes()),
        Err(RecordError::InvalidPrefix(Prefix::Unicode('á')))
    );
    assert_eq!(
        Record::from_parts(b"<a", Some(Prefix::Ascii(b'<')), false),
        Err(RecordError::InvalidEncoding)
    );
    assert_eq!(Record::from_parts(b"<a", None, true), Err(RecordError::EmptyLine));
}

#[test]
fn input_reader_pairs_are_never_empty() {
    let mut reader = PathReader::new(items(b"<a\n>b\n<cd\n>e"));
    assert!(!reader.has_source());
    while let Some((src, dst)) = reader.read().unwrap() {
        assert!(!src.is_empty());
        assert!(!dst.is_empty());
    }
    assert!(reader.has_source());
}

#[test]
fn line_preview_cases() {
    assert_eq!(LinePreview::empty().to_text(), "''");
    let long = LinePreview::from("y".repeat(70).as_bytes());
    assert_eq!(long.value(), "y".repeat(60));
    assert!(long.shortened());
    assert_eq!(long.to_text(), format!("'{}'...", "y".repeat(60)));
    let text: Vec<char> = "ab".chars().collect();
    assert_eq!(LinePreview::of_text(&text).to_text(), "'ab'");
}
