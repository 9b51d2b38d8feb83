use batchmv::io::Reader;
use batchmv::line::Separator;
use batchmv::stream::ByteStream;
use batchmv::stream::StreamError;

fn reader_over(input: &str, separator: Separator) -> Reader {
    Reader::new(ByteStream::new(input.as_bytes().to_vec()), separator)
}

fn records(separator: Separator, input: &str) -> Vec<String> {
    let mut reader = reader_over(input, separator);
    let mut buffer = Vec::new();
    let mut result = Vec::new();
    while reader.read(&mut buffer, 1024).unwrap() > 0 {
        result.push(String::from_utf8_lossy(&buffer).to_string());
        buffer.clear();
    }
    result
}

#[test]
fn separator_default() {
    assert_eq!(Separator::default(), Separator::Newline);
}

#[test]
fn reader_limit() {
    let mut reader = reader_over("0123456\n0123456", Separator::Newline);
    let mut buffer = Vec::new();

    assert_eq!(reader.read(&mut buffer, 4), Ok(4));
    assert_eq!(buffer, b"0123");

    buffer.clear();
    assert_eq!(reader.read(&mut buffer, 4), Ok(4));
    assert_eq!(buffer, b"456");

    buffer.clear();
    assert_eq!(reader.read(&mut buffer, 4), Ok(4));
    assert_eq!(buffer, b"0123");

    buffer.clear();
    assert_eq!(reader.read(&mut buffer, 4), Ok(3));
    assert_eq!(buffer, b"456");
}

#[test]
fn reader_newline_records() {
    let none: Vec<String> = Vec::new();
    assert_eq!(records(Separator::Newline, ""), none);
    assert_eq!(records(Separator::Newline, "\n"), vec![""]);
    assert_eq!(records(Separator::Newline, "\r\n"), vec![""]);
    assert_eq!(records(Separator::Newline, "a\nbc"), vec!["a", "bc"]);
    assert_eq!(records(Separator::Newline, "a\nbc\n"), vec!["a", "bc"]);
    assert_eq!(records(Separator::Newline, "a\nbc\r\n"), vec!["a", "bc"]);
    assert_eq!(records(Separator::Newline, "a\r\nbc"), vec!["a", "bc"]);
    assert_eq!(records(Separator::Newline, "a\r\nbc\n"), vec!["a", "bc"]);
    assert_eq!(records(Separator::Newline, "a\r\nbc\r\n"), vec!["a", "bc"]);
}

#[test]
fn reader_null_records() {
    let none: Vec<String> = Vec::new();
    assert_eq!(records(Separator::Null, ""), none);
    assert_eq!(records(Separator::Null, "\0"), vec![""]);
    assert_eq!(records(Separator::Null, "a\0bc"), vec!["a", "bc"]);
    assert_eq!(records(Separator::Null, "a\0bc\0"), vec!["a", "bc"]);
}

#[test]
fn reader_keeps_lone_carriage_return() {
    assert_eq!(records(Separator::Newline, "a\r"), vec!["a\r"]);
    assert_eq!(records(Separator::Newline, "a\rb\n"), vec!["a\rb"]);
    assert_eq!(records(Separator::Null, "a\r\n\0"), vec!["a\r\n"]);
}

#[test]
fn reader_trims_the_whole_buffer() {
    let mut reader = reader_over("", Separator::Newline);
    let mut buffer = b"kept\n".to_vec();
    assert_eq!(reader.read(&mut buffer, 8), Ok(0));
    assert_eq!(buffer, b"kept");
}

#[test]
fn reader_zero_limit_reads_nothing() {
    let mut reader = reader_over("abc\n", Separator::Newline);
    let mut buffer = Vec::new();
    assert_eq!(reader.read(&mut buffer, 0), Ok(0));
    assert_eq!(buffer, b"");
    assert_eq!(reader.read(&mut buffer, 10), Ok(4));
    assert_eq!(buffer, b"abc");
}

#[test]
fn reader_fails_where_the_stream_breaks() {
    let stream = ByteStream::failing(b"a\nbc".to_vec());
    let mut reader = Reader::new(stream, Separator::Newline);
    let mut buffer = Vec::new();

    assert_eq!(reader.read(&mut buffer, 16), Ok(2));
    assert_eq!(buffer, b"a");

    buffer.clear();
    assert_eq!(reader.read(&mut buffer, 16), Err(StreamError));
    assert_eq!(buffer, b"bc");

    buffer.clear();
    assert_eq!(reader.read(&mut buffer, 16), Err(StreamError));
    assert_eq!(buffer, b"");
}

#[test]
fn reader_stops_at_limit_before_the_break() {
    let stream = ByteStream::failing(b"abcd".to_vec());
    let mut reader = Reader::new(stream, Separator::Newline);
    let mut buffer = Vec::new();
    assert_eq!(reader.read(&mut buffer, 4), Ok(4));
    assert_eq!(buffer, b"abcd");
    buffer.clear();
    assert_eq!(reader.read(&mut buffer, 0), Ok(0));
    assert_eq!(reader.read(&mut buffer, 1), Err(StreamError));
}

#[test]
fn stream_read_until_keeps_the_delimiter() {
    let mut stream = ByteStream::new(b"ab;cd".to_vec());
    let mut buffer = b"x".to_vec();
    assert_eq!(stream.read_until(b';', &mut buffer, 10), Ok(3));
    assert_eq!(buffer, b"xab;");
    assert_eq!(stream.read_until(b';', &mut buffer, 10), Ok(2));
    assert_eq!(buffer, b"xab;cd");
    assert_eq!(stream.read_until(b';', &mut buffer, 10), Ok(0));
}
