//! Splitting a byte stream into records.

use crate::stream::{chunk_len, read_fails, ByteStream, StreamError};
use vstd::prelude::*;

verus! {

/// The line feed that ends a record under [`Separator::Newline`].
pub const LINE_FEED: u8 = 0x0a;

/// The carriage return that may stand before a line feed.
pub const CARRIAGE_RETURN: u8 = 0x0d;

/// The byte that ends a record under [`Separator::Null`].
pub const NUL: u8 = 0x00;

/// The byte that ends a record.
#[derive(Clone, Copy, Debug, PartialEq, Eq, Structural)]
pub enum Separator {
    Newline,
    Null,
}

impl Separator {
    /// The terminator byte: a line feed or a NUL.
    pub open spec fn byte(self) -> u8 {
        match self {
            Separator::Newline => LINE_FEED,
            Separator::Null => NUL,
        }
    }

    /// `s` without its terminator. Under `Newline` a carriage return that
    /// stands directly before the line feed goes too; without the line feed
    /// nothing is removed. Under `Null` only a final NUL is removed.
    pub open spec fn trimmed(self, s: Seq<u8>) -> Seq<u8> {
        match self {
            Separator::Newline => {
                if s.len() >= 2 && s[s.len() - 2] == CARRIAGE_RETURN && s[s.len() - 1] == LINE_FEED {
                    s.take(s.len() - 2)
                } else if s.len() >= 1 && s[s.len() - 1] == LINE_FEED {
                    s.take(s.len() - 1)
                } else {
                    s
                }
            },
            Separator::Null => {
                if s.len() >= 1 && s[s.len() - 1] == NUL {
                    s.take(s.len() - 1)
                } else {
                    s
                }
            },
        }
    }

    pub fn as_byte(&self) -> (byte: u8)
        ensures
            byte == self.byte(),
    {
        match self {
            Separator::Newline => LINE_FEED,
            Separator::Null => NUL,
        }
    }

    /// Removes the terminator from the end of `buffer`, if it is there.
    pub fn remove_trail(&self, buffer: &mut Vec<u8>)
        ensures
            final(buffer)@ == self.trimmed(old(buffer)@),
    {
        match self {
            Separator::Newline => {
                if ends_with(buffer, LINE_FEED) {
                    buffer.pop();
                    if ends_with(buffer, CARRIAGE_RETURN) {
                        buffer.pop();
                    }
                }
            },
            Separator::Null => {
                if ends_with(buffer, NUL) {
                    buffer.pop();
                }
            },
        }
        assert(buffer@ =~= self.trimmed(old(buffer)@));
    }
}

impl Default for Separator {
    fn default() -> (separator: Self)
        ensures
            separator == Separator::Newline,
    {
        Separator::Newline
    }
}

/// Under `Newline` a final line feed is stripped, together with a carriage
/// return that stands directly before it.
pub proof fn lemma_newline_strips_terminator(body: Seq<u8>)
    ensures
        Separator::Newline.trimmed(body + seq![CARRIAGE_RETURN, LINE_FEED]) == body,
        (body.len() == 0 || body.last() != CARRIAGE_RETURN) ==> Separator::Newline.trimmed(
            body + seq![LINE_FEED],
        ) == body,
{
    let crlf = body + seq![CARRIAGE_RETURN, LINE_FEED];
    assert(crlf.take(crlf.len() - 2) =~= body);
    let lf = body + seq![LINE_FEED];
    assert(lf.take(lf.len() - 1) =~= body);
}

/// Under `Newline` a record that does not end in a line feed is left as it
/// is.
pub proof fn lemma_newline_keeps_unterminated(record: Seq<u8>)
    requires
        record.len() == 0 || record.last() != LINE_FEED,
    ensures
        Separator::Newline.trimmed(record) == record,
{
}

/// Under `Newline` a carriage return at the end of a record, with no line
/// feed behind it, is kept.
pub proof fn lemma_newline_keeps_lone_carriage_return(body: Seq<u8>)
    ensures
        Separator::Newline.trimmed(body + seq![CARRIAGE_RETURN]) == body + seq![CARRIAGE_RETURN],
{
}

/// Under `Null` a final NUL is stripped and nothing else is: a record that
/// does not end in NUL is left as it is.
pub proof fn lemma_null_strips_only_nul(body: Seq<u8>)
    ensures
        Separator::Null.trimmed(body + seq![NUL]) == body,
        (body.len() == 0 || body.last() != NUL) ==> Separator::Null.trimmed(body) == body,
{
    let terminated = body + seq![NUL];
    assert(terminated.take(terminated.len() - 1) =~= body);
}

/// Stripping removes at most the terminator: what is left is a prefix of
/// the record, shorter by at most two bytes under `Newline` and by at most
/// one under `Null`.
pub proof fn lemma_trimmed_is_prefix(separator: Separator, record: Seq<u8>)
    ensures
        separator.trimmed(record) == record.take(separator.trimmed(record).len() as int),
        separator.trimmed(record).len() <= record.len(),
        separator == Separator::Newline ==> record.len() <= separator.trimmed(record).len() + 2,
        separator == Separator::Null ==> record.len() <= separator.trimmed(record).len() + 1,
{
    assert(record.take(record.len() as int) =~= record);
}

fn ends_with(buffer: &Vec<u8>, byte: u8) -> (yes: bool)
    ensures
        yes == (buffer@.len() > 0 && buffer@[buffer@.len() - 1] == byte),
{
    buffer.len() > 0 && buffer[buffer.len() - 1] == byte
}

/// What one read of at most `max_len` bytes yields from `rest`: a failure,
/// the end of the stream, or the next record without its terminator.
pub open spec fn next_line(rest: Seq<u8>, broken: bool, separator: Separator, max_len: nat) -> Result<
    Option<Seq<u8>>,
    StreamError,
> {
    let n = chunk_len(rest, separator.byte(), max_len);
    if read_fails(rest, broken, separator.byte(), max_len) {
        Err(StreamError)
    } else if n == 0 {
        Ok(None)
    } else {
        Ok(Some(separator.trimmed(rest.take(n as int))))
    }
}

/// A record comes out without its terminator: no byte of it is the
/// terminator byte, and it is cut from the front of the input.
pub proof fn lemma_record_holds_no_terminator(
    rest: Seq<u8>,
    broken: bool,
    separator: Separator,
    max_len: nat,
)
    ensures
        next_line(rest, broken, separator, max_len) matches Ok(Some(record)) ==> {
            &&& record == rest.take(record.len() as int)
            &&& forall|i: int| 0 <= i < record.len() ==> record[i] != separator.byte()
        },
{
    let n = chunk_len(rest, separator.byte(), max_len);
    crate::stream::lemma_chunk_len_unique(rest, separator.byte(), max_len, n);
    let chunk = rest.take(n as int);
    lemma_trimmed_is_prefix(separator, chunk);
    if next_line(rest, broken, separator, max_len) is Ok && n > 0 {
        let record = separator.trimmed(chunk);
        assert(record =~= rest.take(record.len() as int));
        assert forall|i: int| 0 <= i < record.len() implies record[i] != separator.byte() by {
            assert(record[i] == rest[i]);
            if i == n - 1 {
                assert(chunk[n - 1] == rest[i]);
            }
        }
    }
}

/// Reads records from a stream, one per call.
pub struct LineReader {
    inner: ByteStream,
    separator: Separator,
    buffer: Vec<u8>,
}

impl LineReader {
    /// The bytes that no read has consumed yet.
    pub closed spec fn remaining(self) -> Seq<u8> {
        self.inner.remaining()
    }

    /// Whether the underlying stream ends in a failure.
    pub closed spec fn broken(self) -> bool {
        self.inner.broken()
    }

    /// The terminator that this reader splits on.
    pub closed spec fn separator(self) -> Separator {
        self.separator
    }

    pub fn new(inner: ByteStream, separator: Separator) -> (reader: Self)
        ensures
            reader.remaining() == inner.remaining(),
            reader.broken() == inner.broken(),
            reader.separator() == separator,
    {
        LineReader { inner, separator, buffer: Vec::new() }
    }

    /// Reads the next record, looking at no more than `max_len` bytes. The
    /// bytes of the record, terminator included, are consumed. `None` means
    /// that no byte was read.
    pub fn read(&mut self, max_len: usize) -> (result: Result<Option<&[u8]>, StreamError>)
        ensures
            final(self).remaining() == old(self).remaining().skip(
                chunk_len(old(self).remaining(), old(self).separator().byte(), max_len as nat) as int,
            ),
            final(self).broken() == old(self).broken(),
            final(self).separator() == old(self).separator(),
            match next_line(
                old(self).remaining(),
                old(self).broken(),
                old(self).separator(),
                max_len as nat,
            ) {
                Ok(Some(line)) => result matches Ok(Some(record)) && record@ == line,
                Ok(None) => result == Ok::<Option<&[u8]>, StreamError>(None),
                Err(error) => result == Err::<Option<&[u8]>, StreamError>(error),
            },
    {
        self.buffer.clear();
        assert(self.buffer@ + old(self).remaining().take(
            chunk_len(old(self).remaining(), old(self).separator().byte(), max_len as nat) as int,
        ) =~= old(self).remaining().take(
            chunk_len(old(self).remaining(), old(self).separator().byte(), max_len as nat) as int,
        ));
        let delim = self.separator.as_byte();
        match self.inner.read_until(delim, &mut self.buffer, max_len) {
            Ok(length) => {
                if length > 0 {
                    self.separator.remove_trail(&mut self.buffer);
                    Ok(Some(self.buffer.as_slice()))
                } else {
                    Ok(None)
                }
            },
            Err(error) => Err(error),
        }
    }
}

} // verus!
