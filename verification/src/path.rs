//! The instruction parser: records in, pairs of source and destination out.
//!
//! A record that starts with `<` declares a source path and one that starts
//! with `>` declares a destination path. A destination pairs with the most
//! recent source, which stays in force for the destinations that follow
//! until another source replaces it.

use crate::grammar::{count, following, prefix_of, Payload, Prefix, DEST_MARK, SOURCE_MARK};
use crate::line::{next_line, LineReader, Separator};
use crate::stream::chunk_len;
use crate::text::{can_be_path, clip, clipped, decodable, decode, decoded_text, is_clipped};
use vstd::prelude::*;
use vstd::slice::{slice_subrange, slice_to_vec};

verus! {

/// A record of this many bytes or more is refused.
pub const MAX_LINE: usize = 1048576;

/// The number of bytes of a record that a diagnostic shows at most.
pub const MAX_PREVIEW: usize = 60;

/// What a record declares.
#[derive(Clone, Copy, Debug, PartialEq, Eq, Structural)]
pub enum PathKind {
    Source,
    Dest,
}

/// Why a record was refused.
#[derive(Clone, Copy, Debug, PartialEq, Eq, Structural)]
pub enum ErrorCause {
    /// The path cannot be represented as a path of the platform.
    InvalidEncoding,
    /// The record starts with this prefix, which is neither `<` nor `>`.
    InvalidPrefix(Prefix),
    /// The record is empty.
    EmptyLine,
    /// Nothing follows the prefix.
    EmptyPath,
    /// The record reaches the size limit.
    LineOverflow,
    /// A destination came before any source.
    NoSourcePath,
    /// The input stream failed.
    IoError,
}

/// A refused record: the cause, the number of the record counted from one,
/// and the beginning of its text.
#[derive(Debug, PartialEq, Eq)]
pub struct Error {
    cause: ErrorCause,
    line: usize,
    preview: String,
}

/// What an [`Error`] says.
pub struct ErrorView {
    pub cause: ErrorCause,
    pub line: nat,
    pub preview: Seq<char>,
}

impl View for Error {
    type V = ErrorView;

    closed spec fn view(&self) -> ErrorView {
        ErrorView { cause: self.cause, line: self.line as nat, preview: self.preview@ }
    }
}

impl Error {
    pub fn cause(&self) -> (cause: ErrorCause)
        ensures
            cause == self@.cause,
    {
        self.cause
    }

    pub fn line(&self) -> (line: usize)
        ensures
            line == self@.line,
    {
        self.line
    }

    pub fn preview(&self) -> (preview: &str)
        ensures
            preview@ == self@.preview,
    {
        self.preview.as_str()
    }
}

/// The meaning of a record, given whether the bytes after its prefix can
/// be decoded as a path: the kind and the path bytes, or the first rule
/// that the record breaks.
pub open spec fn parsed(line: Seq<u8>, decodable: bool) -> Result<(PathKind, Seq<u8>), ErrorCause> {
    if line.len() == 0 {
        Err(ErrorCause::EmptyLine)
    } else if line[0] != SOURCE_MARK && line[0] != DEST_MARK {
        Err(ErrorCause::InvalidPrefix(prefix_of(line)->0))
    } else if line.len() == 1 {
        Err(ErrorCause::EmptyPath)
    } else if !decodable {
        Err(ErrorCause::InvalidEncoding)
    } else if line[0] == SOURCE_MARK {
        Ok((PathKind::Source, line.skip(1)))
    } else {
        Ok((PathKind::Dest, line.skip(1)))
    }
}

/// The meaning of a record on this platform.
pub open spec fn parsed_line(line: Seq<u8>) -> Result<(PathKind, Seq<u8>), ErrorCause> {
    parsed(line, decodable(line.skip(1)))
}

/// Classifies a record whose path bytes are already known to be decodable
/// or not.
pub fn parse_decoded(line: &[u8], decodable: bool) -> (result: Result<
    (PathKind, Vec<u8>),
    ErrorCause,
>)
    ensures
        match parsed(line@, decodable) {
            Ok((kind, path)) => result matches Ok(found) && found.0 == kind && found.1@ == path,
            Err(cause) => result matches Err(found) && found == cause,
        },
{
    if line.len() == 0 {
        return Err(ErrorCause::EmptyLine);
    }
    let first = line[0];
    let kind = if first == SOURCE_MARK {
        PathKind::Source
    } else if first == DEST_MARK {
        PathKind::Dest
    } else {
        return match Prefix::from(line) {
            Some(prefix) => Err(ErrorCause::InvalidPrefix(prefix)),
            None => vstd::pervasive::unreached(),
        };
    };
    if line.len() == 1 {
        return Err(ErrorCause::EmptyPath);
    }
    if !decodable {
        return Err(ErrorCause::InvalidEncoding);
    }
    let path = slice_to_vec(slice_subrange(line, 1, line.len()));
    assert(path@ =~= line@.skip(1));
    Ok((kind, path))
}

/// Classifies a record and copies its path.
pub fn parse_line(line: &[u8]) -> (result: Result<(PathKind, Vec<u8>), ErrorCause>)
    ensures
        match parsed_line(line@) {
            Ok((kind, path)) => result matches Ok(found) && found.0 == kind && found.1@ == path,
            Err(cause) => result matches Err(found) && found == cause,
        },
{
    let decodable = if line.len() > 1 {
        let tail = slice_subrange(line, 1, line.len());
        assert(tail@ =~= line@.skip(1));
        can_be_path(tail)
    } else {
        false
    };
    parse_decoded(line, decodable)
}

/// The three full stops that mark a shortened preview.
pub open spec fn ellipsis() -> Seq<char> {
    seq!['.', '.', '.']
}

/// The preview of decoded text: what fits into [`MAX_PREVIEW`] bytes, and
/// an ellipsis where something was left out.
pub open spec fn preview_of(text: Seq<char>) -> Seq<char> {
    if is_clipped(text, MAX_PREVIEW as nat) {
        clipped(text, MAX_PREVIEW as nat) + ellipsis()
    } else {
        text
    }
}

/// Builds the preview of decoded text.
pub fn preview_text(text: &Vec<char>) -> (preview: String)
    ensures
        preview@ == preview_of(text@),
{
    let (mut preview, shortened) = clip(text, MAX_PREVIEW);
    if shortened {
        preview.push('.');
        preview.push('.');
        preview.push('.');
        assert(preview@ =~= clipped(text@, MAX_PREVIEW as nat) + ellipsis());
    } else {
        proof {
            crate::text::lemma_clip_is_longest_fit(text@, MAX_PREVIEW as nat);
        }
        assert(text@.take(text@.len() as int) =~= text@);
    }
    preview
}

/// Builds the preview of a record: its bytes decoded leniently, then cut.
pub fn preview_line(line: &[u8]) -> (preview: String)
    ensures
        preview@ == preview_of(decoded_text(line@)),
{
    let text = decode(line);
    preview_text(&text)
}

/// What a record asks of a reader that has a source in force or has none:
/// to take in a source, to pair the source in force with a destination, or
/// to stop with a cause and the record's preview. A record that reaches the
/// size limit is refused before anything else is looked at, and a
/// destination is refused while no source is in force.
pub open spec fn examined(record: Seq<u8>, has_source: bool) -> Result<
    (PathKind, Seq<u8>),
    (ErrorCause, Seq<char>),
> {
    let preview = preview_of(decoded_text(record));
    if record.len() >= MAX_LINE {
        Err((ErrorCause::LineOverflow, preview))
    } else {
        match parsed_line(record) {
            Ok((PathKind::Source, path)) => Ok((PathKind::Source, path)),
            Ok((PathKind::Dest, path)) => if has_source {
                Ok((PathKind::Dest, path))
            } else {
                Err((ErrorCause::NoSourcePath, preview))
            },
            Err(cause) => Err((cause, preview)),
        }
    }
}

/// Decides what a record asks of the reader.
pub fn examine(record: &[u8], has_source: bool) -> (result: Result<
    (PathKind, Vec<u8>),
    (ErrorCause, String),
>)
    ensures
        match examined(record@, has_source) {
            Ok((kind, path)) => result matches Ok(found) && found.0 == kind && found.1@ == path,
            Err((cause, preview)) => result matches Err(found) && found.0 == cause && found.1@
                == preview,
        },
{
    if record.len() >= MAX_LINE {
        return Err((ErrorCause::LineOverflow, preview_line(record)));
    }
    match parse_line(record) {
        Ok((PathKind::Source, path)) => Ok((PathKind::Source, path)),
        Ok((PathKind::Dest, path)) => {
            if has_source {
                Ok((PathKind::Dest, path))
            } else {
                Err((ErrorCause::NoSourcePath, preview_line(record)))
            }
        },
        Err(cause) => Err((cause, preview_line(record))),
    }
}

/// The state of a [`PathReader`].
pub struct ReaderView {
    /// The input that has not been consumed.
    pub rest: Seq<u8>,
    /// Whether the input ends in a failure.
    pub broken: bool,
    /// The record terminator.
    pub separator: Separator,
    /// The source path in force, if any was declared.
    pub source: Option<Seq<u8>>,
    /// The number of records read so far.
    pub line: nat,
}

/// What one call of [`PathReader::read`] returns.
pub type Outcome = Result<Option<(Seq<u8>, Seq<u8>)>, ErrorView>;

/// What one record does to the reader.
pub enum Step {
    /// A source was declared; the reader goes on to the next record.
    Continue,
    /// The call ends with this result.
    Return(Outcome),
}

impl ReaderView {
    /// The source in force, if there is one, is not empty.
    pub open spec fn valid(self) -> bool {
        self.source matches Some(source) ==> source.len() > 0
    }

    /// The bytes that the next record takes from the input.
    pub open spec fn chunk(self) -> Seq<u8> {
        self.rest.take(chunk_len(self.rest, self.separator.byte(), MAX_LINE as nat) as int)
    }

    /// The state after the next record has been taken, with `source` in
    /// force.
    pub open spec fn advanced(self, source: Option<Seq<u8>>) -> ReaderView {
        ReaderView {
            rest: self.rest.skip(self.chunk().len() as int),
            broken: self.broken,
            separator: self.separator,
            source,
            line: following(self.line),
        }
    }

    /// Reads and handles one record.
    pub open spec fn step(self) -> (ReaderView, Step) {
        let line = following(self.line);
        match next_line(self.rest, self.broken, self.separator, MAX_LINE as nat) {
            Err(_) => (
                self.advanced(self.source),
                Step::Return(
                    Err(ErrorView { cause: ErrorCause::IoError, line, preview: Seq::empty() }),
                ),
            ),
            Ok(None) => (self.advanced(self.source), Step::Return(Ok(None))),
            Ok(Some(record)) => match examined(record, self.source is Some) {
                Ok((PathKind::Source, path)) => (self.advanced(Some(path)), Step::Continue),
                Ok((PathKind::Dest, path)) => (
                    self.advanced(self.source),
                    Step::Return(Ok(Some((self.source->0, path)))),
                ),
                Err((cause, preview)) => (
                    self.advanced(self.source),
                    Step::Return(Err(ErrorView { cause, line, preview })),
                ),
            },
        }
    }

    /// Handles records until one ends the call: sources are taken in, and
    /// the first record that is not a source declaration decides the
    /// result.
    pub open spec fn run(self) -> (ReaderView, Outcome)
        decreases self.rest.len(),
    {
        let (next, step) = self.step();
        match step {
            Step::Return(outcome) => (next, outcome),
            Step::Continue => {
                proof {
                    lemma_continue_consumes(self);
                }
                next.run()
            },
        }
    }
}

/// Unfolds `run` once.
proof fn lemma_run_unfolds(state: ReaderView)
    ensures
        state.step().1 is Continue ==> state.run() == state.step().0.run()
            && state.step().0.rest.len() < state.rest.len(),
        state.step().1 matches Step::Return(outcome) ==> state.run() == (state.step().0, outcome),
{
    if state.step().1 is Continue {
        lemma_continue_consumes(state);
    }
}

/// A record that lets the reader go on has used up input.
pub proof fn lemma_continue_consumes(state: ReaderView)
    requires
        state.step().1 is Continue,
    ensures
        state.step().0.rest.len() < state.rest.len(),
{
    crate::stream::lemma_chunk_len_bounds(state.rest, state.separator.byte(), MAX_LINE as nat);
}

/// A destination that arrives while no source is in force is refused with
/// `NoSourcePath`, and the error carries the number of that record.
pub proof fn lemma_dest_without_source(state: ReaderView, record: Seq<u8>)
    requires
        state.source is None,
        next_line(state.rest, state.broken, state.separator, MAX_LINE as nat) == Ok::<
            Option<Seq<u8>>,
            crate::stream::StreamError,
        >(Some(record)),
        record.len() < MAX_LINE,
        parsed_line(record) matches Ok(found) && found.0 == PathKind::Dest,
    ensures
        state.run().1 == Err::<Option<(Seq<u8>, Seq<u8>)>, ErrorView>(
            ErrorView {
                cause: ErrorCause::NoSourcePath,
                line: following(state.line),
                preview: preview_of(decoded_text(record)),
            },
        ),
        state.run().0.source is None,
{
    lemma_run_unfolds(state);
}

/// A destination that arrives while a source is in force makes a pair with
/// it.
pub proof fn lemma_dest_pairs_with_source(state: ReaderView, record: Seq<u8>)
    requires
        state.source is Some,
        next_line(state.rest, state.broken, state.separator, MAX_LINE as nat) == Ok::<
            Option<Seq<u8>>,
            crate::stream::StreamError,
        >(Some(record)),
        record.len() < MAX_LINE,
        parsed_line(record) matches Ok(found) && found.0 == PathKind::Dest,
    ensures
        state.run().1 == Ok::<Option<(Seq<u8>, Seq<u8>)>, ErrorView>(
            Some((state.source->0, record.skip(1))),
        ),
        state.run().0 == state.advanced(state.source),
{
    lemma_run_unfolds(state);
}

/// Where the source in force is not empty, a call leaves a source in force
/// that is not empty, and both paths of a pair are non-empty.
pub proof fn lemma_pairs_are_whole(state: ReaderView)
    requires
        state.valid(),
    ensures
        state.run().0.valid(),
        state.run().1 matches Ok(Some(pair)) ==> pair.0.len() > 0 && pair.1.len() > 0,
    decreases state.rest.len(),
{
    lemma_run_unfolds(state);
    if state.step().1 is Continue {
        lemma_pairs_are_whole(state.step().0);
    }
}

/// A source declaration replaces the source in force: whatever source was
/// in force before it has no part in what follows.
pub proof fn lemma_last_source_wins(state: ReaderView, other: Option<Seq<u8>>, record: Seq<u8>)
    requires
        next_line(state.rest, state.broken, state.separator, MAX_LINE as nat) == Ok::<
            Option<Seq<u8>>,
            crate::stream::StreamError,
        >(Some(record)),
        record.len() < MAX_LINE,
        parsed_line(record) matches Ok(found) && found.0 == PathKind::Source,
    ensures
        state.run() == state.advanced(Some(parsed_line(record)->Ok_0.1)).run(),
        state.run() == (ReaderView { source: other, ..state }).run(),
{
    lemma_run_unfolds(state);
    lemma_run_unfolds(ReaderView { source: other, ..state });
}

/// A pair is made of the source in force and the destination just read,
/// and that source stays in force for the destinations that follow.
pub proof fn lemma_source_stays_in_force(state: ReaderView)
    ensures
        state.run().1 matches Ok(Some(pair)) ==> state.run().0.source == Some(pair.0),
    decreases state.rest.len(),
{
    lemma_run_unfolds(state);
    if state.step().1 is Continue {
        lemma_source_stays_in_force(state.step().0);
    }
}

/// A call never gives input back, never lowers the record count, and an
/// error carries the number of the last record that the call read.
pub proof fn lemma_run_advances(state: ReaderView)
    ensures
        state.run().0.rest.len() <= state.rest.len(),
        state.run().0.line >= state.line,
        state.run().0.broken == state.broken,
        state.run().0.separator == state.separator,
        state.run().1 matches Err(error) ==> error.line == state.run().0.line,
    decreases state.rest.len(),
{
    lemma_run_unfolds(state);
    crate::stream::lemma_chunk_len_bounds(state.rest, state.separator.byte(), MAX_LINE as nat);
    if state.step().1 is Continue {
        lemma_run_advances(state.step().0);
    }
}

/// Reads pairs of paths from a stream of instructions.
pub struct PathReader {
    inner: LineReader,
    src: Option<Payload>,
    dst: Option<Payload>,
    line: usize,
}

impl View for PathReader {
    type V = ReaderView;

    closed spec fn view(&self) -> ReaderView {
        ReaderView {
            rest: self.inner.remaining(),
            broken: self.inner.broken(),
            separator: self.inner.separator(),
            source: match self.src {
                Some(path) => Some(path@),
                None => None,
            },
            line: self.line as nat,
        }
    }
}

impl PathReader {
    /// The number of the record that was read last, counted from one.
    pub fn line(&self) -> (line: usize)
        ensures
            line == self@.line,
    {
        self.line
    }

    /// A reader at the start of `inner`, with no source in force.
    pub fn new(inner: LineReader) -> (reader: Self)
        ensures
            reader@ == (ReaderView {
                rest: inner.remaining(),
                broken: inner.broken(),
                separator: inner.separator(),
                source: None,
                line: 0,
            }),
    {
        PathReader { inner, src: None, dst: None, line: 0 }
    }

    /// Whether a source is in force. The source in force is never empty.
    pub fn has_source(&self) -> (yes: bool)
        ensures
            yes == self@.source is Some,
            self@.valid(),
    {
        match &self.src {
            Some(source) => source.as_slice().len() > 0,
            None => false,
        }
    }

    /// Reads records up to the next destination declaration and returns
    /// the source in force together with that destination. Returns `None`
    /// when the input has ended, and an error for the first record that
    /// breaks a rule.
    pub fn read(&mut self) -> (result: Result<Option<(&[u8], &[u8])>, Error>)
        ensures
            final(self)@.valid(),
            final(self)@ == old(self)@.run().0,
            result matches Ok(Some(pair)) ==> pair.0@.len() > 0 && pair.1@.len() > 0,
            match old(self)@.run().1 {
                Ok(Some((source, dest))) => result matches Ok(Some(pair)) && pair.0@ == source
                    && pair.1@ == dest,
                Ok(None) => result matches Ok(None),
                Err(error) => result matches Err(found) && found@ == error,
            },
    {
        loop
            invariant
                self@.run() == old(self)@.run(),
            decreases self@.rest.len(),
        {
            let ghost before = self@;
            proof {
                lemma_run_unfolds(before);
                crate::stream::lemma_chunk_len_bounds(
                    before.rest,
                    before.separator.byte(),
                    MAX_LINE as nat,
                );
            }
            self.line = count(self.line);
            let has_source = self.has_source();
            let request = match self.inner.read(MAX_LINE) {
                Ok(Some(record)) => examine(record, has_source),
                Ok(None) => return Ok(None),
                Err(_) => return Err(
                    Error { cause: ErrorCause::IoError, line: self.line, preview: String::new() },
                ),
            };
            match request {
                Ok((PathKind::Source, path)) => {
                    self.src = Payload::new(path);
                },
                Ok((PathKind::Dest, path)) => {
                    self.dst = Payload::new(path);
                    return match (&self.src, &self.dst) {
                        (Some(src), Some(dst)) => Ok(Some((src.as_slice(), dst.as_slice()))),
                        _ => vstd::pervasive::unreached(),
                    };
                },
                Err((cause, preview)) => {
                    return Err(Error { cause, line: self.line, preview });
                },
            }
        }
    }
}

} // verus!
