//! The instruction parser over records that were split beforehand.
//!
//! The reader takes its records one by one from a list; a record that
//! could not be read stands in the list as a failure. Every record is
//! checked in full as soon as it is read.

use crate::grammar::{count, following, Payload, DEST_MARK, SOURCE_MARK};
use crate::stream::StreamError;
use crate::text::{
    can_be_path, clip, clipped, decodable, decode, decoded_text, escape_byte, escaped, first_of,
    is_clipped, REPLACEMENT,
};
use vstd::string::StringExecFns;
use vstd::prelude::*;
use std::collections::VecDeque;
use vstd::slice::{slice_subrange, slice_to_vec};

verus! {

/// The number of bytes of a record that a diagnostic shows at most.
pub const PREVIEW_WIDTH: usize = 60;

/// What a record starts with: an ASCII character or an undecodable byte,
/// or a character beyond ASCII.
#[derive(Clone, Copy, Debug, PartialEq, Eq, Structural)]
pub enum Prefix {
    Ascii(u8),
    Unicode(char),
}

/// What a record declares.
#[derive(Clone, Copy, Debug, PartialEq, Eq, Structural)]
pub enum RecordKind {
    SourcePath,
    DestPath,
}

/// A record that was accepted: what it declares, and the path.
#[derive(Debug, PartialEq, Eq)]
pub struct Record {
    pub kind: RecordKind,
    pub path: Vec<u8>,
}

/// Why a record is refused by itself.
#[derive(Clone, Copy, Debug, PartialEq, Eq, Structural)]
pub enum RecordError {
    /// The path cannot be represented as a path of the platform.
    InvalidEncoding,
    /// The record starts with this prefix, which is neither `<` nor `>`.
    InvalidPrefix(Prefix),
    /// The record is empty.
    EmptyLine,
    /// Nothing follows the prefix.
    EmptyPath,
}

/// Why the reader stops.
#[derive(Clone, Copy, Debug, PartialEq, Eq, Structural)]
pub enum PathErrorKind {
    /// The record is refused by itself.
    InvalidRecord(RecordError),
    /// A destination came before any source.
    NoSourcePath,
    /// The record could not be read.
    IoError(StreamError),
}

/// The beginning of a record as text, and whether the record goes on.
#[derive(Debug, PartialEq, Eq)]
pub struct LinePreview {
    value: String,
    shortened: bool,
}

/// What a [`LinePreview`] shows.
pub struct LinePreviewView {
    pub value: Seq<char>,
    pub shortened: bool,
}

/// A record at which the reader stopped: the cause, the number of the
/// record counted from one, and its preview.
#[derive(Debug, PartialEq, Eq)]
pub struct PathError {
    kind: PathErrorKind,
    line: usize,
    value: LinePreview,
}

/// What a [`PathError`] says.
pub struct PathErrorView {
    pub kind: PathErrorKind,
    pub line: nat,
    pub value: LinePreviewView,
}

/// The prefix of a record that starts with `byte` and whose lenient
/// decoding starts with `first`: the byte where the record does not start
/// with a whole character, else the character, as a byte if it is ASCII.
pub open spec fn prefix_from(byte: u8, first: Option<char>) -> Prefix {
    match first {
        Some(c) => if c == REPLACEMENT {
            Prefix::Ascii(byte)
        } else if (c as u32) < 0x80 {
            Prefix::Ascii((c as u32) as u8)
        } else {
            Prefix::Unicode(c)
        },
        None => Prefix::Ascii(byte),
    }
}

/// The prefix of a record; an empty record has none.
pub open spec fn prefix_of(line: Seq<u8>) -> Option<Prefix> {
    if line.len() == 0 {
        None
    } else if line[0] < 0x80 {
        Some(Prefix::Ascii(line[0]))
    } else {
        Some(prefix_from(line[0], first_of(decoded_text(line))))
    }
}

/// The meaning of a record with the prefix `prefix`, given whether the
/// bytes after its first byte can be decoded as a path.
pub open spec fn record_from(line: Seq<u8>, prefix: Option<Prefix>, decodable: bool) -> Result<
    (RecordKind, Seq<u8>),
    RecordError,
> {
    match prefix {
        None => Err(RecordError::EmptyLine),
        Some(prefix) => if prefix != Prefix::Ascii(SOURCE_MARK) && prefix != Prefix::Ascii(
            DEST_MARK,
        ) {
            Err(RecordError::InvalidPrefix(prefix))
        } else if line.len() <= 1 {
            Err(RecordError::EmptyPath)
        } else if !decodable {
            Err(RecordError::InvalidEncoding)
        } else if prefix == Prefix::Ascii(SOURCE_MARK) {
            Ok((RecordKind::SourcePath, line.skip(1)))
        } else {
            Ok((RecordKind::DestPath, line.skip(1)))
        },
    }
}

/// The meaning of a record on this platform.
pub open spec fn record_of(line: Seq<u8>) -> Result<(RecordKind, Seq<u8>), RecordError> {
    record_from(line, prefix_of(line), decodable(line.skip(1)))
}

/// The preview of decoded text: what fits into [`PREVIEW_WIDTH`] bytes.
pub open spec fn preview_of_text(text: Seq<char>) -> LinePreviewView {
    LinePreviewView {
        value: clipped(text, PREVIEW_WIDTH as nat),
        shortened: is_clipped(text, PREVIEW_WIDTH as nat),
    }
}

/// The preview of a record.
pub open spec fn preview_of(line: Seq<u8>) -> LinePreviewView {
    preview_of_text(decoded_text(line))
}

/// The preview of no record at all.
pub open spec fn empty_preview() -> LinePreviewView {
    LinePreviewView { value: Seq::empty(), shortened: false }
}

impl Prefix {
    /// The prefix of a record that starts with `byte` and decodes to text
    /// that starts with `first`.
    pub fn decoded(byte: u8, first: Option<char>) -> (prefix: Prefix)
        ensures
            prefix == prefix_from(byte, first),
    {
        match first {
            Some(c) => {
                if c == REPLACEMENT {
                    Prefix::Ascii(byte)
                } else if (c as u32) < 0x80 {
                    Prefix::Ascii((c as u32) as u8)
                } else {
                    Prefix::Unicode(c)
                }
            },
            None => Prefix::Ascii(byte),
        }
    }

    /// The prefix of `slice`, or `None` where `slice` is empty.
    pub fn from(slice: &[u8]) -> (prefix: Option<Prefix>)
        ensures
            prefix == prefix_of(slice@),
    {
        if slice.len() == 0 {
            None
        } else {
            let text = decode(slice);
            let first = if text.len() > 0 {
                Some(text[0])
            } else {
                None
            };
            proof {
                if slice@[0] < 0x80 {
                    let c = text@[0];
                    assert(c as u32 == slice@[0] as u32);
                    assert(REPLACEMENT as u32 == 0xFFFD);
                    assert(c != REPLACEMENT);
                    assert((c as u32) as u8 == slice@[0]);
                }
            }
            Some(Prefix::decoded(slice[0], first))
        }
    }
}

impl Prefix {
    /// The prefix as it is shown: a byte in its printable form, a
    /// character as it is.
    pub open spec fn text(self) -> Seq<char> {
        match self {
            Prefix::Ascii(byte) => escaped(byte),
            Prefix::Unicode(c) => seq![c],
        }
    }

    /// Writes the prefix as it is shown.
    pub fn to_text(&self) -> (text: String)
        ensures
            text@ == self.text(),
    {
        match self {
            Prefix::Ascii(byte) => escape_byte(*byte),
            Prefix::Unicode(c) => {
                let mut text = String::new();
                text.push(*c);
                assert(text@ =~= seq![*c]);
                text
            },
        }
    }
}

impl LinePreviewView {
    /// The preview as it is shown: the text in single quotes, and three
    /// full stops behind them where the record goes on.
    pub open spec fn text(self) -> Seq<char> {
        if self.shortened {
            seq!['\''] + self.value + seq!['\'', '.', '.', '.']
        } else {
            seq!['\''] + self.value + seq!['\'']
        }
    }
}

impl View for LinePreview {
    type V = LinePreviewView;

    closed spec fn view(&self) -> LinePreviewView {
        LinePreviewView { value: self.value@, shortened: self.shortened }
    }
}

impl LinePreview {
    /// The preview of no record at all.
    pub fn empty() -> (preview: LinePreview)
        ensures
            preview@ == empty_preview(),
    {
        LinePreview { value: String::new(), shortened: false }
    }

    /// The preview of text that has been decoded already.
    pub fn of_text(text: &Vec<char>) -> (preview: LinePreview)
        ensures
            preview@ == preview_of_text(text@),
    {
        let (value, shortened) = clip(text, PREVIEW_WIDTH);
        LinePreview { value, shortened }
    }

    /// The preview of a record: its bytes decoded leniently, then cut.
    pub fn from(slice: &[u8]) -> (preview: LinePreview)
        ensures
            preview@ == preview_of(slice@),
    {
        let text = decode(slice);
        LinePreview::of_text(&text)
    }

    /// Writes the preview as it is shown.
    pub fn to_text(&self) -> (text: String)
        ensures
            text@ == self@.text(),
    {
        let mut text = String::new();
        text.push('\'');
        text.append(self.value.as_str());
        text.push('\'');
        if self.shortened {
            text.push('.');
            text.push('.');
            text.push('.');
        }
        assert(text@ =~= self@.text());
        text
    }

    /// The text that fits.
    pub fn value(&self) -> (value: &str)
        ensures
            value@ == self@.value,
    {
        self.value.as_str()
    }

    /// Whether the record goes on after the text shown.
    pub fn shortened(&self) -> (shortened: bool)
        ensures
            shortened == self@.shortened,
    {
        self.shortened
    }
}

impl View for PathError {
    type V = PathErrorView;

    closed spec fn view(&self) -> PathErrorView {
        PathErrorView { kind: self.kind, line: self.line as nat, value: self.value@ }
    }
}

impl PathError {
    pub fn kind(&self) -> (kind: PathErrorKind)
        ensures
            kind == self@.kind,
    {
        self.kind
    }

    pub fn line(&self) -> (line: usize)
        ensures
            line == self@.line,
    {
        self.line
    }

    pub fn value(&self) -> (value: &LinePreview)
        ensures
            value@ == self@.value,
    {
        &self.value
    }
}

impl Record {
    /// Makes a record of a line whose prefix is known, and of which it is
    /// known whether the bytes after the first can be decoded as a path.
    pub fn from_parts(line: &[u8], prefix: Option<Prefix>, decodable: bool) -> (result: Result<
        Record,
        RecordError,
    >)
        ensures
            match record_from(line@, prefix, decodable) {
                Ok((kind, path)) => result matches Ok(record) && record.kind == kind
                    && record.path@ == path,
                Err(error) => result == Err::<Record, RecordError>(error),
            },
    {
        let kind = match prefix {
            Some(Prefix::Ascii(byte)) => {
                if byte == SOURCE_MARK {
                    RecordKind::SourcePath
                } else if byte == DEST_MARK {
                    RecordKind::DestPath
                } else {
                    return Err(RecordError::InvalidPrefix(Prefix::Ascii(byte)));
                }
            },
            Some(other) => {
                return Err(RecordError::InvalidPrefix(other));
            },
            None => {
                return Err(RecordError::EmptyLine);
            },
        };
        if line.len() <= 1 {
            return Err(RecordError::EmptyPath);
        }
        if !decodable {
            return Err(RecordError::InvalidEncoding);
        }
        let path = slice_to_vec(slice_subrange(line, 1, line.len()));
        assert(path@ =~= line@.skip(1));
        Ok(Record { kind, path })
    }

    /// Makes a record of a line.
    pub fn try_from(line: &[u8]) -> (result: Result<Record, RecordError>)
        ensures
            match record_of(line@) {
                Ok((kind, path)) => result matches Ok(record) && record.kind == kind
                    && record.path@ == path,
                Err(error) => result == Err::<Record, RecordError>(error),
            },
    {
        let prefix = Prefix::from(line);
        let decodable = if line.len() > 1 {
            let tail = slice_subrange(line, 1, line.len());
            assert(tail@ =~= line@.skip(1));
            can_be_path(tail)
        } else {
            false
        };
        Record::from_parts(line, prefix, decodable)
    }
}

/// What an item of the input stands for: the bytes of a record, or the
/// failure to read one.
pub open spec fn item_view(item: Result<Vec<u8>, StreamError>) -> Result<Seq<u8>, StreamError> {
    match item {
        Ok(line) => Ok(line@),
        Err(error) => Err(error),
    }
}

/// What a record asks of a reader that has a source in force or has none.
/// A record that is refused by itself is refused for that; a destination
/// is refused while no source is in force.
pub open spec fn processed(line: Seq<u8>, has_source: bool) -> Result<
    (RecordKind, Seq<u8>),
    PathErrorKind,
> {
    match record_of(line) {
        Ok((RecordKind::SourcePath, path)) => Ok((RecordKind::SourcePath, path)),
        Ok((RecordKind::DestPath, path)) => if has_source {
            Ok((RecordKind::DestPath, path))
        } else {
            Err(PathErrorKind::NoSourcePath)
        },
        Err(error) => Err(PathErrorKind::InvalidRecord(error)),
    }
}

/// The state of a [`PathReader`].
pub struct ReaderView {
    /// The records that have not been read.
    pub pending: Seq<Result<Seq<u8>, StreamError>>,
    /// The source path in force, if any was declared.
    pub source: Option<Seq<u8>>,
    /// The destination path that was declared last, if any was.
    pub dest: Option<Seq<u8>>,
    /// The number of records asked for so far.
    pub line: nat,
}

impl ReaderView {
    /// The source in force, if there is one, is not empty.
    pub open spec fn valid(self) -> bool {
        self.source matches Some(source) ==> source.len() > 0
    }

    /// The state after `line` has been looked at, apart from the record
    /// count and the records still to come: a source declaration sets the
    /// source, a destination declaration sets the destination even where
    /// it is refused for want of a source, and a record that is refused by
    /// itself changes nothing.
    pub open spec fn noted(self, line: Seq<u8>) -> ReaderView {
        match record_of(line) {
            Ok((RecordKind::SourcePath, path)) => ReaderView { source: Some(path), ..self },
            Ok((RecordKind::DestPath, path)) => ReaderView { dest: Some(path), ..self },
            Err(_) => self,
        }
    }

    /// Asks for one record and handles it.
    pub open spec fn fetched(self) -> (ReaderView, Result<Option<RecordKind>, PathErrorView>) {
        let line = following(self.line);
        if self.pending.len() == 0 {
            (ReaderView { line, ..self }, Ok(None))
        } else {
            let rest = self.pending.drop_first();
            match self.pending[0] {
                Ok(record) => (
                    ReaderView { pending: rest, line, ..self.noted(record) },
                    match processed(record, self.source is Some) {
                        Ok((kind, _)) => Ok(Some(kind)),
                        Err(kind) => Err(PathErrorView { kind, line, value: preview_of(record) }),
                    },
                ),
                Err(error) => (
                    ReaderView { pending: rest, line, ..self },
                    Err(
                        PathErrorView {
                            kind: PathErrorKind::IoError(error),
                            line,
                            value: empty_preview(),
                        },
                    ),
                ),
            }
        }
    }

    /// Handles records until one ends the call: sources are taken in, a
    /// destination is paired with the source in force, and the end of the
    /// input or the first refused record stops the reader.
    pub open spec fn run(self) -> (ReaderView, Result<Option<(Seq<u8>, Seq<u8>)>, PathErrorView>)
        decreases self.pending.len(),
    {
        let (next, fetched) = self.fetched();
        match fetched {
            Ok(Some(RecordKind::SourcePath)) => {
                proof {
                    lemma_source_consumes(self);
                }
                next.run()
            },
            Ok(Some(RecordKind::DestPath)) => (next, Ok(Some((next.source->0, next.dest->0)))),
            Ok(None) => (next, Ok(None)),
            Err(error) => (next, Err(error)),
        }
    }
}

/// A source declaration that was taken in has used up a record.
pub proof fn lemma_source_consumes(state: ReaderView)
    requires
        state.fetched().1 == Ok::<Option<RecordKind>, PathErrorView>(
            Some(RecordKind::SourcePath),
        ),
    ensures
        state.fetched().0.pending.len() < state.pending.len(),
{
}

/// A destination that arrives while no source is in force is refused with
/// `NoSourcePath`, and the error carries the number of that record.
pub proof fn lemma_dest_without_source(state: ReaderView, record: Seq<u8>)
    requires
        state.source is None,
        state.pending.len() > 0,
        state.pending[0] == Ok::<Seq<u8>, StreamError>(record),
        record_of(record) matches Ok(found) && found.0 == RecordKind::DestPath,
    ensures
        state.run().1 == Err::<Option<(Seq<u8>, Seq<u8>)>, PathErrorView>(
            PathErrorView {
                kind: PathErrorKind::NoSourcePath,
                line: following(state.line),
                value: preview_of(record),
            },
        ),
        state.run().0.source is None,
{
}

/// A destination that arrives while a source is in force makes a pair with
/// it.
pub proof fn lemma_dest_pairs_with_source(state: ReaderView, record: Seq<u8>)
    requires
        state.source is Some,
        state.pending.len() > 0,
        state.pending[0] == Ok::<Seq<u8>, StreamError>(record),
        record_of(record) matches Ok(found) && found.0 == RecordKind::DestPath,
    ensures
        state.run().1 == Ok::<Option<(Seq<u8>, Seq<u8>)>, PathErrorView>(
            Some((state.source->0, record.skip(1))),
        ),
        state.run().0.source == state.source,
        state.run().0.pending == state.pending.drop_first(),
{
}

/// Where the source in force is not empty, a call leaves a source in force
/// that is not empty, and both paths of a pair are non-empty.
pub proof fn lemma_pairs_are_whole(state: ReaderView)
    requires
        state.valid(),
    ensures
        state.run().0.valid(),
        state.run().1 matches Ok(Some(pair)) ==> pair.0.len() > 0 && pair.1.len() > 0,
    decreases state.pending.len(),
{
    if state.fetched().1 == Ok::<Option<RecordKind>, PathErrorView>(Some(RecordKind::SourcePath)) {
        lemma_source_consumes(state);
        lemma_pairs_are_whole(state.fetched().0);
    }
}

/// A source declaration replaces the source in force: whatever source was
/// in force before it has no part in what follows.
pub proof fn lemma_last_source_wins(state: ReaderView, other: Option<Seq<u8>>, record: Seq<u8>)
    requires
        state.pending.len() > 0,
        state.pending[0] == Ok::<Seq<u8>, StreamError>(record),
        record_of(record) matches Ok(found) && found.0 == RecordKind::SourcePath,
    ensures
        state.run() == (ReaderView { source: other, ..state }).run(),
        state.run() == (ReaderView {
            pending: state.pending.drop_first(),
            source: Some(record_of(record)->Ok_0.1),
            line: following(state.line),
            ..state
        }).run(),
{
    lemma_source_consumes(state);
    lemma_source_consumes(ReaderView { source: other, ..state });
}

/// A pair is made of the source in force and the destination just read,
/// and that source stays in force for the destinations that follow.
pub proof fn lemma_source_stays_in_force(state: ReaderView)
    ensures
        state.run().1 matches Ok(Some(pair)) ==> state.run().0.source == Some(pair.0)
            && state.run().0.dest == Some(pair.1),
    decreases state.pending.len(),
{
    if state.fetched().1 == Ok::<Option<RecordKind>, PathErrorView>(Some(RecordKind::SourcePath)) {
        lemma_source_consumes(state);
        lemma_source_stays_in_force(state.fetched().0);
    }
}

/// A call never gives records back, never lowers the record count, and an
/// error carries the number of the last record that the call asked for.
pub proof fn lemma_run_advances(state: ReaderView)
    ensures
        state.run().0.pending.len() <= state.pending.len(),
        state.run().0.line >= state.line,
        state.run().1 matches Err(error) ==> error.line == state.run().0.line,
    decreases state.pending.len(),
{
    if state.fetched().1 == Ok::<Option<RecordKind>, PathErrorView>(Some(RecordKind::SourcePath)) {
        lemma_source_consumes(state);
        lemma_run_advances(state.fetched().0);
    }
}

/// Reads pairs of paths from a list of records.
pub struct PathReader {
    src_path: Option<Payload>,
    dst_path: Option<Payload>,
    iterator: VecDeque<Result<Vec<u8>, StreamError>>,
    line: usize,
}

impl View for PathReader {
    type V = ReaderView;

    closed spec fn view(&self) -> ReaderView {
        ReaderView {
            pending: self.iterator@.map_values(|item: Result<Vec<u8>, StreamError>| item_view(item)),
            source: match self.src_path {
                Some(path) => Some(path@),
                None => None,
            },
            dest: match self.dst_path {
                Some(path) => Some(path@),
                None => None,
            },
            line: self.line as nat,
        }
    }
}

impl PathReader {
    /// The number of the record that was read last, counted from one.
    pub fn line(&self) -> (line: usize)
        ensures
            line == self@.line,
    {
        self.line
    }

    /// A reader at the start of the records in `iterator`, with no path
    /// declared.
    pub fn new(iterator: VecDeque<Result<Vec<u8>, StreamError>>) -> (reader: Self)
        ensures
            reader@ == (ReaderView {
                pending: iterator@.map_values(
                    |item: Result<Vec<u8>, StreamError>| item_view(item),
                ),
                source: None,
                dest: None,
                line: 0,
            }),
    {
        PathReader { src_path: None, dst_path: None, iterator, line: 0 }
    }

    /// Whether a source is in force. The source in force is never empty.
    pub fn has_source(&self) -> (yes: bool)
        ensures
            yes == self@.source is Some,
            self@.valid(),
    {
        match &self.src_path {
            Some(source) => source.as_slice().len() > 0,
            None => false,
        }
    }

    /// Reads records up to the next destination declaration and returns
    /// the source in force together with that destination. Returns `None`
    /// when the records have run out, and an error for the first record
    /// that is refused.
    pub fn read(&mut self) -> (result: Result<Option<(&[u8], &[u8])>, PathError>)
        ensures
            final(self)@ == old(self)@.run().0,
            result matches Ok(Some(pair)) ==> pair.0@.len() > 0 && pair.1@.len() > 0,
            match old(self)@.run().1 {
                Ok(Some((source, dest))) => result matches Ok(Some(pair)) && pair.0@ == source
                    && pair.1@ == dest,
                Ok(None) => result matches Ok(None),
                Err(error) => result matches Err(found) && found@ == error,
            },
    {
        loop
            invariant
                self@.run() == old(self)@.run(),
            decreases self@.pending.len(),
        {
            match self.fetch() {
                Ok(Some(RecordKind::DestPath)) => {
                    return match (&self.src_path, &self.dst_path) {
                        (Some(src_path), Some(dst_path)) => Ok(
                            Some((src_path.as_slice(), dst_path.as_slice())),
                        ),
                        _ => vstd::pervasive::unreached(),
                    };
                },
                Ok(Some(RecordKind::SourcePath)) => {},
                Ok(None) => {
                    return Ok(None);
                },
                Err(error) => {
                    return Err(error);
                },
            }
        }
    }

    /// Asks for one record and handles it: says what it declares, `None`
    /// when the records have run out, or why the reader stops here.
    pub fn fetch(&mut self) -> (result: Result<Option<RecordKind>, PathError>)
        ensures
            final(self)@ == old(self)@.fetched().0,
            match old(self)@.fetched().1 {
                Ok(kind) => result == Ok::<Option<RecordKind>, PathError>(kind),
                Err(error) => result matches Err(found) && found@ == error,
            },
            result == Ok::<Option<RecordKind>, PathError>(Some(RecordKind::SourcePath))
                ==> final(self)@.pending.len() < old(self)@.pending.len(),
            result == Ok::<Option<RecordKind>, PathError>(Some(RecordKind::DestPath))
                ==> final(self)@.source is Some && final(self)@.dest is Some,
    {
        self.line = count(self.line);
        let ghost before = self.iterator@;
        match self.iterator.pop_front() {
            Some(Ok(line)) => {
                assert(self@.pending =~= old(self)@.pending.drop_first());
                assert(old(self)@.pending[0] == item_view(before[0]));
                match self.process_line(line.as_slice()) {
                    Ok(kind) => Ok(Some(kind)),
                    Err(kind) => Err(
                        PathError {
                            line: self.line,
                            kind,
                            value: LinePreview::from(line.as_slice()),
                        },
                    ),
                }
            },
            Some(Err(error)) => {
                assert(self@.pending =~= old(self)@.pending.drop_first());
                assert(old(self)@.pending[0] == item_view(before[0]));
                Err(
                    PathError {
                        line: self.line,
                        kind: PathErrorKind::IoError(error),
                        value: LinePreview::empty(),
                    },
                )
            },
            None => {
                assert(self@.pending =~= old(self)@.pending);
                Ok(None)
            },
        }
    }

    /// Takes a record in: a source becomes the source in force, a
    /// destination is kept for the pair that it makes.
    pub fn process_line(&mut self, line: &[u8]) -> (result: Result<RecordKind, PathErrorKind>)
        ensures
            final(self)@ == old(self)@.noted(line@),
            match processed(line@, old(self)@.source is Some) {
                Ok((kind, _)) => result == Ok::<RecordKind, PathErrorKind>(kind),
                Err(kind) => result == Err::<RecordKind, PathErrorKind>(kind),
            },
    {
        let record = match Record::try_from(line) {
            Ok(record) => record,
            Err(error) => {
                return Err(PathErrorKind::InvalidRecord(error));
            },
        };
        let kind = record.kind;
        match kind {
            RecordKind::SourcePath => {
                self.src_path = Payload::new(record.path);
            },
            RecordKind::DestPath => {
                self.dst_path = Payload::new(record.path);
                if !self.has_source() {
                    return Err(PathErrorKind::NoSourcePath);
                }
            },
        }
        Ok(kind)
    }
}

} // verus!
