//! The instruction parser that keeps whole records.
//!
//! Each record is held as an [`Instruction`]: its bytes and its number. A
//! source declaration whose path is in order is stored whole and becomes
//! the source in force; a record whose path is not in order is refused
//! where it stands, whether it declares a source or a destination.

use crate::grammar::{count, following, prefix_of, Prefix, DEST_MARK, SOURCE_MARK};
use crate::io::Reader as LineReader;
use crate::line::Separator;
use crate::stream::{chunk_len, lemma_chunk_len_bounds};
use crate::text::{can_be_path, clip, clipped, decodable, decode, decoded_text, is_clipped};
use vstd::string::StringExecFns;
use vstd::prelude::*;
use vstd::slice::slice_subrange;

verus! {

/// A record of this many bytes or more, terminator included, is refused.
pub const MAX_LINE: usize = 1048576;

/// The number of bytes of a record that a diagnostic shows at most.
pub const PREVIEW_WIDTH: usize = 60;

/// What a record declares.
#[derive(Clone, Copy, Debug, PartialEq, Eq, Structural)]
pub enum InstructionKind {
    Source,
    Dest,
}

/// Why a record was refused.
#[derive(Clone, Copy, Debug, PartialEq, Eq, Structural)]
pub enum ErrorKind {
    /// The path cannot be represented as a path of the platform.
    InvalidEncoding,
    /// The record starts with this prefix, which is neither `<` nor `>`.
    InvalidPrefix(Prefix),
    /// The record is empty.
    EmptyLine,
    /// Nothing follows the prefix.
    EmptyPath,
    /// The record reaches the size limit.
    LineOverflow,
    /// A destination came before any source.
    NoSourcePath,
    /// The input stream failed.
    IoError,
}

/// The beginning of a record as text, and whether the record goes on.
#[derive(Debug, PartialEq, Eq)]
pub struct Preview {
    value: String,
    shortened: bool,
}

/// What a [`Preview`] shows.
pub struct PreviewView {
    pub value: Seq<char>,
    pub shortened: bool,
}

/// A refused record: the cause, the number of the record counted from one,
/// and its preview.
#[derive(Debug, PartialEq, Eq)]
pub struct Error {
    kind: ErrorKind,
    line: usize,
    preview: Preview,
}

/// What an [`Error`] says.
pub struct ErrorView {
    pub kind: ErrorKind,
    pub line: nat,
    pub preview: PreviewView,
}

/// What a record declares, or why its prefix is refused.
pub open spec fn kind_of(record: Seq<u8>) -> Result<InstructionKind, ErrorKind> {
    match prefix_of(record) {
        Some(prefix) => if prefix == Prefix::Byte(SOURCE_MARK) {
            Ok(InstructionKind::Source)
        } else if prefix == Prefix::Byte(DEST_MARK) {
            Ok(InstructionKind::Dest)
        } else {
            Err(ErrorKind::InvalidPrefix(prefix))
        },
        None => Err(ErrorKind::EmptyLine),
    }
}

/// The path bytes of a record, given whether they can be decoded as a path.
pub open spec fn payload_of(record: Seq<u8>, decodable: bool) -> Result<Seq<u8>, ErrorKind> {
    if record.len() == 0 {
        Err(ErrorKind::EmptyLine)
    } else if record.len() == 1 {
        Err(ErrorKind::EmptyPath)
    } else if decodable {
        Ok(record.skip(1))
    } else {
        Err(ErrorKind::InvalidEncoding)
    }
}

/// The path bytes of a record on this platform.
pub open spec fn path_of(record: Seq<u8>) -> Result<Seq<u8>, ErrorKind> {
    payload_of(record, decodable(record.skip(1)))
}

/// The preview of decoded text: what fits into [`PREVIEW_WIDTH`] bytes.
pub open spec fn preview_of_text(text: Seq<char>) -> PreviewView {
    PreviewView {
        value: clipped(text, PREVIEW_WIDTH as nat),
        shortened: is_clipped(text, PREVIEW_WIDTH as nat),
    }
}

/// The preview of a record.
pub open spec fn preview_of(record: Seq<u8>) -> PreviewView {
    preview_of_text(decoded_text(record))
}

impl PreviewView {
    /// The preview as it is shown: the text in single quotes, and three
    /// full stops behind them where the record goes on.
    pub open spec fn text(self) -> Seq<char> {
        if self.shortened {
            seq!['\''] + self.value + seq!['\'', '.', '.', '.']
        } else {
            seq!['\''] + self.value + seq!['\'']
        }
    }
}

impl View for Preview {
    type V = PreviewView;

    closed spec fn view(&self) -> PreviewView {
        PreviewView { value: self.value@, shortened: self.shortened }
    }
}

impl Preview {
    /// The preview of text that has been decoded already.
    pub fn of_text(text: &Vec<char>) -> (preview: Preview)
        ensures
            preview@ == preview_of_text(text@),
    {
        let (value, shortened) = clip(text, PREVIEW_WIDTH);
        Preview { value, shortened }
    }

    /// The preview of a record: its bytes decoded leniently, then cut.
    pub fn from(slice: &[u8]) -> (preview: Preview)
        ensures
            preview@ == preview_of(slice@),
    {
        let text = decode(slice);
        Preview::of_text(&text)
    }

    /// Writes the preview as it is shown.
    pub fn to_text(&self) -> (text: String)
        ensures
            text@ == self@.text(),
    {
        let mut text = String::new();
        text.push('\'');
        text.append(self.value.as_str());
        text.push('\'');
        if self.shortened {
            text.push('.');
            text.push('.');
            text.push('.');
        }
        assert(text@ =~= self@.text());
        text
    }

    /// The text that fits.
    pub fn value(&self) -> (value: &str)
        ensures
            value@ == self@.value,
    {
        self.value.as_str()
    }

    /// Whether the record goes on after the text shown.
    pub fn shortened(&self) -> (shortened: bool)
        ensures
            shortened == self@.shortened,
    {
        self.shortened
    }
}

impl View for Error {
    type V = ErrorView;

    closed spec fn view(&self) -> ErrorView {
        ErrorView { kind: self.kind, line: self.line as nat, preview: self.preview@ }
    }
}

impl Error {
    pub fn kind(&self) -> (kind: ErrorKind)
        ensures
            kind == self@.kind,
    {
        self.kind
    }

    pub fn line(&self) -> (line: usize)
        ensures
            line == self@.line,
    {
        self.line
    }

    pub fn preview(&self) -> (preview: &Preview)
        ensures
            preview@ == self@.preview,
    {
        &self.preview
    }
}

/// The path bytes of a record whose path is already known to be decodable
/// or not.
pub fn payload(record: &[u8], decodable: bool) -> (result: Result<&[u8], ErrorKind>)
    ensures
        match payload_of(record@, decodable) {
            Ok(path) => result matches Ok(found) && found@ == path,
            Err(kind) => result matches Err(found) && found == kind,
        },
{
    if record.len() == 0 {
        Err(ErrorKind::EmptyLine)
    } else if record.len() == 1 {
        Err(ErrorKind::EmptyPath)
    } else if decodable {
        let path = slice_subrange(record, 1, record.len());
        assert(path@ =~= record@.skip(1));
        Ok(path)
    } else {
        Err(ErrorKind::InvalidEncoding)
    }
}

/// One record with its number.
pub struct Instruction {
    buf: Vec<u8>,
    line: usize,
}

/// What an [`Instruction`] holds.
pub struct InstructionView {
    pub buf: Seq<u8>,
    pub line: nat,
}

impl InstructionView {
    /// The error that refuses this record for `kind`.
    pub open spec fn error(self, kind: ErrorKind) -> ErrorView {
        ErrorView { kind, line: self.line, preview: preview_of(self.buf) }
    }
}

impl View for Instruction {
    type V = InstructionView;

    closed spec fn view(&self) -> InstructionView {
        InstructionView { buf: self.buf@, line: self.line as nat }
    }
}

impl Instruction {
    /// An empty record with the number zero.
    pub fn new() -> (instruction: Self)
        ensures
            instruction@ == (InstructionView { buf: Seq::empty(), line: 0 }),
    {
        Instruction { buf: Vec::new(), line: 0 }
    }

    pub fn set_line(&mut self, line: usize)
        ensures
            final(self)@ == (InstructionView { buf: old(self)@.buf, line: line as nat }),
    {
        self.line = line;
    }

    /// Replaces the record by the next one of `reader` and returns the
    /// number of bytes read for it. A read of [`MAX_LINE`] bytes is refused
    /// as an overflow; a failed read is refused with what it had read.
    pub fn fetch(&mut self, reader: &mut LineReader) -> (result: Result<usize, Error>)
        ensures
            final(reader).remaining() == old(reader).remaining().skip(
                old(reader).chunk(MAX_LINE as nat).len() as int,
            ),
            final(reader).broken() == old(reader).broken(),
            final(reader).separator() == old(reader).separator(),
            final(self)@.line == old(self)@.line,
            final(self)@.buf == if old(reader).fails(MAX_LINE as nat) {
                old(reader).chunk(MAX_LINE as nat)
            } else {
                old(reader).separator().trimmed(old(reader).chunk(MAX_LINE as nat))
            },
            match result {
                Ok(length) => {
                    &&& !old(reader).fails(MAX_LINE as nat)
                    &&& length == old(reader).chunk(MAX_LINE as nat).len()
                    &&& length < MAX_LINE
                },
                Err(error) => {
                    &&& error@ == final(self)@.error(
                        if old(reader).fails(MAX_LINE as nat) {
                            ErrorKind::IoError
                        } else {
                            ErrorKind::LineOverflow
                        },
                    )
                    &&& old(reader).fails(MAX_LINE as nat) || old(reader).chunk(
                        MAX_LINE as nat,
                    ).len() >= MAX_LINE
                },
            },
    {
        self.buf.clear();
        assert(self.buf@ + old(reader).chunk(MAX_LINE as nat) =~= old(reader).chunk(
            MAX_LINE as nat,
        ));
        match reader.read(&mut self.buf, MAX_LINE) {
            Ok(length) => {
                if length >= MAX_LINE {
                    Err(self.error(ErrorKind::LineOverflow))
                } else {
                    Ok(length)
                }
            },
            Err(_) => Err(self.error(ErrorKind::IoError)),
        }
    }

    /// The bytes of the record.
    pub fn buf(&self) -> (buf: &[u8])
        ensures
            buf@ == self@.buf,
    {
        self.buf.as_slice()
    }

    /// What the record declares.
    pub fn kind(&self) -> (result: Result<InstructionKind, Error>)
        ensures
            match kind_of(self@.buf) {
                Ok(kind) => result matches Ok(found) && found == kind,
                Err(kind) => result matches Err(error) && error@ == self@.error(kind),
            },
    {
        match Prefix::from(self.buf()) {
            Some(Prefix::Byte(byte)) => {
                if byte == SOURCE_MARK {
                    Ok(InstructionKind::Source)
                } else if byte == DEST_MARK {
                    Ok(InstructionKind::Dest)
                } else {
                    Err(self.error(ErrorKind::InvalidPrefix(Prefix::Byte(byte))))
                }
            },
            Some(prefix) => Err(self.error(ErrorKind::InvalidPrefix(prefix))),
            None => Err(self.error(ErrorKind::EmptyLine)),
        }
    }

    /// The path that the record declares: the bytes after the prefix.
    pub fn path(&self) -> (result: Result<&[u8], Error>)
        ensures
            match path_of(self@.buf) {
                Ok(path) => result matches Ok(found) && found@ == path,
                Err(kind) => result matches Err(error) && error@ == self@.error(kind),
            },
    {
        let record = self.buf();
        let decodable = if record.len() > 1 {
            let tail = slice_subrange(record, 1, record.len());
            assert(tail@ =~= record@.skip(1));
            can_be_path(tail)
        } else {
            false
        };
        match payload(record, decodable) {
            Ok(path) => Ok(path),
            Err(kind) => Err(self.error(kind)),
        }
    }

    /// The error that refuses this record for `kind`.
    pub fn error(&self, kind: ErrorKind) -> (error: Error)
        ensures
            error@ == self@.error(kind),
    {
        Error { kind, line: self.line, preview: Preview::from(self.buf()) }
    }
}

/// The state of a [`Reader`].
pub struct ReaderView {
    /// The input that has not been consumed.
    pub rest: Seq<u8>,
    /// Whether the input ends in a failure.
    pub broken: bool,
    /// The record terminator.
    pub separator: Separator,
    /// The source declaration in force, if there is one.
    pub source: Option<InstructionView>,
    /// The number of records read so far.
    pub line: nat,
}

/// What one call of [`Reader::read`] returns.
pub type Outcome = Result<Option<(Seq<u8>, Seq<u8>)>, ErrorView>;

/// What one record does to the reader.
pub enum Step {
    /// A source was declared; the reader goes on to the next record.
    Continue,
    /// The call ends with this result.
    Return(Outcome),
}

/// The pair that a destination declaration makes with the source
/// declaration in force. The source in force declares a path, since no
/// other source is taken in; were it otherwise, it would be refused first.
pub open spec fn paired(source: Option<InstructionView>, dest: InstructionView) -> Outcome {
    match source {
        Some(source) => match path_of(source.buf) {
            Ok(from) => match path_of(dest.buf) {
                Ok(to) => Ok(Some((from, to))),
                Err(kind) => Err(dest.error(kind)),
            },
            Err(kind) => Err(source.error(kind)),
        },
        None => Err(dest.error(ErrorKind::NoSourcePath)),
    }
}

impl ReaderView {
    /// The source in force, if there is one, declares a path.
    pub open spec fn valid(self) -> bool {
        self.source matches Some(source) ==> path_of(source.buf) is Ok
    }

    /// The bytes that the next record takes from the input.
    pub open spec fn chunk(self) -> Seq<u8> {
        self.rest.take(chunk_len(self.rest, self.separator.byte(), MAX_LINE as nat) as int)
    }

    /// Whether reading the next record runs into the failure of the input.
    pub open spec fn fails(self) -> bool {
        crate::stream::read_fails(self.rest, self.broken, self.separator.byte(), MAX_LINE as nat)
    }

    /// The state after the next record has been taken, with `source` in
    /// force.
    pub open spec fn advanced(self, source: Option<InstructionView>) -> ReaderView {
        ReaderView {
            rest: self.rest.skip(self.chunk().len() as int),
            broken: self.broken,
            separator: self.separator,
            source,
            line: following(self.line),
        }
    }

    /// Reads and handles one record.
    pub open spec fn step(self) -> (ReaderView, Step) {
        let line = following(self.line);
        let same = self.advanced(self.source);
        if self.fails() {
            let partial = InstructionView { buf: self.chunk(), line };
            (same, Step::Return(Err(partial.error(ErrorKind::IoError))))
        } else {
            let record = InstructionView { buf: self.separator.trimmed(self.chunk()), line };
            if self.chunk().len() >= MAX_LINE {
                (same, Step::Return(Err(record.error(ErrorKind::LineOverflow))))
            } else if self.chunk().len() == 0 {
                (same, Step::Return(Ok(None)))
            } else {
                match kind_of(record.buf) {
                    Ok(InstructionKind::Source) => match path_of(record.buf) {
                        Ok(_) => (self.advanced(Some(record)), Step::Continue),
                        Err(kind) => (same, Step::Return(Err(record.error(kind)))),
                    },
                    Ok(InstructionKind::Dest) => (same, Step::Return(paired(self.source, record))),
                    Err(kind) => (same, Step::Return(Err(record.error(kind)))),
                }
            }
        }
    }

    /// Handles records until one ends the call: source declarations are
    /// taken in, and the first record that is not one decides the result.
    pub open spec fn run(self) -> (ReaderView, Outcome)
        decreases self.rest.len(),
    {
        let (next, step) = self.step();
        match step {
            Step::Return(outcome) => (next, outcome),
            Step::Continue => {
                proof {
                    lemma_continue_consumes(self);
                }
                next.run()
            },
        }
    }
}

/// A record that lets the reader go on has used up input.
pub proof fn lemma_continue_consumes(state: ReaderView)
    requires
        state.step().1 is Continue,
    ensures
        state.step().0.rest.len() < state.rest.len(),
{
    lemma_chunk_len_bounds(state.rest, state.separator.byte(), MAX_LINE as nat);
}

/// Unfolds `run` once.
proof fn lemma_run_unfolds(state: ReaderView)
    ensures
        state.step().1 is Continue ==> state.run() == state.step().0.run()
            && state.step().0.rest.len() < state.rest.len(),
        state.step().1 matches Step::Return(outcome) ==> state.run() == (state.step().0, outcome),
{
    if state.step().1 is Continue {
        lemma_continue_consumes(state);
    }
}

/// A destination that arrives while no source is in force is refused with
/// `NoSourcePath`, and the error carries the number and the preview of that
/// record.
pub proof fn lemma_dest_without_source(state: ReaderView)
    requires
        state.source is None,
        !state.fails(),
        0 < state.chunk().len() < MAX_LINE,
        kind_of(state.separator.trimmed(state.chunk())) == Ok::<InstructionKind, ErrorKind>(
            InstructionKind::Dest,
        ),
    ensures
        state.run().1 == Err::<Option<(Seq<u8>, Seq<u8>)>, ErrorView>(
            ErrorView {
                kind: ErrorKind::NoSourcePath,
                line: following(state.line),
                preview: preview_of(state.separator.trimmed(state.chunk())),
            },
        ),
        state.run().0.source is None,
{
    lemma_run_unfolds(state);
}

/// A destination that arrives while a source is in force makes a pair with
/// it, provided that both declare a path.
pub proof fn lemma_dest_pairs_with_source(state: ReaderView)
    requires
        state.source matches Some(source) && path_of(source.buf) is Ok,
        !state.fails(),
        0 < state.chunk().len() < MAX_LINE,
        kind_of(state.separator.trimmed(state.chunk())) == Ok::<InstructionKind, ErrorKind>(
            InstructionKind::Dest,
        ),
        path_of(state.separator.trimmed(state.chunk())) is Ok,
    ensures
        state.run().1 == Ok::<Option<(Seq<u8>, Seq<u8>)>, ErrorView>(
            Some((state.source->0.buf.skip(1), state.separator.trimmed(state.chunk()).skip(1))),
        ),
        state.run().0 == state.advanced(state.source),
{
    lemma_run_unfolds(state);
}

/// A source declaration replaces the source in force: whatever source was
/// in force before it has no part in what follows.
pub proof fn lemma_last_source_wins(state: ReaderView, other: Option<InstructionView>)
    requires
        !state.fails(),
        0 < state.chunk().len() < MAX_LINE,
        kind_of(state.separator.trimmed(state.chunk())) == Ok::<InstructionKind, ErrorKind>(
            InstructionKind::Source,
        ),
        path_of(state.separator.trimmed(state.chunk())) is Ok,
    ensures
        state.run() == (ReaderView { source: other, ..state }).run(),
        state.run() == state.advanced(
            Some(
                InstructionView {
                    buf: state.separator.trimmed(state.chunk()),
                    line: following(state.line),
                },
            ),
        ).run(),
{
    lemma_run_unfolds(state);
    lemma_run_unfolds(ReaderView { source: other, ..state });
}

/// A source declaration whose path is empty or cannot be decoded is
/// refused where it stands, with its own number, whatever follows it.
pub proof fn lemma_bad_source_is_refused(state: ReaderView)
    requires
        !state.fails(),
        0 < state.chunk().len() < MAX_LINE,
        kind_of(state.separator.trimmed(state.chunk())) == Ok::<InstructionKind, ErrorKind>(
            InstructionKind::Source,
        ),
        path_of(state.separator.trimmed(state.chunk())) is Err,
    ensures
        state.run().1 == Err::<Option<(Seq<u8>, Seq<u8>)>, ErrorView>(
            ErrorView {
                kind: path_of(state.separator.trimmed(state.chunk()))->Err_0,
                line: following(state.line),
                preview: preview_of(state.separator.trimmed(state.chunk())),
            },
        ),
        state.run().0 == state.advanced(state.source),
{
    lemma_run_unfolds(state);
}

/// Where the source in force declares a path, a call leaves a source in
/// force that declares one, both paths of a pair are non-empty, and every
/// error carries the number of the record that the call read last.
pub proof fn lemma_pairs_are_whole(state: ReaderView)
    requires
        state.valid(),
    ensures
        state.run().0.valid(),
        state.run().1 matches Ok(Some(pair)) ==> pair.0.len() > 0 && pair.1.len() > 0,
        state.run().1 matches Err(error) ==> error.line == state.run().0.line,
    decreases state.rest.len(),
{
    lemma_run_unfolds(state);
    if state.step().1 is Continue {
        lemma_pairs_are_whole(state.step().0);
    }
}

/// A pair is made of the path of the source in force and the path of the
/// destination just read, and that source stays in force for the
/// destinations that follow.
pub proof fn lemma_source_stays_in_force(state: ReaderView)
    ensures
        state.run().1 matches Ok(Some(pair)) ==> state.run().0.source matches Some(source)
            && path_of(source.buf) == Ok::<Seq<u8>, ErrorKind>(pair.0),
    decreases state.rest.len(),
{
    lemma_run_unfolds(state);
    if state.step().1 is Continue {
        lemma_source_stays_in_force(state.step().0);
    }
}

/// A call never gives input back, never lowers the record count, and an
/// error carries the number of a record that has been read: that of the
/// last one, or that of the source in force where its path is refused.
pub proof fn lemma_run_advances(state: ReaderView)
    requires
        state.source matches Some(source) ==> source.line <= state.line,
    ensures
        state.run().0.rest.len() <= state.rest.len(),
        state.run().0.line >= state.line,
        state.run().0.broken == state.broken,
        state.run().0.separator == state.separator,
        state.run().0.source matches Some(source) ==> source.line <= state.run().0.line,
        state.run().1 matches Err(error) ==> error.line <= state.run().0.line,
    decreases state.rest.len(),
{
    lemma_run_unfolds(state);
    lemma_chunk_len_bounds(state.rest, state.separator.byte(), MAX_LINE as nat);
    if state.step().1 is Continue {
        lemma_run_advances(state.step().0);
    }
}

/// A source declaration that has been accepted: it declares a path.
struct Declared {
    instruction: Instruction,
}

impl View for Declared {
    type V = InstructionView;

    closed spec fn view(&self) -> InstructionView {
        self.instruction@
    }
}

impl Declared {
    #[verifier::type_invariant]
    spec fn inv(self) -> bool {
        path_of(self.instruction@.buf) is Ok
    }

    fn accept(instruction: Instruction) -> (declared: Declared)
        requires
            path_of(instruction@.buf) is Ok,
        ensures
            declared@ == instruction@,
    {
        Declared { instruction }
    }

    fn release(self) -> (instruction: Instruction)
        ensures
            instruction@ == self@,
    {
        self.instruction
    }

    fn path(&self) -> (path: &[u8])
        ensures
            path_of(self@.buf) == Ok::<Seq<u8>, ErrorKind>(path@),
            path@.len() > 0,
    {
        proof {
            use_type_invariant(self);
        }
        match self.instruction.path() {
            Ok(path) => path,
            Err(_) => vstd::pervasive::unreached(),
        }
    }
}

/// Reads pairs of paths from a stream of instructions.
pub struct Reader {
    inner: LineReader,
    src: Option<Declared>,
    dst: Option<Instruction>,
    line: usize,
}

impl View for Reader {
    type V = ReaderView;

    closed spec fn view(&self) -> ReaderView {
        ReaderView {
            rest: self.inner.remaining(),
            broken: self.inner.broken(),
            separator: self.inner.separator(),
            source: match self.src {
                Some(instruction) => Some(instruction@),
                None => None,
            },
            line: self.line as nat,
        }
    }
}

impl Reader {
    /// Whether a source is in force. The source in force always declares
    /// a path.
    pub fn has_source(&self) -> (yes: bool)
        ensures
            yes == self@.source is Some,
            self@.valid(),
    {
        match &self.src {
            Some(source) => {
                proof {
                    use_type_invariant(source);
                }
                true
            },
            None => false,
        }
    }

    /// The number of the record that was read last, counted from one.
    pub fn line(&self) -> (line: usize)
        ensures
            line == self@.line,
    {
        self.line
    }

    /// A reader at the start of `inner`, with no source in force.
    pub fn new(inner: LineReader) -> (reader: Self)
        ensures
            reader@ == (ReaderView {
                rest: inner.remaining(),
                broken: inner.broken(),
                separator: inner.separator(),
                source: None,
                line: 0,
            }),
    {
        Reader { inner, src: None, dst: None, line: 0 }
    }

    /// Reads records up to the next destination declaration and returns
    /// the path of the source in force together with that of the
    /// destination. Returns `None` when the input has ended, and an error
    /// for the first record that breaks a rule.
    pub fn read(&mut self) -> (result: Result<Option<(&[u8], &[u8])>, Error>)
        ensures
            final(self)@.valid(),
            final(self)@ == old(self)@.run().0,
            result matches Ok(Some(pair)) ==> pair.0@.len() > 0 && pair.1@.len() > 0,
            match old(self)@.run().1 {
                Ok(Some((source, dest))) => result matches Ok(Some(pair)) && pair.0@ == source
                    && pair.1@ == dest,
                Ok(None) => result matches Ok(None),
                Err(error) => result matches Err(found) && found@ == error,
            },
    {
        loop
            invariant
                self@.run() == old(self)@.run(),
            decreases self@.rest.len(),
        {
            let has_source = self.has_source();
            let ghost before = self@;
            proof {
                lemma_run_unfolds(before);
                lemma_chunk_len_bounds(before.rest, before.separator.byte(), MAX_LINE as nat);
            }
            self.line = count(self.line);
            let mut dst = match self.dst.take() {
                Some(instruction) => instruction,
                None => Instruction::new(),
            };
            dst.set_line(self.line);
            let length = match dst.fetch(&mut self.inner) {
                Ok(length) => length,
                Err(error) => {
                    self.dst = Some(dst);
                    return Err(error);
                },
            };
            if length == 0 {
                self.dst = Some(dst);
                return Ok(None);
            }
            match dst.kind() {
                Ok(InstructionKind::Source) => {
                    let refused = match dst.path() {
                        Ok(_) => None,
                        Err(error) => Some(error),
                    };
                    match refused {
                        Some(error) => {
                            self.dst = Some(dst);
                            return Err(error);
                        },
                        None => {
                            self.dst = match self.src.take() {
                                Some(source) => Some(source.release()),
                                None => None,
                            };
                            self.src = Some(Declared::accept(dst));
                        },
                    }
                },
                Ok(InstructionKind::Dest) => {
                    if !has_source {
                        let error = dst.error(ErrorKind::NoSourcePath);
                        self.dst = Some(dst);
                        return Err(error);
                    }
                    self.dst = Some(dst);
                    return match (&self.src, &self.dst) {
                        (Some(src), Some(dst)) => {
                            match dst.path() {
                                Ok(to) => Ok(Some((src.path(), to))),
                                Err(error) => Err(error),
                            }
                        },
                        _ => vstd::pervasive::unreached(),
                    };
                },
                Err(error) => {
                    self.dst = Some(dst);
                    return Err(error);
                },
            }
        }
    }
}

} // verus!
