//! The progress report of a run, as pieces of output for a colour terminal.

use crate::fs::TransferMode;
use vstd::prelude::*;
use vstd::string::StringExecFns;

verus! {

/// A foreground colour of the report.
#[derive(Clone, Copy, Debug, PartialEq, Eq, Structural)]
pub enum Color {
    Blue,
    Cyan,
    Green,
    Red,
}

/// The colour of a source path.
pub const SRC_COLOR: Color = Color::Blue;

/// The colour of a destination path.
pub const DST_COLOR: Color = Color::Cyan;

/// The colour of a success.
pub const SUCCESS_COLOR: Color = Color::Green;

/// The colour of a failure.
pub const FAILURE_COLOR: Color = Color::Red;

/// One piece of output: text to write, or a change of colour.
#[derive(Debug, PartialEq, Eq)]
pub enum Piece {
    Text(String),
    Paint(Color),
    Reset,
}

/// What a [`Piece`] stands for.
pub enum PieceView {
    Text(Seq<char>),
    Paint(Color),
    Reset,
}

impl View for Piece {
    type V = PieceView;

    open spec fn view(&self) -> PieceView {
        match self {
            Piece::Text(text) => PieceView::Text(text@),
            Piece::Paint(color) => PieceView::Paint(*color),
            Piece::Reset => PieceView::Reset,
        }
    }
}

/// The word that opens the report of a transfer.
pub open spec fn action_of(mode: TransferMode) -> Seq<char> {
    match mode {
        TransferMode::Move => "Moving"@,
        TransferMode::Copy => "Copying"@,
    }
}

/// The report of a transfer that begins: the action, then the source path
/// and the destination path, each in its colour and in quotes.
pub open spec fn begin_pieces(src: Seq<char>, dst: Seq<char>, mode: TransferMode) -> Seq<
    PieceView,
> {
    seq![
        PieceView::Text(action_of(mode) + " '"@),
        PieceView::Paint(SRC_COLOR),
        PieceView::Text(src),
        PieceView::Reset,
        PieceView::Text("' to '"@),
        PieceView::Paint(DST_COLOR),
        PieceView::Text(dst),
        PieceView::Reset,
        PieceView::Text("' ... "@),
    ]
}

/// The report of an end: the verdict in its colour, then a line break.
pub open spec fn verdict_pieces(color: Color, verdict: Seq<char>) -> Seq<PieceView> {
    seq![
        PieceView::Paint(color),
        PieceView::Text(verdict),
        PieceView::Reset,
        PieceView::Text("\n"@),
    ]
}

/// Collects the report of a run.
pub struct Logger {
    writer: Vec<Piece>,
}

impl View for Logger {
    type V = Seq<PieceView>;

    closed spec fn view(&self) -> Seq<PieceView> {
        self.writer@.map_values(|piece: Piece| piece@)
    }
}

impl Logger {
    /// A logger that appends to what `writer` holds.
    pub fn new(writer: Vec<Piece>) -> (logger: Self)
        ensures
            logger@ == writer@.map_values(|piece: Piece| piece@),
    {
        Logger { writer }
    }

    /// Hands out the pieces collected so far and starts afresh.
    pub fn take(&mut self) -> (pieces: Vec<Piece>)
        ensures
            pieces@.map_values(|piece: Piece| piece@) == old(self)@,
            final(self)@ == Seq::<PieceView>::empty(),
    {
        let mut pieces = Vec::new();
        std::mem::swap(&mut pieces, &mut self.writer);
        assert(self@ =~= Seq::<PieceView>::empty());
        pieces
    }

    fn put(&mut self, piece: Piece)
        ensures
            final(self)@ == old(self)@.push(piece@),
    {
        self.writer.push(piece);
        assert(self@ =~= old(self)@.push(piece@));
    }

    /// Reports that the transfer from `src` to `dst` begins.
    pub fn begin(&mut self, src: &str, dst: &str, mode: TransferMode)
        ensures
            final(self)@ == old(self)@ + begin_pieces(src@, dst@, mode),
    {
        let action = match mode {
            TransferMode::Move => "Moving",
            TransferMode::Copy => "Copying",
        };
        let mut head = String::from_str(action);
        head.append(" '");
        self.put(Piece::Text(head));
        self.put(Piece::Paint(SRC_COLOR));
        self.put(Piece::Text(String::from_str(src)));
        self.put(Piece::Reset);
        self.put(Piece::Text(String::from_str("' to '")));
        self.put(Piece::Paint(DST_COLOR));
        self.put(Piece::Text(String::from_str(dst)));
        self.put(Piece::Reset);
        self.put(Piece::Text(String::from_str("' ... ")));
        assert(self@ =~= old(self)@ + begin_pieces(src@, dst@, mode));
    }

    /// Reports that the transfer succeeded.
    pub fn success(&mut self)
        ensures
            final(self)@ == old(self)@ + verdict_pieces(SUCCESS_COLOR, "OK"@),
    {
        self.put(Piece::Paint(SUCCESS_COLOR));
        self.put(Piece::Text(String::from_str("OK")));
        self.put(Piece::Reset);
        self.put(Piece::Text(String::from_str("\n")));
        assert(self@ =~= old(self)@ + verdict_pieces(SUCCESS_COLOR, "OK"@));
    }

    /// Reports that the transfer failed.
    pub fn failure(&mut self)
        ensures
            final(self)@ == old(self)@ + verdict_pieces(FAILURE_COLOR, "ERROR"@),
    {
        self.put(Piece::Paint(FAILURE_COLOR));
        self.put(Piece::Text(String::from_str("ERROR")));
        self.put(Piece::Reset);
        self.put(Piece::Text(String::from_str("\n")));
        assert(self@ =~= old(self)@ + verdict_pieces(FAILURE_COLOR, "ERROR"@));
    }
}

} // verus!
