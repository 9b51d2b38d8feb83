use batchmv::cli::Cli;
use batchmv::fs::TransferMode;
use batchmv::line::Separator;
use batchmv::verbose::Color;
use batchmv::verbose::Logger;
use batchmv::verbose::Piece;

fn text(value: &str) -> Piece {
    Piece::Text(String::from(value))
}

#[test]
fn logger_begin_move() {
    let mut logger = Logger::new(Vec::new());
    logger.begin("a b", "c", TransferMode::Move);
    assert_eq!(
        logger.take(),
        vec![
            text("Moving '"),
            Piece::Paint(Color::Blue),
            text("a b"),
            Piece::Reset,
            text("' to '"),
            Piece::Paint(Color::Cyan),
            text("c"),
            Piece::Reset,
            text("' ... "),
        ]
    );
}

#[test]
fn logger_begin_copy() {
    let mut logger = Logger::new(Vec::new());
    logger.begin("a", "b", TransferMode::Copy);
    let pieces = logger.take();
    assert_eq!(pieces[0], text("Copying '"));
    assert_eq!(pieces.len(), 9);
}

#[test]
fn logger_success_and_failure() {
    let mut logger = Logger::new(vec![text("kept")]);
    logger.success();
    logger.failure();
    assert_eq!(
        logger.take(),
        vec![
            text("kept"),
            Piece::Paint(Color::Green),
            text("OK"),
            Piece::Reset,
            text("\n"),
            Piece::Paint(Color::Red),
            text("ERROR"),
            Piece::Reset,
            text("\n"),
        ]
    );
    assert_eq!(logger.take(), Vec::new());
}

#[test]
fn cli_selects_separator_and_mode() {
    let plain = Cli { null: false, copy: false, verbose: false };
    assert_eq!(plain.separator(), Separator::Newline);
    assert_eq!(plain.mode(), TransferMode::Move);
    let other = Cli { null: true, copy: true, verbose: true };
    assert_eq!(other.separator(), Separator::Null);
    assert_eq!(other.mode(), TransferMode::Copy);
}
