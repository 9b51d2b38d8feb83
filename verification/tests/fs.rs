use batchmv::fs::Failure;
use batchmv::fs::FileType;
use batchmv::fs::Operation;
use batchmv::fs::Outcome;
use batchmv::fs::Step;
use batchmv::fs::Transfer;
use batchmv::fs::TransferMode;

const MODES: [TransferMode; 2] = [TransferMode::Move, TransferMode::Copy];
const TYPES: [FileType; 3] = [FileType::File, FileType::Dir, FileType::Unknown];
const OUTCOMES: [Outcome; 4] = [Outcome::Done, Outcome::Failed, Outcome::Same, Outcome::Distinct];

fn run(src: FileType, dst: FileType, mode: TransferMode, outcomes: &[Outcome]) -> Vec<Step> {
    let mut transfer = Transfer::begin(src, dst, mode);
    let mut steps = vec![transfer.step];
    for outcome in outcomes {
        steps.push(transfer.advance(*outcome));
    }
    steps
}

#[test]
fn file_type_from_probe() {
    assert_eq!(FileType::from(Some(true)), FileType::Dir);
    assert_eq!(FileType::from(Some(false)), FileType::File);
    assert_eq!(FileType::from(None), FileType::Unknown);
}

#[test]
fn missing_source_is_not_found() {
    for mode in MODES {
        for dst in TYPES {
            for outcome in OUTCOMES {
                assert_eq!(
                    run(FileType::Unknown, dst, mode, &[outcome]),
                    vec![Step::Fail(Failure::NotFound), Step::Fail(Failure::NotFound)]
                );
            }
        }
    }
}

#[test]
fn type_conflicts_are_refused() {
    for mode in MODES {
        assert_eq!(
            run(FileType::File, FileType::Dir, mode, &[]),
            vec![Step::Fail(Failure::DirOverwrittenByFile)]
        );
        assert_eq!(
            run(FileType::Dir, FileType::File, mode, &[]),
            vec![Step::Fail(Failure::FileOverwrittenByDir)]
        );
    }
}

#[test]
fn move_file_by_rename() {
    for dst in [FileType::File, FileType::Unknown] {
        assert_eq!(
            run(FileType::File, dst, TransferMode::Move, &[Outcome::Done, Outcome::Done]),
            vec![
                Step::Run(Operation::CreateParent),
                Step::Run(Operation::Rename),
                Step::Finish
            ]
        );
    }
}

#[test]
fn move_file_falls_back_when_rename_fails() {
    assert_eq!(
        run(
            FileType::File,
            FileType::File,
            TransferMode::Move,
            &[Outcome::Done, Outcome::Failed, Outcome::Done]
        ),
        vec![
            Step::Run(Operation::CreateParent),
            Step::Run(Operation::Rename),
            Step::Run(Operation::MoveFile),
            Step::Finish
        ]
    );
    assert_eq!(
        run(
            FileType::File,
            FileType::Unknown,
            TransferMode::Move,
            &[Outcome::Done, Outcome::Failed, Outcome::Failed]
        )
        .last(),
        Some(&Step::Fail(Failure::Operation(Operation::MoveFile)))
    );
}

#[test]
fn move_dir_by_rename_or_merge() {
    for dst in [FileType::Dir, FileType::Unknown] {
        assert_eq!(
            run(FileType::Dir, dst, TransferMode::Move, &[Outcome::Done, Outcome::Done]),
            vec![Step::Run(Operation::CreateDir), Step::Run(Operation::Rename), Step::Finish]
        );
        assert_eq!(
            run(
                FileType::Dir,
                dst,
                TransferMode::Move,
                &[Outcome::Done, Outcome::Failed, Outcome::Done]
            ),
            vec![
                Step::Run(Operation::CreateDir),
                Step::Run(Operation::Rename),
                Step::Run(Operation::MoveDir),
                Step::Finish
            ]
        );
    }
}

#[test]
fn copy_onto_missing_destination_copies_at_once() {
    assert_eq!(
        run(FileType::File, FileType::Unknown, TransferMode::Copy, &[Outcome::Done, Outcome::Done]),
        vec![Step::Run(Operation::CreateParent), Step::Run(Operation::CopyFile), Step::Finish]
    );
    assert_eq!(
        run(FileType::Dir, FileType::Unknown, TransferMode::Copy, &[Outcome::Done, Outcome::Done]),
        vec![Step::Run(Operation::CreateDir), Step::Run(Operation::CopyDir), Step::Finish]
    );
}

#[test]
fn copy_onto_itself_copies_nothing() {
    assert_eq!(
        run(FileType::File, FileType::File, TransferMode::Copy, &[Outcome::Done, Outcome::Same]),
        vec![Step::Run(Operation::CreateParent), Step::Run(Operation::SameEntry), Step::Finish]
    );
    assert_eq!(
        run(FileType::Dir, FileType::Dir, TransferMode::Copy, &[Outcome::Done, Outcome::Same]),
        vec![Step::Run(Operation::CreateDir), Step::Run(Operation::SameEntry), Step::Finish]
    );
}

#[test]
fn copy_onto_other_entry_overwrites() {
    assert_eq!(
        run(
            FileType::File,
            FileType::File,
            TransferMode::Copy,
            &[Outcome::Done, Outcome::Distinct, Outcome::Done]
        ),
        vec![
            Step::Run(Operation::CreateParent),
            Step::Run(Operation::SameEntry),
            Step::Run(Operation::CopyFile),
            Step::Finish
        ]
    );
    assert_eq!(
        run(
            FileType::Dir,
            FileType::Dir,
            TransferMode::Copy,
            &[Outcome::Done, Outcome::Distinct, Outcome::Done]
        ),
        vec![
            Step::Run(Operation::CreateDir),
            Step::Run(Operation::SameEntry),
            Step::Run(Operation::CopyDir),
            Step::Finish
        ]
    );
}

#[test]
fn failures_end_the_transfer() {
    assert_eq!(
        run(FileType::File, FileType::File, TransferMode::Copy, &[Outcome::Failed, Outcome::Done]),
        vec![
            Step::Run(Operation::CreateParent),
            Step::Fail(Failure::Operation(Operation::CreateParent)),
            Step::Fail(Failure::Operation(Operation::CreateParent))
        ]
    );
    assert_eq!(
        run(FileType::Dir, FileType::Dir, TransferMode::Copy, &[Outcome::Done, Outcome::Failed])
            .last(),
        Some(&Step::Fail(Failure::Operation(Operation::SameEntry)))
    );
    assert_eq!(
        run(
            FileType::Dir,
            FileType::Dir,
            TransferMode::Copy,
            &[Outcome::Done, Outcome::Distinct, Outcome::Failed]
        )
        .last(),
        Some(&Step::Fail(Failure::Operation(Operation::CopyDir)))
    );
    assert_eq!(
        run(FileType::File, FileType::File, TransferMode::Move, &[Outcome::Done, Outcome::Same])
            .last(),
        Some(&Step::Fail(Failure::Operation(Operation::Rename)))
    );
}

#[test]
fn every_transfer_ends_within_three_operations() {
    for mode in MODES {
        for src in TYPES {
            for dst in TYPES {
                for a in OUTCOMES {
                    for b in OUTCOMES {
                        for c in OUTCOMES {
                            let steps = run(src, dst, mode, &[a, b, c]);
                            assert!(!matches!(steps[3], Step::Run(_)));
                            for step in &steps {
                                if let Step::Run(op) = step {
                                    let moves = matches!(
                                        op,
                                        Operation::Rename | Operation::MoveFile | Operation::MoveDir
                                    );
                                    let copies = matches!(
                                        op,
                                        Operation::SameEntry
                                            | Operation::CopyFile
                                            | Operation::CopyDir
                                    );
                                    assert!(!(mode == TransferMode::Copy && moves));
                                    assert!(!(mode == TransferMode::Move && copies));
                                }
                            }
                        }
                    }
                }
            }
        }
    }
}

#[test]
fn failure_messages() {
    assert_eq!(
        Failure::NotFound.describe("a", "b"),
        Some(format!("Path '{}' does not exist or you don't have access", "a"))
    );
    assert_eq!(
        Failure::DirOverwrittenByFile.describe("src/file", "dst/dir"),
        Some(format!(
            "Cannot to overwrite directory '{}' with file '{}'",
            "dst/dir", "src/file"
        ))
    );
    assert_eq!(
        Failure::FileOverwrittenByDir.describe("src/dir", "dst/file"),
        Some(format!(
            "Cannot to overwrite file '{}' with directory '{}'",
            "dst/file", "src/dir"
        ))
    );
    assert_eq!(Failure::Operation(Operation::Rename).describe("a", "b"), None);
}
