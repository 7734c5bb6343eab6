use ouch::archive::FileEntry;
use ouch::cli::Command;
use ouch::commands::{
    compress_files, decompress_file, overwrite_policy, run, step, Action, Cleanup, Event,
    Extraction, Job, Notice, Outcome, Overwrite, Reaction, State,
};
use ouch::error::Error;
use ouch::format::CompressionFormat;
use ouch::oof::Flags;

use CompressionFormat::{Gzip, Tar, Zip};

fn text(s: &str) -> String {
    String::from(s)
}

fn entry(name: &str, contents: &[u8]) -> FileEntry {
    FileEntry { name: text(name), contents: contents.to_vec() }
}

fn flags(names: &[&str]) -> Flags {
    Flags {
        boolean_flags: names.iter().map(|name| text(name)).collect(),
        argument_flags: vec![],
    }
}

fn compress(files: &[&str], output: &str) -> Command {
    Command::Compress {
        files: files.iter().map(|file| text(file)).collect(),
        output_path: text(output),
    }
}

fn decompress(files: &[&str], folder: Option<&str>) -> Command {
    Command::Decompress {
        files: files.iter().map(|file| text(file)).collect(),
        output_folder: folder.map(text),
    }
}

fn failure(path: &str, reason: &str) -> Event {
    Event::Failed { path: text(path), reason: text(reason) }
}

fn finished(outcome: Outcome) -> Reaction {
    Reaction { state: State::Finished, action: Action::Finish { outcome }, notices: vec![] }
}

fn failed(path: &str, error: Error) -> Reaction {
    finished(Outcome::Failed { path: text(path), error, cleanup: None })
}

fn io_error(reason: &str) -> Error {
    Error::IoError { reason: text(reason) }
}

/// Takes a compression up to the point where the output file is in place
/// and the inputs are being read.
fn reading(files: &[&str], output: &str) -> State {
    let reaction = run(compress(files, output), &Flags::default());
    let reaction = step(reaction.state, Event::Exists(false));
    let reaction = step(reaction.state, Event::Done);
    assert!(matches!(reaction.state, State::Reading { .. }));
    reaction.state
}

#[test]
fn help_and_version_are_shown_and_that_is_all() {
    let reaction = run(Command::ShowHelp, &Flags::default());
    assert_eq!(
        reaction,
        Reaction { state: State::Showing, action: Action::ShowHelp, notices: vec![] }
    );
    assert_eq!(step(reaction.state, Event::Done), finished(Outcome::Done));

    let reaction = run(Command::ShowVersion, &Flags::default());
    assert_eq!(
        reaction,
        Reaction { state: State::Showing, action: Action::ShowVersion, notices: vec![] }
    );
    assert_eq!(step(reaction.state, Event::Done), finished(Outcome::Done));
}

#[test]
fn flags_decide_about_overwriting() {
    assert_eq!(overwrite_policy(&flags(&[])), Overwrite::Ask);
    assert_eq!(overwrite_policy(&flags(&["yes"])), Overwrite::Always);
    assert_eq!(overwrite_policy(&flags(&["no"])), Overwrite::Never);
    assert_eq!(overwrite_policy(&flags(&["no", "yes"])), Overwrite::Ask);
    assert_eq!(overwrite_policy(&flags(&["other"])), Overwrite::Ask);
}

#[test]
fn two_files_into_a_compressor_fail_before_anything_is_created() {
    let reaction = run(compress(&["a", "b"], "out.gz"), &Flags::default());
    assert_eq!(
        reaction,
        failed("out.gz", Error::MultipleFilesToCompressorOnlyFormat { format: Gzip })
    );
    let reaction = run(compress(&["a", "b", "c"], "dir/out.xz.bz2"), &flags(&["yes"]));
    assert_eq!(
        reaction,
        failed(
            "dir/out.xz.bz2",
            Error::MultipleFilesToCompressorOnlyFormat { format: CompressionFormat::Lzma }
        )
    );
}

#[test]
fn a_bundler_in_the_wrong_place_fails_before_anything_is_created() {
    for files in [vec!["a"], vec!["a", "b"]] {
        let reaction = run(compress(&files, "out.zip.tar"), &Flags::default());
        assert_eq!(
            reaction,
            failed("out.zip.tar", Error::MisplacedBundlerFormat { format: Tar, position: 1 })
        );
    }
}

#[test]
fn an_output_without_extension_fails_before_anything_is_created() {
    for files in [vec!["a"], vec!["a", "b"]] {
        let reaction = run(compress(&files, "out"), &Flags::default());
        assert_eq!(reaction, failed("out", Error::NoRecognizedExtensions));
    }
    // Extensions of the folders on the way do not count.
    let reaction = run(compress(&["a"], "backup.tar/out"), &Flags::default());
    assert_eq!(reaction, failed("backup.tar/out", Error::NoRecognizedExtensions));
}

#[test]
fn compression_goes_step_by_step() {
    let reaction = run(compress(&["/in/a", "/in/b"], "/out/both.tar.gz"), &Flags::default());
    assert_eq!(reaction.action, Action::ProbeOutput { path: text("/out/both.tar.gz") });
    assert!(reaction.notices.is_empty());

    let reaction = step(reaction.state, Event::Exists(false));
    assert_eq!(reaction.action, Action::CreateOutput { path: text("/out/both.tar.gz") });

    let reaction = step(reaction.state, Event::Done);
    assert_eq!(reaction.action, Action::ReadInputs { paths: vec![text("/in/a"), text("/in/b")] });
    assert_eq!(
        reaction.state,
        State::Reading { formats: vec![Tar, Gzip], output: text("/out/both.tar.gz") }
    );

    let files = vec![entry("a", b"alpha"), entry("b", b"beta")];
    let reaction = step(reaction.state, Event::Inputs(vec![entry("a", b"alpha"), entry("b", b"beta")]));
    assert_eq!(reaction.state, State::Writing { output: text("/out/both.tar.gz") });
    let bytes = match reaction.action {
        Action::WriteOutput { path, bytes } => {
            assert_eq!(path, "/out/both.tar.gz");
            bytes
        }
        other => panic!("{:?}", other),
    };
    assert_eq!(bytes, compress_files(&files, &vec![Tar, Gzip]).unwrap());
    assert_eq!(decompress_file(bytes, &vec![Tar, Gzip], "both").unwrap(), files);

    let reaction = step(reaction.state, Event::Done);
    assert_eq!(
        reaction,
        Reaction {
            state: State::Finished,
            action: Action::Finish { outcome: Outcome::Done },
            notices: vec![Notice::Compressed { path: text("/out/both.tar.gz") }],
        }
    );
}

#[test]
fn an_existing_output_is_overwritten_only_with_leave() {
    // --yes: no question asked.
    let reaction = run(compress(&["a"], "out.tar"), &flags(&["yes"]));
    let reaction = step(reaction.state, Event::Exists(true));
    assert_eq!(reaction.action, Action::CreateOutput { path: text("out.tar") });

    // --no: nothing is touched.
    let reaction = run(compress(&["a"], "out.tar"), &flags(&["no"]));
    let reaction = step(reaction.state, Event::Exists(true));
    assert_eq!(reaction, finished(Outcome::Declined));

    // Neither: the user is asked, and may decline.
    let reaction = run(compress(&["a"], "out.tar"), &Flags::default());
    let reaction = step(reaction.state, Event::Exists(true));
    assert_eq!(reaction.action, Action::ConfirmOverwrite { path: text("out.tar") });
    let reaction = step(reaction.state, Event::Answer(false));
    assert_eq!(reaction, finished(Outcome::Declined));

    // Or agree.
    let reaction = run(compress(&["a"], "out.tar"), &Flags::default());
    let reaction = step(reaction.state, Event::Exists(true));
    let reaction = step(reaction.state, Event::Answer(true));
    assert_eq!(reaction.action, Action::CreateOutput { path: text("out.tar") });
    assert_eq!(
        reaction.state,
        State::Creating { files: vec![text("a")], formats: vec![Tar], output: text("out.tar") }
    );

    // --no does not stand in the way of a new file.
    let reaction = run(compress(&["a"], "out.tar"), &flags(&["no"]));
    let reaction = step(reaction.state, Event::Exists(false));
    assert_eq!(reaction.action, Action::CreateOutput { path: text("out.tar") });
}

#[test]
fn an_output_that_cannot_be_created_is_not_removed() {
    let reaction = run(compress(&["a"], "out.tar"), &Flags::default());
    let reaction = step(reaction.state, Event::Exists(false));
    let reaction = step(reaction.state, failure("out.tar", "permission denied"));
    assert_eq!(reaction, failed("out.tar", io_error("permission denied")));
}

#[test]
fn a_failed_compression_removes_the_output() {
    // The bundler refuses this name, so compressing into out.tar.gz fails.
    let state = reading(&["a"], "out.tar.gz");
    let reaction = step(state, Event::Inputs(vec![entry("../a", b"alpha")]));
    assert_eq!(reaction.action, Action::RemoveOutput { path: text("out.tar.gz") });
    let cause = match &reaction.state {
        State::Removing { output, path, cause } => {
            assert_eq!(output, "out.tar.gz");
            assert_eq!(path, "out.tar.gz");
            assert!(matches!(cause, Error::IoError { .. }));
            format!("{:?}", cause)
        }
        other => panic!("{:?}", other),
    };
    let reaction = step(reaction.state, Event::Done);
    match reaction.action {
        Action::Finish { outcome: Outcome::Failed { path, error, cleanup } } => {
            assert_eq!(path, "out.tar.gz");
            assert_eq!(format!("{:?}", error), cause);
            assert_eq!(cleanup, None);
        }
        other => panic!("{:?}", other),
    }
    assert_eq!(reaction.state, State::Finished);
}

#[test]
fn inputs_that_cannot_be_read_remove_the_output() {
    let state = reading(&["a"], "out.tar.gz");
    let reaction = step(state, failure("/in/a", "permission denied"));
    assert_eq!(
        reaction,
        Reaction {
            state: State::Removing {
                output: text("out.tar.gz"),
                path: text("/in/a"),
                cause: io_error("permission denied"),
            },
            action: Action::RemoveOutput { path: text("out.tar.gz") },
            notices: vec![],
        }
    );
    // The report names the input, not the output.
    assert_eq!(step(reaction.state, Event::Done), failed("/in/a", io_error("permission denied")));

    let state = reading(&["a"], "out.tar.gz");
    let reaction = step(state, Event::NotFound { path: text("/in/a") });
    assert_eq!(reaction.action, Action::RemoveOutput { path: text("out.tar.gz") });
    assert_eq!(
        step(reaction.state, Event::Done),
        failed("/in/a", Error::FileNotFound { path: text("/in/a") })
    );
}

#[test]
fn a_failed_write_removes_the_output() {
    let state = reading(&["a"], "out.zip");
    let reaction = step(state, Event::Inputs(vec![entry("a", b"alpha")]));
    assert!(matches!(reaction.action, Action::WriteOutput { .. }));
    let reaction = step(reaction.state, failure("out.zip", "disk full"));
    assert_eq!(reaction.action, Action::RemoveOutput { path: text("out.zip") });
    assert_eq!(step(reaction.state, Event::Done), failed("out.zip", io_error("disk full")));
}

#[test]
fn a_failed_removal_is_reported_beside_the_failure() {
    let state = reading(&["a"], "out.tar");
    let reaction = step(state, failure("/in/a", "permission denied"));
    let reaction = step(reaction.state, failure("out.tar", "read-only file system"));
    assert_eq!(
        reaction,
        finished(Outcome::Failed {
            path: text("/in/a"),
            error: io_error("permission denied"),
            cleanup: Some(Cleanup {
                output: text("out.tar"),
                reason: text("read-only file system"),
            }),
        })
    );
}

#[test]
fn a_folder_of_several_files_does_not_fit_a_compressor() {
    // One path was given, so the names passed. The path turns out to be a
    // folder with two files in it.
    let state = reading(&["folder"], "out.gz");
    let reaction = step(state, Event::Inputs(vec![entry("folder/a", b"1"), entry("folder/b", b"2")]));
    assert_eq!(
        reaction,
        Reaction {
            state: State::Removing {
                output: text("out.gz"),
                path: text("out.gz"),
                cause: Error::MultipleFilesToCompressorOnlyFormat { format: Gzip },
            },
            action: Action::RemoveOutput { path: text("out.gz") },
            notices: vec![],
        }
    );
    let state = reading(&["folder"], "out.gz");
    let reaction = step(state, Event::Inputs(vec![]));
    assert_eq!(
        reaction.state,
        State::Removing {
            output: text("out.gz"),
            path: text("out.gz"),
            cause: Error::MissingArgumentsForCompression,
        }
    );
}

#[test]
fn a_single_file_goes_through_a_compressor() {
    let state = reading(&["notes.txt"], "notes.txt.gz");
    let reaction = step(state, Event::Inputs(vec![entry("notes.txt", b"remember")]));
    let bytes = match reaction.action {
        Action::WriteOutput { bytes, .. } => bytes,
        other => panic!("{:?}", other),
    };
    assert_eq!(&bytes[..2], &[0x1f, 0x8b]);
    assert_eq!(
        decompress_file(bytes, &vec![Gzip], "notes.txt"),
        Ok(vec![entry("notes.txt", b"remember")])
    );
}

#[test]
fn zip_is_announced_as_held_in_memory() {
    let reaction = run(compress(&["a"], "out.zip.gz"), &Flags::default());
    assert_eq!(reaction.notices, vec![Notice::HoldsArchiveInMemory { path: text("out.zip.gz") }]);
    let reaction = run(compress(&["a"], "out.zip"), &Flags::default());
    assert_eq!(reaction.notices, vec![Notice::HoldsArchiveInMemory { path: text("out.zip") }]);
    let reaction = run(compress(&["a"], "out.tar.gz"), &Flags::default());
    assert!(reaction.notices.is_empty());

    let archive = compress_files(&vec![entry("a", b"alpha")], &vec![Zip, Gzip]).unwrap();
    let reaction = run(decompress(&["in.zip.gz"], None), &Flags::default());
    assert!(reaction.notices.is_empty());
    let reaction = step(reaction.state, Event::Archive(archive));
    assert_eq!(reaction.notices, vec![Notice::HoldsArchiveInMemory { path: text("in.zip.gz") }]);
}

#[test]
fn decompression_goes_archive_by_archive_and_file_by_file() {
    let first = compress_files(&vec![entry("a", b"alpha"), entry("b", b"beta")], &vec![Tar]).unwrap();
    let second = compress_files(&vec![entry("c", b"gamma")], &vec![Gzip]).unwrap();
    let jobs = || {
        vec![
            Job { archive: text("/in/one.tar"), formats: vec![Tar], output_name: text("one") },
            Job { archive: text("/in/two.txt.gz"), formats: vec![Gzip], output_name: text("two.txt") },
        ]
    };
    let extraction = |current: usize, files: Vec<FileEntry>| Extraction {
        jobs: jobs(),
        current,
        folder: text("out"),
        overwrite: Overwrite::Ask,
        files,
    };

    let reaction = run(decompress(&["/in/one.tar", "/in/two.txt.gz"], Some("out")), &flags(&[]));
    assert_eq!(reaction.action, Action::ReadArchive { path: text("/in/one.tar") });
    assert_eq!(
        reaction.state,
        State::Unpacking { jobs: jobs(), current: 0, folder: text("out"), overwrite: Overwrite::Ask }
    );

    // The folder is made first.
    let reaction = step(reaction.state, Event::Archive(first));
    assert_eq!(reaction.action, Action::CreateFolder { path: text("out") });
    assert_eq!(
        reaction.state,
        State::MakingFolder(extraction(0, vec![entry("a", b"alpha"), entry("b", b"beta")]))
    );

    // A file that is not there is written without a question.
    let reaction = step(reaction.state, Event::Done);
    assert_eq!(reaction.action, Action::ProbeOutput { path: text("out/a") });
    let reaction = step(reaction.state, Event::Exists(false));
    assert_eq!(reaction.action, Action::WriteFile { path: text("out/a"), bytes: b"alpha".to_vec() });
    assert_eq!(reaction.state, State::WritingFile(extraction(0, vec![entry("b", b"beta")])));

    // One that is there is asked about, and left alone if the user says so.
    let reaction = step(reaction.state, Event::Done);
    assert_eq!(reaction.action, Action::ProbeOutput { path: text("out/b") });
    let reaction = step(reaction.state, Event::Exists(true));
    assert_eq!(reaction.action, Action::ConfirmOverwrite { path: text("out/b") });
    let reaction = step(reaction.state, Event::Answer(false));

    // That was the last file of the first archive.
    assert_eq!(reaction.notices, vec![Notice::Decompressed { path: text("/in/one.tar") }]);
    assert_eq!(reaction.action, Action::ReadArchive { path: text("/in/two.txt.gz") });

    let reaction = step(reaction.state, Event::Archive(second));
    assert_eq!(reaction.action, Action::CreateFolder { path: text("out") });
    let reaction = step(reaction.state, Event::Done);
    assert_eq!(reaction.action, Action::ProbeOutput { path: text("out/two.txt") });
    let reaction = step(reaction.state, Event::Exists(true));
    let reaction = step(reaction.state, Event::Answer(true));
    assert_eq!(
        reaction.action,
        Action::WriteFile { path: text("out/two.txt"), bytes: b"gamma".to_vec() }
    );
    let reaction = step(reaction.state, Event::Done);
    assert_eq!(
        reaction,
        Reaction {
            state: State::Finished,
            action: Action::Finish { outcome: Outcome::Done },
            notices: vec![Notice::Decompressed { path: text("/in/two.txt.gz") }],
        }
    );
}

#[test]
fn flags_decide_about_files_that_exist() {
    let archive = || compress_files(&vec![entry("a", b"alpha"), entry("b", b"beta")], &vec![Zip]).unwrap();

    // --yes: written without a question.
    let reaction = run(decompress(&["x.zip"], None), &flags(&["yes"]));
    let reaction = step(reaction.state, Event::Archive(archive()));
    let reaction = step(reaction.state, Event::Done);
    let reaction = step(reaction.state, Event::Exists(true));
    assert_eq!(reaction.action, Action::WriteFile { path: text("./a"), bytes: b"alpha".to_vec() });

    // --no: left alone without a question, and on to the next.
    let reaction = run(decompress(&["x.zip"], None), &flags(&["no"]));
    let reaction = step(reaction.state, Event::Archive(archive()));
    let reaction = step(reaction.state, Event::Done);
    let reaction = step(reaction.state, Event::Exists(true));
    assert_eq!(reaction.action, Action::ProbeOutput { path: text("./b") });
    let reaction = step(reaction.state, Event::Exists(true));
    assert_eq!(reaction.action, Action::Finish { outcome: Outcome::Done });
}

#[test]
fn without_a_folder_files_go_to_the_current_one() {
    let reaction = run(decompress(&["x.tar"], None), &flags(&[]));
    assert_eq!(
        reaction.state,
        State::Unpacking {
            jobs: vec![Job { archive: text("x.tar"), formats: vec![Tar], output_name: text("x") }],
            current: 0,
            folder: text("."),
            overwrite: Overwrite::Ask,
        }
    );
    let archive = compress_files(&vec![entry("dir/a", b"alpha")], &vec![Tar]).unwrap();
    let reaction = step(reaction.state, Event::Archive(archive));
    assert_eq!(reaction.action, Action::CreateFolder { path: text(".") });
    let reaction = step(reaction.state, Event::Done);
    assert_eq!(reaction.action, Action::ProbeOutput { path: text("./dir/a") });

    // A folder that ends in a slash gets no second one.
    let archive = compress_files(&vec![entry("a", b"alpha")], &vec![Tar]).unwrap();
    let reaction = run(decompress(&["x.tar"], Some("out/")), &flags(&[]));
    let reaction = step(reaction.state, Event::Archive(archive));
    assert_eq!(reaction.action, Action::CreateFolder { path: text("out/") });
    let reaction = step(reaction.state, Event::Done);
    assert_eq!(reaction.action, Action::ProbeOutput { path: text("out/a") });
}

#[test]
fn an_archive_of_no_files_makes_the_folder_and_is_done() {
    let archive = compress_files(&vec![entry("a", b"alpha")], &vec![Tar]).unwrap();
    let empty: Vec<u8> = archive[archive.len() - 1024..].to_vec();
    let reaction = run(decompress(&["x.tar"], Some("out")), &flags(&[]));
    let reaction = step(reaction.state, Event::Archive(empty));
    assert_eq!(reaction.action, Action::CreateFolder { path: text("out") });
    let reaction = step(reaction.state, Event::Done);
    assert_eq!(reaction.action, Action::Finish { outcome: Outcome::Done });
    assert_eq!(reaction.notices, vec![Notice::Decompressed { path: text("x.tar") }]);
}

#[test]
fn an_archive_without_known_extension_stops_everything_at_once() {
    let reaction = run(decompress(&["one.tar", "two.txt", "three"], None), &Flags::default());
    assert_eq!(reaction, failed("two.txt", Error::UnsupportedInputFormat));
    let reaction = run(decompress(&["x.gz.tar"], None), &Flags::default());
    assert_eq!(
        reaction,
        failed("x.gz.tar", Error::MisplacedBundlerFormat { format: Tar, position: 1 })
    );
    let reaction = run(decompress(&[], None), &Flags::default());
    assert_eq!(reaction, finished(Outcome::Done));
}

#[test]
fn a_broken_archive_ends_the_command() {
    let reaction = run(decompress(&["one.tar.gz", "two.tar"], None), &Flags::default());
    let reaction = step(reaction.state, Event::Archive(b"this is no gzip stream".to_vec()));
    match reaction.action {
        Action::Finish { outcome: Outcome::Failed { path, error, cleanup } } => {
            assert_eq!(path, "one.tar.gz");
            assert!(matches!(error, Error::CorruptOrUnreadableArchive { format: Gzip, .. }));
            assert_eq!(cleanup, None);
        }
        other => panic!("{:?}", other),
    }
    assert_eq!(reaction.state, State::Finished);

    let reaction = run(decompress(&["one.tar"], None), &Flags::default());
    let reaction = step(reaction.state, Event::NotFound { path: text("one.tar") });
    assert_eq!(reaction, failed("one.tar", Error::FileNotFound { path: text("one.tar") }));
}

#[test]
fn files_that_cannot_be_written_end_the_command() {
    let archive = compress_files(&vec![entry("a", b"alpha")], &vec![Tar]).unwrap();
    let reaction = run(decompress(&["one.tar", "two.tar"], None), &Flags::default());
    let reaction = step(reaction.state, Event::Archive(archive));
    let reaction = step(reaction.state, Event::Done);
    let reaction = step(reaction.state, Event::Exists(false));
    let reaction = step(reaction.state, failure("./a", "disk full"));
    assert_eq!(reaction, failed("./a", io_error("disk full")));

    // A folder that cannot be made ends the command too.
    let archive = compress_files(&vec![entry("a", b"alpha")], &vec![Tar]).unwrap();
    let reaction = run(decompress(&["one.tar"], Some("out")), &Flags::default());
    let reaction = step(reaction.state, Event::Archive(archive));
    let reaction = step(reaction.state, failure("out", "permission denied"));
    assert_eq!(reaction, failed("out", io_error("permission denied")));
}

#[test]
fn an_archive_cannot_place_files_outside_the_folder() {
    let archive = compress_files(&vec![entry("../../etc/passwd", b"root")], &vec![Zip]).unwrap();
    let reaction = run(decompress(&["gift.zip"], Some("out")), &Flags::default());
    let reaction = step(reaction.state, Event::Archive(archive));
    assert_eq!(
        reaction,
        failed("gift.zip", Error::UnsafeEntryName { name: text("../../etc/passwd") })
    );
    // Nor can the name of the archive itself.
    assert_eq!(
        decompress_file(vec![], &vec![Gzip], ".."),
        Err(Error::UnsafeEntryName { name: text("..") })
    );
}

#[test]
fn events_that_were_not_asked_for_end_the_command() {
    let reaction = run(compress(&["a"], "out.tar"), &Flags::default());
    let reaction = step(reaction.state, Event::Done);
    match reaction.action {
        Action::Finish { outcome: Outcome::Failed { path, error, cleanup } } => {
            assert_eq!(path, "out.tar");
            assert!(matches!(error, Error::IoError { .. }));
            assert_eq!(cleanup, None);
        }
        other => panic!("{:?}", other),
    }
    // With the output in place, it is removed first.
    let reaction = step(reading(&["a"], "out.tar"), Event::Exists(true));
    assert_eq!(reaction.action, Action::RemoveOutput { path: text("out.tar") });
    let reaction = step(reaction.state, Event::Answer(true));
    match reaction.action {
        Action::Finish { outcome: Outcome::Failed { path, cleanup, .. } } => {
            assert_eq!(path, "out.tar");
            assert_eq!(cleanup.map(|left| left.output), Some(text("out.tar")));
        }
        other => panic!("{:?}", other),
    }
    assert_eq!(step(State::Finished, Event::Done), finished(Outcome::Done));
}

#[test]
fn chains_are_checked_again_when_compressing() {
    let files = vec![entry("a", b"1"), entry("b", b"2")];
    assert_eq!(compress_files(&files, &vec![]), Err(Error::NoRecognizedExtensions));
    assert_eq!(
        compress_files(&files, &vec![Gzip]),
        Err(Error::MultipleFilesToCompressorOnlyFormat { format: Gzip })
    );
    assert_eq!(
        compress_files(&files, &vec![Zip, Tar]),
        Err(Error::MisplacedBundlerFormat { format: Tar, position: 1 })
    );
    assert_eq!(compress_files(&vec![], &vec![Tar]), Err(Error::MissingArgumentsForCompression));
    assert_eq!(decompress_file(vec![], &vec![], "x"), Err(Error::UnsupportedInputFormat));
    assert_eq!(
        decompress_file(vec![], &vec![Tar, Zip], "x"),
        Err(Error::MisplacedBundlerFormat { format: Zip, position: 1 })
    );
}

#[test]
fn an_archive_that_does_not_read_back_is_not_written() {
    // zip takes this name for the mark of a 64-bit directory.
    let state = reading(&["a"], "out.zip");
    let reaction = step(state, Event::Inputs(vec![entry("PK\u{6}\u{7}0123456789abcdef", b"data")]));
    assert_eq!(
        reaction,
        Reaction {
            state: State::Removing {
                output: text("out.zip"),
                path: text("out.zip"),
                cause: Error::NotReadBack { format: Zip },
            },
            action: Action::RemoveOutput { path: text("out.zip") },
            notices: vec![],
        }
    );
}

#[test]
fn an_output_that_is_gone_already_needs_no_removal() {
    let state = reading(&["a"], "out.tar");
    let reaction = step(state, failure("/in/a", "permission denied"));
    let reaction = step(reaction.state, Event::NotFound { path: text("out.tar") });
    assert_eq!(reaction, failed("/in/a", io_error("permission denied")));
}
