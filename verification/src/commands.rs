//! Carrying out a command.
//!
//! Nothing in this crate touches the file system or the terminal. A command
//! is carried out in steps: `run` and `step` say what is to be done next,
//! the caller does it and reports back what came of it. All that is decided
//! on the way is decided here: whether the names make sense, whether to ask
//! before a file is overwritten, where a file that comes out of an archive
//! goes, what to do with an output file when something has failed.

use vstd::prelude::*;
use vstd::string::*;
use crate::archive::names::{all_safe, joined, joined_path, safe_name};
use crate::archive::{
    bundle_packed,
    entries_of,
    reports,
    same_files,
    unpacked,
    FileEntry,
    Unpacked,
};
use crate::chain::{
    check_compression,
    check_decompression,
    compression_fault,
    decompression_fault,
    lemma_faultless_is_well_formed,
};
use crate::cli::Command;
use crate::error::Error;
use crate::extension::{
    base_name,
    extension_chain,
    extensions_from_path,
    separate_known_extensions_from_name,
};
use crate::format::CompressionFormat;
use crate::oof::{texts, Flags, FlagsView};
use crate::pipeline::{
    compressed,
    decompressed,
    given_back,
    lemma_decompressed_files_are_safe,
    plan_compression,
    plan_decompression,
    read_back,
    run_compression,
    run_decompression,
};
use crate::text::{file_name_of, final_component};

verus! {

/// The names of a list of files.
pub open spec fn names_among(files: Seq<FileEntry>) -> Seq<Seq<char>> {
    files.map_values(|file: FileEntry| file.name@)
}

/// The names of a list of files.
fn names_of(files: &Vec<FileEntry>) -> (names: Vec<String>)
    ensures
        names@.len() == files@.len(),
        texts(names@) == names_among(files@),
{
    let mut names: Vec<String> = Vec::new();
    let mut at: usize = 0;
    assert(texts(names@) =~= names_among(files@.take(0)));
    while at < files.len()
        invariant
            at <= files.len(),
            names@.len() == at,
            texts(names@) == names_among(files@.take(at as int)),
        decreases files.len() - at,
    {
        let ghost before = texts(names@);
        names.push(files[at].name.clone());
        assert(texts(names@) =~= before.push(files@[at as int].name@));
        assert(names_among(files@.take(at + 1)) =~= names_among(files@.take(at as int)).push(
            files@[at as int].name@,
        ));
        at += 1;
    }
    assert(files@.take(at as int) =~= files@);
    names
}

/// Compresses `files` into one archive, as the chain `formats` says. A chain
/// that does not pass for these files is reported and nothing is done.
///
/// The archive is the one that `compressed` describes; where there is none,
/// because the bundler or a compressor gives nothing back, that is reported
/// as an `IoError`. Decompressing the archive with the same chain gives
/// what `read_back` describes: for a chain of compressors, the contents of
/// the one file; for a chain with a bundler, whatever the bundler reads
/// back from the archive that it wrote.
pub fn compress_files(files: &Vec<FileEntry>, formats: &Vec<CompressionFormat>) -> (result: Result<
    Vec<u8>,
    Error,
>)
    ensures
        match compression_fault(formats@, files@.len()) {
            Some(error) => result == Err::<Vec<u8>, Error>(error),
            None => match compressed(formats@, entries_of(files@)) {
                Some(bytes) => result matches Ok(archive) && archive@ == bytes && forall|
                    name: Seq<char>,
                |
                    decompressed(formats@, bytes, name) == read_back(
                        formats@,
                        entries_of(files@),
                        name,
                    ),
                None => result matches Err(error) && error is IoError,
            },
        },
{
    let plan = match plan_compression(formats, names_of(files)) {
        Ok(plan) => plan,
        Err(error) => {
            return Err(error);
        },
    };
    proof {
        lemma_faultless_is_well_formed(formats@, files@.len());
    }
    run_compression(&plan, files)
}

/// Whether the files come out again when their archive is unpacked. A
/// chain of compressors keeps no names, and there is nothing to unpack.
pub open spec fn reads_back(chain: Seq<CompressionFormat>, entries: Seq<(Seq<char>, Seq<u8>)>) -> bool {
    chain[0].bundles() ==> bundle_packed(chain[0], entries) is Some && unpacked(
        chain[0],
        bundle_packed(chain[0], entries)->0,
    ) == Unpacked::Files(entries)
}

/// Whether decompressing `archive` gives back the files that `entries`
/// describes; for a chain of compressors, the contents of the one file
/// under whatever safe name is asked for.
pub open spec fn round_trips(
    chain: Seq<CompressionFormat>,
    entries: Seq<(Seq<char>, Seq<u8>)>,
    archive: Seq<u8>,
) -> bool {
    forall|name: Seq<char>|
        chain[0].bundles() || safe_name(name) ==> #[trigger] decompressed(chain, archive, name)
            == Unpacked::Files(given_back(chain, entries, name))
}

/// Compresses `files` like `compress_files`, and hands the archive out only
/// if decompressing it gives the files back.
///
/// Where the chain has a bundler, the archive is unpacked again and what
/// comes out is held against `files`; if the two differ, `NotReadBack` is
/// reported. So for every archive that this function returns, the round
/// trip holds: decompressing it with the same chain gives the files that
/// went in, with their names, their contents and their order; or, for a
/// chain of compressors, which keeps no names, the contents of the one
/// file.
pub fn compress_and_verify(files: &Vec<FileEntry>, formats: &Vec<CompressionFormat>) -> (result:
    Result<Vec<u8>, Error>)
    ensures
        match compression_fault(formats@, files@.len()) {
            Some(error) => result == Err::<Vec<u8>, Error>(error),
            None => match compressed(formats@, entries_of(files@)) {
                Some(bytes) => if reads_back(formats@, entries_of(files@)) {
                    result matches Ok(archive) && archive@ == bytes && round_trips(
                        formats@,
                        entries_of(files@),
                        bytes,
                    )
                } else {
                    result == Err::<Vec<u8>, Error>(Error::NotReadBack { format: formats@[0] })
                },
                None => result matches Err(error) && error is IoError,
            },
        },
{
    let archive = match compress_files(files, formats) {
        Ok(archive) => archive,
        Err(error) => {
            return Err(error);
        },
    };
    proof {
        lemma_faultless_is_well_formed(formats@, files@.len());
    }
    if !formats[0].is_bundler() {
        return Ok(archive);
    }
    let ghost found = decompressed(formats@, archive@, Seq::<char>::empty());
    assert(forall|name: Seq<char>| decompressed(formats@, archive@, name) == found);
    let same = match decompress_file(archive.clone(), formats, "") {
        Ok(back) => same_files(&back, files),
        Err(_) => false,
    };
    if same {
        Ok(archive)
    } else {
        Err(Error::NotReadBack { format: formats[0] })
    }
}

/// Decompresses `archive`, as the chain `formats` says. A chain that does
/// not pass is reported and nothing is done. Where the chain has no
/// bundler, the one file that comes out is called `output_name`.
pub fn decompress_file(archive: Vec<u8>, formats: &Vec<CompressionFormat>, output_name: &str) -> (result:
    Result<Vec<FileEntry>, Error>)
    ensures
        match decompression_fault(formats@) {
            Some(error) => result == Err::<Vec<FileEntry>, Error>(error),
            None => reports(result, decompressed(formats@, archive@, output_name@)),
        },
        result matches Ok(files) ==> all_safe(entries_of(files@)),
{
    proof {
        lemma_decompressed_files_are_safe(formats@, archive@, output_name@);
    }
    let plan = match plan_decompression(formats) {
        Ok(plan) => plan,
        Err(error) => {
            return Err(error);
        },
    };
    run_decompression(&plan, archive, output_name)
}

/// What to do when a file that is to be written exists already.
#[derive(Clone, Copy, Debug, PartialEq, Eq, Structural)]
pub enum Overwrite {
    /// Overwrite it without asking.
    Always,
    /// Leave it alone without asking.
    Never,
    /// Ask the user.
    Ask,
}

/// What the flags say about overwriting: `--yes` means always, `--no`
/// means never; with neither, or with both, the user is asked.
pub open spec fn policy_of(flags: FlagsView) -> Overwrite {
    if flags.has("yes"@) && !flags.has("no"@) {
        Overwrite::Always
    } else if flags.has("no"@) && !flags.has("yes"@) {
        Overwrite::Never
    } else {
        Overwrite::Ask
    }
}

/// What the flags say about overwriting.
pub fn overwrite_policy(flags: &Flags) -> (policy: Overwrite)
    ensures
        policy == policy_of(flags@),
{
    let yes = flags.is_present("yes");
    let no = flags.is_present("no");
    if yes && !no {
        Overwrite::Always
    } else if no && !yes {
        Overwrite::Never
    } else {
        Overwrite::Ask
    }
}

/// Something that the user should be told while a command is carried out.
#[derive(Debug, PartialEq, Eq)]
pub enum Notice {
    /// The archive at `path` is of a format that cannot be written or read
    /// front to back, so all of it is held in memory at once.
    HoldsArchiveInMemory { path: String },
    /// The archive at `path` has been written.
    Compressed { path: String },
    /// The archive at `path` has been decompressed.
    Decompressed { path: String },
}

/// The output file of a compression that failed could not be removed. It
/// is still in place, and broken.
#[derive(Debug, PartialEq, Eq)]
pub struct Cleanup {
    /// The file that is left.
    pub output: String,
    /// Why it could not be removed.
    pub reason: String,
}

/// How a command ended.
#[derive(Debug, PartialEq, Eq)]
pub enum Outcome {
    /// All of it was done.
    Done,
    /// The user did not want the output overwritten. Nothing was changed.
    Declined,
    /// It failed with `error`, on the file at `path`. Where the output file
    /// was to be removed after the failure and could not be, `cleanup` says
    /// so.
    Failed { path: String, error: Error, cleanup: Option<Cleanup> },
}

/// What the caller is asked to do next.
#[derive(Debug, PartialEq, Eq)]
pub enum Action {
    /// Find out whether a file exists at `path`. Answer with `Exists`.
    ProbeOutput { path: String },
    /// Ask the user whether the file at `path` may be overwritten. Answer
    /// with `Answer`.
    ConfirmOverwrite { path: String },
    /// Create an empty file at `path`, in place of what may be there.
    CreateOutput { path: String },
    /// Read the files at `paths`, and those in the folders among them.
    /// Answer with `Inputs`.
    ReadInputs { paths: Vec<String> },
    /// Write `bytes` to the file at `path`.
    WriteOutput { path: String, bytes: Vec<u8> },
    /// Remove the file at `path`.
    RemoveOutput { path: String },
    /// Read the file at `path`. Answer with `Archive`.
    ReadArchive { path: String },
    /// Create the folder at `path`, and those above it, unless they exist.
    CreateFolder { path: String },
    /// Write `bytes` to the file at `path`, creating the folders above it
    /// that do not exist.
    WriteFile { path: String, bytes: Vec<u8> },
    /// Show how the program is used.
    ShowHelp,
    /// Show the version of the program.
    ShowVersion,
    /// Nothing is left to do.
    Finish { outcome: Outcome },
}

/// What came of the action that was asked for.
#[derive(Debug, PartialEq, Eq)]
pub enum Event {
    /// Whether the file exists.
    Exists(bool),
    /// Whether the user agreed.
    Answer(bool),
    /// The action was carried out.
    Done,
    /// The action failed on the file at `path`, for this reason.
    Failed { path: String, reason: String },
    /// The action failed because nothing exists at `path`.
    NotFound { path: String },
    /// The files that were read, each under its name relative to the folder
    /// of the path it was found through.
    Inputs(Vec<FileEntry>),
    /// The bytes of the archive that was read.
    Archive(Vec<u8>),
}

/// An archive that is to be decompressed.
#[derive(Debug, PartialEq, Eq)]
pub struct Job {
    /// Where the archive is.
    pub archive: String,
    /// The chain read off its name.
    pub formats: Vec<CompressionFormat>,
    /// Its name without the extensions of the chain.
    pub output_name: String,
}

/// The files of one archive on their way into the output folder.
#[derive(Debug, PartialEq, Eq)]
pub struct Extraction {
    /// All the archives of the command.
    pub jobs: Vec<Job>,
    /// The one that is being worked on.
    pub current: usize,
    /// The folder that the files are written under.
    pub folder: String,
    /// What to do about files that exist.
    pub overwrite: Overwrite,
    /// The files that are not written yet; the first is the next.
    pub files: Vec<FileEntry>,
}

/// Where the carrying out of a command stands.
#[derive(Debug, PartialEq, Eq)]
pub enum State {
    /// Compressing: it is being found out whether the output exists.
    Probing { files: Vec<String>, formats: Vec<CompressionFormat>, output: String, overwrite: Overwrite },
    /// Compressing: the user is being asked whether to overwrite the output.
    Confirming { files: Vec<String>, formats: Vec<CompressionFormat>, output: String },
    /// Compressing: the output file is being created.
    Creating { files: Vec<String>, formats: Vec<CompressionFormat>, output: String },
    /// Compressing: the output file is in place, the inputs are being read.
    Reading { formats: Vec<CompressionFormat>, output: String },
    /// Compressing: the archive is being written to the output file.
    Writing { output: String },
    /// Compressing has failed with `cause` on the file at `path`: the
    /// output file is being removed. (If it turns out not to be there,
    /// nothing is left to remove.)
    Removing { output: String, path: String, cause: Error },
    /// Decompressing: the archive of the job at `current` is being read.
    Unpacking { jobs: Vec<Job>, current: usize, folder: String, overwrite: Overwrite },
    /// Decompressing: the output folder is being created.
    MakingFolder(Extraction),
    /// Decompressing: it is being found out whether the next file exists.
    ProbingFile(Extraction),
    /// Decompressing: the user is being asked whether to overwrite the next
    /// file.
    ConfirmingFile(Extraction),
    /// Decompressing: a file is being written.
    WritingFile(Extraction),
    /// Help or the version is being shown.
    Showing,
    /// Nothing is left to do.
    Finished,
}

impl State {
    /// Whether the output file of a compression is in place: it has been
    /// created, and its removal has not been reported.
    pub open spec fn holds_output(self) -> bool {
        self is Reading || self is Writing || self is Removing
    }
}

/// Whether `path` and `error` are the report owed for `event`, which is not
/// what was asked for. A failure is reported with the path it names: as
/// `FileNotFound` where nothing exists there, else as `IoError` with the
/// reason. Anything else is laid to `fallback`, as an `IoError`.
pub open spec fn blames(event: Event, fallback: String, path: String, error: Error) -> bool {
    match event {
        Event::Failed { path: failed, reason } => path == failed && error == (Error::IoError {
            reason,
        }),
        Event::NotFound { path: missing } => path == missing && error == (Error::FileNotFound {
            path: missing,
        }),
        _ => path == fallback && error is IoError,
    }
}

/// What follows from an event: where things stand now, what is to be done
/// next, and what the user should be told.
#[derive(Debug, PartialEq, Eq)]
pub struct Reaction {
    pub state: State,
    pub action: Action,
    pub notices: Vec<Notice>,
}

impl Reaction {
    /// In `state`, asking for `action`, with nothing to tell.
    pub open spec fn goes(self, state: State, action: Action) -> bool {
        self.state == state && self.action == action && self.notices@.len() == 0
    }

    /// At the end, with `outcome`, with nothing to tell.
    pub open spec fn ends(self, outcome: Outcome) -> bool {
        self.goes(State::Finished, Action::Finish { outcome })
    }

    /// At the end, with the report owed for `event`.
    pub open spec fn ends_blaming(self, event: Event, fallback: String) -> bool {
        &&& self.state is Finished
        &&& self.notices@.len() == 0
        &&& self.action matches Action::Finish { outcome: Outcome::Failed { path, error, cleanup } }
        &&& blames(event, fallback, path, error)
        &&& cleanup is None
    }

    /// Asking for the output file at `output` to be removed, because of
    /// `cause` on the file at `path`.
    pub open spec fn removes(self, output: String, path: String, cause: Error) -> bool {
        self.goes(State::Removing { output, path, cause }, Action::RemoveOutput { path: output })
    }

    /// Asking for the output file at `output` to be removed, for a failure
    /// to write the archive into memory.
    pub open spec fn removes_on_io_error(self, output: String) -> bool {
        &&& self.notices@.len() == 0
        &&& self.action == Action::RemoveOutput { path: output }
        &&& self.state matches State::Removing { output: held, path, cause }
        &&& held == output
        &&& path == output
        &&& cause is IoError
    }

    /// Asking for the output file at `output` to be removed, with the
    /// report owed for `event`.
    pub open spec fn removes_blaming(self, event: Event, output: String) -> bool {
        &&& self.notices@.len() == 0
        &&& self.action == Action::RemoveOutput { path: output }
        &&& self.state matches State::Removing { output: held, path, cause }
        &&& held == output
        &&& blames(event, output, path, cause)
    }
}

/// The job for the archive at `path`.
pub open spec fn job_view(job: Job) -> (Seq<char>, Seq<CompressionFormat>, Seq<char>) {
    (job.archive@, job.formats@, job.output_name@)
}

/// The job that decompressing the archive at `path` comes to.
pub open spec fn job_for(path: Seq<char>) -> (Seq<char>, Seq<CompressionFormat>, Seq<char>) {
    (path, extension_chain(final_component(path)), base_name(final_component(path)))
}

/// The first of the archives at `paths` whose chain does not pass, with
/// what is wrong with it.
pub open spec fn first_refused(paths: Seq<String>) -> Option<(String, Error)>
    decreases paths.len(),
{
    if paths.len() == 0 {
        None
    } else {
        match decompression_fault(job_for(paths[0]@).1) {
            Some(error) => Some((paths[0], error)),
            None => first_refused(paths.drop_first()),
        }
    }
}

/// The folder that files are written under: the one that was asked for,
/// or the current folder.
pub open spec fn folder_or_current(folder: Option<String>) -> Seq<char> {
    match folder {
        Some(path) => path@,
        None => "."@,
    }
}

/// The notices owed when work on an archive with this chain begins.
pub open spec fn warns_of_memory(notices: Seq<Notice>, formats: Seq<CompressionFormat>, path: String) -> bool {
    if formats.len() > 0 && !formats[0].streams() {
        notices == seq![Notice::HoldsArchiveInMemory { path }]
    } else {
        notices.len() == 0
    }
}

/// The notices owed when work on an archive with this chain begins.
fn memory_notices(formats: &Vec<CompressionFormat>, path: &String) -> (notices: Vec<Notice>)
    ensures
        warns_of_memory(notices@, formats@, *path),
{
    let mut notices: Vec<Notice> = Vec::new();
    if formats.len() > 0 && !formats[0].is_streaming() {
        notices.push(Notice::HoldsArchiveInMemory { path: path.clone() });
        assert(notices@ =~= seq![Notice::HoldsArchiveInMemory { path: *path }]);
    }
    notices
}

/// The end of a command, with `outcome`.
fn end(outcome: Outcome) -> (reaction: Reaction)
    ensures
        reaction.ends(outcome),
{
    Reaction { state: State::Finished, action: Action::Finish { outcome }, notices: Vec::new() }
}

/// The end of a command that failed on the file at `path`.
fn fail(path: String, error: Error) -> (reaction: Reaction)
    ensures
        reaction.ends(Outcome::Failed { path, error, cleanup: None }),
{
    end(Outcome::Failed { path, error, cleanup: None })
}

/// The report owed for an event that is not what was asked for.
fn blame(event: Event, fallback: String) -> (report: (String, Error))
    ensures
        blames(event, fallback, report.0, report.1),
{
    match event {
        Event::Failed { path, reason } => (path, Error::IoError { reason }),
        Event::NotFound { path } => (path.clone(), Error::FileNotFound { path }),
        _ => (fallback, Error::IoError { reason: String::from_str("unexpected event") }),
    }
}

/// The end of a command after an event that is not what was asked for.
fn fail_blaming(event: Event, fallback: String) -> (reaction: Reaction)
    ensures
        reaction.ends_blaming(event, fallback),
{
    let (path, error) = blame(event, fallback);
    fail(path, error)
}

/// Turns to removing the output file, after `cause` on the file at `path`.
fn remove(output: String, path: String, cause: Error) -> (reaction: Reaction)
    ensures
        reaction.removes(output, path, cause),
{
    Reaction {
        state: State::Removing { output: output.clone(), path, cause },
        action: Action::RemoveOutput { path: output },
        notices: Vec::new(),
    }
}

/// Turns to removing the output file, after an event that is not what was
/// asked for.
fn remove_blaming(event: Event, output: String) -> (reaction: Reaction)
    ensures
        reaction.removes_blaming(event, output),
{
    let (path, cause) = blame(event, output.clone());
    remove(output, path, cause)
}

/// Turns to creating the output file.
fn create(files: Vec<String>, formats: Vec<CompressionFormat>, output: String) -> (reaction: Reaction)
    ensures
        reaction.goes(
            State::Creating { files, formats, output },
            Action::CreateOutput { path: output },
        ),
{
    Reaction {
        state: State::Creating { files, formats, output: output.clone() },
        action: Action::CreateOutput { path: output },
        notices: Vec::new(),
    }
}

/// Whether `reaction` turns to the job at `current`, or to the end where
/// no job is left.
pub open spec fn turns_to_job(
    reaction: Reaction,
    jobs: Vec<Job>,
    current: int,
    folder: String,
    overwrite: Overwrite,
) -> bool {
    if 0 <= current < jobs@.len() {
        reaction.state == (State::Unpacking { jobs, current: current as usize, folder, overwrite })
            && reaction.action == (Action::ReadArchive { path: jobs@[current].archive })
    } else {
        reaction.state is Finished && reaction.action == (Action::Finish {
            outcome: Outcome::Done,
        })
    }
}

/// Turns to the job at `current`, or to the end where no job is left.
fn unpack_next(
    jobs: Vec<Job>,
    current: usize,
    folder: String,
    overwrite: Overwrite,
    notices: Vec<Notice>,
) -> (reaction: Reaction)
    ensures
        reaction.notices == notices,
        turns_to_job(reaction, jobs, current as int, folder, overwrite),
{
    if current < jobs.len() {
        let path = jobs[current].archive.clone();
        Reaction {
            state: State::Unpacking { jobs, current, folder, overwrite },
            action: Action::ReadArchive { path },
            notices,
        }
    } else {
        Reaction {
            state: State::Finished,
            action: Action::Finish { outcome: Outcome::Done },
            notices,
        }
    }
}

/// Whether `reaction` goes on with the files of an archive of which
/// `remaining` are not written yet: it asks whether the first of them
/// exists under the folder; or, where none is left, it tells that the
/// archive is done and turns to the next.
pub open spec fn continues(
    reaction: Reaction,
    jobs: Vec<Job>,
    current: usize,
    folder: String,
    overwrite: Overwrite,
    remaining: Seq<FileEntry>,
) -> bool {
    if remaining.len() > 0 {
        &&& reaction.notices@.len() == 0
        &&& reaction.action matches Action::ProbeOutput { path }
        &&& path@ == joined(folder@, remaining[0].name@)
        &&& reaction.state matches State::ProbingFile(next)
        &&& next.jobs == jobs
        &&& next.current == current
        &&& next.folder == folder
        &&& next.overwrite == overwrite
        &&& next.files@ == remaining
    } else {
        &&& reaction.notices@ == seq![Notice::Decompressed { path: jobs@[current as int].archive }]
        &&& turns_to_job(reaction, jobs, current + 1, folder, overwrite)
    }
}

/// Goes on with the files of an archive.
fn next_file(extraction: Extraction) -> (reaction: Reaction)
    requires
        extraction.current < extraction.jobs@.len(),
    ensures
        continues(
            reaction,
            extraction.jobs,
            extraction.current,
            extraction.folder,
            extraction.overwrite,
            extraction.files@,
        ),
{
    if extraction.files.len() > 0 {
        let path = joined_path(extraction.folder.as_str(), extraction.files[0].name.as_str());
        Reaction {
            state: State::ProbingFile(extraction),
            action: Action::ProbeOutput { path },
            notices: Vec::new(),
        }
    } else {
        let mut notices: Vec<Notice> = Vec::new();
        assert(extraction.current < extraction.jobs.len());
        let path = extraction.jobs[extraction.current].archive.clone();
        notices.push(Notice::Decompressed { path });
        assert(notices@ =~= seq![Notice::Decompressed { path }]);
        unpack_next(
            extraction.jobs,
            extraction.current + 1,
            extraction.folder,
            extraction.overwrite,
            notices,
        )
    }
}

/// Whether `reaction` hands the first of the files of `extraction` on to be
/// written under the folder, and keeps the others.
pub open spec fn writes_file(reaction: Reaction, extraction: Extraction) -> bool {
    &&& reaction.notices@.len() == 0
    &&& reaction.action matches Action::WriteFile { path, bytes }
    &&& path@ == joined(extraction.folder@, extraction.files@[0].name@)
    &&& bytes == extraction.files@[0].contents
    &&& reaction.state matches State::WritingFile(next)
    &&& next.jobs == extraction.jobs
    &&& next.current == extraction.current
    &&& next.folder == extraction.folder
    &&& next.overwrite == extraction.overwrite
    &&& next.files@ == extraction.files@.drop_first()
}

/// Hands the first of the files on to be written.
fn write_file(extraction: Extraction) -> (reaction: Reaction)
    requires
        extraction.files@.len() > 0,
    ensures
        writes_file(reaction, extraction),
{
    let Extraction { jobs, current, folder, overwrite, files } = extraction;
    let mut files = files;
    let path = joined_path(folder.as_str(), files[0].name.as_str());
    let file = files.remove(0);
    assert(files@ =~= extraction.files@.drop_first());
    Reaction {
        state: State::WritingFile(Extraction { jobs, current, folder, overwrite, files }),
        action: Action::WriteFile { path, bytes: file.contents },
        notices: Vec::new(),
    }
}

/// Leaves the first of the files out, and goes on with the others.
fn skip_file(extraction: Extraction) -> (reaction: Reaction)
    requires
        extraction.current < extraction.jobs@.len(),
        extraction.files@.len() > 0,
    ensures
        continues(
            reaction,
            extraction.jobs,
            extraction.current,
            extraction.folder,
            extraction.overwrite,
            extraction.files@.drop_first(),
        ),
{
    let Extraction { jobs, current, folder, overwrite, files } = extraction;
    let mut files = files;
    files.remove(0);
    assert(files@ =~= extraction.files@.drop_first());
    next_file(Extraction { jobs, current, folder, overwrite, files })
}

/// Whether `reaction` is the first step of decompressing the archives at
/// `files` into `folder`.
pub open spec fn starts_unpacking(
    reaction: Reaction,
    files: Seq<String>,
    folder: Option<String>,
    overwrite: Overwrite,
) -> bool {
    &&& reaction.notices@.len() == 0
    &&& reaction.action == Action::ReadArchive { path: files[0] }
    &&& reaction.state matches State::Unpacking { jobs, current, folder: held, overwrite: policy }
    &&& current == 0
    &&& held@ == folder_or_current(folder)
    &&& policy == overwrite
    &&& jobs@.len() == files.len()
    &&& forall|at: int|
        0 <= at < files.len() ==> (#[trigger] jobs@[at]).archive == files[at] && job_view(jobs@[at])
            == job_for(files[at]@)
}

/// Begins to carry out `command`.
///
/// The names are looked at first. Where a chain does not pass, the command
/// ends at once, with the fault and the path it was found in, and nothing
/// has been asked of the file system.
#[verifier::loop_isolation(false)]
pub fn run(command: Command, flags: &Flags) -> (reaction: Reaction)
    ensures
        match command {
            Command::ShowHelp => reaction.goes(State::Showing, Action::ShowHelp),
            Command::ShowVersion => reaction.goes(State::Showing, Action::ShowVersion),
            Command::Compress { files, output_path } => match compression_fault(
                extension_chain(final_component(output_path@)),
                files@.len(),
            ) {
                Some(error) => reaction.ends(
                    Outcome::Failed { path: output_path, error, cleanup: None },
                ),
                None => {
                    &&& reaction.action == Action::ProbeOutput { path: output_path }
                    &&& reaction.state matches State::Probing {
                        files: inputs,
                        formats,
                        output,
                        overwrite,
                    }
                    &&& inputs == files
                    &&& formats@ == extension_chain(final_component(output_path@))
                    &&& output == output_path
                    &&& overwrite == policy_of(flags@)
                    &&& warns_of_memory(reaction.notices@, formats@, output_path)
                },
            },
            Command::Decompress { files, output_folder } => match first_refused(files@) {
                Some((path, error)) => reaction.ends(
                    Outcome::Failed { path, error, cleanup: None },
                ),
                None => if files@.len() == 0 {
                    reaction.ends(Outcome::Done)
                } else {
                    starts_unpacking(reaction, files@, output_folder, policy_of(flags@))
                },
            },
        },
{
    match command {
        Command::ShowHelp => Reaction {
            state: State::Showing,
            action: Action::ShowHelp,
            notices: Vec::new(),
        },
        Command::ShowVersion => Reaction {
            state: State::Showing,
            action: Action::ShowVersion,
            notices: Vec::new(),
        },
        Command::Compress { files, output_path } => {
            let formats = extensions_from_path(file_name_of(output_path.as_str()));
            match check_compression(&formats, files.len()) {
                Err(error) => fail(output_path, error),
                Ok(()) => {
                    let notices = memory_notices(&formats, &output_path);
                    Reaction {
                        state: State::Probing {
                            files,
                            formats,
                            output: output_path.clone(),
                            overwrite: overwrite_policy(flags),
                        },
                        action: Action::ProbeOutput { path: output_path },
                        notices,
                    }
                },
            }
        },
        Command::Decompress { files, output_folder } => {
            let ghost all = files@;
            let mut jobs: Vec<Job> = Vec::new();
            assert(all.skip(0) =~= all);
            for path in it: files
                invariant
                    it.seq() == all,
                    first_refused(all) == first_refused(all.skip(it.index() as int)),
                    jobs@.len() == it.index(),
                    forall|at: int|
                        0 <= at < jobs@.len() ==> (#[trigger] jobs@[at]).archive == all[at]
                            && job_view(jobs@[at]) == job_for(all[at]@),
            {
                let ghost at = it.index() as int;
                assert(all.skip(at)[0] == path);
                assert(all.skip(at).drop_first() =~= all.skip(at + 1));
                let (output_name, formats) = separate_known_extensions_from_name(
                    file_name_of(path.as_str()),
                );
                match check_decompression(&formats) {
                    Err(error) => {
                        return fail(path, error);
                    },
                    Ok(()) => {},
                }
                jobs.push(Job { archive: path, formats, output_name });
            }
            let policy = overwrite_policy(flags);
            let folder = match output_folder {
                Some(path) => path,
                None => String::from_str("."),
            };
            let reaction = unpack_next(jobs, 0, folder, policy, Vec::new());
            reaction
        },
    }
}

/// Whether `reaction` asks for the output folder to be made, for the files
/// that `entries` describes, which all have safe names.
pub open spec fn makes_folder(
    reaction: Reaction,
    jobs: Vec<Job>,
    current: usize,
    folder: String,
    overwrite: Overwrite,
    entries: Seq<(Seq<char>, Seq<u8>)>,
) -> bool {
    &&& reaction.action == Action::CreateFolder { path: folder }
    &&& reaction.state matches State::MakingFolder(next)
    &&& next.jobs == jobs
    &&& next.current == current
    &&& next.folder == folder
    &&& next.overwrite == overwrite
    &&& entries_of(next.files@) == entries
    &&& all_safe(entries)
}

/// Whether `reaction` ends the command because the archive at `path` could
/// not be decompressed, as `found` says.
pub open spec fn ends_unreadable(reaction: Reaction, path: String, found: Unpacked) -> bool {
    &&& reaction.state is Finished
    &&& reaction.notices@.len() == 0
    &&& reaction.action matches Action::Finish {
        outcome: Outcome::Failed { path: failed, error, cleanup },
    }
    &&& failed == path
    &&& cleanup is None
    &&& match found {
        Unpacked::Files(_) => false,
        Unpacked::Unreadable(format) => error.is_corrupt(format),
        Unpacked::UnsafeName(name) => error.is_unsafe_name(name),
    }
}

/// Whether `reaction` hands the archive `archive` on to be written to
/// `output`.
pub open spec fn writes(reaction: Reaction, output: String, archive: Seq<u8>) -> bool {
    &&& reaction.state == State::Writing { output }
    &&& reaction.notices@.len() == 0
    &&& reaction.action matches Action::WriteOutput { path, bytes }
    &&& path == output
    &&& bytes@ == archive
}

/// What has to follow from `event` in `state`.
pub open spec fn follows(state: State, event: Event, reaction: Reaction) -> bool {
    match state {
        State::Probing { files, formats, output, overwrite } => match event {
            Event::Exists(exists) => if (!exists) || (overwrite is Always) {
                reaction.goes(
                    State::Creating { files, formats, output },
                    Action::CreateOutput { path: output },
                )
            } else if overwrite is Never {
                reaction.ends(Outcome::Declined)
            } else {
                reaction.goes(
                    State::Confirming { files, formats, output },
                    Action::ConfirmOverwrite { path: output },
                )
            },
            _ => reaction.ends_blaming(event, output),
        },
        State::Confirming { files, formats, output } => match event {
            Event::Answer(agreed) => if agreed {
                reaction.goes(
                    State::Creating { files, formats, output },
                    Action::CreateOutput { path: output },
                )
            } else {
                reaction.ends(Outcome::Declined)
            },
            _ => reaction.ends_blaming(event, output),
        },
        State::Creating { files, formats, output } => match event {
            Event::Done => reaction.goes(
                State::Reading { formats, output },
                Action::ReadInputs { paths: files },
            ),
            _ => reaction.ends_blaming(event, output),
        },
        State::Reading { formats, output } => match event {
            Event::Inputs(files) => match compression_fault(formats@, files@.len()) {
                Some(error) => reaction.removes(output, output, error),
                None => match compressed(formats@, entries_of(files@)) {
                    Some(archive) => if reads_back(formats@, entries_of(files@)) {
                        writes(reaction, output, archive) && round_trips(
                            formats@,
                            entries_of(files@),
                            archive,
                        )
                    } else {
                        reaction.removes(output, output, Error::NotReadBack { format: formats@[0] })
                    },
                    None => reaction.removes_on_io_error(output),
                },
            },
            _ => reaction.removes_blaming(event, output),
        },
        State::Writing { output } => match event {
            Event::Done => reaction.state is Finished && reaction.action == (Action::Finish {
                outcome: Outcome::Done,
            }) && reaction.notices@ == seq![Notice::Compressed { path: output }],
            _ => reaction.removes_blaming(event, output),
        },
        State::Removing { output, path, cause } => match event {
            Event::Done => reaction.ends(Outcome::Failed { path, error: cause, cleanup: None }),
            Event::NotFound { path: _ } => reaction.ends(
                Outcome::Failed { path, error: cause, cleanup: None },
            ),
            Event::Failed { path: _, reason } => reaction.ends(
                Outcome::Failed {
                    path,
                    error: cause,
                    cleanup: Some(Cleanup { output, reason }),
                },
            ),
            _ => {
                &&& reaction.state is Finished
                &&& reaction.notices@.len() == 0
                &&& reaction.action matches Action::Finish {
                    outcome: Outcome::Failed { path: failed, error, cleanup },
                }
                &&& failed == path
                &&& error == cause
                &&& cleanup matches Some(left)
                &&& left.output == output
            },
        },
        State::Unpacking { jobs, current, folder, overwrite } => if current >= jobs@.len() {
            reaction.ends(Outcome::Done)
        } else {
            let job = jobs@[current as int];
            match event {
                Event::Archive(bytes) => match decompression_fault(job.formats@) {
                    Some(error) => reaction.ends(
                        Outcome::Failed { path: job.archive, error, cleanup: None },
                    ),
                    None => match decompressed(job.formats@, bytes@, job.output_name@) {
                        Unpacked::Files(entries) => makes_folder(
                            reaction,
                            jobs,
                            current,
                            folder,
                            overwrite,
                            entries,
                        ) && warns_of_memory(reaction.notices@, job.formats@, job.archive),
                        found => ends_unreadable(reaction, job.archive, found),
                    },
                },
                _ => reaction.ends_blaming(event, job.archive),
            }
        },
        State::MakingFolder(extraction) => if extraction.current >= extraction.jobs@.len() {
            reaction.ends(Outcome::Done)
        } else {
            match event {
                Event::Done => continues(
                    reaction,
                    extraction.jobs,
                    extraction.current,
                    extraction.folder,
                    extraction.overwrite,
                    extraction.files@,
                ),
                _ => reaction.ends_blaming(
                    event,
                    extraction.jobs@[extraction.current as int].archive,
                ),
            }
        },
        State::ProbingFile(extraction) => if extraction.current >= extraction.jobs@.len()
            || extraction.files@.len() == 0 {
            reaction.ends(Outcome::Done)
        } else {
            match event {
                Event::Exists(exists) => if (!exists) || (extraction.overwrite is Always) {
                    writes_file(reaction, extraction)
                } else if extraction.overwrite is Never {
                    continues(
                        reaction,
                        extraction.jobs,
                        extraction.current,
                        extraction.folder,
                        extraction.overwrite,
                        extraction.files@.drop_first(),
                    )
                } else {
                    &&& reaction.notices@.len() == 0
                    &&& reaction.state == State::ConfirmingFile(extraction)
                    &&& reaction.action matches Action::ConfirmOverwrite { path }
                    &&& path@ == joined(extraction.folder@, extraction.files@[0].name@)
                },
                _ => reaction.ends_blaming(
                    event,
                    extraction.jobs@[extraction.current as int].archive,
                ),
            }
        },
        State::ConfirmingFile(extraction) => if extraction.current >= extraction.jobs@.len()
            || extraction.files@.len() == 0 {
            reaction.ends(Outcome::Done)
        } else {
            match event {
                Event::Answer(agreed) => if agreed {
                    writes_file(reaction, extraction)
                } else {
                    continues(
                        reaction,
                        extraction.jobs,
                        extraction.current,
                        extraction.folder,
                        extraction.overwrite,
                        extraction.files@.drop_first(),
                    )
                },
                _ => reaction.ends_blaming(
                    event,
                    extraction.jobs@[extraction.current as int].archive,
                ),
            }
        },
        State::WritingFile(extraction) => if extraction.current >= extraction.jobs@.len() {
            reaction.ends(Outcome::Done)
        } else {
            match event {
                Event::Done => continues(
                    reaction,
                    extraction.jobs,
                    extraction.current,
                    extraction.folder,
                    extraction.overwrite,
                    extraction.files@,
                ),
                _ => reaction.ends_blaming(
                    event,
                    extraction.jobs@[extraction.current as int].archive,
                ),
            }
        },
        State::Showing => reaction.ends(Outcome::Done),
        State::Finished => reaction.ends(Outcome::Done),
    }
}

/// Takes note of what came of the last action, and says what is to be done
/// next.
///
/// An archive is handed on to be written only if decompressing it gives the
/// files back. While the output file of a compression is in place, the
/// command does not end but in one of two ways: the archive has been
/// written to the file, or the file has been asked to be removed after a
/// failure. In the second case the failure is reported with the path it
/// came up on, and beside it whether the removal failed too.
///
/// What comes out of an archive is written under the folder that was asked
/// for, which is made first, and only under names that stay below that
/// folder. A file that exists there is overwritten, left alone or asked
/// about, as the flags say.
pub fn step(state: State, event: Event) -> (reaction: Reaction)
    ensures
        follows(state, event, reaction),
        state.holds_output() && reaction.action is Finish ==> state is Removing || (state is Writing
            && event is Done),
        state.holds_output() && !(state is Removing) && !(reaction.action is Finish)
            && !(reaction.action is WriteOutput) ==> reaction.action is RemoveOutput
            && reaction.state is Removing,
{
    match state {
        State::Probing { files, formats, output, overwrite } => match event {
            Event::Exists(exists) => {
                if !exists {
                    create(files, formats, output)
                } else {
                    match overwrite {
                        Overwrite::Always => create(files, formats, output),
                        Overwrite::Never => end(Outcome::Declined),
                        Overwrite::Ask => Reaction {
                            state: State::Confirming { files, formats, output: output.clone() },
                            action: Action::ConfirmOverwrite { path: output },
                            notices: Vec::new(),
                        },
                    }
                }
            },
            other => fail_blaming(other, output),
        },
        State::Confirming { files, formats, output } => match event {
            Event::Answer(agreed) => {
                if agreed {
                    create(files, formats, output)
                } else {
                    end(Outcome::Declined)
                }
            },
            other => fail_blaming(other, output),
        },
        State::Creating { files, formats, output } => match event {
            Event::Done => Reaction {
                state: State::Reading { formats, output },
                action: Action::ReadInputs { paths: files },
                notices: Vec::new(),
            },
            other => fail_blaming(other, output),
        },
        State::Reading { formats, output } => match event {
            Event::Inputs(files) => match compress_and_verify(&files, &formats) {
                Ok(bytes) => Reaction {
                    state: State::Writing { output: output.clone() },
                    action: Action::WriteOutput { path: output, bytes },
                    notices: Vec::new(),
                },
                Err(error) => {
                    let path = output.clone();
                    remove(output, path, error)
                },
            },
            other => remove_blaming(other, output),
        },
        State::Writing { output } => match event {
            Event::Done => {
                let mut notices: Vec<Notice> = Vec::new();
                notices.push(Notice::Compressed { path: output });
                assert(notices@ =~= seq![Notice::Compressed { path: output }]);
                Reaction {
                    state: State::Finished,
                    action: Action::Finish { outcome: Outcome::Done },
                    notices,
                }
            },
            other => remove_blaming(other, output),
        },
        State::Removing { output, path, cause } => match event {
            Event::Done => fail(path, cause),
            Event::NotFound { path: _ } => fail(path, cause),
            Event::Failed { path: _, reason } => end(
                Outcome::Failed { path, error: cause, cleanup: Some(Cleanup { output, reason }) },
            ),
            _ => end(
                Outcome::Failed {
                    path,
                    error: cause,
                    cleanup: Some(Cleanup { output, reason: String::from_str("unexpected event") }),
                },
            ),
        },
        State::Unpacking { jobs, current, folder, overwrite } => {
            if current >= jobs.len() {
                return end(Outcome::Done);
            }
            let path = jobs[current].archive.clone();
            match event {
                Event::Archive(bytes) => {
                    let result = decompress_file(
                        bytes,
                        &jobs[current].formats,
                        jobs[current].output_name.as_str(),
                    );
                    match result {
                        Ok(files) => {
                            let notices = memory_notices(&jobs[current].formats, &path);
                            Reaction {
                                state: State::MakingFolder(
                                    Extraction {
                                        jobs,
                                        current,
                                        folder: folder.clone(),
                                        overwrite,
                                        files,
                                    },
                                ),
                                action: Action::CreateFolder { path: folder },
                                notices,
                            }
                        },
                        Err(error) => fail(path, error),
                    }
                },
                other => fail_blaming(other, path),
            }
        },
        State::MakingFolder(extraction) => {
            if extraction.current >= extraction.jobs.len() {
                return end(Outcome::Done);
            }
            match event {
                Event::Done => next_file(extraction),
                other => {
                    let path = extraction.jobs[extraction.current].archive.clone();
                    fail_blaming(other, path)
                },
            }
        },
        State::ProbingFile(extraction) => {
            if extraction.current >= extraction.jobs.len() || extraction.files.len() == 0 {
                return end(Outcome::Done);
            }
            match event {
                Event::Exists(exists) => {
                    if !exists {
                        write_file(extraction)
                    } else {
                        match extraction.overwrite {
                            Overwrite::Always => write_file(extraction),
                            Overwrite::Never => skip_file(extraction),
                            Overwrite::Ask => {
                                let path = joined_path(
                                    extraction.folder.as_str(),
                                    extraction.files[0].name.as_str(),
                                );
                                Reaction {
                                    state: State::ConfirmingFile(extraction),
                                    action: Action::ConfirmOverwrite { path },
                                    notices: Vec::new(),
                                }
                            },
                        }
                    }
                },
                other => {
                    let path = extraction.jobs[extraction.current].archive.clone();
                    fail_blaming(other, path)
                },
            }
        },
        State::ConfirmingFile(extraction) => {
            if extraction.current >= extraction.jobs.len() || extraction.files.len() == 0 {
                return end(Outcome::Done);
            }
            match event {
                Event::Answer(agreed) => {
                    if agreed {
                        write_file(extraction)
                    } else {
                        skip_file(extraction)
                    }
                },
                other => {
                    let path = extraction.jobs[extraction.current].archive.clone();
                    fail_blaming(other, path)
                },
            }
        },
        State::WritingFile(extraction) => {
            if extraction.current >= extraction.jobs.len() {
                return end(Outcome::Done);
            }
            match event {
                Event::Done => next_file(extraction),
                other => {
                    let path = extraction.jobs[extraction.current].archive.clone();
                    fail_blaming(other, path)
                },
            }
        },
        State::Showing => end(Outcome::Done),
        State::Finished => end(Outcome::Done),
    }
}

/// The round trip, through the steps of two commands. Where `step` hands an
/// archive on to be written for the files that were read, and the bytes of
/// that archive are later read for a job with the same chain, `step` asks
/// for the folder to be made and goes on to write just the files that went
/// in: the same number, names, contents and order. For a chain of
/// compressors, which keeps no names, it is the one file under the name of
/// the job, which has to be safe.
pub proof fn lemma_round_trip_through_steps(
    formats: Vec<CompressionFormat>,
    output: String,
    files: Vec<FileEntry>,
    written: Reaction,
    jobs: Vec<Job>,
    current: usize,
    folder: String,
    overwrite: Overwrite,
    bytes: Vec<u8>,
    read: Reaction,
)
    requires
        follows(State::Reading { formats, output }, Event::Inputs(files), written),
        written.action is WriteOutput,
        written.action->WriteOutput_bytes@ == bytes@,
        current < jobs@.len(),
        jobs@[current as int].formats@ == formats@,
        formats@[0].bundles() || safe_name(jobs@[current as int].output_name@),
        follows(State::Unpacking { jobs, current, folder, overwrite }, Event::Archive(bytes), read),
    ensures
        makes_folder(
            read,
            jobs,
            current,
            folder,
            overwrite,
            given_back(formats@, entries_of(files@), jobs@[current as int].output_name@),
        ),
{
    lemma_faultless_is_well_formed(formats@, files@.len());
    lemma_faultless_is_well_formed(formats@, 1);
}

} // verus!
