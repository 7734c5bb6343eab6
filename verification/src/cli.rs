//! Reading a command off the command line.

use vstd::prelude::*;
use vstd::string::*;
use crate::error::Error;
use crate::oof::{
    filter_flags,
    filtered,
    flag_views,
    matches_any_arg,
    pop_subcommand,
    texts,
    without,
    ArgFlag,
    Flag,
    FlagFault,
    FlagView,
    Flags,
    FlagsView,
};

verus! {

/// What the user asks for.
#[derive(PartialEq, Eq, Debug)]
pub enum Command {
    /// Files to be compressed
    Compress { files: Vec<String>, output_path: String },
    /// Files to be decompressed and their extensions
    Decompress { files: Vec<String>, output_folder: Option<String> },
    ShowHelp,
    ShowVersion,
}

/// A command by the texts it holds.
pub ghost enum CommandView {
    Compress { files: Seq<Seq<char>>, output_path: Seq<char> },
    Decompress { files: Seq<Seq<char>>, output_folder: Option<Seq<char>> },
    ShowHelp,
    ShowVersion,
}

impl View for Command {
    type V = CommandView;

    open spec fn view(&self) -> CommandView {
        match self {
            Command::Compress { files, output_path } => CommandView::Compress {
                files: texts(files@),
                output_path: output_path@,
            },
            Command::Decompress { files, output_folder } => CommandView::Decompress {
                files: texts(files@),
                output_folder: match output_folder {
                    Some(folder) => Some(folder@),
                    None => None,
                },
            },
            Command::ShowHelp => CommandView::ShowHelp,
            Command::ShowVersion => CommandView::ShowVersion,
        }
    }
}

/// A command and the flags that were given with it.
#[derive(Debug, PartialEq, Eq)]
pub struct ParsedArgs {
    pub command: Command,
    pub flags: Flags,
}

impl View for ParsedArgs {
    type V = (CommandView, FlagsView);

    open spec fn view(&self) -> (CommandView, FlagsView) {
        (self.command@, self.flags@)
    }
}

/// Why a command line was refused.
pub ghost enum CliFault {
    MissingArgumentsForCompression,
    CompressionTypo,
    Flags(FlagFault),
}

/// Whether `error` reports `fault`.
pub open spec fn reports_fault(error: Error, fault: CliFault) -> bool {
    match fault {
        CliFault::MissingArgumentsForCompression => error is MissingArgumentsForCompression,
        CliFault::CompressionTypo => error is CompressionTypo,
        CliFault::Flags(fault) => error.is_flag_fault(fault),
    }
}

/// `--yes` or `-y`: overwrite without asking.
pub open spec fn yes_flag() -> FlagView {
    FlagView { long: "yes"@, short: Some('y'), takes_value: false }
}

/// `--no` or `-n`: never overwrite.
pub open spec fn no_flag() -> FlagView {
    FlagView { long: "no"@, short: Some('n'), takes_value: false }
}

/// `--output` or `-o`, with the folder to decompress into.
pub open spec fn output_flag() -> FlagView {
    FlagView { long: "output"@, short: Some('o'), takes_value: true }
}

/// What a command line asks for. `typo` says whether its first argument is
/// taken for a misspelt `compress`.
///
/// A request for help wins over everything, then one for the version. With
/// `c` or `compress` in front, the last plain argument names the archive
/// and the others the files to compress. Without, every plain argument is an
/// archive to decompress.
pub open spec fn parsed(arguments: Seq<Seq<char>>, typo: bool) -> Result<
    (CommandView, FlagsView),
    CliFault,
> {
    if arguments.len() == 0 || arguments.contains("--help"@) || arguments.contains("-h"@) {
        Ok((CommandView::ShowHelp, FlagsView::empty()))
    } else if arguments.contains("--version"@) {
        Ok((CommandView::ShowVersion, FlagsView::empty()))
    } else if arguments[0] == "c"@ || arguments[0] == "compress"@ {
        match filtered(arguments.drop_first(), seq![yes_flag(), no_flag()]) {
            Err(fault) => Err(CliFault::Flags(fault)),
            Ok((files, flags)) => if files.len() < 2 {
                Err(CliFault::MissingArgumentsForCompression)
            } else {
                Ok(
                    (
                        CommandView::Compress {
                            files: files.drop_last(),
                            output_path: files.last(),
                        },
                        flags,
                    ),
                )
            },
        }
    } else if typo {
        Err(CliFault::CompressionTypo)
    } else {
        match filtered(arguments, seq![yes_flag(), no_flag(), output_flag()]) {
            Err(fault) => Err(CliFault::Flags(fault)),
            Ok((files, flags)) => Ok(
                (
                    CommandView::Decompress { files, output_folder: flags.value("output"@) },
                    FlagsView { arguments: without(flags.arguments, "output"@), ..flags },
                ),
            ),
        }
    }
}

/// Reads a command off the arguments of a command line, the name of the
/// program left out. `first_is_typo` says whether the first argument is
/// taken for a misspelt `compress`; it is looked at only where the command
/// line would otherwise ask to decompress.
pub fn parse_args_from(arguments: Vec<String>, first_is_typo: bool) -> (result: Result<
    ParsedArgs,
    Error,
>)
    ensures
        match parsed(texts(arguments@), first_is_typo) {
            Ok(expected) => result matches Ok(found) && found@ == expected,
            Err(fault) => result matches Err(error) && reports_fault(error, fault),
        },
{
    let mut arguments = arguments;
    let ghost all = texts(arguments@);
    if arguments.len() == 0 || matches_any_arg(&arguments, "--help") || matches_any_arg(
        &arguments,
        "-h",
    ) {
        return Ok(ParsedArgs { command: Command::ShowHelp, flags: Flags::new() });
    }
    if matches_any_arg(&arguments, "--version") {
        return Ok(ParsedArgs { command: Command::ShowVersion, flags: Flags::new() });
    }
    let mut known: Vec<Flag> = Vec::new();
    known.push(Flag::long("yes").short('y'));
    known.push(Flag::long("no").short('n'));
    assert(all[0] == arguments@[0]@);
    let popped = pop_subcommand(&mut arguments, "c") || pop_subcommand(&mut arguments, "compress");
    if popped {
        assert(texts(arguments@) =~= all.drop_first());
        assert(flag_views(known@) =~= seq![yes_flag(), no_flag()]);
        let (mut files, flags) = match filter_flags(arguments, &known) {
            Ok(parts) => parts,
            Err(error) => {
                return Err(Error::Flags(error));
            },
        };
        if files.len() < 2 {
            return Err(Error::MissingArgumentsForCompression);
        }
        let ghost plain = texts(files@);
        let output_path = match files.pop() {
            Some(path) => path,
            None => String::new(),
        };
        assert(texts(files@) =~= plain.drop_last());
        assert(output_path@ == plain.last());
        Ok(ParsedArgs { command: Command::Compress { files, output_path }, flags })
    } else {
        assert(texts(arguments@) =~= all);
        if first_is_typo {
            return Err(Error::CompressionTypo);
        }
        known.push(ArgFlag::long("output").short('o'));
        assert(flag_views(known@) =~= seq![yes_flag(), no_flag(), output_flag()]);
        let (files, mut flags) = match filter_flags(arguments, &known) {
            Ok(parts) => parts,
            Err(error) => {
                return Err(Error::Flags(error));
            },
        };
        let output_folder = flags.take_arg("output");
        Ok(ParsedArgs { command: Command::Decompress { files, output_folder }, flags })
    }
}

/// Refuses flags that contradict each other: `--yes` together with `--no`.
pub fn check_flags(flags: &Flags) -> (result: Result<(), Error>)
    ensures
        result == if flags@.has("yes"@) && flags@.has("no"@) {
            Err::<(), Error>(Error::ConflictingFlags)
        } else {
            Ok::<(), Error>(())
        },
{
    if flags.is_present("yes") && flags.is_present("no") {
        Err(Error::ConflictingFlags)
    } else {
        Ok(())
    }
}

/// What the file system said when asked for the canonical form of a path.
#[derive(Debug, PartialEq, Eq)]
pub struct Resolution {
    /// The path as it was given.
    pub path: String,
    /// Its canonical form, or why none could be had.
    pub canonical: Result<String, String>,
    /// Whether anything exists at the path.
    pub exists: bool,
}

/// Whether a path could not be resolved.
pub open spec fn unresolved(resolution: Resolution) -> bool {
    resolution.canonical is Err
}

/// The first of the paths that could not be resolved.
pub open spec fn first_unresolved(resolutions: Seq<Resolution>) -> Option<Resolution>
    decreases resolutions.len(),
{
    if resolutions.len() == 0 {
        None
    } else if unresolved(resolutions[0]) {
        Some(resolutions[0])
    } else {
        first_unresolved(resolutions.drop_first())
    }
}

/// Whether `error` is the report owed for a path that could not be
/// resolved: `FileNotFound` with the path where nothing exists there, else
/// an `IoError` with the reason that was given.
pub open spec fn reports_unresolved(error: Error, resolution: Resolution) -> bool {
    if resolution.exists {
        error matches Error::IoError { reason } && resolution.canonical == Err::<String, String>(
            reason,
        )
    } else {
        error matches Error::FileNotFound { path } && path == resolution.path
    }
}

/// The canonical forms of paths that were all resolved.
pub open spec fn canonical_forms(resolutions: Seq<Resolution>) -> Seq<Seq<char>> {
    resolutions.map_values(
        |resolution: Resolution|
            match resolution.canonical {
                Ok(path) => path@,
                Err(_) => Seq::empty(),
            },
    )
}

/// The canonical form of a path, or the report that there is none.
pub fn canonicalize(resolution: Resolution) -> (result: Result<String, Error>)
    ensures
        match resolution.canonical {
            Ok(path) => result == Ok::<String, Error>(path),
            Err(_) => result matches Err(error) && reports_unresolved(error, resolution),
        },
{
    match resolution.canonical {
        Ok(path) => Ok(path),
        Err(reason) => {
            if !resolution.exists {
                Err(Error::FileNotFound { path: resolution.path })
            } else {
                Err(Error::IoError { reason })
            }
        },
    }
}

/// The canonical forms of all the paths, in their order, or the report for
/// the first that has none.
pub fn canonicalize_files(resolutions: Vec<Resolution>) -> (result: Result<Vec<String>, Error>)
    ensures
        match first_unresolved(resolutions@) {
            Some(resolution) => result matches Err(error) && reports_unresolved(error, resolution),
            None => result matches Ok(paths) && texts(paths@) == canonical_forms(resolutions@),
        },
{
    let ghost all = resolutions@;
    let mut paths: Vec<String> = Vec::new();
    assert(all.skip(0) =~= all);
    for resolution in it: resolutions
        invariant
            it.seq() == all,
            first_unresolved(all) == first_unresolved(all.skip(it.index() as int)),
            texts(paths@) == canonical_forms(all.take(it.index() as int)),
    {
        let ghost at = it.index() as int;
        assert(all.skip(at)[0] == resolution);
        assert(all.skip(at).drop_first() =~= all.skip(at + 1));
        match canonicalize(resolution) {
            Ok(path) => {
                let ghost before = texts(paths@);
                paths.push(path);
                assert(texts(paths@) =~= before.push(path@));
                assert(canonical_forms(all.take(at + 1)) =~= canonical_forms(all.take(at)).push(
                    path@,
                ));
            },
            Err(error) => {
                return Err(error);
            },
        }
    }
    assert(all.take(all.len() as int) =~= all);
    Ok(paths)
}

} // verus!
