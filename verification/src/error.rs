//! What can go wrong.

use vstd::prelude::*;
use crate::format::CompressionFormat;
use crate::oof::{FlagError, FlagFault};

verus! {

/// The ways in which an operation can fail.
#[derive(Debug, PartialEq, Eq)]
pub enum Error {
    /// The name given for a new archive ends in no extension that names a
    /// format.
    NoRecognizedExtensions,
    /// The name of a file to decompress ends in no extension that names a
    /// format.
    UnsupportedInputFormat,
    /// A bundler stands in the chain at `position`, which is not its start.
    MisplacedBundlerFormat { format: CompressionFormat, position: usize },
    /// Several files were given, and the innermost format cannot bundle them.
    MultipleFilesToCompressorOnlyFormat { format: CompressionFormat },
    /// No file is found at `path`.
    FileNotFound { path: String },
    /// Reading or writing failed.
    IoError { reason: String },
    /// The data is not what `format` says it should be.
    CorruptOrUnreadableArchive { format: CompressionFormat, reason: String },
    /// An archive holds a file under a name that leads out of the folder it
    /// would be unpacked into.
    UnsafeEntryName { name: String },
    /// An archive was written with the bundler `format`, and unpacking it
    /// does not give the files that went in.
    NotReadBack { format: CompressionFormat },
    /// The command to compress needs at least one file and the name of the
    /// archive.
    MissingArgumentsForCompression,
    /// The first argument is no file, and looks like a misspelt `compress`.
    CompressionTypo,
    /// The flags on the command line are refused.
    Flags(FlagError),
    /// Both `--yes` and `--no` were given.
    ConflictingFlags,
}

impl Error {
    /// Structural errors are found by looking at names and counts alone,
    /// before anything is read or written.
    pub open spec fn is_structural(self) -> bool {
        self is NoRecognizedExtensions || self is UnsupportedInputFormat
            || self is MisplacedBundlerFormat || self is MultipleFilesToCompressorOnlyFormat
    }

    /// Whether this is the report that data said to be of `format` could not
    /// be read as such.
    pub open spec fn is_corrupt(self, format: CompressionFormat) -> bool {
        self matches Error::CorruptOrUnreadableArchive { format: named, .. } && named == format
    }

    /// Whether this is the report that the flags are refused for `fault`.
    pub open spec fn is_flag_fault(self, fault: FlagFault) -> bool {
        self matches Error::Flags(error) && error@ == fault
    }

    /// Whether this is the report that an archive holds a file called `name`,
    /// which is no safe name.
    pub open spec fn is_unsafe_name(self, name: Seq<char>) -> bool {
        self matches Error::UnsafeEntryName { name: found } && found@ == name
    }
}

} // verus!
