//! Zip archives, written and read by the `zip` crate.
//!
//! Nothing in this module is proved about that crate. What it writes and
//! reads is given a name, and the functions at the top state what is taken
//! for granted about each call.

use std::io::Read;
use std::io::Write;
use vstd::prelude::*;
use crate::archive::{entries_of, members_of, FileEntry, Member};
use crate::error::Error;

verus! {

/// `zip::result::ZipError`, as the calls into `zip` hand it out. It is
/// passed on as it is; nothing is known of what it holds.
#[verifier::external_type_specification]
#[verifier::external_body]
pub struct ExZipError(::zip::result::ZipError);

/// A zip archive that is being written into memory: a `zip::ZipWriter`
/// over a buffer. What it holds is hidden; `zip_entries` stands for the
/// files written to it.
#[verifier::external_body]
pub struct ZipBuilder {
    inner: ::zip::ZipWriter<std::io::Cursor<Vec<u8>>>,
}

/// The files written to a zip archive so far, each by name and contents.
pub uninterp spec fn zip_entries(writer: ZipBuilder) -> Seq<(Seq<char>, Seq<u8>)>;

/// Whether `zip` takes a file of this name and these contents into an
/// archive that holds the files `before`.
pub uninterp spec fn zip_takes(
    before: Seq<(Seq<char>, Seq<u8>)>,
    name: Seq<char>,
    contents: Seq<u8>,
) -> bool;

/// The archive that `zip` writes for a list of files, if it writes one.
pub uninterp spec fn zip_packed(entries: Seq<(Seq<char>, Seq<u8>)>) -> Option<Seq<u8>>;

/// The members that `zip` finds in an archive, if it can read it.
pub uninterp spec fn zip_unpacked(archive: Seq<u8>) -> Option<Seq<(Seq<char>, bool, Seq<u8>)>>;

/// `zip::ZipWriter::new` over an empty buffer. Trusted: nothing has been
/// written to a new archive.
#[verifier::external_body]
fn zip_start() -> (writer: ZipBuilder)
    ensures
        zip_entries(writer) == Seq::<(Seq<char>, Seq<u8>)>::empty(),
{
    ZipBuilder { inner: ::zip::ZipWriter::new(std::io::Cursor::new(Vec::new())) }
}

/// `zip::ZipWriter::start_file` with `zip::write::FileOptions::default()`,
/// then the contents through `write_all`. Trusted: whether both succeed
/// depends on the file and on those written before it, and where they do,
/// the file is the last of those written.
#[verifier::external_body]
fn zip_append(writer: &mut ZipBuilder, name: &str, contents: &Vec<u8>) -> (outcome: Result<
    (),
    ::zip::result::ZipError,
>)
    ensures
        outcome is Ok <==> zip_takes(zip_entries(*old(writer)), name@, contents@),
        outcome is Ok ==> zip_entries(*final(writer)) == zip_entries(*old(writer)).push(
            (name@, contents@),
        ),
{
    writer.inner.start_file(name, ::zip::write::FileOptions::default())?;
    writer.inner.write_all(contents)?;
    Ok(())
}

/// `zip::ZipWriter::finish`, which writes the directory of the archive and
/// hands the buffer back. Trusted: whether bytes come back, and which,
/// depends on nothing but the files written. (The `zip` crate is built
/// without its `time` feature, so the default options carry a fixed date
/// and not the time of the call.)
#[verifier::external_body]
fn zip_finish(writer: ZipBuilder) -> (outcome: Result<Vec<u8>, ::zip::result::ZipError>)
    ensures
        zip_packed(zip_entries(writer)) == match outcome {
            Ok(archive) => Some(archive@),
            Err(_) => None,
        },
{
    let mut writer = writer;
    Ok(writer.inner.finish()?.into_inner())
}

/// Opens an archive in memory with `zip::ZipArchive::new` and takes from
/// each entry, by `by_index_decrypt` with an empty password, its name,
/// whether it is a regular file, and its contents. An entry that the
/// password does not open counts as a failure. Trusted: whether the archive
/// can be read, and what is found in it, depends on the bytes alone.
#[verifier::external_body]
fn zip_read(archive: &Vec<u8>) -> (outcome: Result<Vec<Member>, ::zip::result::ZipError>)
    ensures
        zip_unpacked(archive@) == match outcome {
            Ok(members) => Some(members_of(members@)),
            Err(_) => None,
        },
{
    let mut reader = ::zip::ZipArchive::new(std::io::Cursor::new(archive.as_slice()))?;
    (0..reader.len()).map(
        |index| {
            let opened = reader.by_index_decrypt(index, b"")?;
            let password = ::zip::result::ZipError::PASSWORD_REQUIRED;
            let mut file =
                opened.map_err(|_| ::zip::result::ZipError::UnsupportedArchive(password))?;
            let mut contents = Vec::new();
            file.read_to_end(&mut contents)?;
            Ok(Member { name: file.name().to_owned(), is_file: file.is_file(), contents })
        },
    ).collect()
}

/// `to_string` of a `zip::result::ZipError`: the text that the error
/// displays. Nothing is claimed of the text.
#[verifier::external_body]
fn zip_error_text(error: &::zip::result::ZipError) -> String {
    error.to_string()
}

/// What a call that writes to a zip archive handed back, as this crate
/// reports it: the value, or the failure as an `IoError`.
pub fn zipped_or_error<T>(outcome: Result<T, ::zip::result::ZipError>) -> (result: Result<T, Error>)
    ensures
        match outcome {
            Ok(value) => result == Ok::<T, Error>(value),
            Err(_) => result matches Err(Error::IoError { .. }),
        },
{
    match outcome {
        Ok(value) => Ok(value),
        Err(error) => Err(Error::IoError { reason: zip_error_text(&error) }),
    }
}

/// Whether `zip` takes every file of the list, one after the other.
pub open spec fn zip_takes_all(entries: Seq<(Seq<char>, Seq<u8>)>) -> bool {
    forall|at: int|
        0 <= at < entries.len() ==> #[trigger] zip_takes(
            entries.take(at),
            entries[at].0,
            entries[at].1,
        )
}

/// The zip archive of a list of files, if there is one: `zip` has to take
/// every file, and to come up with the bytes.
pub open spec fn zip_archive(entries: Seq<(Seq<char>, Seq<u8>)>) -> Option<Seq<u8>> {
    if zip_takes_all(entries) {
        zip_packed(entries)
    } else {
        None
    }
}

/// Packs `files` into a zip archive, in their order. Where there is no
/// such archive, that is reported as an `IoError`.
pub fn build_archive(files: &Vec<FileEntry>) -> (result: Result<Vec<u8>, Error>)
    ensures
        match zip_archive(entries_of(files@)) {
            Some(bytes) => result matches Ok(archive) && archive@ == bytes,
            None => result matches Err(error) && error is IoError,
        },
{
    let ghost entries = entries_of(files@);
    let mut writer = zip_start();
    let mut at: usize = 0;
    assert(entries.take(0) =~= Seq::empty());
    while at < files.len()
        invariant
            at <= files.len(),
            entries == entries_of(files@),
            zip_entries(writer) == entries.take(at as int),
            forall|k: int|
                0 <= k < at ==> #[trigger] zip_takes(entries.take(k), entries[k].0, entries[k].1),
        decreases files.len() - at,
    {
        let file = &files[at];
        assert(entries[at as int] == (file.name@, file.contents@));
        match zipped_or_error(zip_append(&mut writer, file.name.as_str(), &file.contents)) {
            Ok(()) => {},
            Err(error) => {
                assert(!zip_takes(
                    entries.take(at as int),
                    entries[at as int].0,
                    entries[at as int].1,
                ));
                return Err(error);
            },
        }
        assert(entries.take(at + 1) =~= entries.take(at as int).push(entries[at as int]));
        at += 1;
    }
    assert(entries.take(at as int) =~= entries);
    zipped_or_error(zip_finish(writer))
}

/// Reads the members of a zip archive. A failure is reported by its text.
pub fn read_archive(archive: &Vec<u8>) -> (result: Result<Vec<Member>, String>)
    ensures
        match zip_unpacked(archive@) {
            Some(members) => result matches Ok(found) && members_of(found@) == members,
            None => result is Err,
        },
{
    match zip_read(archive) {
        Ok(members) => Ok(members),
        Err(error) => Err(zip_error_text(&error)),
    }
}

} // verus!
