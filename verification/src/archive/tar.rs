//! Tar archives, written and read by the `tar` crate.
//!
//! Nothing in this module is proved about that crate. What it writes and
//! reads is given a name, and the functions at the top state what is taken
//! for granted about each call.

use std::io::Read;
use vstd::prelude::*;
use crate::archive::{entries_of, members_of, FileEntry, Member};
use crate::codec::{io_error_text, written_or_error};
use crate::error::Error;

verus! {

/// A tar archive that is being written into memory: a `tar::Builder` over
/// a buffer, and the mode that its entries are given. What it holds is
/// hidden; `tar_entries` and `tar_mode` stand for it.
#[verifier::external_body]
pub struct TarBuilder {
    builder: ::tar::Builder<Vec<u8>>,
    mode: u32,
}

/// The files appended to a tar archive so far: the names and contents that
/// were handed to the calls that succeeded, in their order. (The archive
/// itself may list a name in another spelling: `tar` writes `./a` as `a`
/// and `a//b` as `a/b`.)
pub uninterp spec fn tar_entries(writer: TarBuilder) -> Seq<(Seq<char>, Seq<u8>)>;

/// The mode that a tar archive gives to its entries.
pub uninterp spec fn tar_mode(writer: TarBuilder) -> u32;

/// Whether `tar` takes a file under this name.
pub uninterp spec fn tar_takes(name: Seq<char>) -> bool;

/// The archive that `tar` writes for a list of files that all have the mode
/// `mode`, if it writes one. (This is `tar` as built for one kind of
/// system: on Windows it takes a backslash in a name for a separator of
/// folders.)
pub uninterp spec fn tar_packed(entries: Seq<(Seq<char>, Seq<u8>)>, mode: u32) -> Option<Seq<u8>>;

/// The members that `tar` finds in an archive, if it can read it.
pub uninterp spec fn tar_unpacked(archive: Seq<u8>) -> Option<Seq<(Seq<char>, bool, Seq<u8>)>>;

/// The mode of the files in the archives that are written here: readable
/// by all, writable by the owner.
pub const TAR_MODE: u32 = 0o644;

/// `tar::Builder::new` over an empty buffer. Trusted: nothing has been
/// appended to a new builder.
#[verifier::external_body]
fn tar_start(mode: u32) -> (writer: TarBuilder)
    ensures
        tar_entries(writer) == Seq::<(Seq<char>, Seq<u8>)>::empty(),
        tar_mode(writer) == mode,
{
    TarBuilder { builder: ::tar::Builder::new(Vec::new()), mode }
}

/// `tar::Builder::append_data` with a fresh GNU header of the right size
/// and the mode of the archive, for a regular file. Trusted: whether the
/// call succeeds depends on the name alone, and where it does, the file is
/// the last of those appended.
#[verifier::external_body]
fn tar_append(writer: &mut TarBuilder, name: &str, contents: &Vec<u8>) -> (outcome: Result<
    (),
    std::io::Error,
>)
    ensures
        outcome is Ok <==> tar_takes(name@),
        outcome is Ok ==> tar_entries(*final(writer)) == tar_entries(*old(writer)).push(
            (name@, contents@),
        ),
        tar_mode(*final(writer)) == tar_mode(*old(writer)),
{
    let mut header = ::tar::Header::new_gnu();
    header.set_size(contents.len() as u64);
    header.set_mode(writer.mode);
    writer.builder.append_data(&mut header, name, contents.as_slice())
}

/// `tar::Builder::into_inner`, which ends the archive and hands the buffer
/// back. Trusted: whether bytes come back, and which, depends on nothing
/// but the files appended and their mode.
#[verifier::external_body]
fn tar_finish(writer: TarBuilder) -> (outcome: Result<Vec<u8>, std::io::Error>)
    ensures
        tar_packed(tar_entries(writer), tar_mode(writer)) == match outcome {
            Ok(archive) => Some(archive@),
            Err(_) => None,
        },
{
    writer.builder.into_inner()
}

/// Walks `tar::Archive::entries` over an archive in memory and takes from
/// each entry its path, whether its header says regular file, and its
/// contents. Trusted: whether the archive can be read, and what is found in
/// it, depends on the bytes alone.
#[verifier::external_body]
fn tar_read(archive: &Vec<u8>) -> (outcome: Result<Vec<Member>, std::io::Error>)
    ensures
        tar_unpacked(archive@) == match outcome {
            Ok(members) => Some(members_of(members@)),
            Err(_) => None,
        },
{
    ::tar::Archive::new(archive.as_slice()).entries()?.map(
        |entry| {
            let mut entry = entry?;
            let name = entry.path()?.to_string_lossy().into_owned();
            let is_file = entry.header().entry_type().is_file();
            let mut contents = Vec::new();
            entry.read_to_end(&mut contents)?;
            Ok(Member { name, is_file, contents })
        },
    ).collect()
}

/// Whether `tar` takes every file of the list.
pub open spec fn tar_takes_all(entries: Seq<(Seq<char>, Seq<u8>)>) -> bool {
    forall|at: int| 0 <= at < entries.len() ==> tar_takes(#[trigger] entries[at].0)
}

/// The tar archive of a list of files, if there is one: `tar` has to take
/// every name, and to come up with the bytes.
pub open spec fn tar_archive(entries: Seq<(Seq<char>, Seq<u8>)>) -> Option<Seq<u8>> {
    if tar_takes_all(entries) {
        tar_packed(entries, TAR_MODE)
    } else {
        None
    }
}

/// Packs `files` into a tar archive, in their order. Where there is no
/// such archive, that is reported as an `IoError`.
pub fn build_archive(files: &Vec<FileEntry>) -> (result: Result<Vec<u8>, Error>)
    ensures
        match tar_archive(entries_of(files@)) {
            Some(bytes) => result matches Ok(archive) && archive@ == bytes,
            None => result matches Err(error) && error is IoError,
        },
{
    let ghost entries = entries_of(files@);
    let mut writer = tar_start(TAR_MODE);
    let mut at: usize = 0;
    while at < files.len()
        invariant
            at <= files.len(),
            entries == entries_of(files@),
            tar_mode(writer) == TAR_MODE,
            tar_entries(writer) == entries_of(files@.take(at as int)),
            forall|k: int| 0 <= k < at ==> tar_takes(#[trigger] entries[k].0),
        decreases files.len() - at,
    {
        let file = &files[at];
        assert(entries[at as int].0 == file.name@);
        match written_or_error(tar_append(&mut writer, file.name.as_str(), &file.contents)) {
            Ok(()) => {},
            Err(error) => {
                return Err(error);
            },
        }
        assert(entries_of(files@.take(at + 1)) =~= entries_of(files@.take(at as int)).push(
            files@[at as int]@,
        ));
        at += 1;
    }
    assert(files@.take(at as int) =~= files@);
    written_or_error(tar_finish(writer))
}

/// Reads the members of a tar archive. A failure is reported by its text.
pub fn read_archive(archive: &Vec<u8>) -> (result: Result<Vec<Member>, String>)
    ensures
        match tar_unpacked(archive@) {
            Some(members) => result matches Ok(found) && members_of(found@) == members,
            None => result is Err,
        },
{
    match tar_read(archive) {
        Ok(members) => Ok(members),
        Err(error) => Err(io_error_text(&error)),
    }
}

} // verus!
