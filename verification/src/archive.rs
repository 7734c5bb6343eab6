//! The bundlers: tar and zip.
//!
//! The container formats live in the `tar` and `zip` crates, which the two
//! modules below call. What is done with the members that come out of an
//! archive is decided here: which of them are kept, and under which names
//! they may be written.

pub mod names;
pub mod tar;
pub mod zip;

use vstd::prelude::*;
use crate::archive::names::{all_safe, is_safe_name, safe_name};
use crate::archive::tar::{tar_archive, tar_unpacked};
use crate::archive::zip::{zip_archive, zip_unpacked};
use crate::error::Error;
use crate::format::CompressionFormat;
use crate::text::{same_bytes, same_text};

verus! {

/// A file by its name inside an archive and by what it holds.
#[derive(Debug, PartialEq, Eq)]
pub struct FileEntry {
    pub name: String,
    pub contents: Vec<u8>,
}

impl View for FileEntry {
    type V = (Seq<char>, Seq<u8>);

    open spec fn view(&self) -> (Seq<char>, Seq<u8>) {
        (self.name@, self.contents@)
    }
}

/// A member as it is found in an archive: a regular file, or something else
/// that has a name (a directory, a link, a device).
#[derive(Debug, PartialEq, Eq)]
pub struct Member {
    pub name: String,
    pub is_file: bool,
    pub contents: Vec<u8>,
}

impl View for Member {
    type V = (Seq<char>, bool, Seq<u8>);

    open spec fn view(&self) -> (Seq<char>, bool, Seq<u8>) {
        (self.name@, self.is_file, self.contents@)
    }
}

/// The files of a list, each by name and contents.
pub open spec fn entries_of(files: Seq<FileEntry>) -> Seq<(Seq<char>, Seq<u8>)> {
    files.map_values(|file: FileEntry| file@)
}

/// The members of a list, each by name, kind and contents.
pub open spec fn members_of(members: Seq<Member>) -> Seq<(Seq<char>, bool, Seq<u8>)> {
    members.map_values(|member: Member| member@)
}

/// The archive that the bundler `format` writes for a list of files, if it
/// writes one.
pub open spec fn bundle_packed(format: CompressionFormat, entries: Seq<(Seq<char>, Seq<u8>)>) -> Option<
    Seq<u8>,
> {
    match format {
        CompressionFormat::Zip => zip_archive(entries),
        _ => tar_archive(entries),
    }
}

/// The members that the bundler `format` finds in an archive, if it can
/// read it.
pub open spec fn bundle_unpacked(format: CompressionFormat, archive: Seq<u8>) -> Option<
    Seq<(Seq<char>, bool, Seq<u8>)>,
> {
    match format {
        CompressionFormat::Zip => zip_unpacked(archive),
        _ => tar_unpacked(archive),
    }
}

/// The regular files among the members of an archive, in their order.
pub open spec fn files_among(members: Seq<(Seq<char>, bool, Seq<u8>)>) -> Seq<(Seq<char>, Seq<u8>)>
    decreases members.len(),
{
    if members.len() == 0 {
        Seq::empty()
    } else {
        let before = files_among(members.drop_last());
        let last = members.last();
        if last.1 {
            before.push((last.0, last.2))
        } else {
            before
        }
    }
}

/// The name of the first regular file among the members whose name is not
/// safe.
pub open spec fn first_unsafe_name(members: Seq<(Seq<char>, bool, Seq<u8>)>) -> Option<Seq<char>>
    decreases members.len(),
{
    if members.len() == 0 {
        None
    } else if members[0].1 && !safe_name(members[0].0) {
        Some(members[0].0)
    } else {
        first_unsafe_name(members.drop_first())
    }
}

/// The members of `files`, as an archive that holds just these files would
/// list them.
pub open spec fn as_members(entries: Seq<(Seq<char>, Seq<u8>)>) -> Seq<(Seq<char>, bool, Seq<u8>)> {
    entries.map_values(|entry: (Seq<char>, Seq<u8>)| (entry.0, true, entry.1))
}

/// Keeps the regular files among the members of an archive. Directories,
/// links and devices are left out. The files come back only if each of them
/// has a safe name; otherwise the first name that is not safe is reported.
pub fn files_from_members(members: Vec<Member>) -> (result: Result<Vec<FileEntry>, Error>)
    ensures
        match first_unsafe_name(members_of(members@)) {
            Some(name) => result matches Err(error) && error.is_unsafe_name(name),
            None => result matches Ok(files) && entries_of(files@) == files_among(
                members_of(members@),
            ),
        },
{
    let ghost all = members_of(members@);
    let mut files: Vec<FileEntry> = Vec::new();
    assert(all.skip(0) =~= all);
    assert(all.take(0) =~= Seq::empty());
    for member in it: members
        invariant
            it.seq().map_values(|member: Member| member@) == all,
            first_unsafe_name(all) == first_unsafe_name(all.skip(it.index() as int)),
            entries_of(files@) == files_among(all.take(it.index() as int)),
    {
        let ghost at = it.index() as int;
        assert(all[at] == member@);
        assert(all.skip(at).drop_first() =~= all.skip(at + 1));
        assert(all.take(at + 1).drop_last() =~= all.take(at));
        if member.is_file {
            if !is_safe_name(member.name.as_str()) {
                return Err(Error::UnsafeEntryName { name: member.name });
            }
            let ghost before = files@;
            files.push(FileEntry { name: member.name, contents: member.contents });
            assert(entries_of(files@) =~= entries_of(before).push((all[at].0, all[at].2)));
        }
    }
    assert(all.take(all.len() as int) =~= all);
    Ok(files)
}

/// Packs `files` into one archive of the bundler `format`, in their order.
/// Where the bundler writes no archive for them, that is reported as an
/// `IoError`.
pub fn pack(format: CompressionFormat, files: &Vec<FileEntry>) -> (result: Result<Vec<u8>, Error>)
    requires
        format.bundles(),
    ensures
        match bundle_packed(format, entries_of(files@)) {
            Some(bytes) => result matches Ok(archive) && archive@ == bytes,
            None => result matches Err(error) && error is IoError,
        },
{
    match format {
        CompressionFormat::Zip => zip::build_archive(files),
        _ => tar::build_archive(files),
    }
}

/// What a bundler found in an archive, as this crate reports it: the
/// members, or the failure as a `CorruptOrUnreadableArchive` that names the
/// format and gives the reason.
pub fn members_or_error(format: CompressionFormat, outcome: Result<Vec<Member>, String>) -> (result:
    Result<Vec<Member>, Error>)
    ensures
        result == match outcome {
            Ok(members) => Ok::<Vec<Member>, Error>(members),
            Err(reason) => Err::<Vec<Member>, Error>(
                Error::CorruptOrUnreadableArchive { format, reason },
            ),
        },
{
    match outcome {
        Ok(members) => Ok(members),
        Err(reason) => Err(Error::CorruptOrUnreadableArchive { format, reason }),
    }
}

/// Reads the members of an archive of the bundler `format`.
pub fn read_members(format: CompressionFormat, archive: &Vec<u8>) -> (result: Result<
    Vec<Member>,
    Error,
>)
    requires
        format.bundles(),
    ensures
        match bundle_unpacked(format, archive@) {
            Some(members) => result matches Ok(found) && members_of(found@) == members,
            None => result matches Err(error) && error.is_corrupt(format),
        },
{
    match format {
        CompressionFormat::Zip => members_or_error(format, zip::read_archive(archive)),
        _ => members_or_error(format, tar::read_archive(archive)),
    }
}

/// What reading an archive comes to.
pub ghost enum Unpacked {
    /// The files found, in their order, each by name and contents.
    Files(Seq<(Seq<char>, Seq<u8>)>),
    /// The data could not be read as the given format.
    Unreadable(CompressionFormat),
    /// The archive holds a regular file of this name, which is not safe.
    UnsafeName(Seq<char>),
}

/// What unpacking `archive` with the bundler `format` comes to.
pub open spec fn unpacked(format: CompressionFormat, archive: Seq<u8>) -> Unpacked {
    match bundle_unpacked(format, archive) {
        None => Unpacked::Unreadable(format),
        Some(members) => match first_unsafe_name(members) {
            Some(name) => Unpacked::UnsafeName(name),
            None => Unpacked::Files(files_among(members)),
        },
    }
}

/// Whether `result` reports what `expected` describes.
pub open spec fn reports(result: Result<Vec<FileEntry>, Error>, expected: Unpacked) -> bool {
    match expected {
        Unpacked::Files(entries) => result matches Ok(files) && entries_of(files@) == entries,
        Unpacked::Unreadable(format) => result matches Err(error) && error.is_corrupt(format),
        Unpacked::UnsafeName(name) => result matches Err(error) && error.is_unsafe_name(name),
    }
}

/// Unpacks an archive of the bundler `format` into its regular files.
pub fn unpack(format: CompressionFormat, archive: &Vec<u8>) -> (result: Result<
    Vec<FileEntry>,
    Error,
>)
    requires
        format.bundles(),
    ensures
        reports(result, unpacked(format, archive@)),
{
    match read_members(format, archive) {
        Ok(members) => files_from_members(members),
        Err(error) => Err(error),
    }
}

/// Whether two lists hold the same files, by name and contents, in the same
/// order.
pub fn same_files(a: &Vec<FileEntry>, b: &Vec<FileEntry>) -> (same: bool)
    ensures
        same == (entries_of(a@) == entries_of(b@)),
{
    if a.len() != b.len() {
        assert(entries_of(a@).len() != entries_of(b@).len());
        return false;
    }
    let mut at: usize = 0;
    while at < a.len()
        invariant
            at <= a.len() == b.len(),
            forall|k: int| 0 <= k < at ==> a@[k]@ == b@[k]@,
        decreases a.len() - at,
    {
        if !same_text(a[at].name.as_str(), b[at].name.as_str()) || !same_bytes(
            &a[at].contents,
            &b[at].contents,
        ) {
            assert(entries_of(a@)[at as int] != entries_of(b@)[at as int]);
            return false;
        }
        at += 1;
    }
    assert(entries_of(a@) =~= entries_of(b@));
    true
}

/// Where no regular file among the members has an unsafe name, every file
/// that is kept has a safe one.
pub proof fn lemma_kept_files_are_safe(members: Seq<(Seq<char>, bool, Seq<u8>)>)
    requires
        first_unsafe_name(members) is None,
    ensures
        all_safe(files_among(members)),
    decreases members.len(),
{
    if members.len() > 0 {
        lemma_no_unsafe_name(members, members.len() - 1);
        lemma_no_unsafe_name_in_front(members);
        lemma_kept_files_are_safe(members.drop_last());
    }
}

/// Where no regular file among the members has an unsafe name, the member at
/// `at` is no regular file or has a safe name.
pub proof fn lemma_no_unsafe_name(members: Seq<(Seq<char>, bool, Seq<u8>)>, at: int)
    requires
        first_unsafe_name(members) is None,
        0 <= at < members.len(),
    ensures
        members[at].1 ==> safe_name(members[at].0),
    decreases members.len(),
{
    if at > 0 {
        lemma_no_unsafe_name(members.drop_first(), at - 1);
    }
}

/// Where no regular file among the members has an unsafe name, the same
/// holds of the members without the last.
pub proof fn lemma_no_unsafe_name_in_front(members: Seq<(Seq<char>, bool, Seq<u8>)>)
    requires
        first_unsafe_name(members) is None,
        members.len() > 0,
    ensures
        first_unsafe_name(members.drop_last()) is None,
    decreases members.len(),
{
    if members.len() > 1 {
        lemma_no_unsafe_name_in_front(members.drop_first());
        assert(members.drop_first().drop_last() =~= members.drop_last().drop_first());
    }
}

/// Whatever is unpacked from an archive has a safe name.
pub proof fn lemma_unpacked_files_are_safe(format: CompressionFormat, archive: Seq<u8>)
    ensures
        unpacked(format, archive) matches Unpacked::Files(entries) ==> all_safe(entries),
{
    match bundle_unpacked(format, archive) {
        Some(members) => {
            if first_unsafe_name(members) is None {
                lemma_kept_files_are_safe(members);
            }
        },
        None => {},
    }
}

/// A list of files that all have safe names holds no unsafe name, and as
/// the members of an archive it consists of just these files.
pub proof fn lemma_files_among_files(entries: Seq<(Seq<char>, Seq<u8>)>)
    requires
        all_safe(entries),
    ensures
        first_unsafe_name(as_members(entries)) is None,
        files_among(as_members(entries)) == entries,
    decreases entries.len(),
{
    let members = as_members(entries);
    if entries.len() > 0 {
        lemma_files_among_files(entries.drop_last());
        assert(members.drop_last() =~= as_members(entries.drop_last()));
        assert(files_among(members) =~= entries);
        lemma_files_among_files(entries.drop_first());
        assert(members.drop_first() =~= as_members(entries.drop_first()));
    }
}

/// Where a bundler reads back from its own archive the files that went in,
/// and their names are safe, unpacking the archive gives these files.
pub proof fn lemma_unpack_reads_back(
    format: CompressionFormat,
    entries: Seq<(Seq<char>, Seq<u8>)>,
    archive: Seq<u8>,
)
    requires
        bundle_packed(format, entries) == Some(archive),
        bundle_unpacked(format, archive) == Some(as_members(entries)),
        all_safe(entries),
    ensures
        unpacked(format, archive) == Unpacked::Files(entries),
{
    lemma_files_among_files(entries);
}

} // verus!
