use ouch::archive::names::{is_safe_name, joined_path};
use ouch::archive::{
    files_from_members, members_or_error, pack, read_members, unpack, FileEntry, Member,
};
use ouch::archive::zip::zipped_or_error;
use ouch::codec::{decode_layer, decoded_or_error, encode_layer, written_or_error};
use ouch::error::Error;
use ouch::format::CompressionFormat;
use ouch::pipeline::{unwrap_layers, wrap_layers};

use CompressionFormat::{Bzip, Gzip, Lzma, Tar, Zip};

fn sample() -> Vec<u8> {
    let mut data = Vec::new();
    for round in 0..40u32 {
        data.extend_from_slice(b"the quick brown fox jumps over the lazy dog ");
        data.extend_from_slice(&round.to_le_bytes());
    }
    data
}

fn entry(name: &str, contents: &[u8]) -> FileEntry {
    FileEntry { name: String::from(name), contents: contents.to_vec() }
}

#[test]
fn gzip_writes_a_gzip_stream() {
    let stream = encode_layer(Gzip, &sample()).unwrap();
    assert_eq!(&stream[..3], &[0x1f, 0x8b, 0x08]);
    assert_ne!(stream, sample());
    assert!(stream.len() < sample().len());
    assert_eq!(decode_layer(Gzip, &stream).unwrap(), sample());
}

#[test]
fn bzip_writes_a_bzip2_stream() {
    let stream = encode_layer(Bzip, &sample()).unwrap();
    assert_eq!(&stream[..3], b"BZh");
    assert_ne!(stream, sample());
    assert!(stream.len() < sample().len());
    assert_eq!(decode_layer(Bzip, &stream).unwrap(), sample());
}

#[test]
fn lzma_writes_an_xz_stream() {
    let stream = encode_layer(Lzma, &sample()).unwrap();
    assert_eq!(&stream[..6], &[0xfd, b'7', b'z', b'X', b'Z', 0x00]);
    assert_ne!(stream, sample());
    assert!(stream.len() < sample().len());
    assert_eq!(decode_layer(Lzma, &stream).unwrap(), sample());
}

#[test]
fn encoding_is_repeatable() {
    for format in [Gzip, Bzip, Lzma] {
        assert_eq!(encode_layer(format, &sample()), encode_layer(format, &sample()));
    }
}

#[test]
fn empty_data_survives_every_compressor() {
    for format in [Gzip, Bzip, Lzma] {
        let stream = encode_layer(format, &Vec::new()).unwrap();
        assert!(!stream.is_empty());
        assert_eq!(decode_layer(format, &stream).unwrap(), Vec::<u8>::new());
    }
}

#[test]
fn a_compressor_refuses_what_it_did_not_write() {
    for format in [Gzip, Bzip, Lzma] {
        match decode_layer(format, &sample()) {
            Err(Error::CorruptOrUnreadableArchive { format: named, .. }) => {
                assert_eq!(named, format)
            }
            other => panic!("{:?}", other),
        }
    }
    let gzip = encode_layer(Gzip, &sample()).unwrap();
    assert!(decode_layer(Lzma, &gzip).is_err());
    assert!(decode_layer(Bzip, &gzip).is_err());
}

#[test]
fn a_truncated_stream_is_refused() {
    for format in [Gzip, Bzip, Lzma] {
        let mut stream = encode_layer(format, &sample()).unwrap();
        stream.truncate(stream.len() / 2);
        assert!(matches!(
            decode_layer(format, &stream),
            Err(Error::CorruptOrUnreadableArchive { .. })
        ));
    }
}

#[test]
fn outcomes_of_codecs_are_reported() {
    assert_eq!(written_or_error(Ok(vec![1, 2, 3])), Ok(vec![1, 2, 3]));
    let failure = std::io::Error::new(std::io::ErrorKind::Other, "disk on fire");
    assert_eq!(
        written_or_error::<Vec<u8>>(Err(failure)),
        Err(Error::IoError { reason: String::from("disk on fire") })
    );
    assert_eq!(zipped_or_error(Ok(7)), Ok(7));
    assert_eq!(
        zipped_or_error::<()>(Err(zip::result::ZipError::FileNotFound)),
        Err(Error::IoError { reason: String::from("specified file not found in archive") })
    );
    assert_eq!(decoded_or_error(Bzip, Ok(vec![4, 5])), Ok(vec![4, 5]));
    let failure = std::io::Error::new(std::io::ErrorKind::InvalidData, "not bzip2");
    assert_eq!(
        decoded_or_error(Bzip, Err(failure)),
        Err(Error::CorruptOrUnreadableArchive { format: Bzip, reason: String::from("not bzip2") })
    );
}

#[test]
fn layers_are_applied_first_to_last() {
    let layers = vec![Gzip, Lzma];
    let stream = wrap_layers(&layers, sample()).unwrap();
    // The outermost layer is xz, and inside it is a gzip stream.
    assert_eq!(&stream[..6], &[0xfd, b'7', b'z', b'X', b'Z', 0x00]);
    let inner = decode_layer(Lzma, &stream).unwrap();
    assert_eq!(&inner[..2], &[0x1f, 0x8b]);
    assert_eq!(inner, encode_layer(Gzip, &sample()).unwrap());
    assert_eq!(decode_layer(Gzip, &inner).unwrap(), sample());
    assert_eq!(unwrap_layers(&layers, stream).unwrap(), sample());
}

#[test]
fn no_layers_change_nothing() {
    assert_eq!(wrap_layers(&vec![], sample()).unwrap(), sample());
    assert_eq!(unwrap_layers(&vec![], sample()).unwrap(), sample());
}

#[test]
fn unwrapping_names_the_layer_that_failed() {
    let stream = wrap_layers(&vec![Gzip, Bzip], sample()).unwrap();
    // Bzip comes off, then what is left is no xz stream.
    let wrong = vec![Lzma, Bzip];
    match unwrap_layers(&wrong, stream) {
        Err(Error::CorruptOrUnreadableArchive { format, .. }) => assert_eq!(format, Lzma),
        other => panic!("{:?}", other),
    }
}

#[test]
fn tar_packs_and_unpacks_files_in_order() {
    let files = vec![entry("b.txt", b"second"), entry("dir/a.txt", b"first"), entry("empty", b"")];
    let archive = pack(Tar, &files).unwrap();
    assert_eq!(archive.len() % 512, 0);
    assert_eq!(&archive[..5], b"b.txt");
    assert_eq!(&archive[257..262], b"ustar");
    assert_eq!(unpack(Tar, &archive).unwrap(), files);
    assert_eq!(pack(Tar, &files).unwrap(), archive);
}

#[test]
fn zip_packs_and_unpacks_files_in_order() {
    let files = vec![entry("b.txt", b"second"), entry("dir/a.txt", b"first"), entry("empty", b"")];
    let archive = pack(Zip, &files).unwrap();
    assert_eq!(&archive[..4], b"PK\x03\x04");
    assert_eq!(unpack(Zip, &archive).unwrap(), files);
    assert_eq!(pack(Zip, &files).unwrap(), archive);
}

#[test]
fn an_archive_of_no_files_is_still_an_archive() {
    for format in [Tar, Zip] {
        let archive = pack(format, &vec![]).unwrap();
        assert!(!archive.is_empty());
        assert_eq!(unpack(format, &archive).unwrap(), vec![]);
    }
}

#[test]
fn long_names_survive_tar() {
    let name = "folder/".repeat(30) + "file.txt";
    assert!(name.len() > 100);
    let files = vec![entry(&name, b"deep")];
    let archive = pack(Tar, &files).unwrap();
    assert_eq!(unpack(Tar, &archive).unwrap(), files);
}

#[test]
fn a_bundler_refuses_what_it_did_not_write() {
    assert_eq!(
        unpack(Zip, &sample()).map_err(|error| matches!(
            error,
            Error::CorruptOrUnreadableArchive { format: Zip, .. }
        )),
        Err(true)
    );
    assert_eq!(
        unpack(Tar, &sample()).map_err(|error| matches!(
            error,
            Error::CorruptOrUnreadableArchive { format: Tar, .. }
        )),
        Err(true)
    );
}

#[test]
fn members_that_are_no_files_are_left_out() {
    let members = vec![
        Member { name: String::from("dir/"), is_file: false, contents: vec![] },
        Member { name: String::from("dir/a"), is_file: true, contents: vec![1] },
        Member { name: String::from("../link"), is_file: false, contents: vec![] },
        Member { name: String::from("b"), is_file: true, contents: vec![2, 3] },
    ];
    assert_eq!(
        files_from_members(members),
        Ok(vec![entry("dir/a", &[1]), entry("b", &[2, 3])])
    );
    assert_eq!(files_from_members(vec![]), Ok(vec![]));
}

#[test]
fn the_first_unsafe_file_name_is_reported() {
    let members = vec![
        Member { name: String::from("fine"), is_file: true, contents: vec![] },
        Member { name: String::from("a/../../b"), is_file: true, contents: vec![] },
        Member { name: String::from("/etc/passwd"), is_file: true, contents: vec![] },
    ];
    assert_eq!(
        files_from_members(members),
        Err(Error::UnsafeEntryName { name: String::from("a/../../b") })
    );
}

#[test]
fn unsafe_names_in_a_zip_archive_are_refused() {
    let archive = pack(Zip, &vec![entry("ok", b"1"), entry("../escape", b"2")]).unwrap();
    let members = read_members(Zip, &archive).unwrap();
    assert_eq!(members.len(), 2);
    assert_eq!(members[1].name, "../escape");
    assert_eq!(
        unpack(Zip, &archive),
        Err(Error::UnsafeEntryName { name: String::from("../escape") })
    );
}

#[test]
fn tar_itself_refuses_to_pack_a_parent_folder() {
    assert!(matches!(pack(Tar, &vec![entry("../escape", b"2")]), Err(Error::IoError { .. })));
}

#[test]
fn reading_members_reports_failure_by_format() {
    assert_eq!(
        members_or_error(Tar, Err(String::from("bad header"))),
        Err(Error::CorruptOrUnreadableArchive { format: Tar, reason: String::from("bad header") })
    );
    assert_eq!(members_or_error(Zip, Ok(vec![])), Ok(vec![]));
}

#[test]
fn safe_names_stay_under_the_folder() {
    for name in [
        "a", "a/b", "a.b/c.d", "./a", "a/./b", "..a", "a..", "a/..b/c", "...", "a b", "é", "C:x",
        "12:30.log",
    ] {
        assert!(is_safe_name(name), "{}", name);
    }
    for name in [
        "", "/", "/a", "\\a", "..", "../a", "a/..", "a/../b", "a\\..\\b", "..\\a", "a\0b",
        "C:\\..\\a", "a/\\..",
    ] {
        assert!(!is_safe_name(name), "{:?}", name);
    }
}

// The reader looks for the mark of a 64-bit directory at a fixed distance
// from the end of an archive. Here the name of the last file puts these
// very bytes there, and the archive that was just written is refused.
#[test]
fn zip_does_not_read_back_every_archive_it_wrote() {
    let files = vec![entry("PK\u{6}\u{7}0123456789abcdef", b"data")];
    let archive = pack(Zip, &files).unwrap();
    assert!(matches!(
        unpack(Zip, &archive),
        Err(Error::CorruptOrUnreadableArchive { format: Zip, .. })
    ));
    // One more character at the end moves the bytes out of the way.
    let files = vec![entry("PK\u{6}\u{7}0123456789abcdefx", b"data")];
    let archive = pack(Zip, &files).unwrap();
    assert_eq!(unpack(Zip, &archive).unwrap(), files);
}

#[test]
fn each_bundler_reads_its_own_archives() {
    let files = vec![entry("one", b"1"), entry("two", b"22")];
    let members = vec![
        Member { name: String::from("one"), is_file: true, contents: vec![b'1'] },
        Member { name: String::from("two"), is_file: true, contents: vec![b'2', b'2'] },
    ];
    let archive = ouch::archive::tar::build_archive(&files).unwrap();
    assert_eq!(archive, pack(Tar, &files).unwrap());
    assert_eq!(ouch::archive::tar::read_archive(&archive), Ok(members));
    assert!(ouch::archive::zip::read_archive(&archive).is_err());

    let members = vec![
        Member { name: String::from("one"), is_file: true, contents: vec![b'1'] },
        Member { name: String::from("two"), is_file: true, contents: vec![b'2', b'2'] },
    ];
    let archive = ouch::archive::zip::build_archive(&files).unwrap();
    assert_eq!(archive, pack(Zip, &files).unwrap());
    assert_eq!(ouch::archive::zip::read_archive(&archive), Ok(members));
    assert!(ouch::archive::tar::read_archive(&archive).is_err());
}

#[test]
fn paths_are_joined_with_one_slash() {
    assert_eq!(joined_path("out", "a"), "out/a");
    assert_eq!(joined_path("out/", "a"), "out/a");
    assert_eq!(joined_path(".", "dir/a"), "./dir/a");
    assert_eq!(joined_path("", "a"), "a");
    assert_eq!(joined_path("/", "a"), "/a");
    assert_eq!(joined_path("a/b", ""), "a/b/");
}
