//! Building and running the pipeline that a chain of formats stands for.
//!
//! To compress, the files are bundled (or, for a single file without a
//! bundler, taken as they are) and the result is sent through each
//! compressor of the chain, innermost first. To decompress, the compressors
//! are undone outermost first, and what is left is unpacked by the bundler
//! or is the file itself.

use vstd::pervasive::unreached;
use vstd::prelude::*;
use crate::archive::names::{all_safe, is_safe_name, safe_name};
use crate::archive::{
    as_members,
    bundle_packed,
    bundle_unpacked,
    entries_of,
    lemma_unpack_reads_back,
    lemma_unpacked_files_are_safe,
    pack,
    reports,
    unpack,
    unpacked,
    FileEntry,
    Unpacked,
};
use crate::chain::{
    check_compression,
    check_decompression,
    compression_fault,
    decompression_fault,
    lemma_faultless_is_well_formed,
    well_formed,
};
use crate::codec::{decode_layer, encode_layer, layer_decoded, layer_encoded};
use crate::error::Error;
use crate::format::CompressionFormat;

verus! {

/// What stands at the innermost end of a pipeline that is being undone.
#[derive(Clone, Copy, Debug, PartialEq, Eq, Structural)]
pub enum Terminal {
    /// A tar archive, to be unpacked.
    Tar,
    /// A zip archive, to be unpacked.
    Zip,
    /// The bytes of a single file.
    RawStream,
}

impl Terminal {
    /// The terminal that a chain starting with `format` ends in.
    pub open spec fn of(format: CompressionFormat) -> Terminal {
        match format {
            CompressionFormat::Tar => Terminal::Tar,
            CompressionFormat::Zip => Terminal::Zip,
            _ => Terminal::RawStream,
        }
    }

    /// The bundler that unpacks the terminal, if it is an archive.
    pub open spec fn bundler(self) -> Option<CompressionFormat> {
        match self {
            Terminal::Tar => Some(CompressionFormat::Tar),
            Terminal::Zip => Some(CompressionFormat::Zip),
            Terminal::RawStream => None,
        }
    }
}

/// A chain that has passed its checks, bound to what it will be run on.
#[derive(Debug, PartialEq, Eq)]
pub enum PipelineSpec {
    /// Pack `members` with the bundler `format`, then send the archive
    /// through the compressors of `wrapped_by`, first to last.
    Bundle { format: CompressionFormat, members: Vec<String>, wrapped_by: Vec<CompressionFormat> },
    /// Send the one file `member` through the compressors of `wrapped_by`,
    /// first to last.
    Stream { member: String, wrapped_by: Vec<CompressionFormat> },
    /// Undo the compressors of `layers`, last to first, then treat what is
    /// left as `terminal` says.
    Unwrap { layers: Vec<CompressionFormat>, terminal: Terminal },
}

/// Whether every format of `layers` is a compressor.
pub open spec fn all_compressors(layers: Seq<CompressionFormat>) -> bool {
    forall|at: int| 0 <= at < layers.len() ==> !(#[trigger] layers[at]).bundles()
}

impl PipelineSpec {
    /// What holds of every pipeline that this module builds.
    pub open spec fn wf(self) -> bool {
        match self {
            PipelineSpec::Bundle { format, members, wrapped_by } => format.bundles()
                && all_compressors(wrapped_by@),
            PipelineSpec::Stream { member, wrapped_by } => wrapped_by@.len() > 0
                && all_compressors(wrapped_by@),
            PipelineSpec::Unwrap { layers, terminal } => all_compressors(layers@) && (terminal
                is RawStream ==> layers@.len() > 0),
        }
    }

    /// The chain that the pipeline was built from.
    pub open spec fn chain(self) -> Seq<CompressionFormat> {
        match self {
            PipelineSpec::Bundle { format, members, wrapped_by } => seq![format] + wrapped_by@,
            PipelineSpec::Stream { member, wrapped_by } => wrapped_by@,
            PipelineSpec::Unwrap { layers, terminal } => match terminal.bundler() {
                Some(format) => seq![format] + layers@,
                None => layers@,
            },
        }
    }

    /// The names of the files that go in, where the pipeline compresses.
    pub open spec fn inputs(self) -> Seq<Seq<char>> {
        match self {
            PipelineSpec::Bundle { format, members, wrapped_by } => members@.map_values(
                |name: String| name@,
            ),
            PipelineSpec::Stream { member, wrapped_by } => seq![member@],
            PipelineSpec::Unwrap { layers, terminal } => Seq::empty(),
        }
    }

    /// Whether running the pipeline needs a whole archive in memory at once
    /// because of the format itself: a zip archive cannot be written or read
    /// front to back.
    pub open spec fn holds_archive_in_memory(self) -> bool {
        self.chain().len() > 0 && !self.chain()[0].streams()
    }

    /// Whether running the pipeline needs a whole archive in memory at once
    /// because of the format itself. Callers are expected to tell the user.
    pub fn buffers_in_memory(&self) -> (buffers: bool)
        ensures
            buffers == self.holds_archive_in_memory(),
    {
        match self {
            PipelineSpec::Bundle { format, members, wrapped_by } => {
                assert(self.chain()[0] == *format);
                !format.is_streaming()
            },
            PipelineSpec::Stream { member, wrapped_by } => {
                if wrapped_by.len() > 0 {
                    !wrapped_by[0].is_streaming()
                } else {
                    false
                }
            },
            PipelineSpec::Unwrap { layers, terminal } => match terminal {
                Terminal::Zip => {
                    assert(self.chain()[0] == CompressionFormat::Zip);
                    true
                },
                Terminal::Tar => {
                    assert(self.chain()[0] == CompressionFormat::Tar);
                    false
                },
                Terminal::RawStream => {
                    if layers.len() > 0 {
                        !layers[0].is_streaming()
                    } else {
                        false
                    }
                },
            },
        }
    }
}

/// Copies the formats of `chain` from position `from` on.
fn formats_from(chain: &Vec<CompressionFormat>, from: usize) -> (rest: Vec<CompressionFormat>)
    requires
        from <= chain.len(),
    ensures
        rest@ == chain@.skip(from as int),
{
    let mut rest: Vec<CompressionFormat> = Vec::new();
    let mut at: usize = from;
    while at < chain.len()
        invariant
            from <= at <= chain.len(),
            rest@ == chain@.subrange(from as int, at as int),
        decreases chain.len() - at,
    {
        rest.push(chain[at]);
        assert(rest@ =~= chain@.subrange(from as int, at + 1));
        at += 1;
    }
    assert(rest@ =~= chain@.skip(from as int));
    rest
}

/// Builds the pipeline that compresses the files named `members` with
/// `chain`, or says what is wrong with the chain. Nothing is read or
/// written.
pub fn plan_compression(chain: &Vec<CompressionFormat>, members: Vec<String>) -> (result: Result<
    PipelineSpec,
    Error,
>)
    ensures
        match compression_fault(chain@, members@.len()) {
            Some(error) => result == Err::<PipelineSpec, Error>(error),
            None => result matches Ok(plan) && plan.wf() && plan.chain() == chain@ && plan.inputs()
                == members@.map_values(|name: String| name@) && (plan is Bundle
                <==> chain@[0].bundles()) && !(plan is Unwrap),
        },
{
    match check_compression(chain, members.len()) {
        Err(error) => {
            return Err(error);
        },
        Ok(()) => {},
    }
    proof {
        lemma_faultless_is_well_formed(chain@, members@.len());
    }
    let format = chain[0];
    if format.is_bundler() {
        let wrapped_by = formats_from(chain, 1);
        assert(seq![format] + wrapped_by@ =~= chain@);
        Ok(PipelineSpec::Bundle { format, members, wrapped_by })
    } else {
        let mut members = members;
        let ghost names = members@.map_values(|name: String| name@);
        let wrapped_by = formats_from(chain, 0);
        assert(wrapped_by@ =~= chain@);
        let member = members.remove(0);
        assert(seq![member@] =~= names);
        Ok(PipelineSpec::Stream { member, wrapped_by })
    }
}

/// Builds the pipeline that decompresses an archive with `chain`, or says
/// what is wrong with the chain. Nothing is read or written.
pub fn plan_decompression(chain: &Vec<CompressionFormat>) -> (result: Result<PipelineSpec, Error>)
    ensures
        match decompression_fault(chain@) {
            Some(error) => result == Err::<PipelineSpec, Error>(error),
            None => result matches Ok(plan) && plan.wf() && plan.chain() == chain@ && plan is Unwrap
                && plan->terminal == Terminal::of(chain@[0]),
        },
{
    match check_decompression(chain) {
        Err(error) => {
            return Err(error);
        },
        Ok(()) => {},
    }
    proof {
        lemma_faultless_is_well_formed(chain@, 1);
    }
    match chain[0] {
        CompressionFormat::Tar => {
            let layers = formats_from(chain, 1);
            assert(seq![CompressionFormat::Tar] + layers@ =~= chain@);
            Ok(PipelineSpec::Unwrap { layers, terminal: Terminal::Tar })
        },
        CompressionFormat::Zip => {
            let layers = formats_from(chain, 1);
            assert(seq![CompressionFormat::Zip] + layers@ =~= chain@);
            Ok(PipelineSpec::Unwrap { layers, terminal: Terminal::Zip })
        },
        _ => {
            let layers = formats_from(chain, 0);
            assert(layers@ =~= chain@);
            Ok(PipelineSpec::Unwrap { layers, terminal: Terminal::RawStream })
        },
    }
}

/// What comes of sending `data` through the compressors of `layers`, first
/// to last, if each of them writes a stream.
pub open spec fn wrapped(layers: Seq<CompressionFormat>, data: Seq<u8>) -> Option<Seq<u8>>
    decreases layers.len(),
{
    if layers.len() == 0 {
        Some(data)
    } else {
        match wrapped(layers.drop_last(), data) {
            Some(inner) => layer_encoded(layers.last(), inner),
            None => None,
        }
    }
}

/// What comes of undoing the compressors of `layers`, last to first: the
/// data, or the first compressor that does not accept what it is given.
pub open spec fn unwrapped(layers: Seq<CompressionFormat>, stream: Seq<u8>) -> Result<
    Seq<u8>,
    CompressionFormat,
>
    decreases layers.len(),
{
    if layers.len() == 0 {
        Ok(stream)
    } else {
        match layer_decoded(layers.last(), stream) {
            Some(inner) => unwrapped(layers.drop_last(), inner),
            None => Err(layers.last()),
        }
    }
}

/// Sends `data` through the compressors of `layers`, first to last. Where
/// one of them writes no stream, that is reported as an `IoError`.
pub fn wrap_layers(layers: &Vec<CompressionFormat>, data: Vec<u8>) -> (result: Result<
    Vec<u8>,
    Error,
>)
    requires
        all_compressors(layers@),
    ensures
        match wrapped(layers@, data@) {
            Some(stream) => result matches Ok(written) && written@ == stream && unwrapped(
                layers@,
                stream,
            ) == Ok::<Seq<u8>, CompressionFormat>(data@),
            None => result matches Err(error) && error is IoError,
        },
{
    let ghost given = data@;
    let mut current = data;
    let mut at: usize = 0;
    while at < layers.len()
        invariant
            at <= layers.len(),
            all_compressors(layers@),
            given == data@,
            wrapped(layers@.take(at as int), given) == Some(current@),
            unwrapped(layers@.take(at as int), current@) == Ok::<Seq<u8>, CompressionFormat>(
                given,
            ),
        decreases layers.len() - at,
    {
        assert(layers@.take(at + 1).drop_last() =~= layers@.take(at as int));
        assert(layers@.take(at + 1).last() == layers@[at as int]);
        match encode_layer(layers[at], &current) {
            Ok(stream) => {
                current = stream;
            },
            Err(error) => {
                proof {
                    lemma_wrapping_stops(layers@, at + 1, given);
                }
                return Err(error);
            },
        }
        at += 1;
    }
    assert(layers@.take(at as int) =~= layers@);
    Ok(current)
}

/// Where the first `upto` compressors write no stream, all of them write
/// none.
pub proof fn lemma_wrapping_stops(layers: Seq<CompressionFormat>, upto: int, data: Seq<u8>)
    requires
        0 <= upto <= layers.len(),
        wrapped(layers.take(upto), data) is None,
    ensures
        wrapped(layers, data) is None,
    decreases layers.len() - upto,
{
    if upto < layers.len() {
        assert(layers.take(upto + 1).drop_last() =~= layers.take(upto));
        lemma_wrapping_stops(layers, upto + 1, data);
    } else {
        assert(layers.take(upto) =~= layers);
    }
}

/// Undoes the compressors of `layers`, last to first.
pub fn unwrap_layers(layers: &Vec<CompressionFormat>, stream: Vec<u8>) -> (result: Result<
    Vec<u8>,
    Error,
>)
    requires
        all_compressors(layers@),
    ensures
        match unwrapped(layers@, stream@) {
            Ok(data) => result matches Ok(found) && found@ == data,
            Err(format) => result matches Err(error) && error.is_corrupt(format),
        },
{
    let ghost given = stream@;
    let mut current = stream;
    let mut left: usize = layers.len();
    assert(layers@.take(left as int) =~= layers@);
    while left > 0
        invariant
            left <= layers.len(),
            all_compressors(layers@),
            given == stream@,
            unwrapped(layers@, given) == unwrapped(layers@.take(left as int), current@),
        decreases left,
    {
        assert(layers@.take(left as int).drop_last() =~= layers@.take(left - 1));
        assert(layers@.take(left as int).last() == layers@[left - 1]);
        match decode_layer(layers[left - 1], &current) {
            Ok(data) => {
                current = data;
            },
            Err(error) => {
                return Err(error);
            },
        }
        left -= 1;
    }
    Ok(current)
}

/// The archive that comes of compressing files with a chain, if one comes
/// of it: the files are bundled by the first format if it is a bundler,
/// else the first file is taken as it is; the rest of the chain compresses
/// the result.
pub open spec fn compressed(chain: Seq<CompressionFormat>, entries: Seq<(Seq<char>, Seq<u8>)>) -> Option<
    Seq<u8>,
> {
    if chain[0].bundles() {
        match bundle_packed(chain[0], entries) {
            Some(inner) => wrapped(chain.skip(1), inner),
            None => None,
        }
    } else {
        wrapped(chain, entries[0].1)
    }
}

/// What comes of decompressing an archive with a chain. Where the chain
/// has no bundler, what is left is one file, called `name`; a name that is
/// not safe is refused before anything is decoded.
pub open spec fn decompressed(chain: Seq<CompressionFormat>, archive: Seq<u8>, name: Seq<char>) -> Unpacked {
    if chain[0].bundles() {
        match unwrapped(chain.skip(1), archive) {
            Ok(inner) => unpacked(chain[0], inner),
            Err(format) => Unpacked::Unreadable(format),
        }
    } else if !safe_name(name) {
        Unpacked::UnsafeName(name)
    } else {
        match unwrapped(chain, archive) {
            Ok(data) => Unpacked::Files(seq![(name, data)]),
            Err(format) => Unpacked::Unreadable(format),
        }
    }
}

/// What decompressing gives for an archive that was compressed from
/// `entries` with the same chain: the one file under its new name, or
/// whatever the bundler reads back from the archive that it wrote.
pub open spec fn read_back(
    chain: Seq<CompressionFormat>,
    entries: Seq<(Seq<char>, Seq<u8>)>,
    name: Seq<char>,
) -> Unpacked {
    if chain[0].bundles() {
        match bundle_packed(chain[0], entries) {
            Some(inner) => unpacked(chain[0], inner),
            None => Unpacked::Unreadable(chain[0]),
        }
    } else if !safe_name(name) {
        Unpacked::UnsafeName(name)
    } else {
        Unpacked::Files(seq![(name, entries[0].1)])
    }
}

/// The files that the round trip is to give back: those that went in, or,
/// where the chain has no bundler and so keeps no names, the contents of
/// the one that went in under the name `name`.
pub open spec fn given_back(
    chain: Seq<CompressionFormat>,
    entries: Seq<(Seq<char>, Seq<u8>)>,
    name: Seq<char>,
) -> Seq<(Seq<char>, Seq<u8>)> {
    if chain[0].bundles() {
        entries
    } else {
        seq![(name, entries[0].1)]
    }
}

/// Whatever comes out of decompressing has a safe name.
pub proof fn lemma_decompressed_files_are_safe(
    chain: Seq<CompressionFormat>,
    archive: Seq<u8>,
    name: Seq<char>,
)
    ensures
        decompressed(chain, archive, name) matches Unpacked::Files(entries) ==> all_safe(entries),
{
    if chain[0].bundles() {
        match unwrapped(chain.skip(1), archive) {
            Ok(inner) => {
                lemma_unpacked_files_are_safe(chain[0], inner);
            },
            Err(_) => {},
        }
    }
}

/// The round trip. Take an archive of which decompressing gives what
/// `read_back` describes, as is the case for what `run_compression` hands
/// out. Where the chain has no bundler, decompressing the archive gives one
/// file, with the contents of the file that went in. Where it has one,
/// decompressing gives the files that went in, with their names and
/// contents and in their order, provided that their names are safe and that
/// the bundler reads back from the archive it writes for them just these
/// files.
pub proof fn lemma_round_trip(
    chain: Seq<CompressionFormat>,
    entries: Seq<(Seq<char>, Seq<u8>)>,
    archive: Seq<u8>,
    name: Seq<char>,
)
    requires
        decompressed(chain, archive, name) == read_back(chain, entries, name),
        chain[0].bundles() ==> all_safe(entries) && bundle_packed(chain[0], entries) is Some
            && bundle_unpacked(chain[0], bundle_packed(chain[0], entries)->0) == Some(
            as_members(entries),
        ),
        !chain[0].bundles() ==> safe_name(name),
    ensures
        decompressed(chain, archive, name) == Unpacked::Files(given_back(chain, entries, name)),
{
    if chain[0].bundles() {
        lemma_unpack_reads_back(chain[0], entries, bundle_packed(chain[0], entries)->0);
    }
}

/// Every pipeline that is well formed stands for a chain that is.
pub proof fn lemma_plan_chain_is_well_formed(plan: PipelineSpec)
    requires
        plan.wf(),
    ensures
        well_formed(plan.chain()),
{
    match plan {
        PipelineSpec::Bundle { format, members, wrapped_by } => {
            assert forall|at: int| 1 <= at < plan.chain().len() implies !plan.chain()[at].bundles() by {
                assert(plan.chain()[at] == wrapped_by@[at - 1]);
            }
        },
        PipelineSpec::Stream { member, wrapped_by } => {},
        PipelineSpec::Unwrap { layers, terminal } => {
            if terminal.bundler() is Some {
                assert forall|at: int| 1 <= at < plan.chain().len() implies !plan.chain()[at].bundles() by {
                    assert(plan.chain()[at] == layers@[at - 1]);
                }
            }
        },
    }
}

/// Runs a pipeline that compresses, on the files that were read for it.
/// Where the bundler or a compressor writes nothing, that is reported as an
/// `IoError`.
pub fn run_compression(plan: &PipelineSpec, files: &Vec<FileEntry>) -> (result: Result<
    Vec<u8>,
    Error,
>)
    requires
        plan.wf(),
        !(plan is Unwrap),
        plan is Stream ==> files.len() == 1,
    ensures
        match compressed(plan.chain(), entries_of(files@)) {
            Some(bytes) => result matches Ok(archive) && archive@ == bytes && forall|
                name: Seq<char>,
            |
                decompressed(plan.chain(), bytes, name) == read_back(
                    plan.chain(),
                    entries_of(files@),
                    name,
                ),
            None => result matches Err(error) && error is IoError,
        },
{
    match plan {
        PipelineSpec::Bundle { format, members, wrapped_by } => {
            assert(plan.chain().skip(1) =~= wrapped_by@);
            let inner = match pack(*format, files) {
                Ok(inner) => inner,
                Err(error) => {
                    return Err(error);
                },
            };
            wrap_layers(wrapped_by, inner)
        },
        PipelineSpec::Stream { member, wrapped_by } => {
            let contents = files[0].contents.clone();
            assert(contents@ == entries_of(files@)[0].1);
            wrap_layers(wrapped_by, contents)
        },
        PipelineSpec::Unwrap { layers, terminal } => unreached(),
    }
}

/// Runs a pipeline that decompresses, on the archive that was read for it.
/// Where the archive is no bundle, the one file that comes out is called
/// `output_name`.
pub fn run_decompression(plan: &PipelineSpec, archive: Vec<u8>, output_name: &str) -> (result:
    Result<Vec<FileEntry>, Error>)
    requires
        plan.wf(),
        plan is Unwrap,
    ensures
        reports(result, decompressed(plan.chain(), archive@, output_name@)),
{
    match plan {
        PipelineSpec::Unwrap { layers, terminal } => {
            if matches!(terminal, Terminal::RawStream) && !is_safe_name(output_name) {
                return Err(Error::UnsafeEntryName { name: output_name.to_owned() });
            }
            let data = match unwrap_layers(layers, archive) {
                Ok(data) => data,
                Err(error) => {
                    proof {
                        if terminal.bundler() is Some {
                            assert(plan.chain().skip(1) =~= layers@);
                        }
                    }
                    return Err(error);
                },
            };
            match terminal {
                Terminal::Tar => {
                    assert(plan.chain().skip(1) =~= layers@);
                    unpack(CompressionFormat::Tar, &data)
                },
                Terminal::Zip => {
                    assert(plan.chain().skip(1) =~= layers@);
                    unpack(CompressionFormat::Zip, &data)
                },
                Terminal::RawStream => {
                    let mut files: Vec<FileEntry> = Vec::new();
                    files.push(FileEntry { name: output_name.to_owned(), contents: data });
                    assert(entries_of(files@) =~= seq![(output_name@, data@)]);
                    Ok(files)
                },
            }
        },
        _ => unreached(),
    }
}

} // verus!
