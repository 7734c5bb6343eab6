//! The rules that a chain of formats has to meet.
//!
//! A bundler gives an archive its entries and their names, so it can only be
//! the innermost format: around a compressed stream there is nothing left
//! for it to name. A compressor takes exactly one stream, so several files
//! need a bundler first. All of this is decided from the chain and the
//! number of files, before anything is read or written.

use vstd::prelude::*;
use crate::error::Error;
use crate::format::CompressionFormat;

verus! {

/// A chain is well formed if it is not empty and no bundler stands anywhere
/// but at its start.
pub open spec fn well_formed(chain: Seq<CompressionFormat>) -> bool {
    &&& chain.len() > 0
    &&& forall|at: int| 1 <= at < chain.len() ==> !chain[at].bundles()
}

/// The first position from `from` on at which a bundler stands.
pub open spec fn first_bundler_from(chain: Seq<CompressionFormat>, from: int) -> Option<int>
    decreases chain.len() - from,
{
    if from < 0 || from >= chain.len() {
        None
    } else if chain[from].bundles() {
        Some(from)
    } else {
        first_bundler_from(chain, from + 1)
    }
}

/// The report of a bundler that stands at a position other than the first.
pub open spec fn misplaced_bundler(chain: Seq<CompressionFormat>) -> Option<Error> {
    match first_bundler_from(chain, 1) {
        Some(at) => Some(
            Error::MisplacedBundlerFormat { format: chain[at], position: at as usize },
        ),
        None => None,
    }
}

/// What is wrong with compressing `inputs` files into an archive with this
/// chain, if anything. An empty chain is reported first, then several files
/// for a compressor, then a misplaced bundler, and last that there is no
/// file at all.
pub open spec fn compression_fault(chain: Seq<CompressionFormat>, inputs: nat) -> Option<Error> {
    if chain.len() == 0 {
        Some(Error::NoRecognizedExtensions)
    } else if inputs > 1 && !chain[0].bundles() {
        Some(Error::MultipleFilesToCompressorOnlyFormat { format: chain[0] })
    } else if misplaced_bundler(chain) is Some {
        misplaced_bundler(chain)
    } else if inputs == 0 {
        Some(Error::MissingArgumentsForCompression)
    } else {
        None
    }
}

/// What is wrong with decompressing an archive with this chain, if anything.
pub open spec fn decompression_fault(chain: Seq<CompressionFormat>) -> Option<Error> {
    if chain.len() == 0 {
        Some(Error::UnsupportedInputFormat)
    } else {
        misplaced_bundler(chain)
    }
}

/// What `first_bundler_from` finds is the first bundler from `from` on.
pub proof fn lemma_first_bundler_from(chain: Seq<CompressionFormat>, from: int)
    requires
        0 <= from,
    ensures
        match first_bundler_from(chain, from) {
            Some(at) => from <= at < chain.len() && chain[at].bundles() && forall|k: int|
                from <= k < at ==> !chain[k].bundles(),
            None => forall|k: int| from <= k < chain.len() ==> !chain[k].bundles(),
        },
    decreases chain.len() - from,
{
    if from < chain.len() && !chain[from].bundles() {
        lemma_first_bundler_from(chain, from + 1);
    }
}

/// A chain passes for decompression exactly if it is well formed. It passes
/// for compression exactly if it is well formed, there is a file, and,
/// where there are several, the chain starts with a bundler. Every fault of
/// a chain is structural.
pub proof fn lemma_faultless_is_well_formed(chain: Seq<CompressionFormat>, inputs: nat)
    ensures
        decompression_fault(chain) is None <==> well_formed(chain),
        compression_fault(chain, inputs) is None <==> well_formed(chain) && inputs >= 1 && (inputs
            > 1 ==> chain[0].bundles()),
        decompression_fault(chain) matches Some(error) ==> error.is_structural(),
        compression_fault(chain, inputs) matches Some(error) ==> error.is_structural() || (error
            is MissingArgumentsForCompression && inputs == 0),
{
    lemma_first_bundler_from(chain, 1);
}

/// Compressing into a name without a known extension is refused as
/// `NoRecognizedExtensions`, however many files are given; decompressing
/// such a name is refused as `UnsupportedInputFormat`.
pub proof fn lemma_empty_chain_is_refused(chain: Seq<CompressionFormat>, inputs: nat)
    requires
        chain.len() == 0,
    ensures
        compression_fault(chain, inputs) == Some(Error::NoRecognizedExtensions),
        decompression_fault(chain) == Some(Error::UnsupportedInputFormat),
{
}

/// Compressing two or more files with a chain that starts with a compressor
/// is refused as `MultipleFilesToCompressorOnlyFormat`, whatever follows in
/// the chain.
pub proof fn lemma_many_files_need_a_bundler(chain: Seq<CompressionFormat>, inputs: nat)
    requires
        chain.len() > 0,
        !chain[0].bundles(),
        inputs >= 2,
    ensures
        compression_fault(chain, inputs) == Some(
            Error::MultipleFilesToCompressorOnlyFormat { format: chain[0] },
        ),
{
}

/// A chain with a bundler at a position other than the first is refused as
/// `MisplacedBundlerFormat`, for decompression and, unless several files
/// meet a compressor at the start, for compression too. The report names the
/// first such bundler.
pub proof fn lemma_bundler_must_come_first(chain: Seq<CompressionFormat>, inputs: nat, at: int)
    requires
        1 <= at < chain.len(),
        chain[at].bundles(),
        forall|k: int| 1 <= k < at ==> !chain[k].bundles(),
    ensures
        decompression_fault(chain) == Some(
            Error::MisplacedBundlerFormat { format: chain[at], position: at as usize },
        ),
        inputs <= 1 || chain[0].bundles() ==> compression_fault(chain, inputs)
            == decompression_fault(chain),
{
    lemma_first_bundler_from(chain, 1);
}

/// A chain of compressors passes for any number of files once tar is put in
/// front of it.
pub proof fn lemma_tar_in_front_bundles(chain: Seq<CompressionFormat>, inputs: nat)
    requires
        inputs >= 1,
        forall|at: int| 0 <= at < chain.len() ==> !chain[at].bundles(),
    ensures
        compression_fault(seq![CompressionFormat::Tar] + chain, inputs) is None,
{
    let bundled = seq![CompressionFormat::Tar] + chain;
    assert forall|at: int| 1 <= at < bundled.len() implies !bundled[at].bundles() by {
        assert(bundled[at] == chain[at - 1]);
    }
    lemma_faultless_is_well_formed(bundled, inputs);
}

/// The report of the first bundler that stands at a position other than the
/// first, if there is one.
fn find_misplaced_bundler(chain: &Vec<CompressionFormat>) -> (found: Option<Error>)
    ensures
        found == misplaced_bundler(chain@),
{
    let mut at: usize = 1;
    while at < chain.len()
        invariant
            1 <= at,
            first_bundler_from(chain@, 1) == first_bundler_from(chain@, at as int),
        decreases chain.len() - at,
    {
        if chain[at].is_bundler() {
            return Some(Error::MisplacedBundlerFormat { format: chain[at], position: at });
        }
        at += 1;
    }
    None
}

/// Checks a chain for compressing `inputs` files.
pub fn check_compression(chain: &Vec<CompressionFormat>, inputs: usize) -> (result: Result<
    (),
    Error,
>)
    ensures
        match compression_fault(chain@, inputs as nat) {
            Some(error) => result == Err::<(), Error>(error),
            None => result is Ok,
        },
{
    if chain.len() == 0 {
        return Err(Error::NoRecognizedExtensions);
    }
    if inputs > 1 && !chain[0].is_bundler() {
        return Err(Error::MultipleFilesToCompressorOnlyFormat { format: chain[0] });
    }
    match find_misplaced_bundler(chain) {
        Some(error) => Err(error),
        None => if inputs == 0 {
            Err(Error::MissingArgumentsForCompression)
        } else {
            Ok(())
        },
    }
}

/// Checks a chain for decompressing an archive.
pub fn check_decompression(chain: &Vec<CompressionFormat>) -> (result: Result<(), Error>)
    ensures
        match decompression_fault(chain@) {
            Some(error) => result == Err::<(), Error>(error),
            None => result is Ok,
        },
{
    if chain.len() == 0 {
        return Err(Error::UnsupportedInputFormat);
    }
    match find_misplaced_bundler(chain) {
        Some(error) => Err(error),
        None => Ok(()),
    }
}

} // verus!
