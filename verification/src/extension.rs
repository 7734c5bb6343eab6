//! Reading the chain of formats off the end of a file name.
//!
//! `archive.tar.gz` was bundled with tar and then compressed with gzip. The
//! chain lists the formats in the order in which they were applied, so the
//! format closest to the data comes first: `[Tar, Gzip]`.

use vstd::prelude::*;
use vstd::string::*;
use crate::format::{
    format_of,
    lemma_known_tokens_are_plain,
    lemma_token_names_its_format,
    lookup_between,
    CompressionFormat,
};
use crate::text::{chars_of, find_last, last_index_of, lemma_last_index_of};

verus! {

/// Splits `name` at its last dot into what stands before the dot and the
/// extension after it. A name without a dot has no extension, and neither has
/// one whose only dot is its first character.
pub open spec fn split_extension(name: Seq<char>) -> Option<(Seq<char>, Seq<char>)> {
    match last_index_of(name, '.') {
        Some(dot) => if dot > 0 {
            Some((name.take(dot), name.skip(dot + 1)))
        } else {
            None
        },
        None => None,
    }
}

/// The outermost format of `name`, and the name without that extension.
pub open spec fn outer_format(name: Seq<char>) -> Option<(Seq<char>, CompressionFormat)> {
    match split_extension(name) {
        Some((stem, extension)) => match format_of(extension) {
            Some(format) => Some((stem, format)),
            None => None,
        },
        None => None,
    }
}

/// The formats named by the extensions at the end of `name`, innermost first.
/// Reading stops at the first extension that names no format. (What stands
/// before a dot is always shorter than the whole; the test on the lengths
/// is there to show that the reading ends.)
pub open spec fn extension_chain(name: Seq<char>) -> Seq<CompressionFormat>
    decreases name.len(),
{
    match outer_format(name) {
        Some((stem, format)) => if stem.len() < name.len() {
            extension_chain(stem).push(format)
        } else {
            Seq::empty()
        },
        None => Seq::empty(),
    }
}

/// What is left of `name` once every extension of its chain is taken off.
pub open spec fn base_name(name: Seq<char>) -> Seq<char>
    decreases name.len(),
{
    match outer_format(name) {
        Some((stem, format)) => if stem.len() < name.len() {
            base_name(stem)
        } else {
            name
        },
        None => name,
    }
}

/// The base name is the front part of the name, and it is the whole name
/// exactly where the chain is empty.
pub proof fn lemma_base_name_is_prefix(name: Seq<char>)
    ensures
        base_name(name).len() <= name.len(),
        base_name(name) == name.take(base_name(name).len() as int),
        extension_chain(name).len() == 0 <==> base_name(name) == name,
    decreases name.len(),
{
    match outer_format(name) {
        Some((stem, format)) => {
            lemma_last_index_of(name, '.');
            lemma_base_name_is_prefix(stem);
            let n = base_name(stem).len() as int;
            assert(stem.take(n) =~= name.take(n));
        },
        None => {
            assert(name.take(name.len() as int) =~= name);
        },
    }
}

/// The base name carries no further extension that names a format.
pub proof fn lemma_base_name_is_bare(name: Seq<char>)
    ensures
        outer_format(base_name(name)) is None,
        extension_chain(base_name(name)).len() == 0,
        base_name(base_name(name)) == base_name(name),
    decreases name.len(),
{
    match outer_format(name) {
        Some((stem, format)) => {
            lemma_last_index_of(name, '.');
            lemma_base_name_is_bare(stem);
        },
        None => {},
    }
}

/// Putting a known extension behind a name that is not empty adds its
/// format to the end of the chain, and leaves the base name as it is.
pub proof fn lemma_extension_appended(name: Seq<char>, extension: Seq<char>)
    requires
        name.len() > 0,
        format_of(extension) is Some,
    ensures
        outer_format(name + seq!['.'] + extension) == Some((name, format_of(extension)->0)),
        extension_chain(name + seq!['.'] + extension) == extension_chain(name).push(
            format_of(extension)->0,
        ),
        base_name(name + seq!['.'] + extension) == base_name(name),
{
    let whole = name + seq!['.'] + extension;
    let dot = name.len() as int;
    lemma_known_tokens_are_plain(extension);
    lemma_last_index_of(whole, '.');
    assert(whole[dot] == '.');
    assert forall|k: int| dot < k < whole.len() implies whole[k] != '.' by {
        assert(whole[k] == extension[k - dot - 1]);
        assert(extension.contains(extension[k - dot - 1]));
    }
    assert(last_index_of(whole, '.') == Some(dot));
    assert(whole.take(dot) =~= name);
    assert(whole.skip(dot + 1) =~= extension);
}

/// The name that is suggested for bundling has the chain of the name it
/// was made from, with tar put in front; and it has the same base name.
pub proof fn lemma_suggestion_bundles(name: Seq<char>)
    requires
        base_name(name).len() > 0,
    ensures
        extension_chain(bundled_name(name)) == seq![CompressionFormat::Tar] + extension_chain(
            name,
        ),
        base_name(bundled_name(name)) == base_name(name),
    decreases name.len(),
{
    reveal_strlit(".tar");
    reveal_strlit("tar");
    let base = base_name(name);
    lemma_base_name_is_prefix(name);
    assert(".tar"@ =~= seq!['.'] + "tar"@);
    match outer_format(name) {
        Some((stem, format)) => {
            lemma_last_index_of(name, '.');
            let dot = stem.len() as int;
            let extension = name.skip(dot + 1);
            lemma_suggestion_bundles(stem);
            lemma_base_name_is_prefix(stem);
            assert(bundled_name(name) =~= bundled_name(stem) + seq!['.'] + extension) by {
                assert(name.skip(base.len() as int) =~= stem.skip(base.len() as int) + seq!['.']
                    + extension);
            }
            lemma_extension_appended(bundled_name(stem), extension);
            assert(extension_chain(bundled_name(name)) =~= seq![CompressionFormat::Tar]
                + extension_chain(name));
        },
        None => {
            assert(name.skip(name.len() as int) =~= Seq::<char>::empty());
            assert(bundled_name(name) =~= name + seq!['.'] + "tar"@);
            lemma_token_names_its_format(CompressionFormat::Tar);
            lemma_extension_appended(name, "tar"@);
            assert(extension_chain(bundled_name(name)) =~= seq![CompressionFormat::Tar]
                + extension_chain(name));
        },
    }
}

/// Takes the extensions that name a format off the end of `name`. Returns
/// what is left of the name, and the formats innermost first. A name without
/// such an extension comes back whole, with an empty chain.
pub fn separate_known_extensions_from_name(name: &str) -> (parts: (String, Vec<CompressionFormat>))
    ensures
        parts.0@ == base_name(name@),
        parts.1@ == extension_chain(name@),
{
    let chars = chars_of(name);
    let mut formats: Vec<CompressionFormat> = Vec::new();
    let mut end: usize = chars.len();
    assert(chars@.take(end as int) =~= chars@);
    assert(extension_chain(name@) + formats@ =~= extension_chain(name@));
    loop
        invariant
            chars@ == name@,
            end <= chars.len(),
            extension_chain(name@) == extension_chain(chars@.take(end as int)) + formats@,
            base_name(name@) == base_name(chars@.take(end as int)),
        ensures
            end <= chars.len(),
            extension_chain(name@) == formats@,
            base_name(name@) == chars@.take(end as int),
        decreases end,
    {
        let ghost current = chars@.take(end as int);
        if end == chars.len() {
            assert(current =~= chars@);
        }
        let dot = match find_last(&chars, end, '.') {
            Some(dot) => dot,
            None => {
                assert(extension_chain(current) + formats@ =~= formats@);
                break ;
            },
        };
        if dot == 0 {
            assert(extension_chain(current) + formats@ =~= formats@);
            break ;
        }
        assert(current.skip(dot + 1) =~= chars@.subrange(dot + 1, end as int));
        assert(current.take(dot as int) =~= chars@.take(dot as int));
        let format = match lookup_between(&chars, dot + 1, end) {
            Some(format) => format,
            None => {
                assert(extension_chain(current) + formats@ =~= formats@);
                break ;
            },
        };
        assert(outer_format(current) == Some((chars@.take(dot as int), format)));
        let ghost before = formats@;
        formats.insert(0, format);
        assert(extension_chain(current) + before =~= extension_chain(chars@.take(dot as int))
            + formats@);
        end = dot;
    }
    let base = name.substring_char(0, end);
    assert(chars@.take(end as int) =~= name@.subrange(0, end as int));
    (base.to_owned(), formats)
}

/// The name under which the same files could be bundled: `name` with `.tar`
/// put in before the extensions of its chain.
pub open spec fn bundled_name(name: Seq<char>) -> Seq<char> {
    let base = base_name(name);
    base + ".tar"@ + name.skip(base.len() as int)
}

/// Suggests a name under which several files can be compressed, for a name
/// whose chain starts with a compressor: `out.gz` becomes `out.tar.gz`.
pub fn suggest_bundled_name(name: &str) -> (suggestion: String)
    ensures
        suggestion@ == bundled_name(name@),
{
    let (base, _) = separate_known_extensions_from_name(name);
    proof {
        lemma_base_name_is_prefix(name@);
    }
    let from = base.as_str().unicode_len();
    let rest = name.substring_char(from, name.unicode_len());
    assert(rest@ =~= name@.skip(from as int));
    base.concat(".tar").concat(rest)
}

/// The formats named by the extensions at the end of `name`, innermost first.
pub fn extensions_from_path(name: &str) -> (formats: Vec<CompressionFormat>)
    ensures
        formats@ == extension_chain(name@),
{
    separate_known_extensions_from_name(name).1
}

} // verus!
