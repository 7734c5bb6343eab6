//! The registry of supported formats: which extension names which format,
//! and what each format is able to do.

use vstd::prelude::*;
use vstd::string::*;
use crate::text::{chars_of, spells};

verus! {

/// A format that an extension of a file name can stand for.
#[derive(Clone, Copy, Debug, PartialEq, Eq, Structural)]
pub enum CompressionFormat {
    /// `.gz`
    Gzip,
    /// `.bz` and `.bz2`
    Bzip,
    /// `.xz`, `.lzma` and `.lz`
    Lzma,
    /// `.tar`
    Tar,
    /// `.zip`
    Zip,
}

impl CompressionFormat {
    /// A bundler packs several named entries into one stream. The other
    /// formats transform a single stream of bytes and know nothing of names.
    pub open spec fn bundles(self) -> bool {
        self is Tar || self is Zip
    }

    /// A streaming format can be written and read front to back. Zip cannot:
    /// its directory of entries comes after the entries themselves, so a whole
    /// archive has to be at hand before it can be finished or opened.
    pub open spec fn streams(self) -> bool {
        !(self is Zip)
    }

    /// The extension under which the format is reported, without its dot.
    pub open spec fn token(self) -> Seq<char> {
        match self {
            CompressionFormat::Gzip => "gz"@,
            CompressionFormat::Bzip => "bz"@,
            CompressionFormat::Lzma => "xz"@,
            CompressionFormat::Tar => "tar"@,
            CompressionFormat::Zip => "zip"@,
        }
    }

    #[verifier::when_used_as_spec(bundles)]
    pub fn is_bundler(self) -> (b: bool)
        ensures
            b == self.bundles(),
    {
        match self {
            CompressionFormat::Tar | CompressionFormat::Zip => true,
            _ => false,
        }
    }

    #[verifier::when_used_as_spec(streams)]
    pub fn is_streaming(self) -> (b: bool)
        ensures
            b == self.streams(),
    {
        match self {
            CompressionFormat::Zip => false,
            _ => true,
        }
    }

    /// The extension under which the format is reported, with its dot.
    pub fn extension(self) -> (text: String)
        ensures
            text@ == seq!['.'] + self.token(),
    {
        proof {
            reveal_strlit(".");
            reveal_strlit("gz");
            reveal_strlit("bz");
            reveal_strlit("xz");
            reveal_strlit("tar");
            reveal_strlit("zip");
        }
        let text = String::from_str(".");
        let text = match self {
            CompressionFormat::Gzip => text.concat("gz"),
            CompressionFormat::Bzip => text.concat("bz"),
            CompressionFormat::Lzma => text.concat("xz"),
            CompressionFormat::Tar => text.concat("tar"),
            CompressionFormat::Zip => text.concat("zip"),
        };
        assert(text@ =~= seq!['.'] + self.token());
        text
    }
}

/// The format that an extension stands for, if any. The extension is given
/// without its dot and is matched as it is written, in lower case.
pub open spec fn format_of(token: Seq<char>) -> Option<CompressionFormat> {
    if token == "tar"@ {
        Some(CompressionFormat::Tar)
    } else if token == "zip"@ {
        Some(CompressionFormat::Zip)
    } else if token == "bz"@ || token == "bz2"@ {
        Some(CompressionFormat::Bzip)
    } else if token == "gz"@ {
        Some(CompressionFormat::Gzip)
    } else if token == "xz"@ || token == "lzma"@ || token == "lz"@ {
        Some(CompressionFormat::Lzma)
    } else {
        None
    }
}

/// Looks up the extension spelled by the characters from `from` up to `to`.
pub fn lookup_between(chars: &Vec<char>, from: usize, to: usize) -> (found: Option<CompressionFormat>)
    requires
        from <= to <= chars.len(),
    ensures
        found == format_of(chars@.subrange(from as int, to as int)),
{
    if spells(chars, from, to, "tar") {
        Some(CompressionFormat::Tar)
    } else if spells(chars, from, to, "zip") {
        Some(CompressionFormat::Zip)
    } else if spells(chars, from, to, "bz") || spells(chars, from, to, "bz2") {
        Some(CompressionFormat::Bzip)
    } else if spells(chars, from, to, "gz") {
        Some(CompressionFormat::Gzip)
    } else if spells(chars, from, to, "xz") || spells(chars, from, to, "lzma") || spells(
        chars,
        from,
        to,
        "lz",
    ) {
        Some(CompressionFormat::Lzma)
    } else {
        None
    }
}

/// Looks an extension up in the registry.
pub fn lookup(token: &str) -> (found: Option<CompressionFormat>)
    ensures
        found == format_of(token@),
{
    let chars = chars_of(token);
    assert(chars@.subrange(0, chars.len() as int) =~= token@);
    lookup_between(&chars, 0, chars.len())
}

/// Every format is found again under the extension it is reported with.
pub proof fn lemma_token_names_its_format(format: CompressionFormat)
    ensures
        format_of(format.token()) == Some(format),
{
    reveal_strlit("gz");
    reveal_strlit("bz");
    reveal_strlit("bz2");
    reveal_strlit("xz");
    reveal_strlit("lz");
    reveal_strlit("lzma");
    reveal_strlit("tar");
    reveal_strlit("zip");
    match format {
        CompressionFormat::Gzip => {
            assert("gz"@[0] != "tar"@[0]);
            assert("gz"@[0] != "zip"@[0]);
            assert("gz"@[0] != "bz"@[0]);
            assert("gz"@[0] != "bz2"@[0]);
        },
        CompressionFormat::Bzip => {
            assert("bz"@[0] != "tar"@[0]);
            assert("bz"@[0] != "zip"@[0]);
        },
        CompressionFormat::Lzma => {
            assert("xz"@[0] != "tar"@[0]);
            assert("xz"@[0] != "zip"@[0]);
            assert("xz"@[0] != "bz"@[0]);
            assert("xz"@[0] != "bz2"@[0]);
            assert("xz"@[0] != "gz"@[0]);
        },
        CompressionFormat::Tar => {},
        CompressionFormat::Zip => {
            assert("zip"@[0] != "tar"@[0]);
        },
    }
}

/// The registry knows no extension with a dot in it, and none that is empty.
pub proof fn lemma_known_tokens_are_plain(token: Seq<char>)
    requires
        format_of(token) is Some,
    ensures
        token.len() > 0,
        !token.contains('.'),
{
    reveal_strlit("gz");
    reveal_strlit("bz");
    reveal_strlit("bz2");
    reveal_strlit("xz");
    reveal_strlit("lz");
    reveal_strlit("lzma");
    reveal_strlit("tar");
    reveal_strlit("zip");
}

} // verus!
