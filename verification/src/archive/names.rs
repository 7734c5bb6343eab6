//! Names of files inside an archive.

use vstd::prelude::*;
use vstd::string::*;
use crate::text::chars_of;

verus! {

/// Whether a component `..` starts at position `at` of `name`. Both `/` and
/// `\` part components.
pub open spec fn parent_component_at(name: Seq<char>, at: int) -> bool {
    &&& 0 <= at
    &&& at + 2 <= name.len()
    &&& name[at] == '.'
    &&& name[at + 1] == '.'
    &&& (at == 0 || is_separator(name[at - 1]))
    &&& (at + 2 == name.len() || is_separator(name[at + 2]))
}

pub open spec fn is_separator(c: char) -> bool {
    c == '/' || c == '\\'
}

/// A name is safe where the file it names lies under the folder that the
/// archive is unpacked into, once the name is put behind the folder: the
/// name is not empty, holds no NUL, does not start with a separator, and
/// never steps up to a parent folder.
pub open spec fn safe_name(name: Seq<char>) -> bool {
    &&& name.len() > 0
    &&& !is_separator(name[0])
    &&& forall|at: int| 0 <= at < name.len() ==> name[at] != '\0'
    &&& forall|at: int| !parent_component_at(name, at)
}

fn is_separator_char(c: char) -> (b: bool)
    ensures
        b == is_separator(c),
{
    c == '/' || c == '\\'
}

/// Whether the file that `name` names lies under the folder that an archive
/// is unpacked into.
pub fn is_safe_name(name: &str) -> (safe: bool)
    ensures
        safe == safe_name(name@),
{
    let chars = chars_of(name);
    let len = chars.len();
    if len == 0 || is_separator_char(chars[0]) {
        return false;
    }
    let mut at: usize = 0;
    while at < len
        invariant
            at <= len == chars.len(),
            chars@ == name@,
            forall|k: int| 0 <= k < at ==> name@[k] != '\0',
            forall|k: int| k < at ==> !parent_component_at(name@, k),
        decreases len - at,
    {
        if chars[at] == '\0' {
            return false;
        }
        if chars[at] == '.' && at + 1 < len && chars[at + 1] == '.' {
            let starts = at == 0 || is_separator_char(chars[at - 1]);
            let ends = at + 2 == len || is_separator_char(chars[at + 2]);
            if starts && ends {
                assert(parent_component_at(name@, at as int));
                return false;
            }
        }
        at += 1;
    }
    true
}

/// The path of the file called `name` under `folder`.
pub open spec fn joined(folder: Seq<char>, name: Seq<char>) -> Seq<char> {
    if folder.len() == 0 {
        name
    } else if folder.last() == '/' {
        folder + name
    } else {
        folder + seq!['/'] + name
    }
}

/// The path of the file called `name` under `folder`.
pub fn joined_path(folder: &str, name: &str) -> (path: String)
    ensures
        path@ == joined(folder@, name@),
{
    let chars = chars_of(folder);
    if chars.len() == 0 {
        name.to_owned()
    } else if chars[chars.len() - 1] == '/' {
        folder.to_owned().concat(name)
    } else {
        proof {
            reveal_strlit("/");
            assert("/"@ =~= seq!['/']);
        }
        folder.to_owned().concat("/").concat(name)
    }
}

/// Whether every file of a list has a safe name.
pub open spec fn all_safe(entries: Seq<(Seq<char>, Seq<u8>)>) -> bool {
    forall|at: int| 0 <= at < entries.len() ==> safe_name(#[trigger] entries[at].0)
}

} // verus!
