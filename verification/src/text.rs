//! Small helpers for working with the characters of a string.

use vstd::prelude::*;
use vstd::string::*;

verus! {

/// The characters of `s`, in order.
pub fn chars_of(s: &str) -> (chars: Vec<char>)
    ensures
        chars@ == s@,
{
    let mut chars: Vec<char> = Vec::new();
    for c in it: s.chars()
        invariant
            it.seq() == s@,
            chars@ == it.seq().take(it.index() as int),
    {
        chars.push(c);
    }
    chars
}

/// Whether the characters from `from` up to `to` spell `word`.
pub fn spells(chars: &Vec<char>, from: usize, to: usize, word: &str) -> (same: bool)
    requires
        from <= to <= chars.len(),
    ensures
        same == (chars@.subrange(from as int, to as int) == word@),
{
    let word_chars = chars_of(word);
    let ghost part = chars@.subrange(from as int, to as int);
    if word_chars.len() != to - from {
        return false;
    }
    let mut i: usize = 0;
    while i < word_chars.len()
        invariant
            from <= to <= chars.len(),
            i <= word_chars.len() == to - from,
            word_chars@ == word@,
            part == chars@.subrange(from as int, to as int),
            forall|k: int| 0 <= k < i ==> part[k] == word_chars@[k],
        decreases word_chars.len() - i,
    {
        assert(part[i as int] == chars@[from + i]);
        if chars[from + i] != word_chars[i] {
            return false;
        }
        i += 1;
    }
    assert(part =~= word_chars@);
    true
}

/// Whether two strings hold the same characters.
pub fn same_text(a: &str, b: &str) -> (same: bool)
    ensures
        same == (a@ == b@),
{
    let chars = chars_of(a);
    assert(chars@.subrange(0, chars.len() as int) =~= a@);
    spells(&chars, 0, chars.len(), b)
}

/// Whether two lists of bytes are the same.
pub fn same_bytes(a: &Vec<u8>, b: &Vec<u8>) -> (same: bool)
    ensures
        same == (a@ == b@),
{
    if a.len() != b.len() {
        return false;
    }
    let mut at: usize = 0;
    while at < a.len()
        invariant
            at <= a.len() == b.len(),
            forall|k: int| 0 <= k < at ==> a@[k] == b@[k],
        decreases a.len() - at,
    {
        if a[at] != b[at] {
            return false;
        }
        at += 1;
    }
    assert(a@ =~= b@);
    true
}

/// The position of the last `wanted` in `text`.
pub open spec fn last_index_of(text: Seq<char>, wanted: char) -> Option<int>
    decreases text.len(),
{
    if text.len() == 0 {
        None
    } else if text.last() == wanted {
        Some(text.len() - 1)
    } else {
        last_index_of(text.drop_last(), wanted)
    }
}

/// What `last_index_of` finds is a `wanted`, and none follows it.
pub proof fn lemma_last_index_of(text: Seq<char>, wanted: char)
    ensures
        match last_index_of(text, wanted) {
            Some(at) => 0 <= at < text.len() && text[at] == wanted && forall|k: int|
                at < k < text.len() ==> text[k] != wanted,
            None => forall|k: int| 0 <= k < text.len() ==> text[k] != wanted,
        },
    decreases text.len(),
{
    if text.len() > 0 && text.last() != wanted {
        let front = text.drop_last();
        lemma_last_index_of(front, wanted);
        assert(forall|k: int| 0 <= k < front.len() ==> front[k] == text[k]);
    }
}

/// Finds the last `wanted` among the first `end` characters.
pub fn find_last(chars: &Vec<char>, end: usize, wanted: char) -> (found: Option<usize>)
    requires
        end <= chars.len(),
    ensures
        match found {
            Some(at) => at < end && last_index_of(chars@.take(end as int), wanted) == Some(
                at as int,
            ),
            None => last_index_of(chars@.take(end as int), wanted) is None,
        },
{
    let mut at: usize = end;
    while at > 0
        invariant
            at <= end <= chars.len(),
            last_index_of(chars@.take(end as int), wanted) == last_index_of(
                chars@.take(at as int),
                wanted,
            ),
        decreases at,
    {
        let ghost front = chars@.take(at as int);
        assert(front.last() == chars@[at - 1]);
        assert(front.drop_last() =~= chars@.take(at - 1));
        if chars[at - 1] == wanted {
            return Some(at - 1);
        }
        at -= 1;
    }
    None
}

/// The last component of a path: what follows its last `/`, or all of it.
pub open spec fn final_component(path: Seq<char>) -> Seq<char> {
    match last_index_of(path, '/') {
        Some(at) => path.skip(at + 1),
        None => path,
    }
}

/// The last component of a path.
pub fn file_name_of(path: &str) -> (name: &str)
    ensures
        name@ == final_component(path@),
{
    let chars = chars_of(path);
    assert(chars@.take(chars.len() as int) =~= chars@);
    match find_last(&chars, chars.len(), '/') {
        Some(at) => {
            let name = path.substring_char(at + 1, chars.len());
            assert(path@.skip(at + 1) =~= path@.subrange(at + 1, chars.len() as int));
            name
        },
        None => path,
    }
}

} // verus!
