//! Text by characters: counting, searching, and editing at a character index.

use vstd::prelude::*;

verus! {

/// `String::push` appends one character to the end of the text.
pub assume_specification[ String::push ](text: &mut String, c: char)
    ensures
        final(text)@ == old(text)@.push(c),
;

/// The characters that a file name must not hold.
pub open spec fn is_reserved(c: char) -> bool {
    c == '\\' || c == '/' || c == ':' || c == '*' || c == '?' || c == '"' || c == '<' || c == '>'
        || c == '|'
}

/// Whether some character of `text` is reserved.
pub open spec fn has_reserved(text: Seq<char>) -> bool {
    exists|i: int| 0 <= i < text.len() && is_reserved(#[trigger] text[i])
}

/// Whether some character of `text` is reserved.
pub fn contains_reserved(text: &str) -> (found: bool)
    ensures
        found == has_reserved(text@),
{
    let count = text.unicode_len();
    let mut i: usize = 0;
    while i < count
        invariant
            count == text@.len(),
            i <= count,
            forall|j: int| 0 <= j < i ==> !is_reserved(#[trigger] text@[j]),
        decreases count - i,
    {
        let c = text.get_char(i);
        if c == '\\' || c == '/' || c == ':' || c == '*' || c == '?' || c == '"' || c == '<' || c
            == '>' || c == '|' {
            return true;
        }
        i += 1;
    }
    false
}

/// The index of the first `wanted` in `text`, if there is one.
pub fn find_char(text: &str, wanted: char) -> (found: Option<usize>)
    ensures
        match found {
            Some(i) => i < text@.len() && text@[i as int] == wanted && forall|j: int|
                0 <= j < i ==> text@[j] != wanted,
            None => forall|j: int| 0 <= j < text@.len() ==> text@[j] != wanted,
        },
{
    let count = text.unicode_len();
    let mut i: usize = 0;
    while i < count
        invariant
            count == text@.len(),
            i <= count,
            forall|j: int| 0 <= j < i ==> text@[j] != wanted,
        decreases count - i,
    {
        if text.get_char(i) == wanted {
            return Some(i);
        }
        i += 1;
    }
    None
}

/// Whether `wanted` occurs in `text`.
pub fn contains_char(text: &str, wanted: char) -> (found: bool)
    ensures
        found == text@.contains(wanted),
{
    match find_char(text, wanted) {
        Some(i) => {
            assert(text@[i as int] == wanted);
            true
        },
        None => false,
    }
}

/// `text` with `c` put in before the character at index `at`.
pub fn insert_char(text: &str, at: usize, c: char) -> (edited: String)
    requires
        at <= text@.len(),
    ensures
        edited@ == text@.insert(at as int, c),
{
    let count = text.unicode_len();
    let mut edited = String::from_str(text.substring_char(0, at));
    edited.push(c);
    edited.append(text.substring_char(at, count));
    assert(edited@ =~= text@.insert(at as int, c));
    edited
}

/// `text` without the character at index `at`.
pub fn remove_char(text: &str, at: usize) -> (edited: String)
    requires
        at < text@.len(),
    ensures
        edited@ == text@.remove(at as int),
{
    let count = text.unicode_len();
    let mut edited = String::from_str(text.substring_char(0, at));
    edited.append(text.substring_char(at + 1, count));
    assert(edited@ =~= text@.remove(at as int));
    edited
}

} // verus!
