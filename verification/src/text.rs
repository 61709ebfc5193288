//! Executable helpers on strings, each specified over the string's view.

use vstd::prelude::*;
use vstd::string::StrSliceExecFns;
use vstd::utf8::encode_utf8;
use crate::path_model::{
    is_cur_dir, is_parent_dir, is_separator, last_index_of, lemma_last_index_unique,
    lemma_split_prefix, sep, split, valid_file_name,
};

verus! {

/// The characters of `s`, in order.
pub fn to_chars(s: &str) -> (chars: Vec<char>)
    ensures
        chars@ == s@,
{
    let mut chars: Vec<char> = Vec::new();
    for c in it: s.chars()
        invariant
            chars@ == it.seq().take(it.index() as int),
    {
        chars.push(c);
    }
    chars
}

/// Whether two character vectors hold the same text.
pub fn chars_eq(a: &Vec<char>, b: &Vec<char>) -> (same: bool)
    ensures
        same == (a@ == b@),
{
    if a.len() != b.len() {
        return false;
    }
    let mut i: usize = 0;
    while i < a.len()
        invariant
            i <= a.len(),
            a.len() == b.len(),
            forall|k: int| 0 <= k < i ==> a@[k] == b@[k],
        decreases a.len() - i,
    {
        if a[i] != b[i] {
            return false;
        }
        i += 1;
    }
    assert(a@ =~= b@);
    true
}

/// Whether two strings hold the same text.
pub fn str_eq(a: &str, b: &str) -> (same: bool)
    ensures
        same == (a@ == b@),
{
    let ca = to_chars(a);
    let cb = to_chars(b);
    chars_eq(&ca, &cb)
}

/// The part of `s` from character `from` up to, not including, character `to`.
pub fn slice<'a>(s: &'a str, from: usize, to: usize) -> (part: &'a str)
    requires
        from <= to <= s@.len(),
    ensures
        part@ == s@.subrange(from as int, to as int),
{
    s.substring_char(from, to)
}

/// The index of the last `c` in `chars`, if there is one.
pub fn find_last(chars: &Vec<char>, c: char) -> (found: Option<usize>)
    ensures
        match found {
            Some(i) => i as int == last_index_of(chars@, c),
            None => last_index_of(chars@, c) == -1,
        },
{
    let mut i: usize = chars.len();
    while i > 0
        invariant
            i <= chars.len(),
            forall|k: int| i <= k < chars.len() ==> chars@[k] != c,
        decreases i,
    {
        i -= 1;
        if chars[i] == c {
            proof {
                lemma_last_index_unique(chars@, c, i as int);
            }
            return Some(i);
        }
    }
    proof {
        lemma_last_index_unique(chars@, c, -1);
    }
    None
}

/// The index of the first `c` in `chars`, or the length of `chars` when
/// there is none.
pub fn find_first(chars: &Vec<char>, c: char) -> (index: usize)
    ensures
        index <= chars.len(),
        forall|k: int| 0 <= k < index ==> chars@[k] != c,
        index < chars.len() ==> chars@[index as int] == c,
{
    let mut i: usize = 0;
    while i < chars.len()
        invariant
            i <= chars.len(),
            forall|k: int| 0 <= k < i ==> chars@[k] != c,
        decreases chars.len() - i,
    {
        if chars[i] == c {
            return i;
        }
        i += 1;
    }
    i
}

/// Whether `chars[from..to]` is `.` or `..`.
pub fn is_dot_range(chars: &Vec<char>, from: usize, to: usize) -> (dot: bool)
    requires
        from <= to <= chars.len(),
    ensures
        dot == ({
            let name = chars@.subrange(from as int, to as int);
            is_cur_dir(name) || is_parent_dir(name)
        }),
{
    let len: usize = to - from;
    if len == 1 {
        chars[from] == '.'
    } else if len == 2 {
        chars[from] == '.' && chars[from + 1] == '.'
    } else {
        false
    }
}

/// Whether `chars[from..to]` is a valid file name.
pub fn is_valid_name_range(chars: &Vec<char>, from: usize, to: usize) -> (valid: bool)
    requires
        from <= to <= chars.len(),
    ensures
        valid == valid_file_name(chars@.subrange(from as int, to as int)),
{
    let ghost name = chars@.subrange(from as int, to as int);
    if from == to || is_dot_range(chars, from, to) {
        return false;
    }
    let mut i: usize = from;
    while i < to
        invariant
            from <= i <= to <= chars.len(),
            name == chars@.subrange(from as int, to as int),
            forall|k: int| from <= k < i ==> !is_separator(chars@[k]),
        decreases to - i,
    {
        let c: char = chars[i];
        if c == '/' || c == '\\' {
            assert(is_separator(name[i - from]));
            return false;
        }
        i += 1;
    }
    assert forall|k: int| 0 <= k < name.len() implies !is_separator(#[trigger] name[k]) by {
        assert(name[k] == chars@[from + k]);
    }
    true
}

/// Whether `bounds` says, piece by piece, where each of `pieces` starts and
/// ends in `chars`.
pub open spec fn bounds_match(
    chars: Seq<char>,
    bounds: Seq<(usize, usize)>,
    pieces: Seq<Seq<char>>,
) -> bool {
    &&& bounds.len() == pieces.len()
    &&& forall|k: int|
        0 <= k < bounds.len() ==> {
            &&& (#[trigger] bounds[k]).0 <= bounds[k].1 <= chars.len()
            &&& pieces[k] == chars.subrange(bounds[k].0 as int, bounds[k].1 as int)
        }
}

/// Where each piece of `split(chars)` starts and ends.
pub fn split_bounds(chars: &Vec<char>) -> (bounds: Vec<(usize, usize)>)
    ensures
        bounds_match(chars@, bounds@, split(chars@)),
{
    let n: usize = chars.len();
    let mut bounds: Vec<(usize, usize)> = Vec::new();
    let mut start: usize = 0;
    let mut i: usize = 0;
    while i < n
        invariant
            start <= i <= n,
            n == chars.len(),
            start == 0 || chars@[start - 1] == sep(),
            forall|k: int| start <= k < i ==> chars@[k] != sep(),
            start == 0 ==> bounds@.len() == 0,
            start > 0 ==> bounds_match(chars@, bounds@, split(chars@.subrange(0, start - 1))),
        decreases n - i,
    {
        if chars[i] == '/' {
            proof {
                lemma_split_prefix(chars@, start as int, i as int);
            }
            bounds.push((start, i));
            start = i + 1;
            assert(chars@.subrange(0, i as int) == chars@.subrange(0, start - 1));
        }
        i += 1;
    }
    proof {
        lemma_split_prefix(chars@, start as int, n as int);
        assert(chars@.subrange(0, n as int) =~= chars@);
    }
    bounds.push((start, n));
    bounds
}

/// The text of an optional string.
pub open spec fn text_of(s: Option<&str>) -> Option<Seq<char>> {
    match s {
        Some(s) => Some(s@),
        None => None,
    }
}

/// Whether `chars` begins with `prefix`, character by character.
pub fn chars_start_with(chars: &Vec<char>, prefix: &Vec<char>) -> (starts: bool)
    ensures
        starts == prefix@.is_prefix_of(chars@),
{
    if prefix.len() > chars.len() {
        return false;
    }
    let mut i: usize = 0;
    while i < prefix.len()
        invariant
            i <= prefix.len() <= chars.len(),
            forall|k: int| 0 <= k < i ==> prefix@[k] == chars@[k],
        decreases prefix.len() - i,
    {
        if prefix[i] != chars[i] {
            assert(chars@.subrange(0, prefix@.len() as int)[i as int] != prefix@[i as int]);
            return false;
        }
        i += 1;
    }
    assert(prefix@ =~= chars@.subrange(0, prefix@.len() as int));
    true
}

/// Whether `chars` ends with `suffix`, character by character.
pub fn chars_end_with(chars: &Vec<char>, suffix: &Vec<char>) -> (ends: bool)
    ensures
        ends == suffix@.is_suffix_of(chars@),
{
    if suffix.len() > chars.len() {
        return false;
    }
    let offset: usize = chars.len() - suffix.len();
    let mut i: usize = 0;
    while i < suffix.len()
        invariant
            i <= suffix.len() <= chars.len(),
            offset == chars.len() - suffix.len(),
            forall|k: int| 0 <= k < i ==> suffix@[k] == chars@[offset + k],
        decreases suffix.len() - i,
    {
        if suffix[i] != chars[offset + i] {
            assert(chars@.subrange(chars@.len() - suffix@.len(), chars@.len() as int)[i as int]
                != suffix@[i as int]);
            return false;
        }
        i += 1;
    }
    assert(suffix@ =~= chars@.subrange(chars@.len() - suffix@.len(), chars@.len() as int));
    true
}

/// The number of bytes that the text takes in a string buffer.
pub open spec fn byte_len(text: Seq<char>) -> nat {
    encode_utf8(text).len()
}

/// `String::with_capacity`: trusted to give an empty string. It panics
/// when asked for more than `isize::MAX` bytes, which `requires` rules out.
#[verifier::external_body]
pub(crate) fn string_with_capacity(capacity: usize) -> (s: String)
    requires
        capacity <= isize::MAX,
    ensures
        s@ == Seq::<char>::empty(),
{
    String::with_capacity(capacity)
}

/// `String::capacity`: the size of the buffer in bytes. The number is what
/// the allocator gave; all that is trusted of it is what holds of every
/// string, that the buffer is at least as large as the text in it.
#[verifier::external_body]
pub(crate) fn string_capacity(s: &String) -> (capacity: usize)
    ensures
        capacity >= byte_len(s@),
{
    s.capacity()
}

/// `String::reserve`, on a string that is handed in and back: trusted to
/// leave the text as it is. It panics when the new capacity would exceed
/// `isize::MAX` bytes. A buffer that has to grow may grow to twice its
/// size, so `requires` keeps twice the asked size within that limit.
#[verifier::external_body]
pub(crate) fn string_reserve(s: String, additional: usize) -> (grown: String)
    requires
        2 * (byte_len(s@) + additional) <= isize::MAX,
    ensures
        grown@ == s@,
{
    let mut s = s;
    s.reserve(additional);
    s
}

/// `String::shrink_to_fit`, on a string that is handed in and back:
/// trusted to leave the text as it is.
#[verifier::external_body]
pub(crate) fn string_shrink_to_fit(s: String) -> (shrunk: String)
    ensures
        shrunk@ == s@,
{
    let mut s = s;
    s.shrink_to_fit();
    s
}

/// `String::shrink_to`, on a string that is handed in and back: trusted
/// to leave the text as it is.
#[verifier::external_body]
pub(crate) fn string_shrink_to(s: String, min_capacity: usize) -> (shrunk: String)
    ensures
        shrunk@ == s@,
{
    let mut s = s;
    s.shrink_to(min_capacity);
    s
}

/// `String::push`: trusted to append the one character.
#[verifier::external_body]
pub(crate) fn string_push(s: &mut String, c: char)
    ensures
        final(s)@ == old(s)@.push(c),
{
    s.push(c)
}

} // verus!
