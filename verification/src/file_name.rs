//! A single validated path component.

use vstd::prelude::*;
use vstd::std_specs::cmp::PartialEqSpecImpl;
use crate::error::PathError;
use crate::path_model::{extension_of, lemma_last_index_of, stem_of, valid_file_name};
use crate::text::{find_last, is_valid_name_range, slice, str_eq, to_chars};

verus! {

/// A borrowed file name: not empty, neither `.` nor `..`, and without a
/// path separator of any supported platform.
#[derive(Debug, Clone, Copy, Eq, Hash, PartialOrd, Ord)]
pub struct FileName<'a>(&'a str);

impl<'a> View for FileName<'a> {
    type V = Seq<char>;

    closed spec fn view(&self) -> Seq<char> {
        self.0@
    }
}

/// The texts of the names, in order.
pub open spec fn names_view<'a>(names: Seq<FileName<'a>>) -> Seq<Seq<char>> {
    Seq::new(names.len(), |i: int| names[i]@)
}

/// The stem of the file name `name`.
pub fn stem_of_str<'a>(name: &'a str) -> (stem: &'a str)
    ensures
        stem@ == stem_of(name@),
{
    let chars = to_chars(name);
    proof {
        lemma_last_index_of(chars@, '.');
    }
    match find_last(&chars, '.') {
        Some(dot) => if dot > 0 {
            slice(name, 0, dot)
        } else {
            name
        },
        None => name,
    }
}

/// The extension of the file name `name`.
pub fn extension_of_str<'a>(name: &'a str) -> (ext: Option<&'a str>)
    ensures
        match ext {
            Some(e) => extension_of(name@) == Some(e@),
            None => extension_of(name@) is None,
        },
{
    let chars = to_chars(name);
    proof {
        lemma_last_index_of(chars@, '.');
    }
    match find_last(&chars, '.') {
        Some(dot) => if dot > 0 {
            assert(dot < chars.len());
            Some(slice(name, dot + 1, chars.len()))
        } else {
            None
        },
        None => None,
    }
}

impl<'a> FileName<'a> {
    #[verifier::type_invariant]
    spec fn well_formed(self) -> bool {
        valid_file_name(self.0@)
    }

    /// Checks that `s` can stand as one component of a path.
    pub fn validate(s: &str) -> (r: Result<(), PathError>)
        ensures
            r == if valid_file_name(s@) {
                Ok::<(), PathError>(())
            } else {
                Err(PathError::InvalidFileName)
            },
    {
        let chars = to_chars(s);
        if is_valid_name_range(&chars, 0, chars.len()) {
            assert(chars@.subrange(0, chars.len() as int) =~= s@);
            Ok(())
        } else {
            assert(chars@.subrange(0, chars.len() as int) =~= s@);
            Err(PathError::InvalidFileName)
        }
    }

    /// The file name `s`, if it is one.
    pub fn new(s: &'a str) -> (r: Result<FileName<'a>, PathError>)
        ensures
            match r {
                Ok(name) => valid_file_name(s@) && name@ == s@,
                Err(e) => !valid_file_name(s@) && e == PathError::InvalidFileName,
            },
    {
        match Self::validate(s) {
            Ok(()) => Ok(FileName(s)),
            Err(e) => Err(e),
        }
    }

    /// Wraps a string that is already known to be a valid file name, without
    /// looking at it again.
    pub fn unchecked_new(s: &'a str) -> (name: FileName<'a>)
        requires
            valid_file_name(s@),
        ensures
            name@ == s@,
    {
        FileName(s)
    }

    /// The name as a string.
    pub fn as_str(&self) -> (s: &'a str)
        ensures
            s@ == self@,
            valid_file_name(s@),
    {
        proof {
            use_type_invariant(self);
        }
        self.0
    }

    /// The name as an owned string.
    pub fn to_string(&self) -> (s: String)
        ensures
            s@ == self@,
    {
        self.0.to_owned()
    }

    /// The part of the name before its final `.`; the whole name when that
    /// `.` is missing or leads the name.
    pub fn file_stem(&self) -> (stem: &'a str)
        ensures
            stem@ == stem_of(self@),
    {
        stem_of_str(self.0)
    }

    /// The part of the name after its final `.`, unless that `.` is missing
    /// or leads the name.
    pub fn extension(&self) -> (ext: Option<&'a str>)
        ensures
            match ext {
                Some(e) => extension_of(self@) == Some(e@),
                None => extension_of(self@) is None,
            },
    {
        extension_of_str(self.0)
    }
}

impl<'a> PartialEq for FileName<'a> {
    /// Byte-exact, case-sensitive equality of the two names.
    fn eq(&self, other: &Self) -> (same: bool) {
        str_eq(self.0, other.0)
    }
}

impl<'a> PartialEqSpecImpl for FileName<'a> {
    open spec fn obeys_eq_spec() -> bool {
        true
    }

    open spec fn eq_spec(&self, other: &Self) -> bool {
        self@ == other@
    }
}

} // verus!
