//! Normalized, forward-pointing relative paths whose base is the project
//! root.
//!
//! The project root is the one absolute directory that anchors every
//! `AnchoredUnixPath` of a build: not the directory the process was started
//! in. An anchored path has the representation of a
//! [`RelativeForwardUnixPath`] and hands every operation on to it; what it
//! adds is a type of its own, so that a path relative to the project root
//! cannot be mistaken for a path between two other places.

use vstd::prelude::*;
use vstd::std_specs::cmp::PartialEqSpecImpl;
use vstd::std_specs::convert::{FromSpecImpl, TryFromSpecImpl};
use std::path::PathBuf;
use relative_path::RelativePathBuf;
use crate::error::PathError;
use crate::file_name::{names_view, FileName};
use crate::host_path::{host_path_text, host_path_to_str};
use crate::path_model::{
    components, ends_with_path, file_name_of, is_normalized, join_normalized_of, join_of,
    parent_of, starts_with_path, strip_prefix_of, validate,
};
use crate::relative::relative_path_text;
use crate::relative_forward_unix_path::{
    allocated_for, file_stem_of, path_extension_of, reserved_for, shrunk_to, shrunk_to_fit,
    validate_str, ForwardRelativePathIter, RelativeForwardUnixPath, RelativeForwardUnixPathBuf,
};
use crate::text::{byte_len, str_eq, string_capacity, text_of};

verus! {

/// A borrowed, normalized, forward-pointing path relative to the project
/// root.
#[derive(Debug, Clone, Copy, Eq, Hash, PartialOrd, Ord)]
pub struct AnchoredUnixPath<'a>(&'a str);

/// The owned form of [`AnchoredUnixPath`].
#[derive(Debug, Eq, Hash, PartialOrd, Ord)]
pub struct AnchoredUnixPathBuf(String);

impl<'a> View for AnchoredUnixPath<'a> {
    type V = Seq<char>;

    closed spec fn view(&self) -> Seq<char> {
        self.0@
    }
}

impl View for AnchoredUnixPathBuf {
    type V = Seq<char>;

    closed spec fn view(&self) -> Seq<char> {
        self.0@
    }
}

/// What converting a host path with the text `text` gives: the path must be
/// valid Unicode and its text normalized.
pub open spec fn validate_host_path(text: Option<Seq<char>>) -> Result<Seq<char>, PathError> {
    match text {
        Some(s) => match validate(s) {
            Ok(()) => Ok(s),
            Err(e) => Err(e),
        },
        None => Err(PathError::InvalidPath),
    }
}

impl<'a> AnchoredUnixPath<'a> {
    #[verifier::type_invariant]
    spec fn well_formed(self) -> bool {
        is_normalized(self.0@)
    }

    /// Wraps a string that is already known to be normalized, without
    /// looking at it again.
    pub fn unchecked_new(s: &'a str) -> (path: AnchoredUnixPath<'a>)
        requires
            is_normalized(s@),
        ensures
            path@ == s@,
    {
        AnchoredUnixPath(s)
    }

    /// The project root itself: the path with no components.
    pub fn empty() -> (path: AnchoredUnixPath<'static>)
        ensures
            path@ == Seq::<char>::empty(),
    {
        AnchoredUnixPath(RelativeForwardUnixPath::empty().as_str())
    }

    /// The anchored path written as `s`, if `s` is a normalized,
    /// forward-pointing relative path.
    pub fn new(s: &'a str) -> (r: Result<AnchoredUnixPath<'a>, PathError>)
        ensures
            match r {
                Ok(path) => validate(s@) is Ok && path@ == s@,
                Err(e) => validate(s@) == Err::<(), PathError>(e),
            },
    {
        match RelativeForwardUnixPath::new(s) {
            Ok(path) => Ok(AnchoredUnixPath(path.as_str())),
            Err(e) => Err(e),
        }
    }

    /// The anchored path that the relative path expression `path` writes,
    /// if its text is normalized.
    pub fn from_relative_path(path: &'a RelativePathBuf) -> (r: Result<
        AnchoredUnixPath<'a>,
        PathError,
    >)
        ensures
            match r {
                Ok(p) => validate(relative_path_text(path)) is Ok && p@ == relative_path_text(path),
                Err(e) => validate(relative_path_text(path)) == Err::<(), PathError>(e),
            },
    {
        match RelativeForwardUnixPath::from_relative_path(path) {
            Ok(p) => Ok(AnchoredUnixPath(p.as_str())),
            Err(e) => Err(e),
        }
    }

    /// The canonical string of the path.
    pub fn as_str(&self) -> (s: &'a str)
        ensures
            s@ == self@,
            is_normalized(s@),
    {
        proof {
            use_type_invariant(self);
        }
        self.0
    }

    /// The canonical string of the path, owned.
    pub fn to_string(&self) -> (s: String)
        ensures
            s@ == self@,
    {
        self.0.to_owned()
    }

    /// The same path, without the mark of the project root.
    pub fn as_forward_relative_path(&self) -> (path: RelativeForwardUnixPath<'a>)
        ensures
            path@ == self@,
    {
        proof {
            use_type_invariant(self);
        }
        RelativeForwardUnixPath::unchecked_new(self.0)
    }

    /// The anchored path of this path's components followed by those of
    /// `path`.
    pub fn join(&self, path: RelativeForwardUnixPath<'_>) -> (joined: AnchoredUnixPathBuf)
        ensures
            joined@ == join_of(self@, path@),
            components(joined@) == components(self@) + components(path@),
    {
        AnchoredUnixPathBuf(self.as_forward_relative_path().join(path).into_string())
    }

    /// The path without its last component; none for the project root.
    pub fn parent(&self) -> (r: Option<AnchoredUnixPath<'a>>)
        ensures
            match r {
                Some(p) => parent_of(self@) == Some(p@),
                None => parent_of(self@) is None,
            },
            r is None <==> self@.len() == 0,
    {
        match self.as_forward_relative_path().parent() {
            Some(p) => Some(AnchoredUnixPath(p.as_str())),
            None => None,
        }
    }

    /// The last component: the name of the file or directory that the path
    /// points to. None for the project root.
    pub fn file_name(&self) -> (r: Option<FileName<'a>>)
        ensures
            match r {
                Some(name) => file_name_of(self@) == Some(name@),
                None => file_name_of(self@) is None,
            },
            r is None <==> self@.len() == 0,
    {
        self.as_forward_relative_path().file_name()
    }

    /// The path that, joined onto `base`, gives this path; `NotAPrefix`
    /// unless the components of `base` are the first components of this
    /// path.
    pub fn strip_prefix(&self, base: AnchoredUnixPath<'_>) -> (r: Result<
        RelativeForwardUnixPath<'a>,
        PathError,
    >)
        ensures
            match r {
                Ok(rest) => strip_prefix_of(self@, base@) == Ok::<Seq<char>, PathError>(rest@),
                Err(e) => strip_prefix_of(self@, base@) == Err::<Seq<char>, PathError>(e),
            },
    {
        self.as_forward_relative_path().strip_prefix(base.as_forward_relative_path())
    }

    /// Whether the components of `base` are the first components of this
    /// path.
    pub fn starts_with(&self, base: AnchoredUnixPath<'_>) -> (starts: bool)
        ensures
            starts == starts_with_path(self@, base@),
    {
        self.as_forward_relative_path().starts_with(base.as_forward_relative_path())
    }

    /// Whether the components of `child` are the last components of this
    /// path.
    pub fn ends_with(&self, child: RelativeForwardUnixPath<'_>) -> (ends: bool)
        ensures
            ends == ends_with_path(self@, child@),
    {
        self.as_forward_relative_path().ends_with(child)
    }

    /// The stem of the last component: none when there is no file name; the
    /// whole name when it has no `.`, or only a leading one; otherwise what
    /// stands before the final `.`.
    pub fn file_stem(&self) -> (r: Option<&'a str>)
        ensures
            text_of(r) == file_stem_of(self@),
    {
        self.as_forward_relative_path().file_stem()
    }

    /// The extension of the last component: what follows its final `.`,
    /// unless that `.` is missing or leads the name.
    pub fn extension(&self) -> (r: Option<&'a str>)
        ensures
            text_of(r) == path_extension_of(self@),
    {
        self.as_forward_relative_path().extension()
    }

    /// This path with the relative expression `path` resolved against it.
    /// `PathEscapesRoot` when a `..` would climb above the project root,
    /// `InvalidFileName` when a step is no valid file name.
    pub fn join_normalized(&self, path: &RelativePathBuf) -> (r: Result<
        AnchoredUnixPathBuf,
        PathError,
    >)
        ensures
            match r {
                Ok(joined) => join_normalized_of(self@, relative_path_text(path)) == Ok::<
                    Seq<char>,
                    PathError,
                >(joined@),
                Err(e) => join_normalized_of(self@, relative_path_text(path)) == Err::<
                    Seq<char>,
                    PathError,
                >(e),
            },
    {
        match self.as_forward_relative_path().join_normalized(path) {
            Ok(joined) => Ok(AnchoredUnixPathBuf(joined.into_string())),
            Err(e) => Err(e),
        }
    }

    /// The components of the path, one after another in path order. The
    /// sequence is finite, and a second call starts it again.
    pub fn iter(&self) -> (iter: ForwardRelativePathIter<'a>)
        ensures
            iter.remaining() == components(self@),
    {
        self.as_forward_relative_path().iter()
    }

    /// All components of the path, in path order.
    pub fn file_names(&self) -> (names: Vec<FileName<'a>>)
        ensures
            names_view(names@) == components(self@),
    {
        self.as_forward_relative_path().file_names()
    }

    /// An owned copy of the path.
    pub fn to_buf(&self) -> (buf: AnchoredUnixPathBuf)
        ensures
            buf@ == self@,
    {
        AnchoredUnixPathBuf(self.as_forward_relative_path().to_buf().into_string())
    }
}

impl AnchoredUnixPathBuf {
    #[verifier::type_invariant]
    spec fn well_formed(self) -> bool {
        is_normalized(self.0@)
    }

    /// The string that the path owns.
    pub closed spec fn text(self) -> String {
        self.0
    }

    /// Moves the path out and leaves the project root behind.
    fn take_inner(&mut self) -> (inner: RelativeForwardUnixPathBuf)
        ensures
            inner.text() == old(self).text(),
            inner@ == old(self)@,
            final(self)@ == Seq::<char>::empty(),
    {
        proof {
            use_type_invariant(&*self);
        }
        let mut text = RelativeForwardUnixPath::empty().to_string();
        core::mem::swap(&mut self.0, &mut text);
        RelativeForwardUnixPathBuf::unchecked_new(text)
    }

    /// Wraps a string that is already known to be normalized, without
    /// looking at it again.
    pub fn unchecked_new(s: String) -> (path: AnchoredUnixPathBuf)
        requires
            is_normalized(s@),
        ensures
            path@ == s@,
    {
        AnchoredUnixPathBuf(s)
    }

    /// The project root, in a buffer that was allocated with room for at
    /// least `cap` bytes.
    pub fn with_capacity(cap: usize) -> (path: AnchoredUnixPathBuf)
        requires
            cap <= isize::MAX,
        ensures
            path@ == Seq::<char>::empty(),
            allocated_for(cap, path.text()),
    {
        AnchoredUnixPathBuf(RelativeForwardUnixPathBuf::with_capacity(cap).into_string())
    }

    /// The number of bytes that the buffer can hold without growing: never
    /// less than the canonical string takes.
    pub fn capacity(&self) -> (capacity: usize)
        ensures
            capacity >= byte_len(self@),
    {
        string_capacity(&self.0)
    }

    /// The number of bytes of the canonical string.
    pub fn len(&self) -> (len: usize)
        ensures
            len == byte_len(self@),
    {
        self.0.as_str().as_bytes().len()
    }

    /// Has the buffer reserve room for `additional` more bytes. The path
    /// stays as it is. Twice the size asked for must fit a buffer.
    pub fn reserve(&mut self, additional: usize)
        requires
            2 * (byte_len(old(self)@) + additional) <= isize::MAX,
        ensures
            final(self)@ == old(self)@,
            reserved_for(old(self).text(), additional, final(self).text()),
    {
        let mut inner = self.take_inner();
        inner.reserve(additional);
        self.0 = inner.into_string();
    }

    /// Has the buffer shrink to fit the path. The path stays as it is.
    pub fn shrink_to_fit(&mut self)
        ensures
            final(self)@ == old(self)@,
            shrunk_to_fit(old(self).text(), final(self).text()),
    {
        let mut inner = self.take_inner();
        inner.shrink_to_fit();
        self.0 = inner.into_string();
    }

    /// Has the buffer shrink, with `min_capacity` bytes as the least room
    /// to keep. The path stays as it is.
    pub fn shrink_to(&mut self, min_capacity: usize)
        ensures
            final(self)@ == old(self)@,
            shrunk_to(old(self).text(), min_capacity, final(self).text()),
    {
        let mut inner = self.take_inner();
        inner.shrink_to(min_capacity);
        self.0 = inner.into_string();
    }

    /// Appends the components of `path`.
    pub fn push(&mut self, path: RelativeForwardUnixPath<'_>)
        ensures
            final(self)@ == join_of(old(self)@, path@),
            components(final(self)@) == components(old(self)@) + components(path@),
    {
        let joined = self.as_path().join(path);
        *self = joined;
    }

    /// Resolves the relative expression `path` against the buffer, as
    /// `join_normalized` does. On an error the buffer keeps its value.
    pub fn push_normalized(&mut self, path: &RelativePathBuf) -> (r: Result<(), PathError>)
        ensures
            match r {
                Ok(()) => join_normalized_of(old(self)@, relative_path_text(path)) == Ok::<
                    Seq<char>,
                    PathError,
                >(final(self)@),
                Err(e) => join_normalized_of(old(self)@, relative_path_text(path)) == Err::<
                    Seq<char>,
                    PathError,
                >(e) && final(self)@ == old(self)@,
            },
    {
        match self.as_path().join_normalized(path) {
            Ok(joined) => {
                *self = joined;
                Ok(())
            },
            Err(e) => Err(e),
        }
    }

    /// The same path, without the mark of the project root.
    pub fn into_forward_relative_path_buf(self) -> (path: RelativeForwardUnixPathBuf)
        ensures
            path@ == self@,
            path == RelativeForwardUnixPathBuf::of_text(self.text()),
    {
        proof {
            use_type_invariant(&self);
        }
        RelativeForwardUnixPathBuf::unchecked_new(self.0)
    }

    /// The path as a relative path expression with the same text.
    pub fn into_relative_path(self) -> (path: RelativePathBuf)
        ensures
            relative_path_text(&path) == self@,
    {
        self.into_forward_relative_path_buf().into_relative_path()
    }

    /// The anchored path that the relative path expression `path` writes,
    /// if its text is normalized.
    pub fn from_relative_path(path: RelativePathBuf) -> (r: Result<AnchoredUnixPathBuf, PathError>)
        ensures
            match r {
                Ok(p) => validate(relative_path_text(&path)) is Ok && p@ == relative_path_text(
                    &path,
                ),
                Err(e) => validate(relative_path_text(&path)) == Err::<(), PathError>(e),
            },
    {
        match RelativeForwardUnixPathBuf::from_relative_path(path) {
            Ok(p) => Ok(AnchoredUnixPathBuf(p.into_string())),
            Err(e) => Err(e),
        }
    }

    /// The anchored path that the host path `path` writes: its text must be
    /// valid Unicode and normalized.
    pub fn from_host_path(path: &PathBuf) -> (r: Result<AnchoredUnixPathBuf, PathError>)
        ensures
            match r {
                Ok(p) => validate_host_path(host_path_text(path)) == Ok::<Seq<char>, PathError>(p@),
                Err(e) => validate_host_path(host_path_text(path)) == Err::<Seq<char>, PathError>(
                    e,
                ),
            },
    {
        match host_path_to_str(path) {
            Some(text) => Self::new(text.to_owned()),
            None => Err(PathError::InvalidPath),
        }
    }

    /// The anchored path written as `s`, if `s` is normalized.
    pub fn new(s: String) -> (r: Result<AnchoredUnixPathBuf, PathError>)
        ensures
            match r {
                Ok(path) => validate(s@) is Ok && path@ == s@,
                Err(e) => validate(s@) == Err::<(), PathError>(e),
            },
    {
        match RelativeForwardUnixPathBuf::new(s) {
            Ok(path) => Ok(AnchoredUnixPathBuf(path.into_string())),
            Err(e) => Err(e),
        }
    }

    /// A borrowed view of the path.
    pub fn as_path(&self) -> (path: AnchoredUnixPath<'_>)
        ensures
            path@ == self@,
    {
        proof {
            use_type_invariant(self);
        }
        AnchoredUnixPath(self.0.as_str())
    }

    /// A borrowed view of the path, without the mark of the project root.
    pub fn as_forward_relative_path(&self) -> (path: RelativeForwardUnixPath<'_>)
        ensures
            path@ == self@,
    {
        proof {
            use_type_invariant(self);
        }
        RelativeForwardUnixPath::unchecked_new(self.0.as_str())
    }

    /// The canonical string of the path.
    pub fn as_str(&self) -> (s: &str)
        ensures
            s@ == self@,
            is_normalized(s@),
    {
        proof {
            use_type_invariant(self);
        }
        self.0.as_str()
    }

    /// The canonical string of the path, owned.
    pub fn to_string(&self) -> (s: String)
        ensures
            s@ == self@,
    {
        self.0.clone()
    }
}

impl Clone for AnchoredUnixPathBuf {
    fn clone(&self) -> (copy: Self)
        ensures
            copy@ == self@,
    {
        proof {
            use_type_invariant(self);
        }
        AnchoredUnixPathBuf(self.0.clone())
    }
}

impl<'a> PartialEq for AnchoredUnixPath<'a> {
    fn eq(&self, other: &Self) -> (same: bool) {
        str_eq(self.0, other.0)
    }
}

impl<'a> PartialEqSpecImpl for AnchoredUnixPath<'a> {
    open spec fn obeys_eq_spec() -> bool {
        true
    }

    open spec fn eq_spec(&self, other: &Self) -> bool {
        self@ == other@
    }
}

impl PartialEq for AnchoredUnixPathBuf {
    fn eq(&self, other: &Self) -> (same: bool) {
        self.0 == other.0
    }
}

impl PartialEqSpecImpl for AnchoredUnixPathBuf {
    open spec fn obeys_eq_spec() -> bool {
        true
    }

    open spec fn eq_spec(&self, other: &Self) -> bool {
        self@ == other@
    }
}

impl<'a> PartialEq<AnchoredUnixPath<'a>> for AnchoredUnixPathBuf {
    fn eq(&self, other: &AnchoredUnixPath<'a>) -> (same: bool) {
        str_eq(self.0.as_str(), other.0)
    }
}

impl<'a> PartialEqSpecImpl<AnchoredUnixPath<'a>> for AnchoredUnixPathBuf {
    open spec fn obeys_eq_spec() -> bool {
        true
    }

    open spec fn eq_spec(&self, other: &AnchoredUnixPath<'a>) -> bool {
        self@ == other@
    }
}

impl<'a> PartialEq<AnchoredUnixPathBuf> for AnchoredUnixPath<'a> {
    fn eq(&self, other: &AnchoredUnixPathBuf) -> (same: bool) {
        str_eq(self.0, other.0.as_str())
    }
}

impl<'a> PartialEqSpecImpl<AnchoredUnixPathBuf> for AnchoredUnixPath<'a> {
    open spec fn obeys_eq_spec() -> bool {
        true
    }

    open spec fn eq_spec(&self, other: &AnchoredUnixPathBuf) -> bool {
        self@ == other@
    }
}

impl<'a> PartialEq<&'a str> for AnchoredUnixPathBuf {
    fn eq(&self, other: &&'a str) -> (same: bool) {
        str_eq(self.0.as_str(), *other)
    }
}

impl<'a> PartialEqSpecImpl<&'a str> for AnchoredUnixPathBuf {
    open spec fn obeys_eq_spec() -> bool {
        true
    }

    open spec fn eq_spec(&self, other: &&'a str) -> bool {
        self@ == (*other)@
    }
}

impl<'a, 'b> PartialEq<&'b str> for AnchoredUnixPath<'a> {
    fn eq(&self, other: &&'b str) -> (same: bool) {
        str_eq(self.0, *other)
    }
}

impl<'a, 'b> PartialEqSpecImpl<&'b str> for AnchoredUnixPath<'a> {
    open spec fn obeys_eq_spec() -> bool {
        true
    }

    open spec fn eq_spec(&self, other: &&'b str) -> bool {
        self@ == (*other)@
    }
}

impl PartialEq<String> for AnchoredUnixPathBuf {
    fn eq(&self, other: &String) -> (same: bool) {
        self.0 == *other
    }
}

impl PartialEqSpecImpl<String> for AnchoredUnixPathBuf {
    open spec fn obeys_eq_spec() -> bool {
        true
    }

    open spec fn eq_spec(&self, other: &String) -> bool {
        self@ == other@
    }
}

impl<'a> PartialEq<String> for AnchoredUnixPath<'a> {
    fn eq(&self, other: &String) -> (same: bool) {
        str_eq(self.0, other.as_str())
    }
}

impl<'a> PartialEqSpecImpl<String> for AnchoredUnixPath<'a> {
    open spec fn obeys_eq_spec() -> bool {
        true
    }

    open spec fn eq_spec(&self, other: &String) -> bool {
        self@ == other@
    }
}

impl<'a> From<RelativeForwardUnixPath<'a>> for AnchoredUnixPath<'a> {
    /// The same path, now taken as relative to the project root.
    fn from(p: RelativeForwardUnixPath<'a>) -> (path: AnchoredUnixPath<'a>)
        ensures
            path@ == p@,
    {
        AnchoredUnixPath(p.as_str())
    }
}

impl<'a> FromSpecImpl<RelativeForwardUnixPath<'a>> for AnchoredUnixPath<'a> {
    open spec fn obeys_from_spec() -> bool {
        true
    }

    closed spec fn from_spec(p: RelativeForwardUnixPath<'a>) -> Self {
        AnchoredUnixPath(p.text())
    }
}

impl From<RelativeForwardUnixPathBuf> for AnchoredUnixPathBuf {
    /// The same path, now taken as relative to the project root.
    fn from(p: RelativeForwardUnixPathBuf) -> (path: AnchoredUnixPathBuf)
        ensures
            path@ == p@,
    {
        AnchoredUnixPathBuf(p.into_string())
    }
}

impl FromSpecImpl<RelativeForwardUnixPathBuf> for AnchoredUnixPathBuf {
    open spec fn obeys_from_spec() -> bool {
        true
    }

    closed spec fn from_spec(p: RelativeForwardUnixPathBuf) -> Self {
        AnchoredUnixPathBuf(p.text())
    }
}

impl From<AnchoredUnixPathBuf> for RelativeForwardUnixPathBuf {
    /// The same path, without the mark of the project root.
    fn from(p: AnchoredUnixPathBuf) -> (path: RelativeForwardUnixPathBuf)
        ensures
            path@ == p@,
    {
        p.into_forward_relative_path_buf()
    }
}

impl FromSpecImpl<AnchoredUnixPathBuf> for RelativeForwardUnixPathBuf {
    open spec fn obeys_from_spec() -> bool {
        true
    }

    open spec fn from_spec(p: AnchoredUnixPathBuf) -> Self {
        RelativeForwardUnixPathBuf::of_text(p.text())
    }
}

impl<'a> TryFrom<&'a str> for AnchoredUnixPath<'a> {
    type Error = PathError;

    /// The anchored path written as `s`, if `s` is normalized. The string
    /// is borrowed, not copied.
    fn try_from(s: &'a str) -> (r: Result<AnchoredUnixPath<'a>, PathError>)
        ensures
            match r {
                Ok(path) => validate(s@) is Ok && path@ == s@,
                Err(e) => validate(s@) == Err::<(), PathError>(e),
            },
    {
        match validate_str(s) {
            Ok(()) => Ok(AnchoredUnixPath(s)),
            Err(e) => Err(e),
        }
    }
}

impl<'a> TryFromSpecImpl<&'a str> for AnchoredUnixPath<'a> {
    open spec fn obeys_try_from_spec() -> bool {
        true
    }

    closed spec fn try_from_spec(s: &'a str) -> Result<Self, PathError> {
        match validate(s@) {
            Ok(()) => Ok(AnchoredUnixPath(s)),
            Err(e) => Err(e),
        }
    }
}

impl TryFrom<String> for AnchoredUnixPathBuf {
    type Error = PathError;

    /// The anchored path written as `s`, if `s` is normalized. The string
    /// is kept, not copied.
    fn try_from(s: String) -> (r: Result<AnchoredUnixPathBuf, PathError>)
        ensures
            match r {
                Ok(path) => validate(s@) is Ok && path@ == s@,
                Err(e) => validate(s@) == Err::<(), PathError>(e),
            },
    {
        match validate_str(s.as_str()) {
            Ok(()) => Ok(AnchoredUnixPathBuf(s)),
            Err(e) => Err(e),
        }
    }
}

impl TryFromSpecImpl<String> for AnchoredUnixPathBuf {
    open spec fn obeys_try_from_spec() -> bool {
        true
    }

    closed spec fn try_from_spec(s: String) -> Result<Self, PathError> {
        match validate(s@) {
            Ok(()) => Ok(AnchoredUnixPathBuf(s)),
            Err(e) => Err(e),
        }
    }
}

impl<'a> TryFrom<&'a RelativePathBuf> for AnchoredUnixPath<'a> {
    type Error = PathError;

    /// The anchored path that the relative path expression writes, if its
    /// text is normalized. The text is borrowed, not copied.
    fn try_from(path: &'a RelativePathBuf) -> (r: Result<AnchoredUnixPath<'a>, PathError>)
        ensures
            match r {
                Ok(p) => validate(relative_path_text(path)) is Ok && p@ == relative_path_text(path),
                Err(e) => validate(relative_path_text(path)) == Err::<(), PathError>(e),
            },
    {
        AnchoredUnixPath::from_relative_path(path)
    }
}

impl<'a> TryFromSpecImpl<&'a RelativePathBuf> for AnchoredUnixPath<'a> {
    open spec fn obeys_try_from_spec() -> bool {
        false
    }

    open spec fn try_from_spec(path: &'a RelativePathBuf) -> Result<Self, PathError> {
        arbitrary()
    }
}

impl TryFrom<RelativePathBuf> for AnchoredUnixPathBuf {
    type Error = PathError;

    /// The anchored path that the relative path expression writes, if its
    /// text is normalized.
    fn try_from(path: RelativePathBuf) -> (r: Result<AnchoredUnixPathBuf, PathError>)
        ensures
            match r {
                Ok(p) => validate(relative_path_text(&path)) is Ok && p@ == relative_path_text(
                    &path,
                ),
                Err(e) => validate(relative_path_text(&path)) == Err::<(), PathError>(e),
            },
    {
        AnchoredUnixPathBuf::from_relative_path(path)
    }
}

impl TryFromSpecImpl<RelativePathBuf> for AnchoredUnixPathBuf {
    open spec fn obeys_try_from_spec() -> bool {
        false
    }

    open spec fn try_from_spec(path: RelativePathBuf) -> Result<Self, PathError> {
        arbitrary()
    }
}

impl TryFrom<PathBuf> for AnchoredUnixPathBuf {
    type Error = PathError;

    /// The anchored path that the host path writes: its text must be valid
    /// Unicode and normalized.
    fn try_from(path: PathBuf) -> (r: Result<AnchoredUnixPathBuf, PathError>)
        ensures
            match r {
                Ok(p) => validate_host_path(host_path_text(&path)) == Ok::<Seq<char>, PathError>(
                    p@,
                ),
                Err(e) => validate_host_path(host_path_text(&path)) == Err::<
                    Seq<char>,
                    PathError,
                >(e),
            },
    {
        AnchoredUnixPathBuf::from_host_path(&path)
    }
}

impl TryFromSpecImpl<PathBuf> for AnchoredUnixPathBuf {
    open spec fn obeys_try_from_spec() -> bool {
        false
    }

    open spec fn try_from_spec(path: PathBuf) -> Result<Self, PathError> {
        arbitrary()
    }
}

impl From<AnchoredUnixPathBuf> for RelativePathBuf {
    /// The path as a relative path expression with the same text.
    fn from(p: AnchoredUnixPathBuf) -> (path: RelativePathBuf)
        ensures
            relative_path_text(&path) == p@,
    {
        p.into_relative_path()
    }
}

impl FromSpecImpl<AnchoredUnixPathBuf> for RelativePathBuf {
    open spec fn obeys_from_spec() -> bool {
        false
    }

    open spec fn from_spec(p: AnchoredUnixPathBuf) -> Self {
        arbitrary()
    }
}

} // verus!
