//! Normalized relative paths that only point forward: a borrowed view and
//! an owned buffer.

use vstd::prelude::*;
use vstd::string::StringExecFns;
use vstd::std_specs::cmp::PartialEqSpecImpl;
use relative_path::RelativePathBuf;
use crate::error::PathError;
use crate::file_name::{extension_of_str, names_view, stem_of_str, FileName};
use crate::path_model::{
    all_valid_names, apply_steps, components, ends_with_path, extension_of, file_name_of,
    has_dot_name, is_normalized, join_components, join_normalized_of, join_of,
    lemma_apply_steps_unfold, lemma_components_join, lemma_ends_with, lemma_first_component,
    lemma_join_of, lemma_last_component, lemma_last_index_of, lemma_names_push,
    lemma_split_nonempty, lemma_starts_with, parent_of, sep, split, starts_with_path, stem_of,
    strip_prefix_of, valid_file_name, validate, Step,
};
use crate::relative::{
    relative_path_as_str, relative_path_components, relative_path_from_string,
    relative_path_into_string, relative_path_text, segments_view, Segment,
};
use crate::text::{
    bounds_match, byte_len, chars_end_with, chars_start_with, find_first, find_last,
    is_dot_range, is_valid_name_range, slice, split_bounds, str_eq, string_capacity,
    string_reserve, string_shrink_to, string_shrink_to_fit, string_with_capacity, text_of,
    to_chars,
};

verus! {

/// The stem of the last component of the path `s`, if it has one.
pub open spec fn file_stem_of(s: Seq<char>) -> Option<Seq<char>> {
    match file_name_of(s) {
        Some(name) => Some(stem_of(name)),
        None => None,
    }
}

/// The extension of the last component of the path `s`, if it has both.
pub open spec fn path_extension_of(s: Seq<char>) -> Option<Seq<char>> {
    match file_name_of(s) {
        Some(name) => extension_of(name),
        None => None,
    }
}

/// Checks that `s` is a normalized, forward-pointing relative path.
pub fn validate_str(s: &str) -> (r: Result<(), PathError>)
    ensures
        r == validate(s@),
{
    let chars = to_chars(s);
    if chars.len() == 0 {
        return Ok(());
    }
    let bounds = split_bounds(&chars);
    let ghost pieces = split(chars@);
    let mut all_valid = true;
    let mut dot_seen = false;
    let mut k: usize = 0;
    while k < bounds.len()
        invariant
            k <= bounds.len(),
            pieces == split(chars@),
            bounds_match(chars@, bounds@, pieces),
            all_valid <==> all_valid_names(pieces.take(k as int)),
            dot_seen <==> has_dot_name(pieces.take(k as int)),
        decreases bounds.len() - k,
    {
        let (from, to) = bounds[k];
        let valid = is_valid_name_range(&chars, from, to);
        let dot = is_dot_range(&chars, from, to);
        proof {
            assert(pieces.take(k + 1) =~= pieces.take(k as int).push(pieces[k as int]));
            lemma_names_push(pieces.take(k as int), pieces[k as int]);
        }
        all_valid = all_valid && valid;
        dot_seen = dot_seen || dot;
        k += 1;
    }
    assert(pieces.take(k as int) =~= pieces);
    if all_valid {
        Ok(())
    } else if chars[0] == '/' || chars[0] == '\\' {
        Err(PathError::InvalidPath)
    } else if dot_seen {
        Err(PathError::NonNormalizedComponent)
    } else {
        Err(PathError::InvalidPath)
    }
}

/// Takes the steps of a relative path expression on a stack of components,
/// from left to right: `.` leaves the stack as it is, `..` pops its last
/// name, any other step is pushed once it has passed as a file name.
pub fn apply_segments<'a>(stack: Vec<FileName<'a>>, segments: &Vec<Segment<'a>>) -> (r: Result<
    Vec<FileName<'a>>,
    PathError,
>)
    ensures
        match r {
            Ok(names) => apply_steps(names_view(stack@), segments_view(segments@)) == Ok::<
                Seq<Seq<char>>,
                PathError,
            >(names_view(names@)),
            Err(e) => apply_steps(names_view(stack@), segments_view(segments@)) == Err::<
                Seq<Seq<char>>,
                PathError,
            >(e),
        },
{
    let ghost initial = names_view(stack@);
    let ghost all = segments_view(segments@);
    let mut names = stack;
    let mut i: usize = 0;
    assert(all.skip(0) =~= all);
    while i < segments.len()
        invariant
            i <= segments.len(),
            all == segments_view(segments@),
            initial == names_view(stack@),
            apply_steps(names_view(names@), all.skip(i as int)) == apply_steps(initial, all),
        decreases segments.len() - i,
    {
        let ghost before = names_view(names@);
        proof {
            lemma_apply_steps_unfold(before, all, i as int);
        }
        match segments[i] {
            Segment::CurDir => {},
            Segment::ParentDir => {
                if names.len() == 0 {
                    return Err(PathError::PathEscapesRoot);
                }
                names.pop();
                assert(names_view(names@) =~= before.drop_last());
            },
            Segment::Normal(name) => {
                match FileName::new(name) {
                    Ok(file_name) => {
                        names.push(file_name);
                        assert(names_view(names@) =~= before.push(name@));
                    },
                    Err(e) => {
                        return Err(e);
                    },
                }
            },
        }
        i += 1;
    }
    assert(all.skip(i as int) =~= Seq::<Step>::empty());
    Ok(names)
}

/// The names joined by `/`.
pub fn join_names(names: &Vec<FileName<'_>>) -> (joined: RelativeForwardUnixPathBuf)
    ensures
        joined@ == join_components(names_view(names@)),
        components(joined@) == names_view(names@),
{
    let ghost all = names_view(names@);
    let mut text = String::new();
    let mut i: usize = 0;
    proof {
        reveal_strlit("/");
    }
    while i < names.len()
        invariant
            i <= names.len(),
            all == names_view(names@),
            text@ == join_components(all.take(i as int)),
            all_valid_names(all.take(i as int)),
            "/"@ == seq![sep()],
        decreases names.len() - i,
    {
        let name = names[i].as_str();
        proof {
            assert(all.take(i + 1).drop_last() =~= all.take(i as int));
            assert(all.take(i + 1).last() == name@);
            lemma_names_push(all.take(i as int), name@);
            assert(all.take(i + 1) =~= all.take(i as int).push(name@));
        }
        if i > 0 {
            text.append("/");
        }
        text.append(name);
        assert(text@ =~= join_components(all.take(i + 1)));
        i += 1;
    }
    proof {
        assert(all.take(i as int) =~= all);
        lemma_components_join(all);
    }
    RelativeForwardUnixPathBuf(text)
}

/// Whether `buffer` is a string that `String::with_capacity` gave when it
/// was asked for room for `capacity` bytes.
pub closed spec fn allocated_for(capacity: usize, buffer: String) -> bool {
    call_ensures(string_with_capacity, (capacity,), buffer)
}

/// Whether `after` is what `String::reserve` made of `before` when it was
/// asked for room for `additional` more bytes.
pub closed spec fn reserved_for(before: String, additional: usize, after: String) -> bool {
    call_ensures(string_reserve, (before, additional), after)
}

/// Whether `after` is what `String::shrink_to_fit` made of `before`.
pub closed spec fn shrunk_to_fit(before: String, after: String) -> bool {
    call_ensures(string_shrink_to_fit, (before,), after)
}

/// Whether `after` is what `String::shrink_to` made of `before` when it
/// was told to keep room for `min_capacity` bytes.
pub closed spec fn shrunk_to(before: String, min_capacity: usize, after: String) -> bool {
    call_ensures(string_shrink_to, (before, min_capacity), after)
}

/// A borrowed, normalized, forward-pointing relative path.
///
/// Its string is a sequence of valid file names joined by `/`; the empty
/// string is the path with no components.
#[derive(Debug, Clone, Copy, Eq, Hash, PartialOrd, Ord)]
pub struct RelativeForwardUnixPath<'a>(&'a str);

/// The owned form of [`RelativeForwardUnixPath`].
#[derive(Debug, Eq, Hash, PartialOrd, Ord)]
pub struct RelativeForwardUnixPathBuf(String);

impl<'a> View for RelativeForwardUnixPath<'a> {
    type V = Seq<char>;

    closed spec fn view(&self) -> Seq<char> {
        self.0@
    }
}

impl View for RelativeForwardUnixPathBuf {
    type V = Seq<char>;

    closed spec fn view(&self) -> Seq<char> {
        self.0@
    }
}

impl<'a> RelativeForwardUnixPath<'a> {
    #[verifier::type_invariant]
    spec fn well_formed(self) -> bool {
        is_normalized(self.0@)
    }

    /// The string that the path borrows.
    pub closed spec fn text(self) -> &'a str {
        self.0
    }

    /// Wraps a string that is already known to be normalized, without
    /// looking at it again.
    pub fn unchecked_new(s: &'a str) -> (path: RelativeForwardUnixPath<'a>)
        requires
            is_normalized(s@),
        ensures
            path@ == s@,
    {
        RelativeForwardUnixPath(s)
    }

    /// The path with no components.
    pub fn empty() -> (path: RelativeForwardUnixPath<'static>)
        ensures
            path@ == Seq::<char>::empty(),
    {
        proof {
            reveal_strlit("");
        }
        assert(""@ =~= Seq::<char>::empty());
        RelativeForwardUnixPath("")
    }

    /// The path written as `s`, if `s` is normalized.
    pub fn new(s: &'a str) -> (r: Result<RelativeForwardUnixPath<'a>, PathError>)
        ensures
            match r {
                Ok(path) => validate(s@) is Ok && path@ == s@,
                Err(e) => validate(s@) == Err::<(), PathError>(e),
            },
    {
        match validate_str(s) {
            Ok(()) => Ok(RelativeForwardUnixPath(s)),
            Err(e) => Err(e),
        }
    }

    /// The canonical string of the path.
    pub fn as_str(&self) -> (s: &'a str)
        ensures
            s == self.text(),
            s@ == self@,
            is_normalized(s@),
    {
        proof {
            use_type_invariant(self);
        }
        self.0
    }

    /// The canonical string of the path, owned.
    pub fn to_string(&self) -> (s: String)
        ensures
            s@ == self@,
    {
        self.0.to_owned()
    }

    /// Whether the path has no components.
    pub fn is_empty(&self) -> (empty: bool)
        ensures
            empty == (self@.len() == 0),
            empty == (components(self@).len() == 0),
    {
        proof {
            lemma_split_nonempty(self.0@);
        }
        self.0.is_empty()
    }

    /// An owned copy of the path.
    pub fn to_buf(&self) -> (buf: RelativeForwardUnixPathBuf)
        ensures
            buf@ == self@,
    {
        proof {
            use_type_invariant(self);
        }
        RelativeForwardUnixPathBuf(self.0.to_owned())
    }

    /// The path of this path's components followed by those of `path`.
    pub fn join(&self, path: RelativeForwardUnixPath<'_>) -> (joined: RelativeForwardUnixPathBuf)
        ensures
            joined@ == join_of(self@, path@),
            components(joined@) == components(self@) + components(path@),
    {
        proof {
            use_type_invariant(self);
            use_type_invariant(&path);
            lemma_join_of(self.0@, path.0@);
            reveal_strlit("/");
        }
        if self.0.is_empty() {
            RelativeForwardUnixPathBuf(path.0.to_owned())
        } else if path.0.is_empty() {
            RelativeForwardUnixPathBuf(self.0.to_owned())
        } else {
            let mut text = self.0.to_owned();
            text.append("/");
            text.append(path.0);
            assert(text@ =~= self.0@ + seq![sep()] + path.0@);
            RelativeForwardUnixPathBuf(text)
        }
    }

    /// The path without its last component; none for the path with no
    /// components.
    pub fn parent(&self) -> (r: Option<RelativeForwardUnixPath<'a>>)
        ensures
            match r {
                Some(p) => parent_of(self@) == Some(p@),
                None => parent_of(self@) is None,
            },
            r is None <==> self@.len() == 0,
    {
        proof {
            use_type_invariant(self);
        }
        let chars = to_chars(self.0);
        if chars.len() == 0 {
            return None;
        }
        proof {
            lemma_last_component(chars@);
            lemma_last_index_of(chars@, sep());
        }
        match find_last(&chars, '/') {
            Some(j) => Some(RelativeForwardUnixPath(slice(self.0, 0, j))),
            None => {
                let root = slice(self.0, 0, 0);
                assert(root@ =~= Seq::<char>::empty());
                Some(RelativeForwardUnixPath(root))
            },
        }
    }

    /// The last component; none for the path with no components.
    pub fn file_name(&self) -> (r: Option<FileName<'a>>)
        ensures
            match r {
                Some(name) => file_name_of(self@) == Some(name@),
                None => file_name_of(self@) is None,
            },
            r is None <==> self@.len() == 0,
    {
        proof {
            use_type_invariant(self);
        }
        let chars = to_chars(self.0);
        if chars.len() == 0 {
            return None;
        }
        proof {
            lemma_last_component(chars@);
            lemma_last_index_of(chars@, sep());
        }
        let from: usize = match find_last(&chars, '/') {
            Some(j) => j + 1,
            None => 0,
        };
        Some(FileName::unchecked_new(slice(self.0, from, chars.len())))
    }

    /// The stem of the last component: what stands before its final `.`,
    /// or all of it when that `.` is missing or leads the name.
    pub fn file_stem(&self) -> (r: Option<&'a str>)
        ensures
            text_of(r) == file_stem_of(self@),
    {
        match self.file_name() {
            Some(name) => Some(stem_of_str(name.as_str())),
            None => None,
        }
    }

    /// The extension of the last component: what follows its final `.`,
    /// unless that `.` is missing or leads the name.
    pub fn extension(&self) -> (r: Option<&'a str>)
        ensures
            text_of(r) == path_extension_of(self@),
    {
        match self.file_name() {
            Some(name) => extension_of_str(name.as_str()),
            None => None,
        }
    }

    /// Whether the components of `base` are the first components of this
    /// path.
    pub fn starts_with(&self, base: RelativeForwardUnixPath<'_>) -> (starts: bool)
        ensures
            starts == starts_with_path(self@, base@),
    {
        proof {
            use_type_invariant(self);
            use_type_invariant(&base);
            lemma_starts_with(self.0@, base.0@);
        }
        let chars = to_chars(self.0);
        let prefix = to_chars(base.0);
        if prefix.len() == 0 {
            true
        } else if !chars_start_with(&chars, &prefix) {
            false
        } else {
            chars.len() == prefix.len() || chars[prefix.len()] == '/'
        }
    }

    /// Whether the components of `suffix` are the last components of this
    /// path.
    pub fn ends_with(&self, suffix: RelativeForwardUnixPath<'_>) -> (ends: bool)
        ensures
            ends == ends_with_path(self@, suffix@),
    {
        proof {
            use_type_invariant(self);
            use_type_invariant(&suffix);
            lemma_ends_with(self.0@, suffix.0@);
        }
        let chars = to_chars(self.0);
        let tail = to_chars(suffix.0);
        if tail.len() == 0 {
            true
        } else if !chars_end_with(&chars, &tail) {
            false
        } else {
            chars.len() == tail.len() || chars[chars.len() - tail.len() - 1] == '/'
        }
    }

    /// The path that, joined onto `base`, gives this path; `NotAPrefix`
    /// unless the components of `base` are the first components of this
    /// path.
    pub fn strip_prefix(&self, base: RelativeForwardUnixPath<'_>) -> (r: Result<
        RelativeForwardUnixPath<'a>,
        PathError,
    >)
        ensures
            match r {
                Ok(rest) => strip_prefix_of(self@, base@) == Ok::<Seq<char>, PathError>(rest@),
                Err(e) => strip_prefix_of(self@, base@) == Err::<Seq<char>, PathError>(e),
            },
    {
        proof {
            use_type_invariant(self);
            use_type_invariant(&base);
            lemma_starts_with(self.0@, base.0@);
        }
        let chars = to_chars(self.0);
        let prefix = to_chars(base.0);
        if prefix.len() == 0 {
            Ok(RelativeForwardUnixPath(self.0))
        } else if !chars_start_with(&chars, &prefix) {
            Err(PathError::NotAPrefix)
        } else if chars.len() == prefix.len() {
            let root = slice(self.0, 0, 0);
            assert(root@ =~= Seq::<char>::empty());
            Ok(RelativeForwardUnixPath(root))
        } else if chars[prefix.len()] == '/' {
            Ok(RelativeForwardUnixPath(slice(self.0, prefix.len() + 1, chars.len())))
        } else {
            Err(PathError::NotAPrefix)
        }
    }

    /// The components of the path, one after another in path order. The
    /// sequence is finite, and a second call starts it again.
    pub fn iter(&self) -> (iter: ForwardRelativePathIter<'a>)
        ensures
            iter.remaining() == components(self@),
    {
        proof {
            use_type_invariant(self);
        }
        ForwardRelativePathIter(self.0)
    }

    /// All components of the path, in path order.
    pub fn file_names(&self) -> (names: Vec<FileName<'a>>)
        ensures
            names_view(names@) == components(self@),
    {
        proof {
            use_type_invariant(self);
        }
        let chars = to_chars(self.0);
        let mut names: Vec<FileName<'a>> = Vec::new();
        if chars.len() == 0 {
            assert(names_view(names@) =~= components(self@));
            return names;
        }
        let bounds = split_bounds(&chars);
        let mut k: usize = 0;
        while k < bounds.len()
            invariant
                k <= bounds.len(),
                chars@ == self.0@,
                chars@.len() > 0,
                is_normalized(chars@),
                bounds_match(chars@, bounds@, split(chars@)),
                names@.len() == k,
                forall|i: int| 0 <= i < k ==> (#[trigger] names@[i])@ == split(chars@)[i],
            decreases bounds.len() - k,
        {
            let (from, to) = bounds[k];
            let part = slice(self.0, from, to);
            assert(valid_file_name(components(chars@)[k as int]));
            names.push(FileName::unchecked_new(part));
            k += 1;
        }
        assert(names_view(names@) =~= components(self@));
        names
    }
}

impl<'a> RelativeForwardUnixPath<'a> {
    /// This path with the relative expression `path` resolved against it:
    /// the expression's steps are taken from left to right on the stack of
    /// this path's components. `PathEscapesRoot` when a `..` finds the stack
    /// empty, `InvalidFileName` when a step is no valid file name.
    pub fn join_normalized(&self, path: &RelativePathBuf) -> (r: Result<
        RelativeForwardUnixPathBuf,
        PathError,
    >)
        ensures
            match r {
                Ok(joined) => join_normalized_of(self@, relative_path_text(path)) == Ok::<
                    Seq<char>,
                    PathError,
                >(joined@),
                Err(e) => join_normalized_of(self@, relative_path_text(path)) == Err::<
                    Seq<char>,
                    PathError,
                >(e),
            },
    {
        let segments = relative_path_components(path);
        match apply_segments(self.file_names(), &segments) {
            Ok(names) => Ok(join_names(&names)),
            Err(e) => Err(e),
        }
    }

    /// The path that the relative path expression `path` writes, if its
    /// text is normalized.
    pub fn from_relative_path(path: &'a RelativePathBuf) -> (r: Result<
        RelativeForwardUnixPath<'a>,
        PathError,
    >)
        ensures
            match r {
                Ok(p) => validate(relative_path_text(path)) is Ok && p@ == relative_path_text(path),
                Err(e) => validate(relative_path_text(path)) == Err::<(), PathError>(e),
            },
    {
        Self::new(relative_path_as_str(path))
    }
}

impl RelativeForwardUnixPathBuf {
    #[verifier::type_invariant]
    spec fn well_formed(self) -> bool {
        is_normalized(self.0@)
    }

    /// The string that the path owns.
    pub closed spec fn text(self) -> String {
        self.0
    }

    /// The path that owns the string `s`.
    pub closed spec fn of_text(s: String) -> Self {
        RelativeForwardUnixPathBuf(s)
    }

    /// Wraps a string that is already known to be normalized, without
    /// looking at it again.
    pub fn unchecked_new(s: String) -> (path: RelativeForwardUnixPathBuf)
        requires
            is_normalized(s@),
        ensures
            path@ == s@,
            path.text() == s,
            path == Self::of_text(s),
    {
        RelativeForwardUnixPathBuf(s)
    }

    /// The path written as `s`, if `s` is normalized.
    pub fn new(s: String) -> (r: Result<RelativeForwardUnixPathBuf, PathError>)
        ensures
            match r {
                Ok(path) => validate(s@) is Ok && path@ == s@,
                Err(e) => validate(s@) == Err::<(), PathError>(e),
            },
    {
        match validate_str(s.as_str()) {
            Ok(()) => Ok(RelativeForwardUnixPathBuf(s)),
            Err(e) => Err(e),
        }
    }

    /// The path that the relative path expression `path` writes, if its
    /// text is normalized.
    pub fn from_relative_path(path: RelativePathBuf) -> (r: Result<
        RelativeForwardUnixPathBuf,
        PathError,
    >)
        ensures
            match r {
                Ok(p) => validate(relative_path_text(&path)) is Ok && p@ == relative_path_text(
                    &path,
                ),
                Err(e) => validate(relative_path_text(&path)) == Err::<(), PathError>(e),
            },
    {
        Self::new(relative_path_into_string(path))
    }

    /// The path as a relative path expression with the same text.
    pub fn into_relative_path(self) -> (path: RelativePathBuf)
        ensures
            relative_path_text(&path) == self@,
    {
        relative_path_from_string(self.0)
    }

    /// Moves the canonical string out and leaves the empty path behind.
    fn take_text(&mut self) -> (text: String)
        ensures
            text == old(self).text(),
            text@ == old(self)@,
            is_normalized(text@),
            final(self)@ == Seq::<char>::empty(),
    {
        proof {
            use_type_invariant(&*self);
        }
        let mut text = String::new();
        core::mem::swap(&mut self.0, &mut text);
        text
    }

    /// The path with no components, in a buffer that was allocated with
    /// room for at least `capacity` bytes.
    pub fn with_capacity(capacity: usize) -> (path: RelativeForwardUnixPathBuf)
        requires
            capacity <= isize::MAX,
        ensures
            path@ == Seq::<char>::empty(),
            allocated_for(capacity, path.text()),
    {
        RelativeForwardUnixPathBuf(string_with_capacity(capacity))
    }

    /// The number of bytes that the buffer can hold without growing: never
    /// less than the canonical string takes.
    pub fn capacity(&self) -> (capacity: usize)
        ensures
            capacity >= byte_len(self@),
    {
        string_capacity(&self.0)
    }

    /// The number of bytes of the canonical string.
    pub fn len(&self) -> (len: usize)
        ensures
            len == byte_len(self@),
    {
        self.0.as_str().as_bytes().len()
    }

    /// Has the buffer reserve room for `additional` more bytes. The path
    /// stays as it is. Twice the size asked for must fit a buffer.
    pub fn reserve(&mut self, additional: usize)
        requires
            2 * (byte_len(old(self)@) + additional) <= isize::MAX,
        ensures
            final(self)@ == old(self)@,
            reserved_for(old(self).text(), additional, final(self).text()),
    {
        let text = self.take_text();
        self.0 = string_reserve(text, additional);
    }

    /// Has the buffer shrink to fit the path. The path stays as it is.
    pub fn shrink_to_fit(&mut self)
        ensures
            final(self)@ == old(self)@,
            shrunk_to_fit(old(self).text(), final(self).text()),
    {
        let text = self.take_text();
        self.0 = string_shrink_to_fit(text);
    }

    /// Has the buffer shrink, with `min_capacity` bytes as the least room
    /// to keep. The path stays as it is.
    pub fn shrink_to(&mut self, min_capacity: usize)
        ensures
            final(self)@ == old(self)@,
            shrunk_to(old(self).text(), min_capacity, final(self).text()),
    {
        let text = self.take_text();
        self.0 = string_shrink_to(text, min_capacity);
    }

    /// A borrowed view of the path.
    pub fn as_path(&self) -> (path: RelativeForwardUnixPath<'_>)
        ensures
            path@ == self@,
    {
        proof {
            use_type_invariant(self);
        }
        RelativeForwardUnixPath(self.0.as_str())
    }

    /// The canonical string of the path.
    pub fn as_str(&self) -> (s: &str)
        ensures
            s@ == self@,
            is_normalized(s@),
    {
        proof {
            use_type_invariant(self);
        }
        self.0.as_str()
    }

    /// The canonical string of the path, owned.
    pub fn to_string(&self) -> (s: String)
        ensures
            s@ == self@,
    {
        self.0.clone()
    }

    /// Gives up the buffer that holds the canonical string.
    pub fn into_string(self) -> (s: String)
        ensures
            s == self.text(),
            s@ == self@,
            is_normalized(s@),
    {
        proof {
            use_type_invariant(&self);
        }
        self.0
    }

    /// Appends the components of `path`.
    pub fn push(&mut self, path: RelativeForwardUnixPath<'_>)
        ensures
            final(self)@ == join_of(old(self)@, path@),
            components(final(self)@) == components(old(self)@) + components(path@),
    {
        let joined = self.as_path().join(path);
        *self = joined;
    }

    /// Resolves the relative expression `path` against the buffer, as
    /// `join_normalized` does. On an error the buffer keeps its value.
    pub fn push_normalized(&mut self, path: &RelativePathBuf) -> (r: Result<(), PathError>)
        ensures
            match r {
                Ok(()) => join_normalized_of(old(self)@, relative_path_text(path)) == Ok::<
                    Seq<char>,
                    PathError,
                >(final(self)@),
                Err(e) => join_normalized_of(old(self)@, relative_path_text(path)) == Err::<
                    Seq<char>,
                    PathError,
                >(e) && final(self)@ == old(self)@,
            },
    {
        match self.as_path().join_normalized(path) {
            Ok(joined) => {
                *self = joined;
                Ok(())
            },
            Err(e) => Err(e),
        }
    }
}

/// The components of a path that are still to come, first to last.
#[derive(Debug, Clone, Copy)]
pub struct ForwardRelativePathIter<'a>(&'a str);

impl<'a> ForwardRelativePathIter<'a> {
    #[verifier::type_invariant]
    spec fn well_formed(self) -> bool {
        is_normalized(self.0@)
    }

    /// The names that `next` is still to hand out, in order.
    pub closed spec fn remaining(&self) -> Seq<Seq<char>> {
        components(self.0@)
    }

    /// The path of the components that are still to come.
    pub fn as_path(&self) -> (path: RelativeForwardUnixPath<'a>)
        ensures
            components(path@) == self.remaining(),
    {
        proof {
            use_type_invariant(self);
        }
        RelativeForwardUnixPath(self.0)
    }

    /// The next component, if one is left: the first of those that remain,
    /// which then no longer remains. At the end the answer is none, and
    /// stays none.
    pub fn next(&mut self) -> (r: Option<FileName<'a>>)
        ensures
            match r {
                Some(name) => old(self).remaining().len() > 0 && name@ == old(self).remaining()[0]
                    && final(self).remaining() == old(self).remaining().drop_first(),
                None => old(self).remaining().len() == 0 && final(self).remaining().len() == 0,
            },
    {
        proof {
            use_type_invariant(&*self);
        }
        let text: &'a str = self.0;
        let chars = to_chars(text);
        if chars.len() == 0 {
            return None;
        }
        let end = find_first(&chars, '/');
        proof {
            lemma_first_component(chars@, end as int);
        }
        let name = slice(text, 0, end);
        let rest = if end < chars.len() {
            slice(text, end + 1, chars.len())
        } else {
            slice(text, end, end)
        };
        proof {
            if end == chars.len() {
                assert(rest@ =~= Seq::<char>::empty());
            }
        }
        self.0 = rest;
        Some(FileName::unchecked_new(name))
    }
}

impl Clone for RelativeForwardUnixPathBuf {
    fn clone(&self) -> (copy: Self)
        ensures
            copy@ == self@,
    {
        proof {
            use_type_invariant(self);
        }
        RelativeForwardUnixPathBuf(self.0.clone())
    }
}

impl<'a> PartialEq for RelativeForwardUnixPath<'a> {
    fn eq(&self, other: &Self) -> (same: bool) {
        str_eq(self.0, other.0)
    }
}

impl<'a> PartialEqSpecImpl for RelativeForwardUnixPath<'a> {
    open spec fn obeys_eq_spec() -> bool {
        true
    }

    open spec fn eq_spec(&self, other: &Self) -> bool {
        self@ == other@
    }
}

impl PartialEq for RelativeForwardUnixPathBuf {
    fn eq(&self, other: &Self) -> (same: bool) {
        self.0 == other.0
    }
}

impl PartialEqSpecImpl for RelativeForwardUnixPathBuf {
    open spec fn obeys_eq_spec() -> bool {
        true
    }

    open spec fn eq_spec(&self, other: &Self) -> bool {
        self@ == other@
    }
}

impl<'a> PartialEq<RelativeForwardUnixPath<'a>> for RelativeForwardUnixPathBuf {
    fn eq(&self, other: &RelativeForwardUnixPath<'a>) -> (same: bool) {
        str_eq(self.0.as_str(), other.0)
    }
}

impl<'a> PartialEqSpecImpl<RelativeForwardUnixPath<'a>> for RelativeForwardUnixPathBuf {
    open spec fn obeys_eq_spec() -> bool {
        true
    }

    open spec fn eq_spec(&self, other: &RelativeForwardUnixPath<'a>) -> bool {
        self@ == other@
    }
}

impl<'a> PartialEq<RelativeForwardUnixPathBuf> for RelativeForwardUnixPath<'a> {
    fn eq(&self, other: &RelativeForwardUnixPathBuf) -> (same: bool) {
        str_eq(self.0, other.0.as_str())
    }
}

impl<'a> PartialEqSpecImpl<RelativeForwardUnixPathBuf> for RelativeForwardUnixPath<'a> {
    open spec fn obeys_eq_spec() -> bool {
        true
    }

    open spec fn eq_spec(&self, other: &RelativeForwardUnixPathBuf) -> bool {
        self@ == other@
    }
}

} // verus!
