//! The mathematical model of paths: strings as `Seq<char>`, a path's
//! components as a `Seq<Seq<char>>`, and the lemmas that relate the two.

use vstd::prelude::*;
use crate::error::PathError;

verus! {

/// The canonical separator between the components of a path.
pub open spec fn sep() -> char {
    '/'
}

/// A character that separates path components on some supported platform.
pub open spec fn is_separator(c: char) -> bool {
    c == '/' || c == '\\'
}

/// The name `.`.
pub open spec fn is_cur_dir(name: Seq<char>) -> bool {
    name.len() == 1 && name[0] == '.'
}

/// The name `..`.
pub open spec fn is_parent_dir(name: Seq<char>) -> bool {
    name.len() == 2 && name[0] == '.' && name[1] == '.'
}

/// Whether some character of `name` is a separator.
pub open spec fn has_separator(name: Seq<char>) -> bool {
    exists|i: int| 0 <= i < name.len() && is_separator(#[trigger] name[i])
}

/// A single path component: not empty, neither `.` nor `..`, and free of
/// separators.
pub open spec fn valid_file_name(name: Seq<char>) -> bool {
    &&& name.len() > 0
    &&& !is_cur_dir(name)
    &&& !is_parent_dir(name)
    &&& !has_separator(name)
}

/// The index of the last occurrence of `c` in `s`, or -1 when there is none.
pub open spec fn last_index_of(s: Seq<char>, c: char) -> int
    decreases s.len(),
{
    if s.len() == 0 {
        -1
    } else if s.last() == c {
        s.len() - 1
    } else {
        last_index_of(s.drop_last(), c)
    }
}

/// `s` cut at every `/`. The result is never empty: a string without `/`
/// is its own single piece.
pub open spec fn split(s: Seq<char>) -> Seq<Seq<char>>
    decreases s.len(),
{
    let j = last_index_of(s, sep());
    if 0 <= j < s.len() {
        split(s.subrange(0, j)).push(s.subrange(j + 1, s.len() as int))
    } else {
        seq![s]
    }
}

/// The components of the path written as `s`. The empty string has none.
pub open spec fn components(s: Seq<char>) -> Seq<Seq<char>> {
    if s.len() == 0 {
        Seq::empty()
    } else {
        split(s)
    }
}

/// The names joined by `/`.
pub open spec fn join_components(names: Seq<Seq<char>>) -> Seq<char>
    decreases names.len(),
{
    if names.len() == 0 {
        Seq::empty()
    } else if names.len() == 1 {
        names[0]
    } else {
        join_components(names.drop_last()) + seq![sep()] + names.last()
    }
}

/// Whether every one of `names` is a valid file name.
pub open spec fn all_valid_names(names: Seq<Seq<char>>) -> bool {
    forall|i: int| 0 <= i < names.len() ==> valid_file_name(#[trigger] names[i])
}

/// A normalized path: every component is a valid file name. This rules out
/// absolute paths, `.` and `..`, and doubled or trailing separators.
pub open spec fn is_normalized(s: Seq<char>) -> bool {
    all_valid_names(components(s))
}

/// The names `.` and `..`.
pub open spec fn is_dot_name(name: Seq<char>) -> bool {
    is_cur_dir(name) || is_parent_dir(name)
}

/// Whether one of `names` is `.` or `..`.
pub open spec fn has_dot_name(names: Seq<Seq<char>>) -> bool {
    exists|i: int| 0 <= i < names.len() && is_dot_name(#[trigger] names[i])
}

/// A path that starts at a root: its first character is a separator.
pub open spec fn is_absolute(s: Seq<char>) -> bool {
    s.len() > 0 && is_separator(s[0])
}

/// What the validating constructors answer for the string `s`.
///
/// A normalized string is accepted. Of the others, an absolute one is an
/// `InvalidPath`; a relative one with a `.` or `..` component is a
/// `NonNormalizedComponent`; what is left has an empty component or a
/// foreign separator, and is an `InvalidPath`.
pub open spec fn validate(s: Seq<char>) -> Result<(), PathError> {
    if is_normalized(s) {
        Ok(())
    } else if is_absolute(s) {
        Err(PathError::InvalidPath)
    } else if has_dot_name(components(s)) {
        Err(PathError::NonNormalizedComponent)
    } else {
        Err(PathError::InvalidPath)
    }
}

/// The path of `a`'s components followed by `b`'s.
pub open spec fn join_of(a: Seq<char>, b: Seq<char>) -> Seq<char> {
    join_components(components(a) + components(b))
}

/// The path without its last component; none for the root.
pub open spec fn parent_of(s: Seq<char>) -> Option<Seq<char>> {
    if components(s).len() == 0 {
        None
    } else {
        Some(join_components(components(s).drop_last()))
    }
}

/// The last component; none for the root.
pub open spec fn file_name_of(s: Seq<char>) -> Option<Seq<char>> {
    if components(s).len() == 0 {
        None
    } else {
        Some(components(s).last())
    }
}

/// The part of a file name before its final `.`: the whole name when it has
/// no `.`, or only a leading one.
pub open spec fn stem_of(name: Seq<char>) -> Seq<char> {
    let dot = last_index_of(name, '.');
    if dot > 0 {
        name.subrange(0, dot)
    } else {
        name
    }
}

/// The part of a file name after its final `.`, unless that `.` leads the
/// name or is missing.
pub open spec fn extension_of(name: Seq<char>) -> Option<Seq<char>> {
    let dot = last_index_of(name, '.');
    if dot > 0 {
        Some(name.subrange(dot + 1, name.len() as int))
    } else {
        None
    }
}

/// Whether the components of `base` are the first components of `s`.
pub open spec fn starts_with_path(s: Seq<char>, base: Seq<char>) -> bool {
    components(base).is_prefix_of(components(s))
}

/// Whether the components of `suffix` are the last components of `s`.
pub open spec fn ends_with_path(s: Seq<char>, suffix: Seq<char>) -> bool {
    components(suffix).is_suffix_of(components(s))
}

/// The path that, joined onto `base`, gives `s`.
pub open spec fn strip_prefix_of(s: Seq<char>, base: Seq<char>) -> Result<Seq<char>, PathError> {
    if starts_with_path(s, base) {
        Ok(join_components(components(s).skip(components(base).len() as int)))
    } else {
        Err(PathError::NotAPrefix)
    }
}

/// One step of a relative path expression.
pub enum Step {
    /// `.`: stay.
    CurDir,
    /// `..`: go up by one component.
    ParentDir,
    /// Go down into the named component.
    Normal(Seq<char>),
}

/// The step that one piece of an expression stands for.
pub open spec fn step_of(piece: Seq<char>) -> Step {
    if is_cur_dir(piece) {
        Step::CurDir
    } else if is_parent_dir(piece) {
        Step::ParentDir
    } else {
        Step::Normal(piece)
    }
}

/// The steps that the pieces stand for; empty pieces stand for none.
pub open spec fn steps_of(pieces: Seq<Seq<char>>) -> Seq<Step>
    decreases pieces.len(),
{
    if pieces.len() == 0 {
        Seq::empty()
    } else if pieces.last().len() == 0 {
        steps_of(pieces.drop_last())
    } else {
        steps_of(pieces.drop_last()).push(step_of(pieces.last()))
    }
}

/// The steps of a relative path expression: its text cut at every `/`,
/// without the empty pieces.
pub open spec fn steps(expr: Seq<char>) -> Seq<Step> {
    steps_of(split(expr))
}

/// The component stack after one step, or why the step cannot be taken.
pub open spec fn apply_step(stack: Seq<Seq<char>>, step: Step) -> Result<Seq<Seq<char>>, PathError> {
    match step {
        Step::CurDir => Ok(stack),
        Step::ParentDir => if stack.len() == 0 {
            Err(PathError::PathEscapesRoot)
        } else {
            Ok(stack.drop_last())
        },
        Step::Normal(name) => if valid_file_name(name) {
            Ok(stack.push(name))
        } else {
            Err(PathError::InvalidFileName)
        },
    }
}

/// The component stack after the steps, taken from left to right; the first
/// step that cannot be taken gives the error.
pub open spec fn apply_steps(stack: Seq<Seq<char>>, steps: Seq<Step>) -> Result<
    Seq<Seq<char>>,
    PathError,
>
    decreases steps.len(),
{
    if steps.len() == 0 {
        Ok(stack)
    } else {
        match apply_step(stack, steps[0]) {
            Ok(next) => apply_steps(next, steps.drop_first()),
            Err(e) => Err(e),
        }
    }
}

/// The path `s` with the relative expression `expr` resolved against it.
pub open spec fn join_normalized_of(s: Seq<char>, expr: Seq<char>) -> Result<Seq<char>, PathError> {
    match apply_steps(components(s), steps(expr)) {
        Ok(names) => Ok(join_components(names)),
        Err(e) => Err(e),
    }
}

/// Where `last_index_of` points, `c` stands, and nowhere after it.
pub proof fn lemma_last_index_of(s: Seq<char>, c: char)
    ensures
        -1 <= last_index_of(s, c) < s.len(),
        last_index_of(s, c) >= 0 ==> s[last_index_of(s, c)] == c,
        forall|k: int| last_index_of(s, c) < k < s.len() ==> s[k] != c,
    decreases s.len(),
{
    if s.len() > 0 && s.last() != c {
        lemma_last_index_of(s.drop_last(), c);
        assert forall|k: int| last_index_of(s, c) < k < s.len() implies s[k] != c by {
            if k < s.len() - 1 {
                assert(s.drop_last()[k] == s[k]);
            }
        }
    }
}

/// An index where `c` stands, with no `c` after it, is `last_index_of`.
pub proof fn lemma_last_index_unique(s: Seq<char>, c: char, j: int)
    requires
        -1 <= j < s.len(),
        j >= 0 ==> s[j] == c,
        forall|k: int| j < k < s.len() ==> s[k] != c,
    ensures
        last_index_of(s, c) == j,
{
    lemma_last_index_of(s, c);
}

/// When `j` is where the last `/` of `s` stands, `s` splits into the
/// pieces before it and the piece after it.
pub proof fn lemma_split_at_last(s: Seq<char>, j: int)
    requires
        0 <= j < s.len(),
        s[j] == sep(),
        forall|k: int| j < k < s.len() ==> s[k] != sep(),
    ensures
        split(s) == split(s.subrange(0, j)).push(s.subrange(j + 1, s.len() as int)),
{
    lemma_last_index_unique(s, sep(), j);
}

/// A string without `/` is its own single piece.
pub proof fn lemma_split_without_sep(s: Seq<char>)
    requires
        forall|k: int| 0 <= k < s.len() ==> s[k] != sep(),
    ensures
        split(s) == seq![s],
{
    lemma_last_index_unique(s, sep(), -1);
}

/// A split has at least one piece.
pub proof fn lemma_split_nonempty(s: Seq<char>)
    ensures
        split(s).len() >= 1,
    decreases s.len(),
{
    let j = last_index_of(s, sep());
    if 0 <= j < s.len() {
        lemma_split_nonempty(s.subrange(0, j));
    }
}

/// The pieces of the prefix `s[..to]` when its last piece starts at `from`.
pub proof fn lemma_split_prefix(s: Seq<char>, from: int, to: int)
    requires
        0 <= from <= to <= s.len(),
        from == 0 || s[from - 1] == sep(),
        forall|k: int| from <= k < to ==> s[k] != sep(),
    ensures
        split(s.subrange(0, to)) == if from == 0 {
            seq![s.subrange(0, to)]
        } else {
            split(s.subrange(0, from - 1)).push(s.subrange(from, to))
        },
{
    let p = s.subrange(0, to);
    if from == 0 {
        lemma_split_without_sep(p);
    } else {
        lemma_split_at_last(p, from - 1);
        assert(p.subrange(0, from - 1) =~= s.subrange(0, from - 1));
        assert(p.subrange(from, p.len() as int) =~= s.subrange(from, to));
    }
}

/// Splitting `a/b` gives the pieces of `a` followed by the pieces of `b`.
pub proof fn lemma_split_concat(a: Seq<char>, b: Seq<char>)
    ensures
        split(a + seq![sep()] + b) == split(a) + split(b),
    decreases b.len(),
{
    let s = a + seq![sep()] + b;
    lemma_last_index_of(b, sep());
    let jb = last_index_of(b, sep());
    if 0 <= jb {
        let j = a.len() + 1 + jb;
        lemma_split_at_last(s, j);
        let b0 = b.subrange(0, jb);
        assert(s.subrange(0, j) =~= a + seq![sep()] + b0);
        assert(s.subrange(j + 1, s.len() as int) =~= b.subrange(jb + 1, b.len() as int));
        lemma_split_concat(a, b0);
        assert(split(s) =~= split(a) + split(b));
    } else {
        let j = a.len() as int;
        lemma_split_at_last(s, j);
        assert(s.subrange(0, j) =~= a);
        assert(s.subrange(j + 1, s.len() as int) =~= b);
        assert(split(s) =~= split(a) + split(b));
    }
}

/// Joining the pieces of a split gives the string back.
pub proof fn lemma_join_split(s: Seq<char>)
    ensures
        join_components(split(s)) == s,
    decreases s.len(),
{
    lemma_last_index_of(s, sep());
    let j = last_index_of(s, sep());
    if 0 <= j < s.len() {
        let head = s.subrange(0, j);
        let tail = s.subrange(j + 1, s.len() as int);
        lemma_join_split(head);
        lemma_split_nonempty(head);
        assert(split(s).drop_last() =~= split(head));
        assert(split(s).last() == tail);
        assert(head + seq![sep()] + tail =~= s);
    }
}

/// Joining the components of a path gives its string back.
pub proof fn lemma_join_components_of(s: Seq<char>)
    ensures
        join_components(components(s)) == s,
{
    if s.len() > 0 {
        lemma_join_split(s);
    } else {
        assert(s =~= Seq::<char>::empty());
    }
}

/// Splitting a join of `/`-free names gives the names back.
pub proof fn lemma_split_join(names: Seq<Seq<char>>)
    requires
        names.len() >= 1,
        forall|i: int, k: int|
            0 <= i < names.len() && 0 <= k < names[i].len() ==> #[trigger] names[i][k] != sep(),
    ensures
        split(join_components(names)) == names,
    decreases names.len(),
{
    if names.len() == 1 {
        lemma_split_without_sep(names[0]);
        assert(seq![names[0]] =~= names);
    } else {
        let init = names.drop_last();
        let joined = join_components(init);
        let s = joined + seq![sep()] + names.last();
        lemma_split_join(init);
        lemma_split_concat(joined, names.last());
        lemma_split_without_sep(names.last());
        assert(init + seq![names.last()] =~= names);
    }
}

/// A join that starts with a name that is not empty starts as that name
/// does.
pub proof fn lemma_join_nonempty(names: Seq<Seq<char>>)
    requires
        names.len() >= 1,
        names[0].len() > 0,
    ensures
        join_components(names).len() > 0,
        join_components(names)[0] == names[0][0],
    decreases names.len(),
{
    if names.len() > 1 {
        lemma_join_nonempty(names.drop_last());
    }
}

/// The components of a join of valid names are those names, and the join is
/// a normalized path.
pub proof fn lemma_components_join(names: Seq<Seq<char>>)
    requires
        all_valid_names(names),
    ensures
        components(join_components(names)) == names,
        is_normalized(join_components(names)),
{
    if names.len() == 0 {
        assert(components(join_components(names)) =~= names);
    } else {
        lemma_join_nonempty(names);
        assert forall|i: int, k: int|
            0 <= i < names.len() && 0 <= k < names[i].len() implies #[trigger] names[i][k]
            != sep() by {
            assert(valid_file_name(names[i]));
            if names[i][k] == sep() {
                assert(is_separator(names[i][k]));
            }
        }
        lemma_split_join(names);
    }
}

/// Joining a concatenation of name lists joins the two joins.
pub proof fn lemma_join_concat(a: Seq<Seq<char>>, b: Seq<Seq<char>>)
    ensures
        join_components(a + b) == if a.len() == 0 {
            join_components(b)
        } else if b.len() == 0 {
            join_components(a)
        } else {
            join_components(a) + seq![sep()] + join_components(b)
        },
    decreases b.len(),
{
    if a.len() == 0 {
        assert(a + b =~= b);
    } else if b.len() == 0 {
        assert(a + b =~= a);
    } else {
        let ab = a + b;
        assert(ab.drop_last() =~= a + b.drop_last());
        assert(ab.last() == b.last());
        lemma_join_concat(a, b.drop_last());
        if b.len() == 1 {
            assert(a + b.drop_last() =~= a);
        } else {
            assert(join_components(ab) =~= join_components(a) + seq![sep()] + join_components(b));
        }
    }
}

/// What one more name does to `all_valid_names` and `has_dot_name`.
pub proof fn lemma_names_push(names: Seq<Seq<char>>, name: Seq<char>)
    ensures
        all_valid_names(names.push(name)) <==> all_valid_names(names) && valid_file_name(name),
        has_dot_name(names.push(name)) <==> has_dot_name(names) || is_dot_name(name),
{
    let pushed = names.push(name);
    if all_valid_names(pushed) {
        assert forall|i: int| 0 <= i < names.len() implies valid_file_name(#[trigger] names[i]) by {
            assert(pushed[i] == names[i]);
        }
        assert(pushed[names.len() as int] == name);
    }
    if has_dot_name(pushed) {
        let i = choose|i: int| 0 <= i < pushed.len() && is_dot_name(#[trigger] pushed[i]);
        if i < names.len() {
            assert(is_dot_name(names[i]));
        }
    }
    if has_dot_name(names) {
        let i = choose|i: int| 0 <= i < names.len() && is_dot_name(#[trigger] names[i]);
        assert(is_dot_name(pushed[i]));
    }
    if is_dot_name(name) {
        assert(is_dot_name(pushed[names.len() as int]));
    }
}

/// The components of a normalized path, read off its string: the last one
/// is what follows the last `/`, the others are those of what precedes it.
pub proof fn lemma_last_component(s: Seq<char>)
    requires
        is_normalized(s),
        s.len() > 0,
    ensures
        components(s).len() >= 1,
        valid_file_name(components(s).last()),
        components(s).last() == s.subrange(last_index_of(s, sep()) + 1, s.len() as int),
        last_index_of(s, sep()) != 0,
        last_index_of(s, sep()) < 0 ==> components(s).drop_last() == Seq::<Seq<char>>::empty(),
        last_index_of(s, sep()) > 0 ==> {
            &&& is_normalized(s.subrange(0, last_index_of(s, sep())))
            &&& components(s).drop_last() == components(s.subrange(0, last_index_of(s, sep())))
        },
        parent_of(s) == Some(
            if last_index_of(s, sep()) < 0 {
                Seq::<char>::empty()
            } else {
                s.subrange(0, last_index_of(s, sep()))
            },
        ),
{
    lemma_last_index_of(s, sep());
    lemma_split_nonempty(s);
    let j = last_index_of(s, sep());
    let names = components(s);
    assert(valid_file_name(names[names.len() - 1]));
    if j < 0 {
        assert(names =~= seq![s]);
        assert(s.subrange(0, s.len() as int) =~= s);
        assert(names.drop_last() =~= Seq::<Seq<char>>::empty());
    } else {
        let head = s.subrange(0, j);
        lemma_split_nonempty(head);
        assert(names.drop_last() =~= split(head));
        assert(valid_file_name(names[0]));
        assert(names[0] == split(head)[0]);
        if j == 0 {
            assert(split(head) =~= seq![head]);
        }
        assert forall|i: int| 0 <= i < split(head).len() implies valid_file_name(
            #[trigger] split(head)[i],
        ) by {
            assert(split(head)[i] == names[i]);
        }
        lemma_join_components_of(head);
    }
}

/// The components of a normalized path, read off its string from the
/// front: the first one is what precedes the first `/`, the others are
/// those of what follows it.
pub proof fn lemma_first_component(s: Seq<char>, i: int)
    requires
        is_normalized(s),
        s.len() > 0,
        0 <= i <= s.len(),
        forall|k: int| 0 <= k < i ==> s[k] != sep(),
        i < s.len() ==> s[i] == sep(),
    ensures
        components(s).len() >= 1,
        components(s)[0] == s.subrange(0, i),
        valid_file_name(s.subrange(0, i)),
        i == s.len() ==> components(s).drop_first() == Seq::<Seq<char>>::empty(),
        i < s.len() ==> {
            &&& i + 1 < s.len()
            &&& is_normalized(s.subrange(i + 1, s.len() as int))
            &&& components(s).drop_first() == components(s.subrange(i + 1, s.len() as int))
        },
{
    let first = s.subrange(0, i);
    lemma_split_without_sep(first);
    if i == s.len() {
        assert(first =~= s);
        assert(components(s).drop_first() =~= Seq::<Seq<char>>::empty());
        assert(valid_file_name(components(s)[0]));
    } else {
        let rest = s.subrange(i + 1, s.len() as int);
        assert(s =~= first + seq![sep()] + rest);
        lemma_split_concat(first, rest);
        lemma_split_nonempty(rest);
        let names = components(s);
        assert(names =~= seq![first] + split(rest));
        assert(valid_file_name(names[0]));
        assert(valid_file_name(names[1]));
        assert(names[1] == split(rest)[0]);
        if rest.len() == 0 {
            assert(split(rest) =~= seq![rest]);
        }
        assert(names.drop_first() =~= split(rest));
        assert forall|k: int| 0 <= k < split(rest).len() implies valid_file_name(
            #[trigger] split(rest)[k],
        ) by {
            assert(split(rest)[k] == names[k + 1]);
        }
    }
}

/// Joining two normalized paths is writing one after the other, with a `/`
/// between them unless one is empty; the result is normalized.
pub proof fn lemma_join_of(a: Seq<char>, b: Seq<char>)
    requires
        is_normalized(a),
        is_normalized(b),
    ensures
        is_normalized(join_of(a, b)),
        components(join_of(a, b)) == components(a) + components(b),
        join_of(a, b) == if a.len() == 0 {
            b
        } else if b.len() == 0 {
            a
        } else {
            a + seq![sep()] + b
        },
{
    let names = components(a) + components(b);
    assert(all_valid_names(names)) by {
        assert forall|i: int| 0 <= i < names.len() implies valid_file_name(#[trigger] names[i]) by {
            if i < components(a).len() {
                assert(names[i] == components(a)[i]);
            } else {
                assert(names[i] == components(b)[i - components(a).len()]);
            }
        }
    }
    lemma_components_join(names);
    lemma_join_concat(components(a), components(b));
    lemma_join_components_of(a);
    lemma_join_components_of(b);
    lemma_split_nonempty(a);
    lemma_split_nonempty(b);
}

/// Whole-component prefixes, read off the strings: `base` is a prefix of
/// `s` when it is empty, or when `s` starts with `base` and then ends or
/// goes on with a `/`. What is left of `s` is what follows that `/`.
pub proof fn lemma_starts_with(s: Seq<char>, base: Seq<char>)
    requires
        is_normalized(s),
        is_normalized(base),
    ensures
        starts_with_path(s, base) <==> (base.len() == 0 || (base.is_prefix_of(s) && (s.len()
            == base.len() || s[base.len() as int] == sep()))),
        starts_with_path(s, base) ==> {
            let rest = join_components(components(s).skip(components(base).len() as int));
            &&& is_normalized(rest)
            &&& components(rest) == components(s).skip(components(base).len() as int)
            &&& rest == if base.len() == 0 {
                s
            } else if s.len() == base.len() {
                Seq::<char>::empty()
            } else {
                s.subrange(base.len() as int + 1, s.len() as int)
            }
        },
{
    let ns = components(s);
    let nb = components(base);
    lemma_join_components_of(s);
    lemma_join_components_of(base);
    lemma_split_nonempty(s);
    lemma_split_nonempty(base);
    if base.len() == 0 {
        assert(ns.skip(0) =~= ns);
        assert(nb.is_prefix_of(ns));
    } else if base.is_prefix_of(s) && s.len() == base.len() {
        assert(s =~= base);
        assert(nb.is_prefix_of(ns));
        assert(ns.skip(nb.len() as int) =~= Seq::<Seq<char>>::empty());
    } else if base.is_prefix_of(s) && s[base.len() as int] == sep() {
        let rest = s.subrange(base.len() as int + 1, s.len() as int);
        assert(s =~= base + seq![sep()] + rest);
        lemma_split_concat(base, rest);
        lemma_split_nonempty(rest);
        assert(ns =~= nb + split(rest));
        assert(nb.is_prefix_of(ns));
        assert(ns.skip(nb.len() as int) =~= split(rest));
        assert(valid_file_name(ns[nb.len() as int]));
        assert(ns[nb.len() as int] == split(rest)[0]);
        if rest.len() == 0 {
            assert(split(rest) =~= seq![rest]);
        }
        lemma_join_split(rest);
    }
    if nb.is_prefix_of(ns) {
        let tail = ns.skip(nb.len() as int);
        assert(ns =~= nb + tail);
        lemma_join_concat(nb, tail);
        assert(all_valid_names(tail)) by {
            assert forall|i: int| 0 <= i < tail.len() implies valid_file_name(#[trigger] tail[i]) by {
                assert(tail[i] == ns[nb.len() + i]);
            }
        }
        lemma_components_join(tail);
        if nb.len() > 0 && tail.len() > 0 {
            let joined = join_components(tail);
            assert(s == base + seq![sep()] + joined);
            assert(base =~= s.subrange(0, base.len() as int));
            assert(s[base.len() as int] == sep());
            assert(joined =~= s.subrange(base.len() as int + 1, s.len() as int));
        } else if nb.len() > 0 {
            assert(s == base);
            assert(base =~= s.subrange(0, base.len() as int));
        }
    }
}

/// Whole-component suffixes, read off the strings: `suffix` is a suffix of
/// `s` when it is empty, or when `s` ends with `suffix` and that is all of
/// `s` or follows a `/`.
pub proof fn lemma_ends_with(s: Seq<char>, suffix: Seq<char>)
    requires
        is_normalized(s),
        is_normalized(suffix),
    ensures
        ends_with_path(s, suffix) <==> (suffix.len() == 0 || (suffix.is_suffix_of(s) && (s.len()
            == suffix.len() || s[s.len() - suffix.len() - 1] == sep()))),
{
    let ns = components(s);
    let nx = components(suffix);
    lemma_join_components_of(s);
    lemma_join_components_of(suffix);
    lemma_split_nonempty(s);
    lemma_split_nonempty(suffix);
    if suffix.len() == 0 {
        assert(ns.subrange(ns.len() as int, ns.len() as int) =~= nx);
        assert(nx.is_suffix_of(ns));
    } else if suffix.is_suffix_of(s) && s.len() == suffix.len() {
        assert(s =~= suffix);
        assert(ns.subrange(0, ns.len() as int) =~= nx);
        assert(nx.is_suffix_of(ns));
    } else if suffix.is_suffix_of(s) && s[s.len() - suffix.len() - 1] == sep() {
        let head = s.subrange(0, s.len() - suffix.len() - 1);
        assert(s =~= head + seq![sep()] + suffix);
        lemma_split_concat(head, suffix);
        assert(ns =~= split(head) + nx);
        assert(ns.subrange(ns.len() - nx.len(), ns.len() as int) =~= nx);
        assert(nx.is_suffix_of(ns));
    }
    if nx.is_suffix_of(ns) {
        let head = ns.subrange(0, ns.len() - nx.len());
        assert(ns =~= head + nx);
        lemma_join_concat(head, nx);
        if nx.len() > 0 && head.len() > 0 {
            let joined = join_components(head);
            assert(s == joined + seq![sep()] + suffix);
            assert(suffix =~= s.subrange(s.len() - suffix.len(), s.len() as int));
            assert(s[s.len() - suffix.len() - 1] == sep());
        } else if nx.len() > 0 {
            assert(s == suffix);
            assert(suffix =~= s.subrange(s.len() - suffix.len(), s.len() as int));
        }
    }
}

/// Taking the steps one after another is taking them all.
pub proof fn lemma_apply_steps_unfold(stack: Seq<Seq<char>>, steps: Seq<Step>, i: int)
    requires
        0 <= i < steps.len(),
    ensures
        apply_steps(stack, steps.skip(i)) == match apply_step(stack, steps[i]) {
            Ok(next) => apply_steps(next, steps.skip(i + 1)),
            Err(e) => Err(e),
        },
{
    assert(steps.skip(i).drop_first() =~= steps.skip(i + 1));
}

} // verus!
