//! Laws of the path algebra, stated over the model that the contracts of
//! the path types speak of.

use vstd::prelude::*;
use crate::error::PathError;
use crate::path_model::{
    all_valid_names, apply_steps, components, file_name_of, is_absolute, is_normalized,
    is_separator, join_components, join_normalized_of, join_of, last_index_of,
    lemma_components_join, lemma_join_components_of, lemma_join_of, lemma_last_index_of,
    lemma_split_nonempty, lemma_split_without_sep, lemma_starts_with, parent_of, sep, split,
    starts_with_path, steps, steps_of, strip_prefix_of, valid_file_name, validate, Step,
};

verus! {

/// The path reached from `s` by going to the parent `n` times; none once
/// the root has no parent left to give.
pub open spec fn ancestor(s: Seq<char>, n: nat) -> Option<Seq<char>>
    decreases n,
{
    if n == 0 {
        Some(s)
    } else {
        match parent_of(s) {
            Some(p) => ancestor(p, (n - 1) as nat),
            None => None,
        }
    }
}

/// The first piece of a split is the text up to the first `/`.
pub proof fn lemma_first_piece(s: Seq<char>)
    ensures
        split(s).len() >= 1,
        split(s)[0].len() <= s.len(),
        split(s)[0] == s.subrange(0, split(s)[0].len() as int),
        split(s)[0].len() < s.len() ==> s[split(s)[0].len() as int] == sep(),
    decreases s.len(),
{
    lemma_last_index_of(s, sep());
    lemma_split_nonempty(s);
    let j = last_index_of(s, sep());
    if 0 <= j {
        let head = s.subrange(0, j);
        lemma_first_piece(head);
        lemma_split_nonempty(head);
        assert(split(s)[0] == split(head)[0]);
        let n = split(head)[0].len() as int;
        assert(head.subrange(0, n) =~= s.subrange(0, n));
    } else {
        assert(s.subrange(0, s.len() as int) =~= s);
    }
}

/// A validating constructor accepts exactly the normalized strings, and the
/// path it builds has the accepted string as its canonical string: a
/// normalized string goes through `new` and `as_str` unchanged.
pub proof fn law_round_trip(s: Seq<char>)
    ensures
        is_normalized(s) <==> validate(s) == Ok::<(), PathError>(()),
        is_normalized(s) <==> validate(s) is Ok,
{
}

/// The canonical form is unique: two normalized strings with the same
/// components are the same string.
pub proof fn law_canonical_form(a: Seq<char>, b: Seq<char>)
    requires
        components(a) == components(b),
    ensures
        a == b,
{
    lemma_join_components_of(a);
    lemma_join_components_of(b);
}

/// Joining `.` onto a path with `join_normalized` leaves the path as it
/// is.
pub proof fn law_join_cur_dir(p: Seq<char>)
    requires
        is_normalized(p),
    ensures
        join_normalized_of(p, "."@) == Ok::<Seq<char>, PathError>(p),
{
    reveal_strlit(".");
    let dot = "."@;
    assert(dot.len() == 1 && dot[0] == '.');
    lemma_split_without_sep(dot);
    let pieces = split(dot);
    assert(pieces.drop_last() =~= Seq::<Seq<char>>::empty());
    assert(steps_of(pieces.drop_last()) =~= Seq::<Step>::empty());
    assert(steps(dot) =~= seq![Step::CurDir]);
    let only = seq![Step::CurDir];
    assert(only.drop_first() =~= Seq::<Step>::empty());
    assert(apply_steps(components(p), only) == apply_steps(components(p), only.drop_first()));
    lemma_join_components_of(p);
}

/// A `..` that finds no component to leave fails with `PathEscapesRoot`:
/// resolving `..` against the root escapes it.
pub proof fn law_parent_of_root_escapes()
    ensures
        join_normalized_of(Seq::<char>::empty(), ".."@) == Err::<Seq<char>, PathError>(
            PathError::PathEscapesRoot,
        ),
{
    reveal_strlit("..");
    let up = ".."@;
    assert(up.len() == 2 && up[0] == '.' && up[1] == '.');
    lemma_split_without_sep(up);
    let pieces = split(up);
    assert(pieces.drop_last() =~= Seq::<Seq<char>>::empty());
    assert(steps_of(pieces.drop_last()) =~= Seq::<Step>::empty());
    assert(steps(up) =~= seq![Step::ParentDir]);
}

/// Stripping a prefix and joining it back gives the path: when `p` starts
/// with `b`, `strip_prefix` succeeds, and `b` joined with what it returns
/// is `p`.
pub proof fn law_strip_prefix_then_join(p: Seq<char>, b: Seq<char>)
    requires
        is_normalized(p),
        is_normalized(b),
        starts_with_path(p, b),
    ensures
        strip_prefix_of(p, b) matches Ok(rest) && is_normalized(rest) && join_of(b, rest) == p,
{
    lemma_starts_with(p, b);
    let rest = join_components(components(p).skip(components(b).len() as int));
    assert(components(b) + components(rest) =~= components(p));
    lemma_join_components_of(p);
}

/// An absolute string is never a path: the validating constructors reject
/// it with `InvalidPath`.
pub proof fn law_absolute_is_rejected(s: Seq<char>)
    requires
        is_absolute(s),
    ensures
        validate(s) == Err::<(), PathError>(PathError::InvalidPath),
{
    lemma_first_piece(s);
    let first = components(s)[0];
    if first.len() > 0 {
        assert(first[0] == s[0]);
        assert(is_separator(first[0]));
    }
    assert(!valid_file_name(first));
}

/// The empty string is accepted, and is the root: the path with no
/// components, which has no parent.
pub proof fn law_empty_is_root()
    ensures
        validate(Seq::<char>::empty()) == Ok::<(), PathError>(()),
        components(Seq::<char>::empty()).len() == 0,
        parent_of(Seq::<char>::empty()) is None,
{
}

/// `parent` gives none only at the root, and every parent has one
/// component less than its child: going up from a path of `k` components
/// passes through `k` distinct paths, each a component shorter than the
/// one before, arrives at the root after exactly `k` steps, and ends
/// there.
pub proof fn law_parent_reaches_root(s: Seq<char>, n: nat)
    requires
        is_normalized(s),
    ensures
        parent_of(s) is None <==> s.len() == 0,
        n <= components(s).len() ==> (ancestor(s, n) matches Some(a) && is_normalized(a)
            && components(a) == components(s).take(components(s).len() - n)),
        n == components(s).len() ==> ancestor(s, n) == Some(Seq::<char>::empty()),
        n > components(s).len() ==> ancestor(s, n) is None,
    decreases n,
{
    lemma_split_nonempty(s);
    let names = components(s);
    if n == 0 {
        assert(names.take(names.len() as int) =~= names);
        if names.len() == 0 {
            assert(s =~= Seq::<char>::empty());
        }
    } else if names.len() > 0 {
        let init = names.drop_last();
        assert(all_valid_names(init)) by {
            assert forall|i: int| 0 <= i < init.len() implies valid_file_name(#[trigger] init[i]) by {
                assert(init[i] == names[i]);
            }
        }
        lemma_components_join(init);
        let p = join_components(init);
        law_parent_reaches_root(p, (n - 1) as nat);
        if n <= names.len() {
            assert(init.take(init.len() - (n - 1)) =~= names.take(names.len() - n));
        }
    }
}

/// The root is the identity of `join`, on either side.
pub proof fn law_join_identity(p: Seq<char>)
    ensures
        join_of(p, Seq::<char>::empty()) == p,
        join_of(Seq::<char>::empty(), p) == p,
{
    lemma_join_components_of(p);
    let none = components(Seq::<char>::empty());
    assert(components(p) + none =~= components(p));
    assert(none + components(p) =~= components(p));
}

/// `join` is associative.
pub proof fn law_join_associative(a: Seq<char>, b: Seq<char>, c: Seq<char>)
    requires
        is_normalized(a),
        is_normalized(b),
        is_normalized(c),
    ensures
        join_of(join_of(a, b), c) == join_of(a, join_of(b, c)),
{
    lemma_join_of(a, b);
    lemma_join_of(b, c);
    assert((components(a) + components(b)) + components(c) =~= components(a) + (components(b)
        + components(c)));
}

/// Joining and then stripping what was joined onto gives back what was
/// joined: `a.join(b)` starts with `a`, and stripping `a` leaves `b`.
pub proof fn law_join_then_strip_prefix(a: Seq<char>, b: Seq<char>)
    requires
        is_normalized(a),
        is_normalized(b),
    ensures
        starts_with_path(join_of(a, b), a),
        strip_prefix_of(join_of(a, b), a) == Ok::<Seq<char>, PathError>(b),
{
    lemma_join_of(a, b);
    let joined = components(a) + components(b);
    assert(joined.subrange(0, components(a).len() as int) =~= components(a));
    assert(joined.skip(components(a).len() as int) =~= components(b));
    lemma_join_components_of(b);
}

/// A path that is not the root is its parent joined with its file name.
pub proof fn law_parent_join_file_name(p: Seq<char>)
    requires
        is_normalized(p),
        p.len() > 0,
    ensures
        parent_of(p) matches Some(parent) && file_name_of(p) matches Some(name) && join_of(
            parent,
            name,
        ) == p,
{
    lemma_split_nonempty(p);
    let names = components(p);
    let init = names.drop_last();
    let name = names.last();
    assert(all_valid_names(init)) by {
        assert forall|i: int| 0 <= i < init.len() implies valid_file_name(#[trigger] init[i]) by {
            assert(init[i] == names[i]);
        }
    }
    lemma_components_join(init);
    assert(all_valid_names(seq![name])) by {
        assert(valid_file_name(names[names.len() - 1]));
    }
    lemma_components_join(seq![name]);
    assert(init + seq![name] =~= names);
    lemma_join_components_of(p);
}

/// The steps that stand for a list of valid names: each name one step down.
pub open spec fn steps_down(names: Seq<Seq<char>>) -> Seq<Step> {
    Seq::new(names.len(), |i: int| Step::Normal(names[i]))
}

proof fn lemma_steps_of_valid_names(names: Seq<Seq<char>>)
    requires
        all_valid_names(names),
    ensures
        steps_of(names) == steps_down(names),
    decreases names.len(),
{
    if names.len() == 0 {
        assert(steps_of(names) =~= steps_down(names));
    } else {
        let init = names.drop_last();
        assert(all_valid_names(init)) by {
            assert forall|i: int| 0 <= i < init.len() implies valid_file_name(#[trigger] init[i]) by {
                assert(init[i] == names[i]);
            }
        }
        lemma_steps_of_valid_names(init);
        assert(valid_file_name(names[names.len() - 1]));
        assert(steps_of(names) =~= steps_down(names));
    }
}

proof fn lemma_apply_steps_down(stack: Seq<Seq<char>>, names: Seq<Seq<char>>)
    requires
        all_valid_names(names),
    ensures
        apply_steps(stack, steps_down(names)) == Ok::<Seq<Seq<char>>, PathError>(stack + names),
    decreases names.len(),
{
    if names.len() == 0 {
        assert(stack + names =~= stack);
    } else {
        let rest = names.drop_first();
        assert(all_valid_names(rest)) by {
            assert forall|i: int| 0 <= i < rest.len() implies valid_file_name(#[trigger] rest[i]) by {
                assert(rest[i] == names[i + 1]);
            }
        }
        assert(valid_file_name(names[0]));
        assert(steps_down(names).drop_first() =~= steps_down(rest));
        lemma_apply_steps_down(stack.push(names[0]), rest);
        assert(stack.push(names[0]) + rest =~= stack + names);
    }
}

/// On an expression that is itself a normalized path, `join_normalized`
/// does what `join` does.
pub proof fn law_join_normalized_of_normalized(p: Seq<char>, expr: Seq<char>)
    requires
        is_normalized(expr),
    ensures
        join_normalized_of(p, expr) == Ok::<Seq<char>, PathError>(join_of(p, expr)),
{
    if expr.len() == 0 {
        lemma_split_without_sep(expr);
        let pieces = split(expr);
        assert(pieces.drop_last() =~= Seq::<Seq<char>>::empty());
        assert(steps_of(pieces.drop_last()) =~= Seq::<Step>::empty());
        assert(steps(expr) =~= Seq::<Step>::empty());
        assert(components(p) + components(expr) =~= components(p));
    } else {
        lemma_steps_of_valid_names(components(expr));
        lemma_apply_steps_down(components(p), components(expr));
    }
}

} // verus!
