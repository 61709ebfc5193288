//! Relative path expressions, as the `relative-path` crate holds them: text
//! that may carry `.` and `..` steps and redundant separators.

use vstd::prelude::*;
use relative_path::{Component, RelativePathBuf};
use crate::path_model::{steps, Step};

verus! {

/// `relative_path::RelativePathBuf`, opaque but for its text.
#[verifier::external_type_specification]
#[verifier::external_body]
pub struct ExRelativePathBuf(RelativePathBuf);

/// The text that a relative path expression holds.
pub uninterp spec fn relative_path_text(path: &RelativePathBuf) -> Seq<char>;

/// One step of a relative path expression, borrowed from its text.
#[derive(Debug, Clone, Copy)]
pub enum Segment<'a> {
    /// `.`
    CurDir,
    /// `..`
    ParentDir,
    /// Any other component.
    Normal(&'a str),
}

impl<'a> View for Segment<'a> {
    type V = Step;

    open spec fn view(&self) -> Step {
        match self {
            Segment::CurDir => Step::CurDir,
            Segment::ParentDir => Step::ParentDir,
            Segment::Normal(name) => Step::Normal(name@),
        }
    }
}

/// The steps that the segments stand for, in order.
pub open spec fn segments_view<'a>(segments: Seq<Segment<'a>>) -> Seq<Step> {
    Seq::new(segments.len(), |i: int| segments[i]@)
}

/// `RelativePath::components`, collected: the expression's text cut at
/// every `/`, the empty pieces left out, `.` and `..` told apart from the
/// other pieces. Trusted to yield exactly `steps` of the text.
#[verifier::external_body]
pub(crate) fn relative_path_components<'a>(path: &'a RelativePathBuf) -> (segments: Vec<Segment<'a>>)
    ensures
        segments_view(segments@) == steps(relative_path_text(path)),
{
    path.components().map(|component| match component {
        Component::CurDir => Segment::CurDir,
        Component::ParentDir => Segment::ParentDir,
        Component::Normal(name) => Segment::Normal(name),
    }).collect()
}

/// `RelativePath::as_str`: trusted to hand out the expression's text
/// unchanged.
#[verifier::external_body]
pub(crate) fn relative_path_as_str<'a>(path: &'a RelativePathBuf) -> (text: &'a str)
    ensures
        text@ == relative_path_text(path),
{
    path.as_str()
}

/// `RelativePathBuf::into_string`: trusted to give up the expression's
/// text unchanged.
#[verifier::external_body]
pub(crate) fn relative_path_into_string(path: RelativePathBuf) -> (text: String)
    ensures
        text@ == relative_path_text(&path),
{
    path.into_string()
}

/// `RelativePathBuf::from` on a `String`: trusted to hold the given text
/// unchanged.
#[verifier::external_body]
pub(crate) fn relative_path_from_string(text: String) -> (path: RelativePathBuf)
    ensures
        relative_path_text(&path) == text@,
{
    RelativePathBuf::from(text)
}

} // verus!
