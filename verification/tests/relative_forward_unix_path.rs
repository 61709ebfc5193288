use relative_path::RelativePathBuf;
use turborepo::error::PathError;
use turborepo::file_name::FileName;
use turborepo::relative::Segment;
use turborepo::relative_forward_unix_path::{
    apply_segments, join_names, validate_str, RelativeForwardUnixPath, RelativeForwardUnixPathBuf,
};

fn path(s: &str) -> RelativeForwardUnixPath<'_> {
    RelativeForwardUnixPath::new(s).unwrap()
}

fn names<'a>(parts: &[&'a str]) -> Vec<FileName<'a>> {
    parts.iter().map(|p| FileName::new(p).unwrap()).collect()
}

#[test]
fn new_round_trips_normalized_strings() {
    for s in ["", "foo", "foo/bar", "foo/bar/baz.txt", ".hidden/x", "a b/c", "c:/d", "héllo/wörld"] {
        assert_eq!(validate_str(s), Ok(()));
        assert_eq!(RelativeForwardUnixPath::new(s).unwrap().as_str(), s);
        let buf = RelativeForwardUnixPathBuf::new(s.to_owned()).unwrap();
        assert_eq!(buf.as_str(), s);
        assert_eq!(buf.into_string(), s.to_owned());
    }
}

#[test]
fn new_rejects_absolute_paths_as_invalid_path() {
    for s in ["/", "/abs/bar", "/./a", "/../a", "\\abs", "\\a/./b", "//"] {
        assert_eq!(validate_str(s), Err(PathError::InvalidPath));
        assert_eq!(RelativeForwardUnixPath::new(s).err(), Some(PathError::InvalidPath));
    }
}

#[test]
fn new_rejects_dot_components_as_non_normalized() {
    for s in [".", "..", "./a", "a/.", "normalize/./bar", "normalize/../bar", "a/..", "a//./b", "a\\b/.."] {
        assert_eq!(validate_str(s), Err(PathError::NonNormalizedComponent));
        assert_eq!(
            RelativeForwardUnixPathBuf::new(s.to_owned()).err(),
            Some(PathError::NonNormalizedComponent)
        );
    }
}

#[test]
fn new_rejects_redundant_and_foreign_separators_as_invalid_path() {
    for s in ["a//b", "a/", "a/b/", "a\\b", "a/b\\c", "c:\\d"] {
        assert_eq!(validate_str(s), Err(PathError::InvalidPath));
    }
}

#[test]
fn unchecked_new_keeps_the_string() {
    assert_eq!(RelativeForwardUnixPath::unchecked_new("foo/bar").as_str(), "foo/bar");
    assert_eq!(
        RelativeForwardUnixPathBuf::unchecked_new("foo/bar".to_owned()).as_str(),
        "foo/bar"
    );
    assert_eq!(RelativeForwardUnixPath::empty().as_str(), "");
    assert!(RelativeForwardUnixPath::empty().is_empty());
    assert!(!path("a").is_empty());
}

#[test]
fn join_concatenates_components() {
    assert_eq!(path("foo/bar").join(path("baz")).as_str(), "foo/bar/baz");
    assert_eq!(path("").join(path("baz/qux")).as_str(), "baz/qux");
    assert_eq!(path("foo").join(path("")).as_str(), "foo");
    assert_eq!(path("").join(path("")).as_str(), "");
    assert_eq!(path("é").join(path("ü/x")).as_str(), "é/ü/x");
}

#[test]
fn parent_removes_the_last_component() {
    assert_eq!(path("foo/bar").parent(), Some(path("foo")));
    assert_eq!(path("foo/bar/baz").parent(), Some(path("foo/bar")));
    assert_eq!(path("foo").parent(), Some(path("")));
    assert_eq!(path("").parent(), None);
    assert_eq!(path("hé/llo/wörld").parent(), Some(path("hé/llo")));
}

#[test]
fn parent_reaches_the_root_in_as_many_steps_as_components() {
    let start = path("a/b/c/d");
    let mut seen = vec![start.to_string()];
    let mut current = start;
    let mut steps = 0;
    while let Some(parent) = current.parent() {
        assert!(!seen.contains(&parent.to_string()));
        assert_eq!(parent.file_names().len() + 1, current.file_names().len());
        seen.push(parent.to_string());
        current = parent;
        steps += 1;
    }
    assert_eq!(steps, 4);
    assert_eq!(current.as_str(), "");
}

#[test]
fn file_name_is_the_last_component() {
    assert_eq!(path("usr/bin").file_name(), Some(FileName::unchecked_new("bin")));
    assert_eq!(path("bin").file_name(), Some(FileName::unchecked_new("bin")));
    assert_eq!(path("a/b/ü.txt").file_name(), Some(FileName::unchecked_new("ü.txt")));
    assert_eq!(path("").file_name(), None);
}

#[test]
fn stem_and_extension_come_from_the_file_name() {
    assert_eq!(path("foo.rs").file_stem(), Some("foo"));
    assert_eq!(path("foo.rs").extension(), Some("rs"));
    assert_eq!(path("hi/foo.rs").extension(), Some("rs"));
    assert_eq!(path("hi.d/foo").extension(), None);
    assert_eq!(path("hi.d/foo").file_stem(), Some("foo"));
    assert_eq!(path(".gitignore").extension(), None);
    assert_eq!(path(".gitignore").file_stem(), Some(".gitignore"));
    assert_eq!(path("a/archive.tar.gz").file_stem(), Some("archive.tar"));
    assert_eq!(path("a/archive.tar.gz").extension(), Some("gz"));
    assert_eq!(path("").file_stem(), None);
    assert_eq!(path("").extension(), None);
}

#[test]
fn starts_with_matches_whole_components() {
    assert!(path("some/foo").starts_with(path("some")));
    assert!(path("some/foo").starts_with(path("some/foo")));
    assert!(path("some/foo").starts_with(path("")));
    assert!(path("").starts_with(path("")));
    assert!(!path("some/foo").starts_with(path("so")));
    assert!(!path("some/foo").starts_with(path("some/f")));
    assert!(!path("some/foo").starts_with(path("foo")));
    assert!(!path("some").starts_with(path("some/foo")));
    assert!(!path("").starts_with(path("a")));
}

#[test]
fn ends_with_matches_whole_components() {
    assert!(path("some/foo").ends_with(path("foo")));
    assert!(path("some/foo").ends_with(path("some/foo")));
    assert!(path("some/foo").ends_with(path("")));
    assert!(path("a/b/c").ends_with(path("b/c")));
    assert!(!path("some/foo").ends_with(path("oo")));
    assert!(!path("some/foo").ends_with(path("me/foo")));
    assert!(!path("some/foo").ends_with(path("some")));
    assert!(!path("foo").ends_with(path("some/foo")));
}

#[test]
fn strip_prefix_returns_the_rest() {
    let p = path("test/haha/foo.txt");
    assert_eq!(p.strip_prefix(path("test")), Ok(path("haha/foo.txt")));
    assert_eq!(p.strip_prefix(path("test/haha")), Ok(path("foo.txt")));
    assert_eq!(p.strip_prefix(path("test/haha/foo.txt")), Ok(path("")));
    assert_eq!(p.strip_prefix(path("")), Ok(p));
    assert_eq!(path("é/ü/x").strip_prefix(path("é")), Ok(path("ü/x")));
}

#[test]
fn strip_prefix_fails_with_not_a_prefix() {
    let p = path("test/haha/foo.txt");
    assert_eq!(p.strip_prefix(path("asdf")), Err(PathError::NotAPrefix));
    assert_eq!(p.strip_prefix(path("te")), Err(PathError::NotAPrefix));
    assert_eq!(p.strip_prefix(path("test/ha")), Err(PathError::NotAPrefix));
    assert_eq!(p.strip_prefix(path("test/haha/foo.txt/x")), Err(PathError::NotAPrefix));
    assert_eq!(path("").strip_prefix(path("a")), Err(PathError::NotAPrefix));
}

#[test]
fn strip_prefix_then_join_gives_the_path_back() {
    for (p, b) in [("a/b/c", "a"), ("a/b/c", "a/b"), ("a/b/c", "a/b/c"), ("a/b/c", ""), ("", "")] {
        let p = path(p);
        let b = path(b);
        assert!(p.starts_with(b));
        let rest = p.strip_prefix(b).unwrap();
        assert_eq!(b.join(rest), p);
    }
}

#[test]
fn file_names_lists_components_in_order() {
    assert_eq!(path("foo/bar/baz").file_names(), names(&["foo", "bar", "baz"]));
    assert_eq!(path("foo").file_names(), names(&["foo"]));
    assert_eq!(path("").file_names(), names(&[]));
    assert_eq!(path("hé/llo/wörld.txt").file_names(), names(&["hé", "llo", "wörld.txt"]));
}

#[test]
fn iter_yields_components_one_by_one() {
    let p = path("hé/llo/wörld.txt");
    let mut it = p.iter();
    assert_eq!(it.as_path(), p);
    assert_eq!(it.next(), Some(FileName::unchecked_new("hé")));
    assert_eq!(it.as_path(), path("llo/wörld.txt"));
    assert_eq!(it.next(), Some(FileName::unchecked_new("llo")));
    assert_eq!(it.next(), Some(FileName::unchecked_new("wörld.txt")));
    assert_eq!(it.as_path(), path(""));
    assert_eq!(it.next(), None);
    assert_eq!(it.next(), None);

    let mut again = p.iter();
    assert_eq!(again.next(), Some(FileName::unchecked_new("hé")));

    let mut none = path("").iter();
    assert_eq!(none.next(), None);
}

#[test]
fn join_names_is_the_inverse_of_iter() {
    for s in ["", "a", "a/b", "foo/bar/baz.txt", "é/ü"] {
        assert_eq!(join_names(&path(s).file_names()).as_str(), s);
    }
    assert_eq!(join_names(&names(&["x", "y"])).as_str(), "x/y");
}

#[test]
fn join_normalized_resolves_dots() {
    let rel = |s: &str| RelativePathBuf::from(s);
    let p = path("foo/bar");
    assert_eq!(p.join_normalized(&rel("../baz.txt")).unwrap().as_str(), "foo/baz.txt");
    assert_eq!(p.join_normalized(&rel(".")).unwrap().as_str(), "foo/bar");
    assert_eq!(p.join_normalized(&rel("")).unwrap().as_str(), "foo/bar");
    assert_eq!(p.join_normalized(&rel("./x/./y")).unwrap().as_str(), "foo/bar/x/y");
    assert_eq!(p.join_normalized(&rel("..")).unwrap().as_str(), "foo");
    assert_eq!(p.join_normalized(&rel("../..")).unwrap().as_str(), "");
    assert_eq!(p.join_normalized(&rel("../../x")).unwrap().as_str(), "x");
    assert_eq!(p.join_normalized(&rel("x/../y")).unwrap().as_str(), "foo/bar/y");
    assert_eq!(p.join_normalized(&rel("x//y/")).unwrap().as_str(), "foo/bar/x/y");
    assert_eq!(p.join_normalized(&rel("/x")).unwrap().as_str(), "foo/bar/x");
    assert_eq!(path("").join_normalized(&rel("a/b")).unwrap().as_str(), "a/b");
    assert_eq!(path("é").join_normalized(&rel("../ü")).unwrap().as_str(), "ü");
}

#[test]
fn join_normalized_fails_when_escaping() {
    let rel = |s: &str| RelativePathBuf::from(s);
    assert_eq!(
        path("foo").join_normalized(&rel("../../x")).err(),
        Some(PathError::PathEscapesRoot)
    );
    assert_eq!(path("").join_normalized(&rel("..")).err(), Some(PathError::PathEscapesRoot));
    assert_eq!(
        path("a/b").join_normalized(&rel("../../../c")).err(),
        Some(PathError::PathEscapesRoot)
    );
    assert_eq!(
        path("a").join_normalized(&rel("b/../../../c")).err(),
        Some(PathError::PathEscapesRoot)
    );
}

#[test]
fn join_normalized_fails_on_invalid_file_name() {
    let rel = |s: &str| RelativePathBuf::from(s);
    assert_eq!(
        path("foo").join_normalized(&rel("a\\b")).err(),
        Some(PathError::InvalidFileName)
    );
    assert_eq!(
        path("foo").join_normalized(&rel("x/a\\b/..")).err(),
        Some(PathError::InvalidFileName)
    );
    assert_eq!(
        path("").join_normalized(&rel("../a\\b")).err(),
        Some(PathError::PathEscapesRoot)
    );
}

#[test]
fn apply_segments_works_on_a_stack() {
    let stack = names(&["a", "b"]);
    let segments = vec![Segment::ParentDir, Segment::CurDir, Segment::Normal("c")];
    assert_eq!(apply_segments(stack, &segments), Ok(names(&["a", "c"])));
    assert_eq!(apply_segments(names(&[]), &vec![]), Ok(names(&[])));
    assert_eq!(
        apply_segments(names(&["a"]), &vec![Segment::ParentDir, Segment::ParentDir]),
        Err(PathError::PathEscapesRoot)
    );
    assert_eq!(
        apply_segments(names(&["a"]), &vec![Segment::Normal("")]),
        Err(PathError::InvalidFileName)
    );
    assert_eq!(
        apply_segments(names(&["a"]), &vec![Segment::Normal("..")]),
        Err(PathError::InvalidFileName)
    );
}

#[test]
fn push_appends_components() {
    let mut buf = RelativeForwardUnixPathBuf::with_capacity(16);
    assert_eq!(buf.as_str(), "");
    buf.push(path("foo"));
    assert_eq!(buf.as_str(), "foo");
    buf.push(path("bar/baz"));
    assert_eq!(buf.as_str(), "foo/bar/baz");
    buf.push(path(""));
    assert_eq!(buf.as_str(), "foo/bar/baz");
}

#[test]
fn push_normalized_resolves_or_leaves_unchanged() {
    let mut buf = RelativeForwardUnixPathBuf::new("foo/bar".to_owned()).unwrap();
    assert_eq!(buf.push_normalized(&RelativePathBuf::from("../baz")), Ok(()));
    assert_eq!(buf.as_str(), "foo/baz");
    assert_eq!(
        buf.push_normalized(&RelativePathBuf::from("../../..")),
        Err(PathError::PathEscapesRoot)
    );
    assert_eq!(buf.as_str(), "foo/baz");
    assert_eq!(
        buf.push_normalized(&RelativePathBuf::from("x/y\\z")),
        Err(PathError::InvalidFileName)
    );
    assert_eq!(buf.as_str(), "foo/baz");
}

#[test]
fn capacity_controls_leave_the_path_alone() {
    let mut buf = RelativeForwardUnixPathBuf::with_capacity(64);
    assert!(buf.capacity() >= 64);
    buf.push(path("foo/bär"));
    assert_eq!(buf.len(), 8);
    buf.reserve(100);
    assert!(buf.capacity() >= 108);
    assert_eq!(buf.as_str(), "foo/bär");
    buf.shrink_to(20);
    assert!(buf.capacity() >= 20);
    assert_eq!(buf.as_str(), "foo/bär");
    buf.shrink_to_fit();
    assert!(buf.capacity() >= 8);
    assert_eq!(buf.as_str(), "foo/bär");
}

#[test]
fn relative_path_expressions_convert_when_normalized() {
    let rel = RelativePathBuf::from("foo/bar");
    assert_eq!(RelativeForwardUnixPath::from_relative_path(&rel).unwrap().as_str(), "foo/bar");
    assert_eq!(
        RelativeForwardUnixPathBuf::from_relative_path(rel).unwrap().as_str(),
        "foo/bar"
    );
    assert!(RelativeForwardUnixPathBuf::from_relative_path(RelativePathBuf::from("")).is_ok());
    assert_eq!(
        RelativeForwardUnixPathBuf::from_relative_path(RelativePathBuf::from("normalize/./bar")).err(),
        Some(PathError::NonNormalizedComponent)
    );
    assert_eq!(
        RelativeForwardUnixPath::from_relative_path(&RelativePathBuf::from("normalize/../bar")).err(),
        Some(PathError::NonNormalizedComponent)
    );
    assert_eq!(
        RelativeForwardUnixPath::from_relative_path(&RelativePathBuf::from("/abs")).err(),
        Some(PathError::InvalidPath)
    );
    let back = RelativeForwardUnixPathBuf::new("a/b".to_owned()).unwrap().into_relative_path();
    assert_eq!(back, RelativePathBuf::from("a/b"));
    assert_eq!(back.as_str(), "a/b");
}

#[test]
fn owned_and_borrowed_paths_compare_by_content() {
    let buf = RelativeForwardUnixPathBuf::new("foo/bar".to_owned()).unwrap();
    assert_eq!(buf, path("foo/bar"));
    assert_eq!(path("foo/bar"), buf);
    assert_eq!(buf.as_path(), path("foo/bar"));
    assert_eq!(buf.clone(), buf);
    assert_eq!(path("foo/bar").to_buf(), buf);
    assert_ne!(buf, path("foo/baz"));
    assert_ne!(path("foo"), buf);
    assert!(path("a/b") < path("a/c"));
}
