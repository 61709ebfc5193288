use std::collections::hash_map::DefaultHasher;
use std::collections::HashMap;
use std::hash::{Hash, Hasher};
use std::path::PathBuf;

use relative_path::RelativePathBuf;
use turborepo::error::PathError;
use turborepo::file_name::FileName;
use turborepo::project_relative_path::{AnchoredUnixPath, AnchoredUnixPathBuf};
use turborepo::relative_forward_unix_path::{RelativeForwardUnixPath, RelativeForwardUnixPathBuf};

fn hash_of<T: Hash>(value: &T) -> u64 {
    let mut hasher = DefaultHasher::new();
    value.hash(&mut hasher);
    hasher.finish()
}

#[test]
fn path_display_is_readable() -> Result<(), PathError> {
    let buf = AnchoredUnixPathBuf::try_from("foo/bar".to_owned())?;
    assert_eq!("foo/bar", buf.to_string());
    assert_eq!("AnchoredUnixPathBuf(\"foo/bar\")", format!("{:?}", buf));
    let refpath: AnchoredUnixPath = buf.as_path();
    assert_eq!("foo/bar", refpath.to_string());
    assert_eq!("AnchoredUnixPath(\"foo/bar\")", format!("{:?}", refpath));

    Ok(())
}

#[test]
fn path_is_comparable() -> Result<(), PathError> {
    let path1_buf = AnchoredUnixPathBuf::try_from("foo".to_owned())?;
    let path2_buf = AnchoredUnixPathBuf::try_from("foo".to_owned())?;
    let path3_buf = AnchoredUnixPathBuf::try_from("bar".to_owned())?;

    let path1 = AnchoredUnixPath::new("foo")?;
    let path2 = AnchoredUnixPath::new("foo")?;
    let path3 = AnchoredUnixPath::new("bar")?;

    let str2 = "foo";
    let str3 = "bar";
    let str_abs = "/ble";

    let string2 = "foo".to_owned();
    let string3 = "bar".to_owned();
    let string_abs = "/ble".to_owned();

    assert_eq!(path1_buf, path2_buf);
    assert_ne!(path1_buf, path3_buf);

    assert_eq!(path1, path2);
    assert_ne!(path1, path3);

    assert_eq!(path1_buf, path2);
    assert_ne!(path1, path3_buf);

    assert_eq!(path1_buf, str2);
    assert_ne!(path1_buf, str3);
    assert_ne!(path1_buf, str_abs);

    assert_eq!(path1, str2);
    assert_ne!(path1, str3);
    assert_ne!(path1, str_abs);

    assert_eq!(path1_buf, string2);
    assert_ne!(path1_buf, string3);
    assert_ne!(path1_buf, string_abs);

    assert_eq!(path1, string2);
    assert_ne!(path1, string3);
    assert_ne!(path1, string_abs);

    Ok(())
}

#[test]
fn anchored_new_validates() {
    assert!(AnchoredUnixPath::new("foo/bar").is_ok());
    assert!(AnchoredUnixPath::new("").is_ok());
    assert!(AnchoredUnixPath::new("/abs/bar").is_err());
    assert!(AnchoredUnixPath::new("normalize/./bar").is_err());
    assert!(AnchoredUnixPath::new("normalize/../bar").is_err());
    assert_eq!(AnchoredUnixPath::new("/abs/bar").err(), Some(PathError::InvalidPath));
    assert_eq!(
        AnchoredUnixPath::new("normalize/./bar").err(),
        Some(PathError::NonNormalizedComponent)
    );
    assert_eq!(AnchoredUnixPath::new("foo/bar").unwrap().as_str(), "foo/bar");
}

#[test]
fn anchored_empty_is_the_root() {
    let root = AnchoredUnixPath::new("").unwrap();
    assert_eq!(root, AnchoredUnixPath::empty());
    assert_eq!(root.as_str(), "");
    assert_eq!(root.file_names(), Vec::<FileName>::new());
    assert_eq!(root.iter().next(), None);
    assert_eq!(root.parent(), None);
    assert_eq!(root.file_name(), None);
}

#[test]
fn anchored_try_from_str_validates() {
    assert!(AnchoredUnixPath::try_from("foo/bar").is_ok());
    assert!(AnchoredUnixPath::try_from("").is_ok());
    assert!(AnchoredUnixPath::try_from("/abs/bar").is_err());
    assert!(AnchoredUnixPath::try_from("normalize/./bar").is_err());
    assert!(AnchoredUnixPath::try_from("normalize/../bar").is_err());
    assert_eq!(AnchoredUnixPath::try_from("foo/bar").unwrap().as_str(), "foo/bar");
}

#[test]
fn anchored_try_from_string_validates() {
    assert!(AnchoredUnixPathBuf::try_from("foo/bar".to_owned()).is_ok());
    assert!(AnchoredUnixPathBuf::try_from("".to_owned()).is_ok());
    assert!(AnchoredUnixPathBuf::try_from("/abs/bar".to_owned()).is_err());
    assert!(AnchoredUnixPathBuf::try_from("normalize/./bar".to_owned()).is_err());
    assert!(AnchoredUnixPathBuf::try_from("normalize/../bar".to_owned()).is_err());
    assert_eq!(AnchoredUnixPathBuf::new("a/b".to_owned()).unwrap().as_str(), "a/b");
    assert_eq!(
        AnchoredUnixPathBuf::new("a//b".to_owned()).err(),
        Some(PathError::InvalidPath)
    );
}

#[test]
fn anchored_from_relative_path_validates() {
    let ok = RelativePathBuf::from("foo/bar");
    assert_eq!(AnchoredUnixPath::from_relative_path(&ok).unwrap().as_str(), "foo/bar");
    assert!(AnchoredUnixPathBuf::from_relative_path(RelativePathBuf::from("foo/bar")).is_ok());
    assert!(AnchoredUnixPathBuf::from_relative_path(RelativePathBuf::from("")).is_ok());
    assert!(AnchoredUnixPathBuf::from_relative_path(RelativePathBuf::from("normalize/./bar")).is_err());
    assert!(AnchoredUnixPathBuf::from_relative_path(RelativePathBuf::from("normalize/../bar")).is_err());
    assert!(AnchoredUnixPath::from_relative_path(&RelativePathBuf::from("normalize/./bar")).is_err());
    let back = AnchoredUnixPathBuf::unchecked_new("x/y".to_owned()).into_relative_path();
    assert_eq!(back.as_str(), "x/y");
}

#[test]
fn anchored_from_host_path_validates() {
    assert_eq!(
        AnchoredUnixPathBuf::from_host_path(&PathBuf::from("foo/bar")).unwrap().as_str(),
        "foo/bar"
    );
    assert!(AnchoredUnixPathBuf::from_host_path(&PathBuf::from("")).is_ok());
    assert!(AnchoredUnixPathBuf::from_host_path(&PathBuf::from("/abs/bar")).is_err());
    assert!(AnchoredUnixPathBuf::from_host_path(&PathBuf::from("normalize/./bar")).is_err());
    assert!(AnchoredUnixPathBuf::from_host_path(&PathBuf::from("normalize/../bar")).is_err());
}

#[test]
fn anchored_join_appends() {
    let path = AnchoredUnixPath::new("foo/bar").unwrap();
    let other = RelativeForwardUnixPath::new("baz").unwrap();
    assert_eq!(AnchoredUnixPathBuf::unchecked_new("foo/bar/baz".to_owned()), path.join(other));
    assert_eq!(AnchoredUnixPath::empty().join(other).as_str(), "baz");
}

#[test]
fn anchored_parent_and_file_name() {
    assert_eq!(
        Some(AnchoredUnixPath::new("foo").unwrap()),
        AnchoredUnixPath::new("foo/bar").unwrap().parent()
    );
    assert_eq!(
        Some(FileName::unchecked_new("bin")),
        AnchoredUnixPath::new("usr/bin").unwrap().file_name()
    );
    assert_eq!(AnchoredUnixPath::new("foo").unwrap().parent(), Some(AnchoredUnixPath::empty()));
}

#[test]
fn anchored_strip_prefix() {
    let path = AnchoredUnixPath::new("test/haha/foo.txt").unwrap();
    assert_eq!(
        path.strip_prefix(AnchoredUnixPath::new("test").unwrap()),
        Ok(RelativeForwardUnixPath::new("haha/foo.txt").unwrap())
    );
    assert_eq!(path.strip_prefix(AnchoredUnixPath::new("asdf").unwrap()).is_err(), true);
    assert_eq!(
        path.strip_prefix(AnchoredUnixPath::new("tes").unwrap()),
        Err(PathError::NotAPrefix)
    );
}

#[test]
fn anchored_starts_and_ends_with() {
    let path = AnchoredUnixPath::new("some/foo").unwrap();
    assert!(path.starts_with(AnchoredUnixPath::new("some").unwrap()));
    assert!(!path.starts_with(AnchoredUnixPath::new("som").unwrap()));
    assert!(path.ends_with(RelativeForwardUnixPath::new("foo").unwrap()));
    assert!(!path.ends_with(RelativeForwardUnixPath::new("oo").unwrap()));
}

#[test]
fn anchored_extension_and_stem() {
    let path = AnchoredUnixPath::new("foo.rs").unwrap();
    assert_eq!(Some("foo"), path.file_stem());
    assert_eq!(Some("rs"), path.extension());
    assert_eq!(Some("rs"), AnchoredUnixPath::new("hi/foo.rs").unwrap().extension());
    let hidden = AnchoredUnixPath::new(".gitignore").unwrap();
    assert_eq!(None, hidden.extension());
    assert_eq!(Some(".gitignore"), hidden.file_stem());
}

#[test]
fn anchored_join_normalized() {
    assert_eq!(
        AnchoredUnixPath::new("foo/bar")
            .unwrap()
            .join_normalized(&RelativePathBuf::from("../baz.txt")),
        Ok(AnchoredUnixPathBuf::unchecked_new("foo/baz.txt".into())),
    );
    assert_eq!(
        AnchoredUnixPath::new("foo")
            .unwrap()
            .join_normalized(&RelativePathBuf::from("../../baz.txt"))
            .is_err(),
        true
    );
    assert_eq!(
        AnchoredUnixPath::new("foo")
            .unwrap()
            .join_normalized(&RelativePathBuf::from("../../x"))
            .err(),
        Some(PathError::PathEscapesRoot)
    );
}

#[test]
fn anchored_join_normalized_with_dot_is_identity() {
    for s in ["", "foo", "foo/bar", "a/b/c.txt"] {
        let p = AnchoredUnixPath::new(s).unwrap();
        assert_eq!(p.join_normalized(&RelativePathBuf::from(".")).unwrap(), p);
    }
}

#[test]
fn anchored_iter_yields_components_in_order() {
    let p = AnchoredUnixPath::new("foo/bar/baz").unwrap();
    let mut it = p.iter();

    assert_eq!(it.next(), Some(FileName::unchecked_new("foo")));
    assert_eq!(it.next(), Some(FileName::unchecked_new("bar")));
    assert_eq!(it.next(), Some(FileName::unchecked_new("baz")));
    assert_eq!(it.next(), None);

    assert_eq!(
        p.file_names(),
        vec![
            FileName::unchecked_new("foo"),
            FileName::unchecked_new("bar"),
            FileName::unchecked_new("baz")
        ]
    );
}

#[test]
fn anchored_conversions_keep_the_path() {
    let f = RelativeForwardUnixPath::new("foo").unwrap();
    assert_eq!(AnchoredUnixPath::from(f), AnchoredUnixPath::new("foo").unwrap());
    assert_eq!(AnchoredUnixPath::from(f).as_forward_relative_path(), f);

    let buf = RelativeForwardUnixPathBuf::new("foo/bar".to_owned()).unwrap();
    let anchored = AnchoredUnixPathBuf::from(buf.clone());
    assert_eq!(anchored.as_str(), "foo/bar");
    assert_eq!(anchored.as_forward_relative_path(), buf.as_path());
    assert_eq!(RelativeForwardUnixPathBuf::from(anchored.clone()), buf);
    assert_eq!(anchored.clone().into_forward_relative_path_buf(), buf);
    assert_eq!(anchored.as_path().to_buf(), anchored);
}

#[test]
fn anchored_buf_push_and_capacity() {
    let mut buf = AnchoredUnixPathBuf::with_capacity(32);
    assert!(buf.capacity() >= 32);
    assert_eq!(buf.as_str(), "");
    buf.push(RelativeForwardUnixPath::new("foo").unwrap());
    buf.push(RelativeForwardUnixPath::new("bar").unwrap());
    assert_eq!(buf.as_str(), "foo/bar");
    assert_eq!(buf.len(), 7);
    buf.reserve(50);
    assert!(buf.capacity() >= 57);
    assert_eq!(buf.as_str(), "foo/bar");
    buf.shrink_to(10);
    assert_eq!(buf.as_str(), "foo/bar");
    buf.shrink_to_fit();
    assert!(buf.capacity() >= 7);
    assert_eq!(buf.as_str(), "foo/bar");
    assert_eq!(buf.push_normalized(&RelativePathBuf::from("../baz")), Ok(()));
    assert_eq!(buf.as_str(), "foo/baz");
    assert_eq!(
        buf.push_normalized(&RelativePathBuf::from("../../..")),
        Err(PathError::PathEscapesRoot)
    );
    assert_eq!(buf.as_str(), "foo/baz");
}

#[test]
fn owned_and_borrowed_hash_alike() {
    let buf = AnchoredUnixPathBuf::try_from("foo/bar".to_owned()).unwrap();
    let path = AnchoredUnixPath::new("foo/bar").unwrap();
    assert_eq!(buf, path);
    assert_eq!(hash_of(&buf), hash_of(&path));
    assert_eq!(hash_of(&buf), hash_of(&buf.as_path()));
    assert_eq!(hash_of(&buf), hash_of(&buf.clone()));

    let rel_buf = RelativeForwardUnixPathBuf::new("foo/bar".to_owned()).unwrap();
    assert_eq!(hash_of(&rel_buf), hash_of(&rel_buf.as_path()));

    let mut cache: HashMap<AnchoredUnixPathBuf, u32> = HashMap::new();
    cache.insert(buf.clone(), 1);
    cache.insert(path.to_buf(), 2);
    assert_eq!(cache.len(), 1);
    assert_eq!(cache.get(&buf), Some(&2));
}

#[test]
fn anchored_try_from_relative_path_buf_validates() {
    assert!(AnchoredUnixPathBuf::try_from(RelativePathBuf::from("foo/bar")).is_ok());
    assert!(AnchoredUnixPathBuf::try_from(RelativePathBuf::from("")).is_ok());
    assert!(AnchoredUnixPathBuf::try_from(RelativePathBuf::from("normalize/./bar")).is_err());
    assert!(AnchoredUnixPathBuf::try_from(RelativePathBuf::from("normalize/../bar")).is_err());
    let rel = RelativePathBuf::from("foo/bar");
    assert_eq!(AnchoredUnixPath::try_from(&rel).unwrap().as_str(), "foo/bar");
    assert!(AnchoredUnixPath::try_from(&RelativePathBuf::from("normalize/./bar")).is_err());
    assert!(AnchoredUnixPath::try_from(&RelativePathBuf::from("normalize/../bar")).is_err());
}

#[test]
fn anchored_try_from_path_buf_validates() {
    assert!(AnchoredUnixPathBuf::try_from(PathBuf::from("foo/bar")).is_ok());
    assert!(AnchoredUnixPathBuf::try_from(PathBuf::from("")).is_ok());
    assert!(AnchoredUnixPathBuf::try_from(PathBuf::from("/abs/bar")).is_err());
    assert!(AnchoredUnixPathBuf::try_from(PathBuf::from("normalize/./bar")).is_err());
    assert!(AnchoredUnixPathBuf::try_from(PathBuf::from("normalize/../bar")).is_err());
}

#[test]
fn anchored_into_relative_path_buf_keeps_the_text() {
    let path = AnchoredUnixPathBuf::try_from("turbo/src".to_owned()).unwrap();
    assert_eq!(RelativePathBuf::from(path), RelativePathBuf::from("turbo/src"));
}
