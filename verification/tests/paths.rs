use sit::path::{find_relative_path, TreePath};

fn path_of(parts: &[&str]) -> TreePath {
    TreePath { components: parts.iter().map(|s| s.to_string()).collect() }
}

#[test]
fn relative_path_drops_the_root() {
    let root = path_of(&["/", "srv", "data"]);
    let file = path_of(&["/", "srv", "data", "dir", "b.txt"]);
    let relative = find_relative_path(&root, &file);
    assert_eq!(relative, path_of(&["dir", "b.txt"]));
}

#[test]
fn relative_path_of_the_root_is_empty() {
    let root = path_of(&["/", "srv", "data"]);
    let relative = find_relative_path(&root, &root);
    assert_eq!(relative, TreePath::empty());
    assert_eq!(relative.len(), 0);
}

#[test]
fn starts_with_compares_whole_components() {
    let base = path_of(&["/", "a"]);
    assert!(path_of(&["/", "a", "b"]).starts_with(&base));
    assert!(path_of(&["/", "a"]).starts_with(&base));
    assert!(!path_of(&["/", "ab"]).starts_with(&base));
    assert!(!path_of(&["/"]).starts_with(&base));
    assert!(path_of(&["x"]).starts_with(&TreePath::empty()));
}

#[test]
fn strip_prefix_is_none_outside_the_base() {
    let base = path_of(&["/", "a"]);
    assert_eq!(path_of(&["/", "a", "b", "c"]).strip_prefix(&base), Some(path_of(&["b", "c"])));
    assert_eq!(path_of(&["/", "b", "a"]).strip_prefix(&base), None);
    assert_eq!(path_of(&["/"]).strip_prefix(&base), None);
}

#[test]
fn join_adds_one_component() {
    let base = path_of(&["/", "a"]);
    let name = "b.txt".to_string();
    let joined = base.join(&name);
    assert_eq!(joined, path_of(&["/", "a", "b.txt"]));
    assert_eq!(joined.len(), 3);
    assert_eq!(base, path_of(&["/", "a"]));
}

#[test]
fn same_as_goes_by_components() {
    let a = path_of(&["/", "a", "b"]);
    assert!(a.same_as(&path_of(&["/", "a", "b"])));
    assert!(!a.same_as(&path_of(&["/", "a"])));
    assert!(!a.same_as(&path_of(&["/", "a", "c"])));
    assert!(a.same_as(&a.clone()));
}

#[test]
fn skip_keeps_the_tail() {
    let a = path_of(&["/", "a", "b"]);
    assert_eq!(a.skip(0), a);
    assert_eq!(a.skip(2), path_of(&["b"]));
    assert_eq!(a.skip(3), TreePath::empty());
}
