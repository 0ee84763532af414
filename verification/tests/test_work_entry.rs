use coreutilsp::work_entry::{EntryPath, PathComponent, WorkEntryPathExt};

fn path(text: &str) -> EntryPath {
    EntryPath::new(text.to_string())
}

#[test]
fn test_dots() {
    assert!(path("test/..").is_curdir_or_parent());
    assert!(path("..").is_curdir_or_parent());
    assert!(path(".").is_curdir_or_parent());
    assert!(!path("test").is_curdir_or_parent());
    assert!(!path("1").is_curdir_or_parent());
    assert!(!path("1.").is_curdir_or_parent());
    assert!(!path("1..").is_curdir_or_parent());
    assert!(!path("1..txt").is_curdir_or_parent());
    assert!(path("test/..").last_component() == Some(PathComponent::ParentDir));
    assert!(path("..").last_component() == Some(PathComponent::ParentDir));
    assert!(path(".").last_component() == Some(PathComponent::CurDir));
    assert!(path("").last_component() == None);
    assert!(path("test/test.").last_component() != Some(PathComponent::CurDir));
    assert!(path("test/test..").last_component() != Some(PathComponent::ParentDir));
}

#[test]
fn test_is_root() {
    assert_eq!(path("value").is_root(), false);
    assert_eq!(path("../../../../../../../../../../../../../../../../../../..").is_root(), true);
    assert_eq!(path("../../../../../../../../../../../../../../../../../../../").is_root(), true);
    assert_eq!(path("/").is_root(), true);
    assert_eq!(path("/value").is_root(), false);
}

#[test]
fn test_last_component_shapes() {
    assert!(path("/").last_component() == Some(PathComponent::RootDir));
    assert!(path("//").last_component() == Some(PathComponent::RootDir));
    assert!(path("/.").last_component() == Some(PathComponent::RootDir));
    assert!(path("./").last_component() == Some(PathComponent::CurDir));
    assert!(path("././.").last_component() == Some(PathComponent::CurDir));
    assert!(path("a/.").last_component() == Some(PathComponent::Normal));
    assert!(path("a/./.").last_component() == Some(PathComponent::Normal));
    assert!(path("..//.").last_component() == Some(PathComponent::ParentDir));
    assert!(path("/a/b").last_component() == Some(PathComponent::Normal));
    assert!(path("a/b/").last_component() == Some(PathComponent::Normal));
}
