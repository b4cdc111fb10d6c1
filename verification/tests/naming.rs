use celeris::layout::{
    extract_layouts, Layout, LayoutInfo, LayoutManager, LayoutName, PathState,
};
use celeris::manifest::{Entry, Manifest};
use celeris::paths::DirPath;

fn dir(components: &[&str]) -> DirPath {
    DirPath::new(components.iter().map(|c| c.to_string()).collect())
}

fn test_layout(name: &str) -> Layout {
    Layout::new(LayoutName::try_new(name.to_string()).unwrap())
}

fn layout_manager_with_names(names: Vec<&'static str>) -> LayoutManager {
    LayoutManager::new(names.into_iter().map(test_layout).collect())
}

#[test]
fn storage_path() {
    let layout_mgr = layout_manager_with_names(vec!["aaa", "ccc"]);
    let layouts: Vec<Layout> = [&["test", "aaa"][..], &["test", "dd.d", "bbb"][..]]
        .iter()
        .map(|path| {
            Layout::new(
                LayoutName::try_from_path(&dir(path), PathState::Directory, &layout_mgr)
                    .unwrap(),
            )
        })
        .collect();
    let layout_dir = dir(&["test"]);
    let expected: Vec<Vec<String>> = vec![
        vec!["test".to_string(), "test.aaa.lua".to_string()],
        vec!["test".to_string(), "bbb.lua".to_string()],
    ];
    let got: Vec<Vec<String>> = layouts
        .iter()
        .map(|l| l.storage_path(&layout_dir).components)
        .collect();
    assert_eq!(expected, got);
}

#[test]
fn layout() {
    let layout_manager = layout_manager_with_names(vec!["test"]);
    let layout = layout_manager.layout("test").unwrap();
    assert_eq!(layout.tmux_name(), "test");
    assert!(layout_manager.layout("other").is_none());
}

#[test]
fn core_contains() {
    let layout_manager = layout_manager_with_names(vec!["test1", "test2"]);
    assert_eq!(layout_manager.contains("test1"), true);
    assert_eq!(layout_manager.contains("test2"), true);
}

#[test]
fn remove() {
    let mut layout_manager = layout_manager_with_names(vec!["test"]);
    layout_manager.remove("test").unwrap();
    assert_eq!(layout_manager.contains("test"), false);
    assert!(layout_manager.remove("test").is_err());
}

#[test]
fn core_normal() {
    let mut layout_manager = layout_manager_with_names(Vec::new());
    layout_manager.create(test_layout("test")).unwrap();
    assert_eq!(layout_manager.contains("test"), true);
}

#[test]
fn core_duplicate() {
    let mut layout_manager = layout_manager_with_names(vec!["test"]);
    let result = layout_manager.create(test_layout("test"));
    assert_eq!(result.is_err(), true);
}

#[test]
fn layout_deduce_normal() {
    let layout_manager = layout_manager_with_names(Vec::new());
    let name =
        LayoutName::try_from_path(&dir(&["test", "test"]), PathState::Directory, &layout_manager)
            .unwrap();
    assert_eq!(name.tmux_name(), "test");
}

#[test]
fn core_simple_duplicate() {
    let layout_manager = layout_manager_with_names(vec!["test"]);
    let name =
        LayoutName::try_from_path(&dir(&["test", "test"]), PathState::Directory, &layout_manager)
            .unwrap();
    assert_eq!(name.tmux_name(), "test/test");
}

#[test]
fn core_undeducable_duplicate() {
    let layout_manager = layout_manager_with_names(vec!["test"]);
    let _ = LayoutName::try_from_path(&dir(&["test"]), PathState::Directory, &layout_manager)
        .unwrap_err();
}

#[test]
fn core_multiple() {
    let layout_manager = layout_manager_with_names(vec!["test", "test/test"]);
    let name = LayoutName::try_from_path(
        &dir(&["test", "test", "test"]),
        PathState::Directory,
        &layout_manager,
    )
    .unwrap();
    assert_eq!(name.tmux_name(), "test/test/test");
}

#[test]
fn layout_name_rejects_special_characters() {
    assert!(LayoutName::try_new("plain".to_string()).is_ok());
    for bad in ["a@b", "a$b", "a%b", "a:b", "a.b"] {
        assert!(LayoutName::try_new(bad.to_string()).is_err());
    }
}

#[test]
fn layout_file_rejected_as_source() {
    let layout_manager = layout_manager_with_names(Vec::new());
    let r = LayoutName::try_from_path(&dir(&["a", "b"]), PathState::File, &layout_manager);
    assert!(r.is_err());
}

#[test]
fn storage_name_is_sanitized() {
    // The question mark is allowed in a session name but stripped from the
    // stored file name, so the two names differ.
    let layout = test_layout("a?b");
    assert_eq!(layout.tmux_name(), "a?b");
    assert_eq!(layout.storage_name, "ab");
}

#[test]
fn storage_round_trip() {
    let layout = test_layout("nested/name");
    assert_eq!(layout.storage_name, "nested.name");
    let back = LayoutName::try_from_storage_name("nested.name".to_string()).unwrap();
    assert_eq!(back.tmux_name(), "nested/name");
}

#[test]
fn extract_layouts_from_listing() {
    let infos = vec![
        LayoutInfo::new(dir(&["root", "aaa.lua"]), PathState::File),
        LayoutInfo::new(dir(&["root", "skipped.txt"]), PathState::File),
        LayoutInfo::new(dir(&["root", "somedir"]), PathState::Directory),
        LayoutInfo::new(dir(&["root", "a.b.lua"]), PathState::File),
    ];
    let layouts = extract_layouts(infos).unwrap();
    let names: Vec<&str> = layouts.iter().map(|l| l.tmux_name()).collect();
    assert_eq!(names, vec!["aaa", "a/b"]);
}

fn test_entry(name: &str) -> Entry {
    Entry::new(name.to_string(), DirPath::new(vec![name.to_string()]))
}

fn manifest_with_names(names: Vec<&'static str>) -> Manifest {
    Manifest {
        entries: names.into_iter().map(test_entry).collect(),
    }
}

#[test]
fn entry() {
    let manifest = manifest_with_names(vec!["test"]);
    let entry = manifest.entry("test").unwrap();
    assert_eq!(entry.name(), "test");
    assert!(manifest.entry("other").is_none());
}

#[test]
fn manifest_contains() {
    let manifest = manifest_with_names(vec!["test1", "test2"]);
    assert_eq!(manifest.contains("test1"), true);
    assert_eq!(manifest.contains("test2"), true);
}

#[test]
fn filter_out() {
    let manifest = manifest_with_names(vec!["test"]);
    let manifest = manifest.filter_out("test").unwrap();
    assert_eq!(manifest.contains("test"), false);
}

#[test]
fn manifest_push_normal() {
    let manifest = manifest_with_names(Vec::new());
    let manifest = manifest.extend(test_entry("test")).unwrap();
    assert_eq!(manifest.contains("test"), true);
}

#[test]
fn manifest_push_duplicate() {
    let manifest = manifest_with_names(vec!["test"]);
    let result = manifest.extend(test_entry("test"));
    assert_eq!(result.is_err(), true);
}

#[test]
fn manifest_deduce_normal() {
    let manifest = manifest_with_names(Vec::new());
    let name = manifest.deduce_name(&dir(&["test", "test"])).unwrap();
    assert_eq!(name, "test");
}

#[test]
fn manifest_deduce_simple_duplicate() {
    let manifest = manifest_with_names(vec!["test"]);
    let name = manifest.deduce_name(&dir(&["test", "test"])).unwrap();
    assert_eq!(name, "test/test");
}

#[test]
fn manifest_deduce_undeducable_duplicate() {
    let manifest = manifest_with_names(vec!["test"]);
    let _ = manifest.deduce_name(&dir(&["test"])).unwrap_err();
}

#[test]
fn manifest_deduce_multiple() {
    let manifest = manifest_with_names(vec!["test", "test/test"]);
    let name = manifest.deduce_name(&dir(&["test", "test", "test"])).unwrap();
    assert_eq!(name, "test/test/test");
}

#[test]
fn manifest_entry_script_name() {
    let entry = Entry::new("a/b/c".to_string(), dir(&["srv", "c"]));
    assert_eq!(entry.script_name(), "a_b_c");
    assert_eq!(entry.session_path().components, vec!["srv".to_string(), "c".to_string()]);
}

#[test]
fn manifest_rejects_taken_path() {
    let mut manifest = manifest_with_names(Vec::new());
    manifest = manifest
        .extend(Entry::new("proj".to_string(), dir(&["srv", "proj"])))
        .unwrap();
    let r = manifest.deduce_name(&dir(&["srv", "proj"]));
    assert!(r.is_err());
}
