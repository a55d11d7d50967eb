use scaffold::discover::file_paths;
use scaffold::handoff::Requests;
use scaffold::path::{join, relative_name};
use scaffold::scan::{
    check_root, descends, prefixed, scan_error, EntryKind, IoFailure, Listed, ScanError, Scanned,
};
use scaffold::settings::Settings;
use scaffold::tree::Kind;

fn path(names: &[&str]) -> Vec<String> {
    names.iter().map(|n| n.to_string()).collect()
}

#[test]
fn root_must_exist_be_a_directory_and_be_readable() {
    assert_eq!(check_root(true, true, true), Ok(()));
    assert_eq!(check_root(false, false, false), Err(ScanError::NotFound));
    assert_eq!(check_root(false, true, true), Err(ScanError::NotFound));
    assert_eq!(check_root(true, false, true), Err(ScanError::NotADirectory));
    assert_eq!(check_root(true, false, false), Err(ScanError::NotADirectory));
    assert_eq!(check_root(true, true, false), Err(ScanError::PermissionDenied));
}

#[test]
fn the_walk_goes_into_directories_only() {
    assert!(descends(EntryKind::Directory));
    assert!(!descends(EntryKind::File));
    assert!(!descends(EntryKind::Symlink));
    assert!(!descends(EntryKind::Other));
}

#[test]
fn entries_keep_the_order_of_the_listing() {
    let mut scan = Scanned::begin("root".to_string());
    assert!(scan.accept(Listed::Leaf { name: "z".to_string() }));
    assert!(scan.accept(Listed::Subtree { scan: Scanned::begin("m".to_string()) }));
    assert!(scan.accept(Listed::Leaf { name: "a".to_string() }));
    let dir = scan.dir();
    assert_eq!(dir.name(), "root");
    assert_eq!(dir.len(), 3);
    assert_eq!(dir.get(0).map(|i| i.name().clone()), Some("z".to_string()));
    assert_eq!(dir.get(1).map(|i| i.name().clone()), Some("m".to_string()));
    assert_eq!(dir.get(1).map(|i| i.kind()), Some(Kind::Directory));
    assert_eq!(dir.get(2).map(|i| i.name().clone()), Some("a".to_string()));
    assert!(scan.warnings().is_empty());
}

#[test]
fn an_unreadable_entry_is_left_out_with_a_warning() {
    let mut scan = Scanned::begin("root".to_string());
    assert!(scan.accept(Listed::Leaf { name: "a".to_string() }));
    assert!(scan.accept(Listed::Unreadable {
        name: "locked".to_string(),
        error: ScanError::PermissionDenied,
    }));
    assert_eq!(scan.dir().len(), 1);
    assert_eq!(scan.warnings().len(), 1);
    assert_eq!(scan.warnings()[0].path, path(&["locked"]));
    assert_eq!(scan.warnings()[0].error, ScanError::PermissionDenied);
}

#[test]
fn warnings_of_a_subtree_come_up_under_its_name() {
    let mut inner = Scanned::begin("inner".to_string());
    assert!(inner.accept(Listed::Unreadable {
        name: "secret".to_string(),
        error: ScanError::PermissionDenied,
    }));
    let mut middle = Scanned::begin("middle".to_string());
    assert!(middle.accept(Listed::Unreadable {
        name: "gone".to_string(),
        error: ScanError::NotFound,
    }));
    assert!(middle.accept(Listed::Subtree { scan: inner }));
    let mut root = Scanned::begin("root".to_string());
    assert!(root.accept(Listed::Unreadable {
        name: "first".to_string(),
        error: ScanError::PermissionDenied,
    }));
    assert!(root.accept(Listed::Subtree { scan: middle }));
    let found: Vec<(Vec<String>, ScanError)> =
        root.warnings().iter().map(|w| (w.path.clone(), w.error)).collect();
    assert_eq!(
        found,
        vec![
            (path(&["first"]), ScanError::PermissionDenied),
            (path(&["middle", "gone"]), ScanError::NotFound),
            (path(&["middle", "inner", "secret"]), ScanError::PermissionDenied),
        ]
    );
    assert_eq!(root.dir().kind_at(&path(&["middle", "inner"])), Some(Kind::Directory));
    let dir = root.into_dir();
    assert_eq!(dir.len(), 1);
}

#[test]
fn a_name_that_is_taken_is_left_out() {
    let mut scan = Scanned::begin("root".to_string());
    assert!(scan.accept(Listed::Leaf { name: "a".to_string() }));
    assert!(!scan.accept(Listed::Leaf { name: "a".to_string() }));
    let mut twin = Scanned::begin("a".to_string());
    assert!(twin.accept(Listed::Unreadable {
        name: "x".to_string(),
        error: ScanError::PermissionDenied,
    }));
    assert!(!scan.accept(Listed::Subtree { scan: twin }));
    assert_eq!(scan.dir().len(), 1);
    assert_eq!(scan.dir().kind_at(&path(&["a"])), Some(Kind::File));
    assert!(scan.warnings().is_empty());
}

#[test]
fn prefixed_puts_the_name_in_front() {
    assert_eq!(prefixed(&"a".to_string(), &path(&["b", "c"])), path(&["a", "b", "c"]));
    assert_eq!(prefixed(&"a".to_string(), &path(&[])), path(&["a"]));
}

#[test]
fn settings_start_light_and_toggle() {
    let mut settings = Settings::default();
    assert!(settings.use_light_mode);
    settings.toggle_theme();
    assert!(!settings.use_light_mode);
    settings.toggle_theme();
    assert!(settings.use_light_mode);
}

#[test]
fn file_paths_lists_every_file_in_walk_order() {
    let mut inner = Scanned::begin("b".to_string());
    assert!(inner.accept(Listed::Leaf { name: "two.tera".to_string() }));
    assert!(inner.accept(Listed::Subtree { scan: Scanned::begin("empty".to_string()) }));
    let mut root = Scanned::begin("root".to_string());
    assert!(root.accept(Listed::Leaf { name: "one".to_string() }));
    assert!(root.accept(Listed::Subtree { scan: inner }));
    assert!(root.accept(Listed::Leaf { name: "three".to_string() }));
    let paths = file_paths(root.dir());
    assert_eq!(paths, vec![path(&["one"]), path(&["b", "two.tera"]), path(&["three"])]);
    let names: Vec<String> = paths.iter().map(|p| relative_name(p)).collect();
    assert_eq!(names, vec!["one", "b/two.tera", "three"]);
    assert!(file_paths(Scanned::begin("x".to_string()).dir()).is_empty());
}

#[test]
fn join_puts_the_separator_between() {
    assert_eq!(join(&path(&[]), ", "), "");
    assert_eq!(join(&path(&["a"]), ", "), "a");
    assert_eq!(join(&path(&["a", "b", "c"]), ", "), "a, b, c");
    assert_eq!(relative_name(&path(&["src", "app", "ui.rs"])), "src/app/ui.rs");
    assert_eq!(relative_name(&path(&[])), "");
}

#[test]
fn only_the_newest_request_is_current() {
    let mut requests = Requests::new();
    assert!(!requests.is_current(0));
    let first = requests.issue();
    assert_eq!(first, Some(1));
    assert!(requests.is_current(1));
    let second = requests.issue();
    assert_eq!(second, Some(2));
    assert!(!requests.is_current(1));
    assert!(requests.is_current(2));
    assert!(!requests.is_current(3));
    assert!(!requests.is_current(0));
}

#[test]
fn every_failure_has_its_scan_error() {
    assert_eq!(scan_error(IoFailure::NotFound), ScanError::NotFound);
    assert_eq!(scan_error(IoFailure::NotADirectory), ScanError::NotADirectory);
    assert_eq!(scan_error(IoFailure::PermissionDenied), ScanError::PermissionDenied);
    assert_eq!(scan_error(IoFailure::Other), ScanError::PermissionDenied);
}
