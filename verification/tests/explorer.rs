use scaffold::demo::demo;
use scaffold::explorer::{install_step, DirExplorer, InstallStep, SelectionError, VisibleRow};
use scaffold::path::{child_path, clone_path, same_path};
use scaffold::tree::{Dir, Item, Kind};

fn path(names: &[&str]) -> Vec<String> {
    names.iter().map(|n| n.to_string()).collect()
}

fn file(name: &str) -> Item {
    Item::File { name: name.to_string() }
}

fn dir(name: &str, items: Vec<Item>) -> Dir {
    let mut d = Dir::new(name.to_string());
    for item in items {
        assert!(d.push(item));
    }
    d
}

fn sample() -> Dir {
    dir(
        "project",
        vec![
            file("readme.md"),
            Item::Dir {
                value: dir(
                    "src",
                    vec![file("main.rs"), Item::Dir { value: dir("app", vec![file("ui.rs")]) }],
                ),
            },
            Item::Dir { value: dir("docs", vec![]) },
        ],
    )
}

fn shown(rows: &Vec<VisibleRow>) -> Vec<(String, usize)> {
    rows.iter().map(|r| (r.path.join("/"), r.depth)).collect()
}

#[test]
fn fresh_tree_shows_root_and_direct_children_only() {
    let explorer = DirExplorer::new(sample());
    let rows = explorer.visible_sequence();
    assert_eq!(
        shown(&rows),
        vec![
            ("".to_string(), 0),
            ("readme.md".to_string(), 1),
            ("src".to_string(), 1),
            ("docs".to_string(), 1),
        ]
    );
    assert_eq!(rows[0].name, "project");
    assert_eq!(rows[0].kind, Kind::Directory);
    assert_eq!(rows[1].name, "readme.md");
    assert_eq!(rows[1].kind, Kind::File);
    assert_eq!(rows[2].kind, Kind::Directory);
}

#[test]
fn expanding_shows_the_entries_in_pre_order() {
    let mut explorer = DirExplorer::new(sample());
    explorer.toggle_expand(&path(&["src"]));
    assert_eq!(
        shown(&explorer.visible_sequence()),
        vec![
            ("".to_string(), 0),
            ("readme.md".to_string(), 1),
            ("src".to_string(), 1),
            ("src/main.rs".to_string(), 2),
            ("src/app".to_string(), 2),
            ("docs".to_string(), 1),
        ]
    );
    explorer.toggle_expand(&path(&["src", "app"]));
    let rows = explorer.visible_sequence();
    assert_eq!(rows.len(), 7);
    assert_eq!(rows[5].path, path(&["src", "app", "ui.rs"]));
    assert_eq!(rows[5].depth, 3);
    assert_eq!(rows[5].name, "ui.rs");
}

#[test]
fn an_open_directory_below_a_closed_one_stays_hidden() {
    let mut explorer = DirExplorer::new(sample());
    explorer.toggle_expand(&path(&["src", "app"]));
    assert!(explorer.is_expanded(&path(&["src", "app"])));
    assert_eq!(explorer.visible_sequence().len(), 4);
}

#[test]
fn collapsing_the_root_leaves_the_root_alone() {
    let mut explorer = DirExplorer::new(sample());
    explorer.toggle_expand(&path(&[]));
    assert_eq!(shown(&explorer.visible_sequence()), vec![("".to_string(), 0)]);
    assert!(!explorer.is_expanded(&path(&[])));
}

#[test]
fn toggling_twice_restores_the_state() {
    let mut explorer = DirExplorer::new(sample());
    explorer.toggle_expand(&path(&["src"]));
    assert!(explorer.is_expanded(&path(&["src"])));
    explorer.toggle_expand(&path(&["src"]));
    assert!(!explorer.is_expanded(&path(&["src"])));
    assert_eq!(explorer.expanded().len(), 1);
}

#[test]
fn toggling_what_is_no_directory_is_ignored() {
    let mut explorer = DirExplorer::new(sample());
    explorer.toggle_expand(&path(&["readme.md"]));
    explorer.toggle_expand(&path(&["missing"]));
    explorer.toggle_expand(&path(&["src", "main.rs", "deeper"]));
    assert_eq!(explorer.expanded().len(), 1);
    assert!(!explorer.is_expanded(&path(&["readme.md"])));
    assert!(!explorer.is_expanded(&path(&["missing"])));
}

#[test]
fn selecting_a_file_sets_the_selection() {
    let mut explorer = DirExplorer::new(sample());
    assert!(explorer.selected().is_none());
    assert_eq!(explorer.select(&path(&["src", "main.rs"])), Ok(()));
    assert_eq!(explorer.selected(), Some(&path(&["src", "main.rs"])));
    assert_eq!(explorer.select(&path(&["readme.md"])), Ok(()));
    assert_eq!(explorer.selected(), Some(&path(&["readme.md"])));
}

#[test]
fn selecting_a_directory_is_refused_and_changes_nothing() {
    let mut explorer = DirExplorer::new(sample());
    assert_eq!(explorer.select(&path(&["readme.md"])), Ok(()));
    assert_eq!(explorer.select(&path(&["src"])), Err(SelectionError::NotAFile));
    assert_eq!(explorer.selected(), Some(&path(&["readme.md"])));
    assert_eq!(explorer.select(&path(&[])), Err(SelectionError::NotAFile));
    assert_eq!(explorer.select(&path(&["nowhere"])), Err(SelectionError::NotAFile));
    assert_eq!(explorer.selected(), Some(&path(&["readme.md"])));
}

#[test]
fn rescan_keeps_what_is_still_there() {
    let mut explorer = DirExplorer::new(sample());
    explorer.toggle_expand(&path(&["src"]));
    assert_eq!(explorer.select(&path(&["src", "main.rs"])), Ok(()));
    let fresh = dir(
        "project",
        vec![
            file("new.txt"),
            Item::Dir { value: dir("src", vec![file("lib.rs"), file("main.rs")]) },
        ],
    );
    explorer.rescan(fresh);
    assert!(explorer.is_expanded(&path(&["src"])));
    assert!(explorer.is_expanded(&path(&[])));
    assert_eq!(explorer.selected(), Some(&path(&["src", "main.rs"])));
    assert_eq!(explorer.root().len(), 2);
}

#[test]
fn rescan_drops_what_is_gone() {
    let mut explorer = DirExplorer::new(sample());
    explorer.toggle_expand(&path(&["src"]));
    explorer.toggle_expand(&path(&["docs"]));
    assert_eq!(explorer.select(&path(&["src", "main.rs"])), Ok(()));
    let fresh = dir("project", vec![file("readme.md"), Item::Dir { value: dir("docs", vec![]) }]);
    explorer.rescan(fresh);
    assert!(explorer.selected().is_none());
    assert!(!explorer.is_expanded(&path(&["src"])));
    assert!(explorer.is_expanded(&path(&["docs"])));
    assert_eq!(explorer.expanded().len(), 2);
}

#[test]
fn rescan_drops_a_selection_that_became_a_directory() {
    let mut explorer = DirExplorer::new(sample());
    assert_eq!(explorer.select(&path(&["readme.md"])), Ok(()));
    explorer.toggle_expand(&path(&["docs"]));
    let fresh = dir(
        "project",
        vec![Item::Dir { value: dir("readme.md", vec![]) }, file("docs")],
    );
    explorer.rescan(fresh);
    assert!(explorer.selected().is_none());
    assert!(!explorer.is_expanded(&path(&["docs"])));
}

#[test]
fn replace_tree_opens_only_the_root() {
    let mut explorer = DirExplorer::new(sample());
    explorer.toggle_expand(&path(&["src"]));
    assert_eq!(explorer.select(&path(&["readme.md"])), Ok(()));
    explorer.replace_tree(sample());
    assert_eq!(explorer.expanded(), &vec![path(&[])]);
    assert_eq!(explorer.selected(), Some(&path(&["readme.md"])));
    assert_eq!(explorer.visible_sequence().len(), 4);
    explorer.replace_tree(dir("other", vec![file("a")]));
    assert!(explorer.selected().is_none());
    assert_eq!(explorer.root().name(), "other");
}

#[test]
fn restore_keeps_each_fitting_path_once() {
    let explorer = DirExplorer::restore(
        sample(),
        vec![path(&["src"]), path(&["gone"]), path(&["src"]), path(&["readme.md"]), path(&[])],
        Some(path(&["src", "app", "ui.rs"])),
    );
    assert_eq!(explorer.expanded(), &vec![path(&["src"]), path(&[])]);
    assert_eq!(explorer.selected(), Some(&path(&["src", "app", "ui.rs"])));
    let other = DirExplorer::restore(sample(), vec![], Some(path(&["src"])));
    assert!(other.selected().is_none());
    assert_eq!(shown(&other.visible_sequence()), vec![("".to_string(), 0)]);
}

#[test]
fn default_explorer_shows_an_empty_root() {
    let explorer = DirExplorer::default();
    let rows = explorer.visible_sequence();
    assert_eq!(rows.len(), 1);
    assert_eq!(rows[0].name, "");
    assert_eq!(rows[0].depth, 0);
}

#[test]
fn demo_tree_is_as_drawn() {
    let mut explorer = demo();
    let names: Vec<String> = explorer.visible_sequence().into_iter().map(|r| r.name).collect();
    assert_eq!(names, vec!["root_kek", "lil_1", "lil_2", "lil_3", "kek_1"]);
    explorer.toggle_expand(&path(&["kek_1"]));
    explorer.toggle_expand(&path(&["kek_1", "kek_2"]));
    explorer.toggle_expand(&path(&["kek_1", "kek_3"]));
    let names: Vec<String> = explorer.visible_sequence().into_iter().map(|r| r.name).collect();
    assert_eq!(
        names,
        vec![
            "root_kek", "lil_1", "lil_2", "lil_3", "kek_1", "kek_2", "lil_1", "lil_2", "kek_3",
            "lil_1"
        ]
    );
}

#[test]
fn a_directory_takes_each_name_once() {
    let mut d = Dir::new("d".to_string());
    assert!(d.push(file("a")));
    assert!(d.push(Item::Dir { value: Dir::new("b".to_string()) }));
    assert!(!d.push(file("b")));
    assert!(!d.push(Item::Dir { value: Dir::new("a".to_string()) }));
    assert_eq!(d.len(), 2);
    assert_eq!(d.position(&"a".to_string()), Some(0));
    assert_eq!(d.position(&"b".to_string()), Some(1));
    assert_eq!(d.position(&"c".to_string()), None);
    assert_eq!(d.get(0).map(|i| i.name().clone()), Some("a".to_string()));
    assert_eq!(d.get(1).map(|i| i.kind()), Some(Kind::Directory));
    assert!(d.get(2).is_none());
    assert_eq!(d.children().len(), 2);
}

#[test]
fn kind_at_follows_the_names() {
    let d = sample();
    assert_eq!(d.kind_at(&path(&[])), Some(Kind::Directory));
    assert_eq!(d.kind_at(&path(&["readme.md"])), Some(Kind::File));
    assert_eq!(d.kind_at(&path(&["src"])), Some(Kind::Directory));
    assert_eq!(d.kind_at(&path(&["src", "app", "ui.rs"])), Some(Kind::File));
    assert_eq!(d.kind_at(&path(&["src", "app", "ui.rs", "x"])), None);
    assert_eq!(d.kind_at(&path(&["readme.md", "x"])), None);
    assert_eq!(d.kind_at(&path(&["app"])), None);
}

#[test]
fn default_directory_is_empty() {
    let d = Dir::default();
    assert_eq!(d.name(), "");
    assert_eq!(d.len(), 0);
}

#[test]
fn path_helpers() {
    let p = path(&["a", "b"]);
    assert_eq!(clone_path(&p), p);
    assert!(same_path(&p, &path(&["a", "b"])));
    assert!(!same_path(&p, &path(&["a"])));
    assert!(!same_path(&p, &path(&["a", "c"])));
    assert!(same_path(&path(&[]), &path(&[])));
    assert_eq!(child_path(&p, &"c".to_string()), path(&["a", "b", "c"]));
}

#[test]
fn a_scan_is_taken_in_by_what_is_on_display() {
    let a = "a".to_string();
    let b = "b".to_string();
    assert_eq!(install_step(None, &a), InstallStep::Restore);
    assert_eq!(install_step(Some(&a), &a), InstallStep::Rescan);
    assert_eq!(install_step(Some(&b), &a), InstallStep::Replace);
}

#[test]
fn install_restores_rescans_or_replaces() {
    let saved = vec![path(&["src"]), path(&["gone"])];
    let mut explorer = DirExplorer::default();
    explorer.install(InstallStep::Restore, sample(), saved, Some(path(&["readme.md"])));
    assert_eq!(explorer.expanded(), &vec![path(&["src"])]);
    assert_eq!(explorer.selected(), Some(&path(&["readme.md"])));
    explorer.install(InstallStep::Rescan, sample(), vec![path(&["docs"])], None);
    assert_eq!(explorer.expanded(), &vec![path(&["src"])]);
    assert_eq!(explorer.selected(), Some(&path(&["readme.md"])));
    explorer.install(InstallStep::Replace, sample(), vec![path(&["docs"])], None);
    assert_eq!(explorer.expanded(), &vec![path(&[])]);
    assert_eq!(explorer.selected(), Some(&path(&["readme.md"])));
}
