use folder::select;
use folder::select::Entry;
use std::path::PathBuf;

fn file(path: &str) -> Entry<PathBuf> {
    Entry::Found { path: PathBuf::from(path), directory: false }
}

fn directory(path: &str) -> Entry<PathBuf> {
    Entry::Found { path: PathBuf::from(path), directory: true }
}

fn is_rust(path: &PathBuf) -> bool {
    path.extension().map_or(false, |extension| extension == "rs")
}

#[test]
fn select_keeps_the_accepted_files_in_order() {
    let entries = vec![
        directory("root"),
        file("root/b.rs"),
        file("root/notes.txt"),
        Entry::Unreadable,
        directory("root/sub"),
        file("root/sub/a.rs"),
        file("root/sub/c.rs"),
    ];
    let paths = select(entries, is_rust);
    assert_eq!(
        paths,
        vec![
            PathBuf::from("root/b.rs"),
            PathBuf::from("root/sub/a.rs"),
            PathBuf::from("root/sub/c.rs"),
        ]
    );
}

#[test]
fn select_asks_the_filter_about_files_only_and_in_order() {
    let entries = vec![
        directory("root"),
        file("root/one"),
        Entry::Unreadable,
        directory("root/two.rs"),
        file("root/three"),
        Entry::Unreadable,
        file("root/four"),
    ];
    let mut asked: Vec<PathBuf> = Vec::new();
    let paths = select(entries, |path: &PathBuf| {
        asked.push(path.clone());
        asked.len() % 2 == 1
    });
    assert_eq!(
        asked,
        vec![PathBuf::from("root/one"), PathBuf::from("root/three"), PathBuf::from("root/four")]
    );
    assert_eq!(paths, vec![PathBuf::from("root/one"), PathBuf::from("root/four")]);
}

#[test]
fn select_of_nothing_is_nothing() {
    let entries: Vec<Entry<PathBuf>> = Vec::new();
    assert!(select(entries, |_: &PathBuf| true).is_empty());
    let entries = vec![Entry::Unreadable, directory("root"), Entry::Unreadable];
    assert!(select(entries, |_: &PathBuf| true).is_empty());
    let entries = vec![file("a"), file("b")];
    assert!(select(entries, |_: &PathBuf| false).is_empty());
}
