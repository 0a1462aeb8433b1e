use folder::select::Entry;
use folder::scan;
use std::path::PathBuf;
use walkdir::WalkDir;

fn file(path: &str) -> Entry<PathBuf> {
    Entry::Found { path: PathBuf::from(path), directory: false }
}

fn directory(path: &str) -> Entry<PathBuf> {
    Entry::Found { path: PathBuf::from(path), directory: true }
}

fn walk(root: &str) -> Vec<Entry<PathBuf>> {
    WalkDir::new(root)
        .follow_links(true)
        .into_iter()
        .map(|entry| match entry {
            Ok(entry) => Entry::Found {
                directory: entry.file_type().is_dir(),
                path: entry.path().to_owned(),
            },
            Err(_) => Entry::Unreadable,
        })
        .collect()
}

fn is_rust(path: &PathBuf) -> bool {
    path.extension().map_or(false, |extension| extension == "rs")
}

#[test]
fn synchronous_scan() {
    let filter = |path: &PathBuf| path.ends_with(".rs");
    let map = |path: PathBuf, _| path.metadata().unwrap().len();
    let fold = |sum, value| sum + value;
    let _ = scan(walk("src"), filter, map, (), None, 2)
        .into_iter()
        .map(|(_, value)| value)
        .fold(0, fold);
}

#[test]
fn scan_pairs_the_rust_file_with_its_size() {
    let sizes = [("dir/a.rs", 120u64), ("dir/b.txt", 45u64)];
    let sizes = &sizes;
    let entries = vec![directory("dir"), file("dir/a.rs"), file("dir/b.txt")];
    let map = |path: PathBuf, _: ()| {
        sizes.iter().find(|(name, _)| path == PathBuf::from(name)).map(|(_, size)| *size)
    };
    let pairs = scan(entries, is_rust, map, (), Some(2), 1);
    assert_eq!(pairs, vec![(PathBuf::from("dir/a.rs"), Some(120))]);
}

#[test]
fn scan_of_a_real_directory_reports_the_real_sizes() {
    let map = |path: PathBuf, _: ()| path.metadata().map(|metadata| metadata.len()).ok();
    let filter = |path: &PathBuf| path.ends_with("lib.rs");
    let pairs = scan(walk("src"), filter, map, (), Some(3), 1);
    assert_eq!(pairs.len(), 1);
    assert_eq!(pairs[0].0, PathBuf::from("src").join("lib.rs"));
    let expected = WalkDir::new("src")
        .into_iter()
        .filter_map(|entry| entry.ok())
        .find(|entry| entry.file_name() == "lib.rs")
        .and_then(|entry| entry.metadata().ok())
        .map(|metadata| metadata.len());
    assert!(expected.is_some());
    assert!(expected.unwrap() > 0);
    assert_eq!(pairs[0].1, expected);
}

#[test]
fn scan_of_a_real_directory_leaves_out_the_directories() {
    let map = |path: PathBuf, _: ()| path.is_dir();
    let pairs = scan(walk("."), |_: &PathBuf| true, map, (), None, 2);
    assert!(pairs.len() >= 2);
    assert!(pairs.iter().all(|pair| !pair.1));
    assert!(pairs.iter().any(|pair| pair.0.ends_with("src/lib.rs")));
    assert!(pairs.iter().all(|pair| pair.0 != PathBuf::from("./src")));
}

#[test]
fn scan_of_a_missing_root_is_empty() {
    let entries = walk("no/such/root");
    assert!(entries.iter().all(|entry| matches!(entry, Entry::Unreadable)));
    let map = |path: PathBuf, _: ()| path.metadata().map(|metadata| metadata.len()).ok();
    let pairs = scan(entries, |_: &PathBuf| true, map, (), None, 2);
    assert!(pairs.is_empty());
}

#[test]
fn scan_delivers_failures_like_successes() {
    let entries = vec![file("src/lib.rs"), file("no/such/file.rs")];
    let map = |path: PathBuf, _: ()| path.metadata().map(|metadata| metadata.len() > 0);
    let pairs = scan(entries, is_rust, map, (), Some(2), 1);
    let mut pairs: Vec<(PathBuf, Result<bool, String>)> = pairs
        .into_iter()
        .map(|(path, outcome)| (path, outcome.map_err(|_| String::from("unreadable"))))
        .collect();
    pairs.sort();
    assert_eq!(
        pairs,
        vec![
            (PathBuf::from("no/such/file.rs"), Err(String::from("unreadable"))),
            (PathBuf::from("src/lib.rs"), Ok(true)),
        ]
    );
}

#[test]
fn scan_uses_the_context_in_every_invocation() {
    let entries = vec![file("a.rs"), file("b.rs"), file("c.md")];
    let map = |path: PathBuf, prefix: String| format!("{prefix}{}", path.display());
    let mut pairs = scan(entries, is_rust, map, String::from("seen "), Some(8), 1);
    pairs.sort();
    assert_eq!(
        pairs,
        vec![
            (PathBuf::from("a.rs"), String::from("seen a.rs")),
            (PathBuf::from("b.rs"), String::from("seen b.rs")),
        ]
    );
}

#[test]
fn scan_works_on_any_kind_of_path() {
    let entries = vec![
        Entry::Found { path: "src", directory: true },
        Entry::Found { path: "src/lib.rs", directory: false },
        Entry::Found { path: "src/notes.txt", directory: false },
        Entry::Unreadable,
    ];
    let filter = |path: &&str| path.ends_with(".rs");
    let map = |path: &str, _| path.len();
    let pairs = scan(entries, filter, map, (), None, 4);
    assert_eq!(pairs, vec![("src/lib.rs", 10)]);
}

#[test]
fn scan_maps_accepted_paths_only() {
    let entries = vec![
        Entry::Found { path: 5u32, directory: false },
        Entry::Found { path: 500u32, directory: false },
        Entry::Found { path: 7u32, directory: true },
        Entry::Unreadable,
    ];
    let filter = |path: &u32| *path < 100;
    let map = |path: u32, _: ()| {
        assert!(path < 100);
        2 * path
    };
    let pairs = scan(entries, filter, map, (), Some(2), 1);
    assert_eq!(pairs, vec![(5, 10)]);
}

#[test]
fn scan_calls_the_map_once_for_each_accepted_path_with_the_context() {
    let calls: std::cell::RefCell<Vec<(PathBuf, String)>> = std::cell::RefCell::new(Vec::new());
    let calls = &calls;
    let entries = vec![
        directory("root"),
        file("root/a.rs"),
        file("root/b.txt"),
        Entry::Unreadable,
        file("root/c.rs"),
        file("root/a.rs"),
    ];
    let map = |path: PathBuf, context: String| {
        calls.borrow_mut().push((path, context));
    };
    let pairs = scan(entries, is_rust, map, String::from("context"), Some(2), 1);
    assert_eq!(pairs.len(), 3);
    let mut calls = calls.borrow().clone();
    calls.sort();
    assert_eq!(
        calls,
        vec![
            (PathBuf::from("root/a.rs"), String::from("context")),
            (PathBuf::from("root/a.rs"), String::from("context")),
            (PathBuf::from("root/c.rs"), String::from("context")),
        ]
    );
}

#[test]
fn scan_gives_the_same_pairs_whatever_the_number_of_workers() {
    let map = |path: PathBuf, _: ()| path.to_string_lossy().len();
    let mut expected = scan(walk("src"), is_rust, map, (), Some(1), 1);
    expected.sort();
    assert!(expected.len() >= 2);
    for workers in [None, Some(0), Some(2), Some(5), Some(100)] {
        for ambient in [0, 1, 3] {
            let mut pairs = scan(walk("src"), is_rust, map, (), workers, ambient);
            pairs.sort();
            assert_eq!(pairs, expected);
        }
    }
}
