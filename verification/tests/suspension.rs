use folder::asynchronous::scan;
use folder::engine::Engine;
use folder::model::Action;
use folder::select::Entry;
use futures::executor::block_on;
use futures::future::{BoxFuture, FutureExt};
use futures::stream::{FuturesUnordered, StreamExt};
use std::path::PathBuf;
use walkdir::WalkDir;

fn walk(root: &str) -> Vec<Entry<PathBuf>> {
    WalkDir::new(root)
        .follow_links(true)
        .into_iter()
        .map(|entry| match entry {
            Ok(entry) => Entry::Found {
                directory: entry.file_type().is_dir(),
                path: entry.path().to_owned(),
            },
            Err(_) => Entry::Unreadable,
        })
        .collect()
}

fn drive<O, M>(mut engine: Engine<PathBuf, O>, mut map: M) -> Vec<(PathBuf, O)>
where
    O: Send + 'static,
    M: FnMut(PathBuf) -> BoxFuture<'static, O>,
{
    let mut running: FuturesUnordered<BoxFuture<'static, (usize, O)>> = FuturesUnordered::new();
    let mut pairs = Vec::new();
    loop {
        match engine.schedule() {
            Ok(Action::Run(worker)) => {
                let future = map(engine.task(worker).unwrap().clone());
                running.push(future.map(move |outcome| (worker, outcome)).boxed());
            }
            Ok(Action::Yield(path, outcome)) => pairs.push((path, outcome)),
            Ok(Action::Await) => {
                let (worker, outcome) = block_on(running.next()).unwrap();
                engine.complete(worker, outcome).unwrap();
            }
            Ok(Action::Finish) => return pairs,
            other => panic!("the engine stalled: {}", other.is_ok()),
        }
    }
}

#[test]
fn asynchronous_scan() {
    let filter = |path: &PathBuf| path.ends_with(".rs");
    let map = |path: PathBuf| async move { path.metadata().unwrap().len() }.boxed();
    let fold = |sum, value| sum + value;
    let engine = scan(walk("src"), filter, None, 2);
    let _ = drive(engine, map).into_iter().map(|(_, value)| value).fold(0, fold);
}

#[test]
fn a_suspended_scan_yields_every_chosen_path_once() {
    let filter = |path: &PathBuf| path.extension().map_or(false, |extension| extension == "rs");
    let map = |path: PathBuf| {
        async move { path.metadata().map(|metadata| metadata.len()).ok() }.boxed()
    };
    let engine = scan(walk("src"), filter, Some(3), 1);
    assert_eq!(engine.workers(), 3);
    assert!(!engine.is_open());
    let chosen = engine.queued();
    assert!(chosen >= 2);
    let pairs = drive(engine, map);
    assert_eq!(pairs.len(), chosen);
    let mut paths: Vec<PathBuf> = pairs.iter().map(|pair| pair.0.clone()).collect();
    paths.sort();
    paths.dedup();
    assert_eq!(paths.len(), chosen);
    assert!(pairs.iter().all(|pair| pair.1.is_some()));
    assert!(paths.contains(&PathBuf::from("src").join("lib.rs")));
}

#[test]
fn a_suspended_scan_of_a_missing_root_finishes_at_once() {
    let mut engine: Engine<PathBuf, u64> = scan(walk("no/such/root"), |_: &PathBuf| true, None, 2);
    assert_eq!(engine.queued(), 0);
    assert!(engine.is_finished());
    assert!(matches!(engine.schedule(), Ok(Action::Finish)));
}
