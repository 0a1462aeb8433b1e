//! Scanning directories in parallel.
//!
//! The library selects the files among the entries of a traversal and maps
//! each chosen path exactly once, through a fan-out and fan-in engine with a
//! bounded pool of workers. It decides and keeps account; it neither reads
//! the file system nor starts a thread. The caller enumerates the entries,
//! and either lets the library run the workers in turn on the calling thread
//! or drives the engine with workers of its own.
//!
//! # Examples
//!
//! On the calling thread:
//!
//! ```
//! use folder::{scan, Entry};
//!
//! let entries = vec![
//!     Entry::Found { path: "src", directory: true },
//!     Entry::Found { path: "src/lib.rs", directory: false },
//!     Entry::Found { path: "src/notes.txt", directory: false },
//!     Entry::Unreadable,
//! ];
//! let filter = |path: &&str| path.ends_with(".rs");
//! let map = |path: &str, _| path.len();
//! let pairs = scan(entries, filter, map, (), None, 4);
//! assert_eq!(pairs, vec![("src/lib.rs", 10)]);
//! ```
//!
//! With workers of the caller:
//!
//! ```
//! use folder::engine::Engine;
//! use folder::model::{Drained, Received};
//!
//! let mut engine: Engine<&str, usize> = Engine::new(Some(2), 4);
//! engine.dispatch("src/lib.rs").unwrap();
//! engine.close();
//! assert_eq!(engine.receive(0), Ok(Received::Task));
//! let outcome = engine.task(0).unwrap().len();
//! engine.complete(0, outcome).unwrap();
//! assert_eq!(engine.drain(), Ok(Drained::Pair("src/lib.rs", 10)));
//! assert_eq!(engine.drain(), Ok(Drained::Done));
//! ```

pub mod asynchronous;
pub mod engine;
pub mod laws;
pub mod lemmas;
pub mod model;
pub mod parallel;
pub mod runs;
pub mod select;
pub mod synchronous;

pub use engine::Engine;
pub use parallel::parallelize;
pub use select::{select, Entry};
pub use synchronous::scan;
