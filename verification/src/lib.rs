//! A memoizing execution engine for build-like workflows.
//!
//! A caller names a computation, declares the facts it depends on, and hands
//! over a body. The body runs only when no earlier run is on record whose
//! declared and discovered facts are all still fresh; otherwise the recorded
//! result is returned.
//!
//! The engine is in `workmap`, `database`, `freshness` and `workcache`;
//! `codec` and `scan` stand between it and the JSON texts of the store.
//! Around it stand the facts about paths and command lines (`context`), and
//! the builders that put command lines together and run them as cached
//! calls (`builders`, `compiler`).

pub mod assoc;
pub mod builders;
pub mod codec;
pub mod compiler;
pub mod context;
pub mod database;
pub mod digest;
pub mod freshness;
pub mod into_future;
pub mod into_path;
pub mod order;
pub mod path_util;
pub mod paths;
pub mod process_builder;
pub mod scan;
pub mod text;
pub mod workcache;
pub mod workmap;
