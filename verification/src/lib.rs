//! Migration of demo recordings from one storage backend to another.
//!
//! The crate holds the decisions of the migration: how a demo is named in the
//! store, when its local copy has to be fetched again, in which order the
//! store and the catalog are touched, and when a run ends. Every effect on
//! the outside world is described by an [`Action`] that the caller performs
//! and answers with an [`Event`]:
//!
//! 1. [`Migrator::migrate_till`] begins a [`Run`];
//! 2. [`Migrator::run_action`] says what the run waits for;
//! 3. the caller does that and hands what came of it to [`Run::advance`];
//! 4. and so on, until the action is [`Action::Finish`].
//!
//! The module `world` models the store and the catalog; `laws` and
//! `run_laws` prove what every such course comes to. The module `files`
//! models one file of the store under a writer and a reader.

pub mod demo;
pub mod digest;
pub mod error;
pub mod files;
pub mod laws;
pub mod migrate;
pub mod name;
pub mod protocol;
pub mod run;
pub mod run_laws;
pub mod store;
pub mod world;

pub use demo::{buffer_hint, cutoff, listed_before, listed_oldest_first, Demo, Timestamp};
pub use digest::{digest_chunks, digest_of, same_digest, Digest, Hasher};
pub use error::Error;
pub use files::MemoryFile;
pub use migrate::{needs_refetch, Migration, Migrator, Phase, Stage};
pub use name::name_of;
pub use protocol::{Action, Event, ListOrder, DOWNLOAD_BUDGET_SECS, FIRST_PAGE};
pub use run::Run;
pub use store::Store;
