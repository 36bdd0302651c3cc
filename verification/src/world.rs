//! A model of the outside world that a run acts on: the files of the store,
//! the records of the catalog, and the buffer that a download fills. It
//! states what an action does when it is performed faithfully, so that the
//! course of a run can be reasoned about.

use crate::demo::{oldest_first, DemoView};
use crate::digest::md5_digest;
use crate::migrate::{MigrationView, MigratorView, Phase, Stage};
use crate::protocol::{ActionView, EventView, ListOrder};
use vstd::prelude::*;

verus! {

/// What the catalog records of one demo.
pub struct Record {
    /// The backend that hosts the demo.
    pub backend: Seq<char>,
    /// Where the demo lies on that backend.
    pub path: Seq<char>,
    /// Where the demo is served.
    pub url: Seq<char>,
    /// The hash of the authoritative bytes.
    pub hash: Seq<u8>,
    /// When the demo was made.
    pub time: int,
}

/// The outside world.
pub struct World {
    /// The files of the store, by path.
    pub files: Map<Seq<char>, Seq<u8>>,
    /// The records of the catalog, by demo.
    pub catalog: Map<u32, Record>,
    /// The bytes that the last download brought.
    pub buffer: Seq<u8>,
}

/// The hash of the file at `path`, or `None` where there is none.
pub open spec fn stored_hash(files: Map<Seq<char>, Seq<u8>>, path: Seq<char>) -> Option<Seq<u8>> {
    if files.dom().contains(path) {
        Some(md5_digest(files[path]))
    } else {
        None
    }
}

impl MigratorView {
    /// The record that the catalog holds of `demo` once it is published.
    pub open spec fn record_for(self, demo: DemoView) -> Record {
        Record {
            backend: self.backend,
            path: self.store.path_of(demo.name()),
            url: self.store.url_of(demo.name()),
            hash: demo.hash,
            time: demo.time,
        }
    }
}

impl World {
    /// Whether `demo` is one that the catalog holds, with this hash and
    /// this time.
    pub open spec fn knows(self, demo: DemoView) -> bool {
        &&& self.catalog.dom().contains(demo.id)
        &&& self.catalog[demo.id].hash == demo.hash
        &&& self.catalog[demo.id].time == demo.time
    }

    /// Whether `demo` is one that a listing of `backend` before `before`
    /// may hold.
    pub open spec fn lists(self, demo: DemoView, backend: Seq<char>, before: int) -> bool {
        &&& self.knows(demo)
        &&& self.catalog[demo.id].backend == backend
        &&& demo.time < before
    }

    /// Store and catalog are those of `other`.
    pub open spec fn same_state(self, other: World) -> bool {
        self.files == other.files && self.catalog == other.catalog
    }

    /// Whether `event` and the world `next` are what may come of `action`
    /// when it is performed on this world.
    ///
    /// An action that fails leaves store and catalog as they were: a file is
    /// replaced in one piece or not at all. A download that succeeds has
    /// brought bytes with the hash that the catalog records. Nothing answers
    /// `Finish`.
    pub open spec fn answers(self, action: ActionView, event: EventView, next: World) -> bool {
        if action is Finish {
            false
        } else if event.failure().is_some() {
            next.same_state(self)
        } else {
            match (action, event) {
                (ActionView::List { backend, before, order, page }, EventView::Listed(demos)) => {
                    &&& next == self
                    &&& forall|i: int|
                        0 <= i < demos.len() ==> self.lists(#[trigger] demos[i], backend, before)
                    &&& order == ListOrder::Ascending ==> oldest_first(demos)
                },
                (ActionView::ReadHash { path }, EventView::HashRead(stored)) => {
                    &&& next == self
                    &&& stored == stored_hash(self.files, path)
                },
                (ActionView::Download { id, capacity, budget_secs }, EventView::Downloaded) => {
                    &&& next.same_state(self)
                    &&& self.catalog.dom().contains(id)
                    &&& md5_digest(next.buffer) == self.catalog[id].hash
                },
                (ActionView::Remove { path }, EventView::Removed) => {
                    next == (World { files: self.files.remove(path), ..self })
                },
                (ActionView::Write { path }, EventView::Written) => {
                    next == (World { files: self.files.insert(path, self.buffer), ..self })
                },
                (
                    ActionView::SetUrl { id, backend, path, url, hash, key },
                    EventView::UrlSet,
                ) => {
                    &&& self.catalog.dom().contains(id)
                    &&& next == (World {
                        catalog: self.catalog.insert(
                            id,
                            Record { backend, path, url, hash, time: self.catalog[id].time },
                        ),
                        ..self
                    })
                },
                _ => false,
            }
        }
    }

    /// What a migration can count on in this world, phase by phase: the
    /// catalog holds its demo; once the download is complete the buffer has
    /// the demo's hash; once the copy is verified the stored file has it;
    /// once the demo is published the catalog points at the stored file.
    pub open spec fn supports(self, migrator: MigratorView, migration: MigrationView) -> bool {
        let demo = migration.demo;
        let path = migrator.store.path_of(demo.name());
        &&& self.knows(demo)
        &&& migration.wf()
        &&& match migration.phase {
            Phase::Refetching(Stage::Removing) | Phase::Refetching(Stage::Writing) => md5_digest(
                self.buffer,
            ) == demo.hash,
            Phase::Verified => stored_hash(self.files, path) == Some(demo.hash),
            Phase::Published => {
                &&& stored_hash(self.files, path) == Some(demo.hash)
                &&& self.catalog[demo.id] == migrator.record_for(demo)
            },
            _ => true,
        }
    }
}

/// A faithful answer keeps what a migration counts on.
pub proof fn lemma_step_keeps_support(
    migrator: MigratorView,
    migration: MigrationView,
    world: World,
    event: EventView,
    next: World,
)
    requires
        world.supports(migrator, migration),
        world.answers(migrator.action_for(migration), event, next),
    ensures
        next.supports(migrator, migration.after(event)),
{
}

} // verus!
