//! The migration of one demo: check the stored copy, fetch it again where it
//! is missing or wrong, then publish the new location.

use crate::demo::{buffer_hint, buffer_hint_of, Demo, DemoView};
use crate::digest::{digest_view, same_digest, Digest};
use crate::error::{Error, ErrorView};
use crate::protocol::{Action, ActionView, Event, EventView, DOWNLOAD_BUDGET_SECS};
use crate::store::{Store, StoreView};
use vstd::pervasive::unreached;
use vstd::prelude::*;

verus! {

/// How far a demo is fetched again.
#[derive(Clone, Copy, Debug, PartialEq, Eq, Structural)]
pub enum Stage {
    /// Its bytes are being downloaded into memory.
    Downloading,
    /// The download is complete; the old file is being removed.
    Removing,
    /// The old file is gone; the new one is being written.
    Writing,
}

/// Where the migration of one demo stands.
#[derive(Clone, Copy, Debug, PartialEq, Eq, Structural)]
pub enum Phase {
    /// Nothing is known of the stored copy yet.
    Unknown,
    /// The stored copy is missing or wrong and is fetched again.
    Refetching(Stage),
    /// The stored copy has the demo's hash; the catalog is being told.
    Verified,
    /// The catalog has the new location. Nothing is left to do.
    Published,
    /// An error ended the migration. Nothing more is done.
    Aborted,
}

/// Whether a demo has to be fetched again: its stored copy is missing, or
/// has another hash than the catalog records.
pub fn needs_refetch(stored: &Option<Digest>, expected: &Digest) -> (refetch: bool)
    ensures
        refetch == (digest_view(*stored) != Some(expected@)),
{
    match stored {
        Some(hash) => !same_digest(hash, expected),
        None => true,
    }
}

/// The migration of one demo, as far as it has come.
pub struct Migration {
    demo: Demo,
    name: String,
    phase: Phase,
    failure: Option<Error>,
}

/// A [`Migration`] as mathematics sees it.
pub struct MigrationView {
    pub demo: DemoView,
    pub phase: Phase,
    pub failure: Option<ErrorView>,
}

/// The error that a migration ended with, as mathematics sees it.
pub open spec fn failure_view(failure: Option<Error>) -> Option<ErrorView> {
    match failure {
        Some(error) => Some(error@),
        None => None,
    }
}

impl View for Migration {
    type V = MigrationView;

    closed spec fn view(&self) -> MigrationView {
        MigrationView { demo: self.demo@, phase: self.phase, failure: failure_view(self.failure) }
    }
}

impl MigrationView {
    /// The migration of `demo` before anything was done.
    pub open spec fn start(demo: DemoView) -> MigrationView {
        MigrationView { demo, phase: Phase::Unknown, failure: None }
    }

    /// An error is recorded exactly where the migration was aborted.
    pub open spec fn wf(self) -> bool {
        (self.phase is Aborted) == self.failure.is_some()
    }

    /// Whether nothing is left to do, for better or worse.
    pub open spec fn settled(self) -> bool {
        self.phase is Published || self.phase is Aborted
    }

    /// The phase that follows when `event` reports that the action of this
    /// phase went well. An event that does not answer that action changes
    /// nothing.
    pub open spec fn next_phase(self, event: EventView) -> Phase {
        match (self.phase, event) {
            (Phase::Unknown, EventView::HashRead(stored)) => if stored == Some(self.demo.hash) {
                Phase::Verified
            } else {
                Phase::Refetching(Stage::Downloading)
            },
            (Phase::Refetching(Stage::Downloading), EventView::Downloaded) => Phase::Refetching(
                Stage::Removing,
            ),
            (Phase::Refetching(Stage::Removing), EventView::Removed) => Phase::Refetching(
                Stage::Writing,
            ),
            (Phase::Refetching(Stage::Writing), EventView::Written) => Phase::Verified,
            (Phase::Verified, EventView::UrlSet) => Phase::Published,
            (phase, _) => phase,
        }
    }

    /// The migration after `event`. A settled migration stays as it is; an
    /// event that reports an error aborts any other.
    pub open spec fn after(self, event: EventView) -> MigrationView {
        if self.settled() {
            self
        } else if event.failure().is_some() {
            MigrationView { demo: self.demo, phase: Phase::Aborted, failure: event.failure() }
        } else {
            MigrationView { demo: self.demo, phase: self.next_phase(event), failure: self.failure }
        }
    }
}

impl Migration {
    /// The migration of `demo` before anything was done.
    pub fn start(demo: &Demo) -> (migration: Migration)
        ensures
            migration@ == MigrationView::start(demo@),
            migration@.wf(),
    {
        Migration { demo: demo.clone(), name: demo.name(), phase: Phase::Unknown, failure: None }
    }

    #[verifier::type_invariant]
    spec fn inv(self) -> bool {
        &&& self.name@ == self.demo@.name()
        &&& (self.phase is Aborted) == self.failure.is_some()
    }

    /// Where the migration stands.
    pub fn phase(&self) -> (phase: Phase)
        ensures
            phase == self@.phase,
    {
        self.phase
    }

    /// The demo that is migrated.
    pub fn demo(&self) -> (demo: &Demo)
        ensures
            demo@ == self@.demo,
    {
        &self.demo
    }

    /// The name under which the demo is stored.
    pub fn name(&self) -> (name: &str)
        ensures
            name@ == self@.demo.name(),
    {
        proof {
            use_type_invariant(self);
        }
        self.name.as_str()
    }

    /// Whether nothing is left to do, for better or worse.
    pub fn is_settled(&self) -> (settled: bool)
        ensures
            settled == self@.settled(),
    {
        match self.phase {
            Phase::Published => true,
            Phase::Aborted => true,
            _ => false,
        }
    }

    /// The error that ended the migration, if one did.
    pub fn into_failure(self) -> (failure: Option<Error>)
        ensures
            failure_view(failure) == self@.failure,
    {
        self.failure
    }

    /// The migration after `event` has answered its last action.
    pub fn advance(self, event: Event) -> (next: Migration)
        ensures
            next@ == self@.after(event@),
            next@.wf(),
    {
        proof {
            use_type_invariant(&self);
        }
        if self.is_settled() {
            return self;
        }
        if let Some(error) = event.failure() {
            return Migration {
                demo: self.demo,
                name: self.name,
                phase: Phase::Aborted,
                failure: Some(error),
            };
        }
        let phase = match (self.phase, &event) {
            (Phase::Unknown, Event::HashRead(stored)) => if needs_refetch(stored, &self.demo.hash) {
                Phase::Refetching(Stage::Downloading)
            } else {
                Phase::Verified
            },
            (Phase::Refetching(Stage::Downloading), Event::Downloaded) => Phase::Refetching(
                Stage::Removing,
            ),
            (Phase::Refetching(Stage::Removing), Event::Removed) => Phase::Refetching(
                Stage::Writing,
            ),
            (Phase::Refetching(Stage::Writing), Event::Written) => Phase::Verified,
            (Phase::Verified, Event::UrlSet) => Phase::Published,
            (phase, _) => phase,
        };
        Migration { demo: self.demo, name: self.name, phase, failure: self.failure }
    }
}

/// `demostf_client::ApiClient`, the client of the catalog. Nothing is known
/// of it here: a migrator carries it to the caller, who makes the calls.
#[verifier::external_type_specification]
#[verifier::external_body]
pub struct ExApiClient(demostf_client::ApiClient);

/// Drives demos from a source backend to the store of the destination
/// backend. It decides; its caller acts.
pub struct Migrator {
    store: Store,
    client: demostf_client::ApiClient,
    backend: String,
    key: String,
}

/// What a [`Migrator`] decides by.
pub struct MigratorView {
    pub store: StoreView,
    pub backend: Seq<char>,
    pub key: Seq<char>,
}

impl View for Migrator {
    type V = MigratorView;

    closed spec fn view(&self) -> MigratorView {
        MigratorView { store: self.store@, backend: self.backend@, key: self.key@ }
    }
}

impl Migrator {
    /// The catalog client that the migrator holds.
    pub closed spec fn held_client(&self) -> demostf_client::ApiClient {
        self.client
    }
}

impl MigratorView {
    /// The action that a migration waits for, or that ends it.
    pub open spec fn action_for(self, migration: MigrationView) -> ActionView {
        let name = migration.demo.name();
        let path = self.store.path_of(name);
        match migration.phase {
            Phase::Unknown => ActionView::ReadHash { path },
            Phase::Refetching(Stage::Downloading) => ActionView::Download {
                id: migration.demo.id,
                capacity: buffer_hint_of(migration.demo.duration),
                budget_secs: DOWNLOAD_BUDGET_SECS,
            },
            Phase::Refetching(Stage::Removing) => ActionView::Remove { path },
            Phase::Refetching(Stage::Writing) => ActionView::Write { path },
            Phase::Verified => ActionView::SetUrl {
                id: migration.demo.id,
                backend: self.backend,
                path,
                url: self.store.url_of(name),
                hash: migration.demo.hash,
                key: self.key,
            },
            Phase::Published => ActionView::Finish(Ok(())),
            Phase::Aborted => ActionView::Finish(Err(migration.failure.unwrap())),
        }
    }
}

impl Migrator {
    /// A migrator that moves demos into `store` and records them in the
    /// catalog under `backend`, with `key` as its proof of authority.
    pub fn new(store: Store, client: demostf_client::ApiClient, backend: String, key: String) -> (migrator: Self)
        ensures
            migrator@ == (MigratorView { store: store@, backend: backend@, key: key@ }),
            migrator.held_client() == client,
    {
        Migrator { store, client, backend, key }
    }

    /// The catalog client that the migrator was made with.
    pub fn client(&self) -> (client: &demostf_client::ApiClient)
        ensures
            *client == self.held_client(),
    {
        &self.client
    }

    /// The store that demos are moved into.
    pub fn store(&self) -> (store: &Store)
        ensures
            store@ == self@.store,
    {
        &self.store
    }

    /// Begins the migration of `demo`.
    pub fn migrate(&self, demo: &Demo) -> (migration: Migration)
        ensures
            migration@ == MigrationView::start(demo@),
            migration@.wf(),
    {
        Migration::start(demo)
    }

    /// The action that `migration` waits for, or that ends it.
    pub fn action(&self, migration: &Migration) -> (action: Action)
        ensures
            action@ == self@.action_for(migration@),
    {
        proof {
            use_type_invariant(migration);
        }
        let name = migration.name();
        match migration.phase {
            Phase::Unknown => Action::ReadHash { path: self.store.generate_path(name) },
            Phase::Refetching(Stage::Downloading) => Action::Download {
                id: migration.demo.id,
                capacity: buffer_hint(migration.demo.duration),
                budget_secs: DOWNLOAD_BUDGET_SECS,
            },
            Phase::Refetching(Stage::Removing) => Action::Remove {
                path: self.store.generate_path(name),
            },
            Phase::Refetching(Stage::Writing) => Action::Write {
                path: self.store.generate_path(name),
            },
            Phase::Verified => Action::SetUrl {
                id: migration.demo.id,
                backend: self.backend.clone(),
                path: self.store.generate_path(name),
                url: self.store.generate_url(name),
                hash: migration.demo.hash,
                key: self.key.clone(),
            },
            Phase::Published => Action::Finish(Ok(())),
            Phase::Aborted => match &migration.failure {
                Some(error) => Action::Finish(Err(error.clone())),
                None => unreached(),
            },
        }
    }
}

} // verus!
