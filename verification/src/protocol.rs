//! What a run asks of the outside world, and what the world answers.
//!
//! A run never touches the catalog or the filesystem itself. It hands its
//! caller one [`Action`] at a time; the caller performs it and reports what
//! came of it as an [`Event`].

use crate::demo::{demo_views, Demo, DemoView, Timestamp};
use crate::digest::{digest_view, Digest};
use crate::error::{Error, ErrorView};
use vstd::prelude::*;

verus! {

/// The seconds that one download may take.
pub const DOWNLOAD_BUDGET_SECS: u64 = 300;

/// The page of the listing that a run works on: the first.
pub const FIRST_PAGE: u32 = 1;

/// The order in which the catalog lists demos.
#[derive(Clone, Copy, Debug, PartialEq, Eq, Structural)]
pub enum ListOrder {
    /// Oldest first.
    Ascending,
    /// Newest first.
    Descending,
}

/// One thing to do in the outside world.
#[derive(Debug, PartialEq, Eq)]
pub enum Action {
    /// List the demos of `backend` that were made before `before`.
    List { backend: String, before: Timestamp, order: ListOrder, page: u32 },
    /// Read the hash of the file at `path`, if there is one.
    ReadHash { path: String },
    /// Download the bytes of the demo `id` into a buffer that starts with
    /// room for `capacity` bytes, within `budget_secs` seconds.
    Download { id: u32, capacity: usize, budget_secs: u64 },
    /// Remove the file at `path`, if there is one.
    Remove { path: String },
    /// Put the downloaded bytes in the place of the file at `path`, in one
    /// piece: who reads the file finds the old bytes or the new, never a
    /// part of them.
    Write { path: String },
    /// Tell the catalog where the demo `id` now lies.
    SetUrl { id: u32, backend: String, path: String, url: String, hash: Digest, key: String },
    /// Nothing is left to do: the run has ended, well or not.
    Finish(Result<(), Error>),
}

/// An [`Action`] as mathematics sees it.
pub enum ActionView {
    List { backend: Seq<char>, before: int, order: ListOrder, page: u32 },
    ReadHash { path: Seq<char> },
    Download { id: u32, capacity: int, budget_secs: u64 },
    Remove { path: Seq<char> },
    Write { path: Seq<char> },
    SetUrl {
        id: u32,
        backend: Seq<char>,
        path: Seq<char>,
        url: Seq<char>,
        hash: Seq<u8>,
        key: Seq<char>,
    },
    Finish(Result<(), ErrorView>),
}

impl View for Action {
    type V = ActionView;

    open spec fn view(&self) -> ActionView {
        match self {
            Action::List { backend, before, order, page } => ActionView::List {
                backend: backend@,
                before: *before as int,
                order: *order,
                page: *page,
            },
            Action::ReadHash { path } => ActionView::ReadHash { path: path@ },
            Action::Download { id, capacity, budget_secs } => ActionView::Download {
                id: *id,
                capacity: *capacity as int,
                budget_secs: *budget_secs,
            },
            Action::Remove { path } => ActionView::Remove { path: path@ },
            Action::Write { path } => ActionView::Write { path: path@ },
            Action::SetUrl { id, backend, path, url, hash, key } => ActionView::SetUrl {
                id: *id,
                backend: backend@,
                path: path@,
                url: url@,
                hash: hash@,
                key: key@,
            },
            Action::Finish(Ok(())) => ActionView::Finish(Ok(())),
            Action::Finish(Err(error)) => ActionView::Finish(Err(error@)),
        }
    }
}

/// What came of the action that was asked for last.
#[derive(Debug, PartialEq, Eq)]
pub enum Event {
    /// The catalog listed these demos.
    Listed(Vec<Demo>),
    /// The hash of the stored file, or `None` where there is no such file.
    HashRead(Option<Digest>),
    /// The download is complete and its hash is the demo's.
    Downloaded,
    /// The stored file is gone, or was never there.
    Removed,
    /// The stored file holds the downloaded bytes.
    Written,
    /// The catalog has taken the new location.
    UrlSet,
    /// The action ran out of time.
    TimedOut,
    /// The filesystem failed.
    IoFailed(String),
    /// The catalog failed.
    ApiFailed(String),
}

/// An [`Event`] as mathematics sees it.
pub enum EventView {
    Listed(Seq<DemoView>),
    HashRead(Option<Seq<u8>>),
    Downloaded,
    Removed,
    Written,
    UrlSet,
    TimedOut,
    IoFailed(Seq<char>),
    ApiFailed(Seq<char>),
}

impl View for Event {
    type V = EventView;

    open spec fn view(&self) -> EventView {
        match self {
            Event::Listed(demos) => EventView::Listed(demo_views(demos@)),
            Event::HashRead(stored) => EventView::HashRead(digest_view(*stored)),
            Event::Downloaded => EventView::Downloaded,
            Event::Removed => EventView::Removed,
            Event::Written => EventView::Written,
            Event::UrlSet => EventView::UrlSet,
            Event::TimedOut => EventView::TimedOut,
            Event::IoFailed(cause) => EventView::IoFailed(cause@),
            Event::ApiFailed(cause) => EventView::ApiFailed(cause@),
        }
    }
}

impl EventView {
    /// The error that the event reports, if it reports one.
    pub open spec fn failure(self) -> Option<ErrorView> {
        match self {
            EventView::TimedOut => Some(ErrorView::Timeout),
            EventView::IoFailed(cause) => Some(ErrorView::Request(cause)),
            EventView::ApiFailed(cause) => Some(ErrorView::Api(cause)),
            _ => None,
        }
    }
}

impl Event {
    /// The error that the event reports, if it reports one.
    pub fn failure(&self) -> (error: Option<Error>)
        ensures
            error.is_some() == self@.failure().is_some(),
            error matches Some(e) ==> self@.failure() == Some(e@),
    {
        match self {
            Event::TimedOut => Some(Error::Timeout),
            Event::IoFailed(cause) => Some(Error::Request(cause.clone())),
            Event::ApiFailed(cause) => Some(Error::Api(cause.clone())),
            _ => None,
        }
    }
}

} // verus!
