//! A run: list the demos of the source backend that are old enough, then
//! migrate them one after the other, oldest first, until the page is done or
//! an error ends the run.

use crate::demo::{all_before, demo_views, listed_before, Demo, DemoView, Timestamp};
use crate::error::{Error, ErrorView};
use crate::migrate::{Migration, MigrationView, Migrator, MigratorView, Phase};
use crate::protocol::{Action, ActionView, Event, EventView, ListOrder, FIRST_PAGE};
use vstd::pervasive::unreached;
use vstd::prelude::*;

verus! {

enum Progress {
    Listing,
    Migrating { demos: Vec<Demo>, position: usize, current: Migration },
    Finished,
    Aborted(Error),
}

/// A run, as far as it has come.
pub struct Run {
    from_backend: String,
    cutoff: Timestamp,
    progress: Progress,
}

/// Where a run stands.
pub enum RunStage {
    /// The listing was asked for.
    Listing,
    /// The demos before `position` are published; `current` is the
    /// migration of the demo at `position`.
    Migrating { demos: Seq<DemoView>, position: int, current: MigrationView },
    /// Every listed demo is published.
    Finished,
    /// An error ended the run.
    Aborted(ErrorView),
}

/// A [`Run`] as mathematics sees it.
pub struct RunView {
    pub from_backend: Seq<char>,
    pub cutoff: int,
    pub stage: RunStage,
}

impl View for Run {
    type V = RunView;

    closed spec fn view(&self) -> RunView {
        RunView {
            from_backend: self.from_backend@,
            cutoff: self.cutoff as int,
            stage: match self.progress {
                Progress::Listing => RunStage::Listing,
                Progress::Migrating { demos, position, current } => RunStage::Migrating {
                    demos: demo_views(demos@),
                    position: position as int,
                    current: current@,
                },
                Progress::Finished => RunStage::Finished,
                Progress::Aborted(error) => RunStage::Aborted(error@),
            },
        }
    }
}

impl RunView {
    /// A run before its listing has come.
    pub open spec fn start(from_backend: Seq<char>, cutoff: int) -> RunView {
        RunView { from_backend, cutoff, stage: RunStage::Listing }
    }

    /// While demos are migrated, the current one is a listed one, its
    /// migration is under way, and every listed demo is older than the
    /// cutoff.
    pub open spec fn wf(self) -> bool {
        self.stage matches RunStage::Migrating { demos, position, current } ==> {
            &&& 0 <= position < demos.len()
            &&& current.demo == demos[position]
            &&& current.wf()
            &&& !current.settled()
            &&& all_before(demos, self.cutoff)
        }
    }

    /// Whether the run has ended, for better or worse.
    pub open spec fn ended(self) -> bool {
        self.stage is Finished || self.stage is Aborted
    }

    /// Whether the run can take `event`: a listing that answers its request
    /// must hold only demos older than the cutoff.
    pub open spec fn accepts(self, event: EventView) -> bool {
        self.stage is Listing ==> (event matches EventView::Listed(demos) ==> all_before(
            demos,
            self.cutoff,
        ))
    }

    /// The stage in which the demos from `position` on are still to be
    /// migrated.
    pub open spec fn from_position(demos: Seq<DemoView>, position: int) -> RunStage {
        if position < demos.len() {
            RunStage::Migrating {
                demos,
                position,
                current: MigrationView::start(demos[position]),
            }
        } else {
            RunStage::Finished
        }
    }

    /// The stage that follows `event`.
    pub open spec fn next_stage(self, event: EventView) -> RunStage {
        match self.stage {
            RunStage::Listing => match event {
                EventView::Listed(demos) => Self::from_position(demos, 0),
                _ => match event.failure() {
                    Some(error) => RunStage::Aborted(error),
                    None => RunStage::Listing,
                },
            },
            RunStage::Migrating { demos, position, current } => {
                let next = current.after(event);
                match next.phase {
                    Phase::Published => Self::from_position(demos, position + 1),
                    Phase::Aborted => RunStage::Aborted(next.failure.unwrap()),
                    _ => RunStage::Migrating { demos, position, current: next },
                }
            },
            RunStage::Finished => RunStage::Finished,
            RunStage::Aborted(error) => RunStage::Aborted(error),
        }
    }

    /// The run after `event`.
    pub open spec fn after(self, event: EventView) -> RunView {
        RunView {
            from_backend: self.from_backend,
            cutoff: self.cutoff,
            stage: self.next_stage(event),
        }
    }
}

impl MigratorView {
    /// The action that a run waits for, or that ends it.
    pub open spec fn run_action_for(self, run: RunView) -> ActionView {
        match run.stage {
            RunStage::Listing => ActionView::List {
                backend: run.from_backend,
                before: run.cutoff,
                order: ListOrder::Ascending,
                page: FIRST_PAGE,
            },
            RunStage::Migrating { demos, position, current } => self.action_for(current),
            RunStage::Finished => ActionView::Finish(Ok(())),
            RunStage::Aborted(error) => ActionView::Finish(Err(error)),
        }
    }
}

fn from_position(demos: Vec<Demo>, position: usize) -> (progress: Progress)
    requires
        position <= demos.len(),
    ensures
        position < demos.len() ==> (progress matches Progress::Migrating {
            demos: d,
            position: p,
            current,
        } && d == demos && p == position && current@ == MigrationView::start(demos[position as int]@)
            && current@.wf()),
        position == demos.len() ==> progress is Finished,
{
    if position < demos.len() {
        let current = Migration::start(&demos[position]);
        Progress::Migrating { demos, position, current }
    } else {
        Progress::Finished
    }
}

impl Run {
    #[verifier::type_invariant]
    spec fn inv(self) -> bool {
        self@.wf()
    }

    /// Whether the run has ended, for better or worse.
    pub fn has_ended(&self) -> (ended: bool)
        ensures
            ended == self@.ended(),
    {
        match &self.progress {
            Progress::Finished => true,
            Progress::Aborted(_) => true,
            _ => false,
        }
    }

    /// Whether the run can take `event`: a listing that answers its request
    /// must hold only demos older than the cutoff.
    pub fn accepts(&self, event: &Event) -> (ok: bool)
        ensures
            ok == self@.accepts(event@),
    {
        match (&self.progress, event) {
            (Progress::Listing, Event::Listed(demos)) => listed_before(demos, self.cutoff),
            _ => true,
        }
    }

    /// The run after `event` has answered its last action.
    pub fn advance(self, event: Event) -> (next: Run)
        requires
            self@.accepts(event@),
        ensures
            next@ == self@.after(event@),
            next@.wf(),
    {
        proof {
            use_type_invariant(&self);
        }
        let ghost before = self@;
        let Run { from_backend, cutoff, progress } = self;
        let progress = match progress {
            Progress::Listing => match event {
                Event::Listed(demos) => from_position(demos, 0),
                other => match other.failure() {
                    Some(error) => Progress::Aborted(error),
                    None => Progress::Listing,
                },
            },
            Progress::Migrating { demos, position, current } => {
                assert(position < demos.len()) by {
                    assert(before.stage is Migrating);
                    assert(demo_views(demos@).len() == demos.len());
                }
                let next = current.advance(event);
                match next.phase() {
                    Phase::Published => from_position(demos, position + 1),
                    Phase::Aborted => match next.into_failure() {
                        Some(error) => Progress::Aborted(error),
                        None => unreached(),
                    },
                    _ => Progress::Migrating { demos, position, current: next },
                }
            },
            Progress::Finished => Progress::Finished,
            Progress::Aborted(error) => Progress::Aborted(error),
        };
        Run { from_backend, cutoff, progress }
    }
}

impl Migrator {
    /// Begins a run over the demos of `from_backend` that were made before
    /// `time`.
    pub fn migrate_till(&self, from_backend: &str, time: Timestamp) -> (run: Run)
        ensures
            run@ == RunView::start(from_backend@, time as int),
            run@.wf(),
    {
        Run { from_backend: from_backend.to_owned(), cutoff: time, progress: Progress::Listing }
    }

    /// The action that `run` waits for, or that ends it.
    pub fn run_action(&self, run: &Run) -> (action: Action)
        ensures
            action@ == self@.run_action_for(run@),
    {
        match &run.progress {
            Progress::Listing => Action::List {
                backend: run.from_backend.clone(),
                before: run.cutoff,
                order: ListOrder::Ascending,
                page: FIRST_PAGE,
            },
            Progress::Migrating { demos, position, current } => self.action(current),
            Progress::Finished => Action::Finish(Ok(())),
            Progress::Aborted(error) => Action::Finish(Err(error.clone())),
        }
    }
}

} // verus!
