//! What holds of every course that a run can take in a world that answers
//! faithfully.

use crate::demo::{all_before, oldest_first, DemoView};
use crate::error::ErrorView;
use crate::laws::{world_after, Step};
use crate::migrate::MigratorView;
use crate::protocol::{ActionView, EventView};
use crate::run::{RunStage, RunView};
use crate::world::{lemma_step_keeps_support, World};
use vstd::prelude::*;

verus! {

/// The run after the events of `steps`.
pub open spec fn run_after(run: RunView, steps: Seq<Step>) -> RunView
    decreases steps.len(),
{
    if steps.len() == 0 {
        run
    } else {
        run_after(run, steps.drop_last()).after(steps.last().event)
    }
}

/// Whether `steps` is a course that `run` can take from `world`: each step
/// answers the action that the run then waits for.
pub open spec fn run_course(
    migrator: MigratorView,
    run: RunView,
    world: World,
    steps: Seq<Step>,
) -> bool
    decreases steps.len(),
{
    steps.len() > 0 ==> {
        let earlier = steps.drop_last();
        &&& run_course(migrator, run, world, earlier)
        &&& world_after(world, earlier).answers(
            migrator.run_action_for(run_after(run, earlier)),
            steps.last().event,
            steps.last().world,
        )
    }
}

/// Whether the catalog records `demo` on the backend of `migrator`.
pub open spec fn moved(migrator: MigratorView, world: World, demo: DemoView) -> bool {
    world.catalog[demo.id].backend == migrator.backend
}

/// What a run can count on in a world: the listed demos are the catalog's
/// and come oldest first, those before the current one are moved, and the
/// world supports the migration of the current one.
pub open spec fn carries(world: World, migrator: MigratorView, run: RunView) -> bool {
    &&& run.wf()
    &&& run.stage matches RunStage::Migrating { demos, position, current } ==> {
        &&& world.supports(migrator, current)
        &&& oldest_first(demos)
        &&& forall|i: int| 0 <= i < demos.len() ==> world.knows(#[trigger] demos[i])
        &&& forall|i: int| 0 <= i < position ==> moved(migrator, world, #[trigger] demos[i])
    }
}

/// A faithful answer is one that the run accepts, and it keeps what the run
/// counts on.
pub proof fn lemma_step_carries(
    migrator: MigratorView,
    run: RunView,
    world: World,
    event: EventView,
    next: World,
)
    requires
        carries(world, migrator, run),
        world.answers(migrator.run_action_for(run), event, next),
    ensures
        run.accepts(event),
        carries(next, migrator, run.after(event)),
{
    match run.stage {
        RunStage::Migrating { demos, position, current } => {
            lemma_step_keeps_support(migrator, current, world, event, next);
            let after = current.after(event);
            assert forall|i: int| 0 <= i < demos.len() implies next.knows(#[trigger] demos[i]) by {
                assert(world.knows(demos[i]));
            }
            assert forall|i: int| 0 <= i < position implies moved(
                migrator,
                next,
                #[trigger] demos[i],
            ) by {
                assert(moved(migrator, world, demos[i]));
            }
            if after.phase is Published {
                assert(moved(migrator, next, demos[position]));
                assert forall|i: int| 0 <= i < position + 1 implies moved(
                    migrator,
                    next,
                    #[trigger] demos[i],
                ) by {
                    if i < position {
                        assert(moved(migrator, world, demos[i]));
                    }
                }
            }
        },
        _ => {},
    }
}

/// Along a course, every answer is one that the run accepts, and the world
/// keeps carrying the run.
pub proof fn lemma_course_carries(
    migrator: MigratorView,
    run: RunView,
    world: World,
    steps: Seq<Step>,
)
    requires
        carries(world, migrator, run),
        run_course(migrator, run, world, steps),
    ensures
        carries(world_after(world, steps), migrator, run_after(run, steps)),
        steps.len() > 0 ==> run_after(run, steps.drop_last()).accepts(steps.last().event),
    decreases steps.len(),
{
    if steps.len() > 0 {
        let earlier = steps.drop_last();
        lemma_course_carries(migrator, run, world, earlier);
        lemma_step_carries(
            migrator,
            run_after(run, earlier),
            world_after(world, earlier),
            steps.last().event,
            steps.last().world,
        );
    }
}

/// The demos of a run are worked on in the order of the listing, which
/// comes oldest first and holds only demos older than the cutoff; when a
/// demo is worked on, every demo listed before it is moved.
pub proof fn lemma_run_works_oldest_first(
    migrator: MigratorView,
    from_backend: Seq<char>,
    cutoff: int,
    world: World,
    steps: Seq<Step>,
)
    requires
        run_course(migrator, RunView::start(from_backend, cutoff), world, steps),
    ensures
        run_after(RunView::start(from_backend, cutoff), steps).stage matches RunStage::Migrating {
            demos,
            position,
            current,
        } ==> {
            &&& oldest_first(demos)
            &&& all_before(demos, cutoff)
            &&& current.demo == demos[position]
            &&& forall|i: int|
                0 <= i < position ==> moved(
                    migrator,
                    world_after(world, steps),
                    #[trigger] demos[i],
                )
        },
{
    let start = RunView::start(from_backend, cutoff);
    lemma_course_carries(migrator, start, world, steps);
    lemma_course_keeps_bounds(start, steps);
}

/// A run keeps its source backend and its cutoff.
pub proof fn lemma_course_keeps_bounds(run: RunView, steps: Seq<Step>)
    ensures
        run_after(run, steps).from_backend == run.from_backend,
        run_after(run, steps).cutoff == run.cutoff,
    decreases steps.len(),
{
    if steps.len() > 0 {
        lemma_course_keeps_bounds(run, steps.drop_last());
    }
}

/// An empty listing ends the run well, and the world is as it was.
pub proof fn lemma_empty_listing_ends_run(
    migrator: MigratorView,
    from_backend: Seq<char>,
    cutoff: int,
    world: World,
    next: World,
)
    requires
        world.answers(
            migrator.run_action_for(RunView::start(from_backend, cutoff)),
            EventView::Listed(Seq::empty()),
            next,
        ),
    ensures
        RunView::start(from_backend, cutoff).after(EventView::Listed(Seq::empty())).stage
            is Finished,
        migrator.run_action_for(
            RunView::start(from_backend, cutoff).after(EventView::Listed(Seq::empty())),
        ) == ActionView::Finish(Ok(())),
        next == world,
{
}

/// An event that reports an error ends a run that has not ended: the run is
/// aborted with that error, the next action hands the error out, store and
/// catalog are as they were before the failed action, and nothing follows.
pub proof fn lemma_failure_ends_run(
    migrator: MigratorView,
    run: RunView,
    world: World,
    event: EventView,
    error: ErrorView,
    next: World,
)
    requires
        run.wf(),
        !run.ended(),
        event.failure() == Some(error),
        world.answers(migrator.run_action_for(run), event, next),
    ensures
        run.after(event).stage == RunStage::Aborted(error),
        migrator.run_action_for(run.after(event)) == ActionView::Finish(Err(error)),
        next.same_state(world),
        forall|later: EventView, last: World|
            !next.answers(migrator.run_action_for(run.after(event)), later, last),
{
}

/// A download that runs out of time ends the run with `Timeout`; store and
/// catalog are as they were, for the demo at hand and for every later one,
/// since the run asks for nothing more.
pub proof fn lemma_timeout_ends_run(
    migrator: MigratorView,
    run: RunView,
    world: World,
    next: World,
)
    requires
        run.wf(),
        migrator.run_action_for(run) is Download,
        world.answers(migrator.run_action_for(run), EventView::TimedOut, next),
    ensures
        run.after(EventView::TimedOut).stage == RunStage::Aborted(ErrorView::Timeout),
        migrator.run_action_for(run.after(EventView::TimedOut)) == ActionView::Finish(
            Err(ErrorView::Timeout),
        ),
        next.same_state(world),
        forall|later: EventView, last: World|
            !next.answers(migrator.run_action_for(run.after(EventView::TimedOut)), later, last),
{
    lemma_failure_ends_run(migrator, run, world, EventView::TimedOut, ErrorView::Timeout, next);
}

/// A download leaves store and catalog as they are, whether it is
/// completed, fails or runs out of time.
pub proof fn lemma_download_changes_nothing(
    world: World,
    id: u32,
    capacity: int,
    budget_secs: u64,
    event: EventView,
    next: World,
)
    requires
        world.answers(ActionView::Download { id, capacity, budget_secs }, event, next),
    ensures
        next.same_state(world),
{
}

/// Whether the run asks only to list and to finish along `steps`: it never
/// asks to read, download, remove, write or publish.
pub open spec fn only_lists(migrator: MigratorView, run: RunView, steps: Seq<Step>) -> bool {
    forall|n: int|
        0 <= n <= steps.len() ==> {
            let action = #[trigger] migrator.run_action_for(run_after(run, steps.take(n)));
            action is List || action is Finish
        }
}

/// Whether the catalog of `world` holds no demo of `backend` that was made
/// before `cutoff`.
pub open spec fn drained(world: World, backend: Seq<char>, cutoff: int) -> bool {
    forall|id: u32|
        world.catalog.dom().contains(id) ==> !((#[trigger] world.catalog[id]).backend == backend
            && world.catalog[id].time < cutoff)
}

/// A run over a source that holds no demo older than the cutoff asks only
/// to list and to finish, and leaves the world as it is.
pub proof fn lemma_drained_source_is_left_alone(
    migrator: MigratorView,
    from_backend: Seq<char>,
    cutoff: int,
    world: World,
    steps: Seq<Step>,
)
    requires
        drained(world, from_backend, cutoff),
        run_course(migrator, RunView::start(from_backend, cutoff), world, steps),
    ensures
        only_lists(migrator, RunView::start(from_backend, cutoff), steps),
        world_after(world, steps).same_state(world),
        !(run_after(RunView::start(from_backend, cutoff), steps).stage is Migrating),
    decreases steps.len(),
{
    let start = RunView::start(from_backend, cutoff);
    if steps.len() > 0 {
        let earlier = steps.drop_last();
        lemma_drained_source_is_left_alone(migrator, from_backend, cutoff, world, earlier);
        lemma_course_keeps_bounds(start, earlier);
        let before = run_after(start, earlier);
        let at = world_after(world, earlier);
        let event = steps.last().event;
        assert(at.answers(migrator.run_action_for(before), event, steps.last().world));
        if before.stage is Listing {
            if let EventView::Listed(demos) = event {
                if demos.len() > 0 {
                    assert(at.lists(demos[0], from_backend, cutoff));
                    assert(world.catalog.dom().contains(demos[0].id));
                    assert(world.catalog[demos[0].id].backend == from_backend);
                }
            }
        }
        assert forall|n: int| 0 <= n <= steps.len() implies {
            let action = #[trigger] migrator.run_action_for(run_after(start, steps.take(n)));
            action is List || action is Finish
        } by {
            if n < steps.len() {
                assert(steps.take(n) =~= earlier.take(n));
            } else {
                assert(steps.take(n) =~= steps);
            }
        }
    } else {
        assert forall|n: int| 0 <= n <= steps.len() implies {
            let action = #[trigger] migrator.run_action_for(run_after(start, steps.take(n)));
            action is List || action is Finish
        } by {
            assert(steps.take(n) =~= steps);
        }
    }
}

/// The demos that the run was given to work on: the listing that its first
/// step brought, or none.
pub open spec fn listing_of(steps: Seq<Step>) -> Seq<DemoView> {
    if steps.len() > 0 {
        match steps[0].event {
            EventView::Listed(demos) => demos,
            _ => Seq::empty(),
        }
    } else {
        Seq::empty()
    }
}

/// Whether the demo `id` is one of `listing`.
pub open spec fn listed(listing: Seq<DemoView>, id: u32) -> bool {
    exists|i: int| 0 <= i < listing.len() && (#[trigger] listing[i]).id == id
}

/// Whether the catalog of `after` holds the demos of `before`, each made at
/// the same time, and differs only in records of listed demos.
pub open spec fn changed_only_listed(before: World, after: World, listing: Seq<DemoView>) -> bool {
    &&& after.catalog.dom() == before.catalog.dom()
    &&& forall|id: u32|
        before.catalog.dom().contains(id) ==> {
            &&& (#[trigger] after.catalog[id]).time == before.catalog[id].time
            &&& listed(listing, id) || after.catalog[id] == before.catalog[id]
        }
}

/// How far a run has come with `listing`, in a world that was `origin`
/// when the run began.
pub open spec fn progress(
    migrator: MigratorView,
    run: RunView,
    origin: World,
    world: World,
    listing: Seq<DemoView>,
) -> bool {
    &&& changed_only_listed(origin, world, listing)
    &&& match run.stage {
        RunStage::Listing => world.catalog == origin.catalog,
        RunStage::Migrating { demos, position, current } => demos == listing,
        RunStage::Finished => forall|i: int|
            0 <= i < listing.len() ==> moved(migrator, world, #[trigger] listing[i]),
        RunStage::Aborted(error) => true,
    }
}

proof fn lemma_course_makes_progress(
    migrator: MigratorView,
    from_backend: Seq<char>,
    cutoff: int,
    world: World,
    steps: Seq<Step>,
    listing: Seq<DemoView>,
)
    requires
        run_course(migrator, RunView::start(from_backend, cutoff), world, steps),
        steps.len() > 0 ==> listing == listing_of(steps),
    ensures
        progress(
            migrator,
            run_after(RunView::start(from_backend, cutoff), steps),
            world,
            world_after(world, steps),
            listing,
        ),
        steps.len() > 0 ==> !(run_after(RunView::start(from_backend, cutoff), steps).stage
            is Listing),
    decreases steps.len(),
{
    let start = RunView::start(from_backend, cutoff);
    if steps.len() > 0 {
        let earlier = steps.drop_last();
        lemma_course_makes_progress(migrator, from_backend, cutoff, world, earlier, listing);
        lemma_course_carries(migrator, start, world, earlier);
        let before = run_after(start, earlier);
        let at = world_after(world, earlier);
        let event = steps.last().event;
        let next = steps.last().world;
        assert(at.answers(migrator.run_action_for(before), event, next));
        lemma_step_carries(migrator, before, at, event, next);
        match before.stage {
            RunStage::Listing => {
                assert(earlier.len() == 0);
                assert(steps[0] == steps.last());
            },
            RunStage::Migrating { demos, position, current } => {
                assert(listing[position].id == current.demo.id);
                assert(listed(listing, current.demo.id));
                assert(next.catalog.dom() =~= at.catalog.dom());
                assert forall|id: u32| world.catalog.dom().contains(id) implies {
                    &&& (#[trigger] next.catalog[id]).time == world.catalog[id].time
                    &&& listed(listing, id) || next.catalog[id] == world.catalog[id]
                } by {
                    assert(at.catalog[id].time == world.catalog[id].time);
                    if id != current.demo.id {
                        assert(next.catalog[id] == at.catalog[id]);
                    }
                }
                let after = current.after(event);
                if after.phase is Published && position + 1 >= demos.len() {
                    assert forall|i: int| 0 <= i < listing.len() implies moved(
                        migrator,
                        next,
                        #[trigger] listing[i],
                    ) by {
                        lemma_step_keeps_support(migrator, current, at, event, next);
                        if i < position {
                            assert(moved(migrator, at, demos[i]));
                        }
                    }
                }
            },
            _ => {},
        }
    }
}

/// When a run has finished, every demo of its listing is moved to the
/// backend of the migrator, and no other record of the catalog has changed.
pub proof fn lemma_finished_run_moved_its_listing(
    migrator: MigratorView,
    from_backend: Seq<char>,
    cutoff: int,
    world: World,
    steps: Seq<Step>,
)
    requires
        run_course(migrator, RunView::start(from_backend, cutoff), world, steps),
        run_after(RunView::start(from_backend, cutoff), steps).stage is Finished,
    ensures
        forall|i: int|
            0 <= i < listing_of(steps).len() ==> moved(
                migrator,
                world_after(world, steps),
                #[trigger] listing_of(steps)[i],
            ),
        changed_only_listed(world, world_after(world, steps), listing_of(steps)),
{
    lemma_course_makes_progress(migrator, from_backend, cutoff, world, steps, listing_of(steps));
}

/// A second run that follows a finished one, with nothing new in the
/// source, asks only to list and to finish: it publishes nothing. This
/// holds where the destination is another backend than the source and the
/// listing of the first run held every demo of the source that was older
/// than the cutoff.
pub proof fn lemma_second_run_publishes_nothing(
    migrator: MigratorView,
    from_backend: Seq<char>,
    cutoff: int,
    world: World,
    first: Seq<Step>,
    second: Seq<Step>,
)
    requires
        migrator.backend != from_backend,
        run_course(migrator, RunView::start(from_backend, cutoff), world, first),
        run_after(RunView::start(from_backend, cutoff), first).stage is Finished,
        forall|id: u32|
            world.catalog.dom().contains(id) && (#[trigger] world.catalog[id]).backend
                == from_backend && world.catalog[id].time < cutoff ==> listed(
                listing_of(first),
                id,
            ),
        run_course(
            migrator,
            RunView::start(from_backend, cutoff),
            world_after(world, first),
            second,
        ),
    ensures
        only_lists(migrator, RunView::start(from_backend, cutoff), second),
        world_after(world_after(world, first), second).same_state(world_after(world, first)),
{
    let between = world_after(world, first);
    let listing = listing_of(first);
    lemma_finished_run_moved_its_listing(migrator, from_backend, cutoff, world, first);
    assert forall|id: u32| between.catalog.dom().contains(id) implies !((
    #[trigger] between.catalog[id]).backend == from_backend && between.catalog[id].time
        < cutoff) by {
        if between.catalog[id].backend == from_backend && between.catalog[id].time < cutoff {
            if listed(listing, id) {
                let i = choose|i: int| 0 <= i < listing.len() && (#[trigger] listing[i]).id == id;
                assert(moved(migrator, between, listing[i]));
            } else {
                assert(between.catalog[id] == world.catalog[id]);
                assert(world.catalog[id].backend == from_backend);
            }
        }
    }
    lemma_drained_source_is_left_alone(migrator, from_backend, cutoff, between, second);
}

} // verus!
