//! What holds of every course that a migration or a run can take in a world
//! that answers faithfully.

use crate::demo::DemoView;
use crate::migrate::{MigrationView, MigratorView, Phase, Stage};
use crate::protocol::{ActionView, EventView};
use crate::world::{lemma_step_keeps_support, stored_hash, World};
use vstd::prelude::*;

verus! {

/// One answer of the world: the event, and the world as it then is.
pub struct Step {
    pub event: EventView,
    pub world: World,
}

/// The world after `steps`, where it was `world` before them.
pub open spec fn world_after(world: World, steps: Seq<Step>) -> World {
    if steps.len() == 0 {
        world
    } else {
        steps.last().world
    }
}

/// The migration after the events of `steps`.
pub open spec fn migration_after(migration: MigrationView, steps: Seq<Step>) -> MigrationView
    decreases steps.len(),
{
    if steps.len() == 0 {
        migration
    } else {
        migration_after(migration, steps.drop_last()).after(steps.last().event)
    }
}

/// Whether `steps` is a course that `migration` can take from `world`: each
/// step answers the action that the migration then waits for.
pub open spec fn migration_course(
    migrator: MigratorView,
    migration: MigrationView,
    world: World,
    steps: Seq<Step>,
) -> bool
    decreases steps.len(),
{
    steps.len() > 0 ==> {
        let earlier = steps.drop_last();
        &&& migration_course(migrator, migration, world, earlier)
        &&& world_after(world, earlier).answers(
            migrator.action_for(migration_after(migration, earlier)),
            steps.last().event,
            steps.last().world,
        )
    }
}

/// Along a course, the world keeps supporting the migration.
pub proof fn lemma_course_keeps_support(
    migrator: MigratorView,
    migration: MigrationView,
    world: World,
    steps: Seq<Step>,
)
    requires
        world.supports(migrator, migration),
        migration_course(migrator, migration, world, steps),
    ensures
        world_after(world, steps).supports(migrator, migration_after(migration, steps)),
    decreases steps.len(),
{
    if steps.len() > 0 {
        let earlier = steps.drop_last();
        lemma_course_keeps_support(migrator, migration, world, earlier);
        lemma_step_keeps_support(
            migrator,
            migration_after(migration, earlier),
            world_after(world, earlier),
            steps.last().event,
            steps.last().world,
        );
    }
}

/// The first steps of a course are a course.
pub proof fn lemma_course_prefix(
    migrator: MigratorView,
    migration: MigrationView,
    world: World,
    steps: Seq<Step>,
    n: int,
)
    requires
        migration_course(migrator, migration, world, steps),
        0 <= n <= steps.len(),
    ensures
        migration_course(migrator, migration, world, steps.take(n)),
    decreases steps.len(),
{
    if n == steps.len() {
        assert(steps.take(n) =~= steps);
    } else {
        lemma_course_prefix(migrator, migration, world, steps.drop_last(), n);
        assert(steps.take(n) =~= steps.drop_last().take(n));
    }
}

/// Whether the stored copy of `demo` has the hash that the catalog records.
pub open spec fn stored_right(migrator: MigratorView, world: World, demo: DemoView) -> bool {
    stored_hash(world.files, migrator.store.path_of(demo.name())) == Some(demo.hash)
}

/// From the step that verifies the copy of a demo, the stored file has the
/// hash that the catalog records, at every later step of the migration. A
/// demo that a migration has brought to `Published` therefore lies in the
/// store with that hash, and the catalog points at that file.
pub proof fn lemma_published_demo_is_stored(
    migrator: MigratorView,
    demo: DemoView,
    world: World,
    steps: Seq<Step>,
)
    requires
        world.knows(demo),
        migration_course(migrator, MigrationView::start(demo), world, steps),
    ensures
        forall|n: int|
            0 <= n <= steps.len() && ((#[trigger] migration_after(
                MigrationView::start(demo),
                steps.take(n),
            )).phase is Verified || migration_after(
                MigrationView::start(demo),
                steps.take(n),
            ).phase is Published) ==> stored_right(
                migrator,
                world_after(world, steps.take(n)),
                demo,
            ),
        migration_after(MigrationView::start(demo), steps).phase is Published ==> {
            &&& stored_right(migrator, world_after(world, steps), demo)
            &&& world_after(world, steps).catalog[demo.id] == migrator.record_for(demo)
        },
{
    let start = MigrationView::start(demo);
    lemma_course_keeps_support(migrator, start, world, steps);
    lemma_course_keeps_demo(start, steps);
    assert forall|n: int|
        0 <= n <= steps.len() && ((#[trigger] migration_after(start, steps.take(n))).phase
            is Verified || migration_after(start, steps.take(n)).phase
            is Published) implies stored_right(
        migrator,
        world_after(world, steps.take(n)),
        demo,
    ) by {
        lemma_course_prefix(migrator, start, world, steps, n);
        lemma_course_keeps_support(migrator, start, world, steps.take(n));
        lemma_course_keeps_demo(start, steps.take(n));
    }
}

/// A migration stays that of its demo.
pub proof fn lemma_course_keeps_demo(migration: MigrationView, steps: Seq<Step>)
    ensures
        migration_after(migration, steps).demo == migration.demo,
    decreases steps.len(),
{
    if steps.len() > 0 {
        lemma_course_keeps_demo(migration, steps.drop_last());
    }
}

/// A demo whose copy is missing, or has another hash than the catalog
/// records, is fetched again: the download is what the migration asks for
/// next.
pub proof fn lemma_wrong_copy_is_fetched(
    migrator: MigratorView,
    demo: DemoView,
    world: World,
    event: EventView,
    next: World,
)
    requires
        !stored_right(migrator, world, demo),
        world.answers(migrator.action_for(MigrationView::start(demo)), event, next),
        event.failure().is_none(),
    ensures
        MigrationView::start(demo).after(event).phase == Phase::Refetching(Stage::Downloading),
        migrator.action_for(MigrationView::start(demo).after(event)) is Download,
        next == world,
{
}

/// A demo whose copy is stored with the hash that the catalog records is
/// not fetched again, and is published all the same: the next action tells
/// the catalog of the stored file.
pub proof fn lemma_right_copy_is_published(
    migrator: MigratorView,
    demo: DemoView,
    world: World,
    event: EventView,
    next: World,
)
    requires
        stored_right(migrator, world, demo),
        world.answers(migrator.action_for(MigrationView::start(demo)), event, next),
        event.failure().is_none(),
    ensures
        MigrationView::start(demo).after(event).phase == Phase::Verified,
        migrator.action_for(MigrationView::start(demo).after(event)) == (ActionView::SetUrl {
            id: demo.id,
            backend: migrator.backend,
            path: migrator.store.path_of(demo.name()),
            url: migrator.store.url_of(demo.name()),
            hash: demo.hash,
            key: migrator.key,
        }),
        next == world,
{
}

/// Whether the migration is never in the phase `Refetching` along `steps`.
pub open spec fn never_refetches(migration: MigrationView, steps: Seq<Step>) -> bool {
    forall|n: int|
        0 <= n <= steps.len() ==> !((#[trigger] migration_after(
            migration,
            steps.take(n),
        )).phase is Refetching)
}

/// Migrating a demo whose copy is stored and whose record is up to date
/// fetches nothing and leaves store and catalog as they are.
pub proof fn lemma_settled_demo_stays(
    migrator: MigratorView,
    demo: DemoView,
    world: World,
    steps: Seq<Step>,
)
    requires
        world.knows(demo),
        stored_right(migrator, world, demo),
        world.catalog[demo.id] == migrator.record_for(demo),
        migration_course(migrator, MigrationView::start(demo), world, steps),
    ensures
        world_after(world, steps).same_state(world),
        never_refetches(MigrationView::start(demo), steps),
    decreases steps.len(),
{
    let start = MigrationView::start(demo);
    if steps.len() > 0 {
        let earlier = steps.drop_last();
        lemma_settled_demo_stays(migrator, demo, world, earlier);
        lemma_course_keeps_demo(start, earlier);
        let before = migration_after(start, earlier);
        assert(earlier.take(earlier.len() as int) =~= earlier);
        assert(!(before.phase is Refetching));
        let at = world_after(world, earlier);
        let event = steps.last().event;
        let next = steps.last().world;
        assert(at.answers(migrator.action_for(before), event, next));
        if before.phase is Verified && event is UrlSet {
            assert(next.catalog =~= world.catalog);
        }
        assert(next.same_state(world));
        assert(!(before.after(event).phase is Refetching));
        assert forall|n: int| 0 <= n <= steps.len() implies !((#[trigger] migration_after(
            start,
            steps.take(n),
        )).phase is Refetching) by {
            if n < steps.len() {
                assert(steps.take(n) =~= earlier.take(n));
            } else {
                assert(steps.take(n) =~= steps);
            }
        }
    } else {
        assert forall|n: int| 0 <= n <= steps.len() implies !((#[trigger] migration_after(
            start,
            steps.take(n),
        )).phase is Refetching) by {
            assert(steps.take(n) =~= steps);
        }
    }
}

/// Migrating a demo twice in a row comes to the same end as migrating it
/// once: the second migration fetches nothing and leaves store and catalog
/// as the first left them.
pub proof fn lemma_migrate_twice(
    migrator: MigratorView,
    demo: DemoView,
    world: World,
    first: Seq<Step>,
    second: Seq<Step>,
)
    requires
        world.knows(demo),
        migration_course(migrator, MigrationView::start(demo), world, first),
        migration_after(MigrationView::start(demo), first).phase is Published,
        migration_course(
            migrator,
            MigrationView::start(demo),
            world_after(world, first),
            second,
        ),
    ensures
        world_after(world_after(world, first), second).same_state(world_after(world, first)),
        never_refetches(MigrationView::start(demo), second),
{
    let start = MigrationView::start(demo);
    lemma_course_keeps_support(migrator, start, world, first);
    lemma_course_keeps_demo(start, first);
    lemma_settled_demo_stays(migrator, demo, world_after(world, first), second);
}

} // verus!
