use demostf_client::ApiClient;
use demostf_migrate::{
    digest_of, Action, Demo, Digest, Error, Event, ListOrder, Migrator, Phase, Stage, Store,
    Timestamp,
};
use std::collections::{BTreeMap, HashMap};

const ROOT: &str = "/srv/demos";
const BASE: &str = "https://demos.example";
const SOURCE: &str = "static";
const DESTINATION: &str = "local";
const KEY: &str = "secret-key";
const T0: Timestamp = 1_000_000_000_000_000_000;
const CUTOFF: Timestamp = 2_000_000_000_000_000_000;
const T1: Timestamp = 3_000_000_000_000_000_000;

#[derive(Clone, Debug, PartialEq)]
struct Record {
    backend: String,
    path: String,
    url: String,
    hash: Digest,
    time: Timestamp,
    duration: u16,
}

struct World {
    files: HashMap<String, Vec<u8>>,
    catalog: BTreeMap<u32, Record>,
    sources: HashMap<u32, Vec<u8>>,
    buffer: Vec<u8>,
    downloads_block: bool,
    failing_set_urls: u32,
    performed: Vec<String>,
}

impl World {
    fn new() -> World {
        World {
            files: HashMap::new(),
            catalog: BTreeMap::new(),
            sources: HashMap::new(),
            buffer: Vec::new(),
            downloads_block: false,
            failing_set_urls: 0,
            performed: Vec::new(),
        }
    }

    fn ingest(&mut self, id: u32, name: &str, content: &[u8], time: Timestamp) {
        self.catalog.insert(
            id,
            Record {
                backend: SOURCE.to_string(),
                path: format!("/old/{}", name),
                url: format!("https://static.example/demos/{}", name),
                hash: digest_of(content),
                time,
                duration: 1800,
            },
        );
        self.sources.insert(id, content.to_vec());
    }

    fn count(&self, kind: &str) -> usize {
        self.performed.iter().filter(|k| k.as_str() == kind).count()
    }

    fn perform(&mut self, action: &Action) -> Event {
        match action {
            Action::List { backend, before, order, page } => {
                self.performed.push("list".to_string());
                assert_eq!(*order, ListOrder::Ascending);
                assert_eq!(*page, 1);
                let mut demos: Vec<Demo> = Vec::new();
                for (id, record) in self.catalog.iter() {
                    if &record.backend == backend && record.time < *before {
                        demos.push(Demo {
                            id: *id,
                            url: record.url.clone(),
                            hash: record.hash,
                            time: record.time,
                            duration: record.duration,
                        });
                    }
                }
                demos.sort_by_key(|demo| demo.time);
                Event::Listed(demos)
            }
            Action::ReadHash { path } => {
                self.performed.push("hash".to_string());
                Event::HashRead(self.files.get(path).map(|content| digest_of(content)))
            }
            Action::Download { id, capacity, budget_secs } => {
                self.performed.push("download".to_string());
                assert_eq!(*budget_secs, 300);
                if self.downloads_block {
                    return Event::TimedOut;
                }
                let mut buffer = Vec::with_capacity(*capacity);
                buffer.extend_from_slice(&self.sources[id]);
                self.buffer = buffer;
                Event::Downloaded
            }
            Action::Remove { path } => {
                self.performed.push("remove".to_string());
                self.files.remove(path);
                Event::Removed
            }
            Action::Write { path } => {
                self.performed.push("write".to_string());
                self.files.insert(path.clone(), self.buffer.clone());
                Event::Written
            }
            Action::SetUrl { id, backend, path, url, hash, key } => {
                self.performed.push("set_url".to_string());
                assert_eq!(key, KEY);
                if self.failing_set_urls > 0 {
                    self.failing_set_urls -= 1;
                    return Event::ApiFailed("Unknown server error 500".to_string());
                }
                let record = self.catalog.get_mut(id).unwrap();
                record.backend = backend.clone();
                record.path = path.clone();
                record.url = url.clone();
                record.hash = *hash;
                Event::UrlSet
            }
            Action::Finish(_) => unreachable!(),
        }
    }
}

fn migrator() -> Migrator {
    Migrator::new(
        Store::new(ROOT.to_string(), BASE),
        ApiClient::new(),
        DESTINATION.to_string(),
        KEY.to_string(),
    )
}

fn run(world: &mut World) -> Result<(), Error> {
    let migrator = migrator();
    let mut run = migrator.migrate_till(SOURCE, CUTOFF);
    loop {
        let action = migrator.run_action(&run);
        if let Action::Finish(result) = action {
            assert!(run.has_ended());
            return result;
        }
        let event = world.perform(&action);
        assert!(run.accepts(&event));
        run = run.advance(event);
    }
}

fn migrate_one(world: &mut World, demo: &Demo) -> Result<(), Error> {
    let migrator = migrator();
    let mut migration = migrator.migrate(demo);
    loop {
        let action = migrator.action(&migration);
        if let Action::Finish(result) = action {
            assert!(migration.is_settled());
            return result;
        }
        let event = world.perform(&action);
        migration = migration.advance(event);
    }
}

fn demo_of(world: &World, id: u32) -> Demo {
    let record = &world.catalog[&id];
    Demo {
        id,
        url: record.url.clone(),
        hash: record.hash,
        time: record.time,
        duration: record.duration,
    }
}

fn moved_record(name: &str, content: &[u8], time: Timestamp) -> Record {
    Record {
        backend: DESTINATION.to_string(),
        path: format!("{}/{}", ROOT, name),
        url: format!("{}/{}", BASE, name),
        hash: digest_of(content),
        time,
        duration: 1800,
    }
}

#[test]
fn cold_migration() {
    let mut world = World::new();
    world.ingest(7, "a.dem", b"demo bytes", T0);
    assert_eq!(run(&mut world), Ok(()));
    assert_eq!(world.files["/srv/demos/a.dem"], b"demo bytes".to_vec());
    assert_eq!(digest_of(&world.files["/srv/demos/a.dem"]), digest_of(b"demo bytes"));
    assert_eq!(world.catalog[&7], moved_record("a.dem", b"demo bytes", T0));
    assert_eq!(world.catalog[&7].path, "/srv/demos/a.dem");
    assert_eq!(world.catalog[&7].url, "https://demos.example/a.dem");
    assert_eq!(
        world.performed,
        vec!["list", "hash", "download", "remove", "write", "set_url"]
    );
}

#[test]
fn warm_rerun() {
    let mut world = World::new();
    world.ingest(7, "a.dem", b"demo bytes", T0);
    assert_eq!(run(&mut world), Ok(()));
    world.performed.clear();
    assert_eq!(run(&mut world), Ok(()));
    assert_eq!(world.performed, vec!["list"]);
    assert_eq!(world.count("write"), 0);
    assert_eq!(world.count("set_url"), 0);
}

#[test]
fn corrupt_local_file() {
    let mut world = World::new();
    world.ingest(7, "a.dem", b"demo bytes", T0);
    world.files.insert("/srv/demos/a.dem".to_string(), b"wrong bytes".to_vec());
    assert_eq!(run(&mut world), Ok(()));
    assert_eq!(world.files["/srv/demos/a.dem"], b"demo bytes".to_vec());
    assert_eq!(digest_of(&world.files["/srv/demos/a.dem"]), world.catalog[&7].hash);
    assert_eq!(world.catalog[&7], moved_record("a.dem", b"demo bytes", T0));
    assert_eq!(world.count("download"), 1);
}

#[test]
fn publish_failure_recovery() {
    let mut world = World::new();
    world.ingest(7, "a.dem", b"demo bytes", T0);
    world.failing_set_urls = 1;
    assert_eq!(
        run(&mut world),
        Err(Error::Api("Unknown server error 500".to_string()))
    );
    assert_eq!(world.files["/srv/demos/a.dem"], b"demo bytes".to_vec());
    assert_eq!(world.catalog[&7].backend, SOURCE);
    world.performed.clear();
    assert_eq!(run(&mut world), Ok(()));
    assert_eq!(world.performed, vec!["list", "hash", "set_url"]);
    assert_eq!(world.catalog[&7], moved_record("a.dem", b"demo bytes", T0));
}

#[test]
fn age_filter() {
    let mut world = World::new();
    world.ingest(7, "a.dem", b"old demo", T0);
    world.ingest(8, "b.dem", b"young demo", T1);
    assert_eq!(run(&mut world), Ok(()));
    assert_eq!(world.catalog[&7].backend, DESTINATION);
    assert_eq!(world.catalog[&8].backend, SOURCE);
    assert!(world.files.contains_key("/srv/demos/a.dem"));
    assert!(!world.files.contains_key("/srv/demos/b.dem"));
    assert_eq!(world.count("set_url"), 1);
}

#[test]
fn download_timeout() {
    let mut world = World::new();
    world.ingest(7, "a.dem", b"demo bytes", T0);
    world.downloads_block = true;
    assert_eq!(run(&mut world), Err(Error::Timeout));
    assert!(!world.files.contains_key("/srv/demos/a.dem"));
    assert_eq!(world.catalog[&7].backend, SOURCE);
    assert_eq!(world.performed, vec!["list", "hash", "download"]);
}

#[test]
fn download_timeout_keeps_earlier_file() {
    let mut world = World::new();
    world.ingest(7, "a.dem", b"demo bytes", T0);
    world.files.insert("/srv/demos/a.dem".to_string(), b"wrong bytes".to_vec());
    world.downloads_block = true;
    assert_eq!(run(&mut world), Err(Error::Timeout));
    assert_eq!(world.files["/srv/demos/a.dem"], b"wrong bytes".to_vec());
    assert_eq!(world.count("remove"), 0);
    assert_eq!(world.count("write"), 0);
    assert_eq!(world.count("set_url"), 0);
}

#[test]
fn timeout_leaves_later_demos_untouched() {
    let mut world = World::new();
    world.ingest(7, "a.dem", b"first", T0);
    world.ingest(8, "b.dem", b"second", T0 + 1);
    world.downloads_block = true;
    let before = world.catalog.clone();
    assert_eq!(run(&mut world), Err(Error::Timeout));
    assert_eq!(world.catalog, before);
    assert!(world.files.is_empty());
    assert_eq!(world.count("hash"), 1);
    assert_eq!(world.count("download"), 1);
}

#[test]
fn empty_listing_has_no_side_effects() {
    let mut world = World::new();
    world.ingest(8, "b.dem", b"young demo", T1);
    let before = world.catalog.clone();
    assert_eq!(run(&mut world), Ok(()));
    assert_eq!(world.performed, vec!["list"]);
    assert_eq!(world.catalog, before);
    assert!(world.files.is_empty());
}

#[test]
fn missing_file_takes_refetch_path() {
    let mut world = World::new();
    world.ingest(7, "a.dem", b"demo bytes", T0);
    let demo = demo_of(&world, 7);
    let migrator = migrator();
    let migration = migrator.migrate(&demo);
    assert_eq!(migration.phase(), Phase::Unknown);
    assert_eq!(
        migrator.action(&migration),
        Action::ReadHash { path: "/srv/demos/a.dem".to_string() }
    );
    let migration = migration.advance(Event::HashRead(None));
    assert_eq!(migration.phase(), Phase::Refetching(Stage::Downloading));
    assert_eq!(
        migrator.action(&migration),
        Action::Download { id: 7, capacity: 30 * 1024, budget_secs: 300 }
    );
    assert_eq!(migrate_one(&mut world, &demo), Ok(()));
    assert_eq!(world.catalog[&7], moved_record("a.dem", b"demo bytes", T0));
}

#[test]
fn matching_hash_skips_download_but_publishes() {
    let mut world = World::new();
    world.ingest(7, "a.dem", b"demo bytes", T0);
    world.files.insert("/srv/demos/a.dem".to_string(), b"demo bytes".to_vec());
    let demo = demo_of(&world, 7);
    let migrator = migrator();
    let migration = migrator.migrate(&demo).advance(Event::HashRead(Some(demo.hash)));
    assert_eq!(migration.phase(), Phase::Verified);
    assert_eq!(
        migrator.action(&migration),
        Action::SetUrl {
            id: 7,
            backend: "local".to_string(),
            path: "/srv/demos/a.dem".to_string(),
            url: "https://demos.example/a.dem".to_string(),
            hash: digest_of(b"demo bytes"),
            key: "secret-key".to_string(),
        }
    );
    assert_eq!(migrate_one(&mut world, &demo), Ok(()));
    assert_eq!(world.performed, vec!["hash", "set_url"]);
    assert_eq!(world.catalog[&7].backend, DESTINATION);
}

#[test]
fn migrate_twice_is_idempotent() {
    let mut world = World::new();
    world.ingest(7, "a.dem", b"demo bytes", T0);
    let demo = demo_of(&world, 7);
    assert_eq!(migrate_one(&mut world, &demo), Ok(()));
    let files = world.files.clone();
    let catalog = world.catalog.clone();
    world.performed.clear();
    assert_eq!(migrate_one(&mut world, &demo), Ok(()));
    assert_eq!(world.files, files);
    assert_eq!(world.catalog, catalog);
    assert_eq!(world.count("download"), 0);
    assert_eq!(world.performed, vec!["hash", "set_url"]);
}

#[test]
fn second_run_sets_no_url() {
    let mut world = World::new();
    world.ingest(7, "a.dem", b"first", T0);
    world.ingest(8, "b.dem", b"second", T0 + 5);
    world.ingest(9, "c.dem", b"third", T0 + 2);
    assert_eq!(run(&mut world), Ok(()));
    assert_eq!(world.count("set_url"), 3);
    world.performed.clear();
    assert_eq!(run(&mut world), Ok(()));
    assert_eq!(world.count("set_url"), 0);
}

#[test]
fn published_demo_is_stored() {
    let mut world = World::new();
    world.ingest(7, "a.dem", b"first", T0);
    world.ingest(8, "b.dem", b"second", T0 + 5);
    world.files.insert("/srv/demos/b.dem".to_string(), b"torn".to_vec());
    assert_eq!(run(&mut world), Ok(()));
    for (_, record) in world.catalog.iter() {
        assert_eq!(record.backend, DESTINATION);
        assert_eq!(digest_of(&world.files[&record.path]), record.hash);
    }
}

#[test]
fn demos_are_worked_oldest_first() {
    let mut world = World::new();
    world.ingest(1, "young.dem", b"young", T0 + 30);
    world.ingest(2, "old.dem", b"old", T0 + 10);
    world.ingest(3, "middle.dem", b"middle", T0 + 20);
    let migrator = migrator();
    let mut run = migrator.migrate_till(SOURCE, CUTOFF);
    let mut published: Vec<u32> = Vec::new();
    loop {
        let action = migrator.run_action(&run);
        if let Action::SetUrl { id, .. } = &action {
            published.push(*id);
        }
        if let Action::Finish(result) = action {
            assert_eq!(result, Ok(()));
            break;
        }
        let event = world.perform(&action);
        assert!(run.accepts(&event));
        run = run.advance(event);
    }
    assert_eq!(published, vec![2, 3, 1]);
}

#[test]
fn io_failure_aborts_the_run() {
    let mut world = World::new();
    world.ingest(7, "a.dem", b"first", T0);
    let migrator = migrator();
    let run = migrator.migrate_till(SOURCE, CUTOFF);
    let listed = world.perform(&migrator.run_action(&run));
    let run = run.advance(listed);
    let run = run.advance(Event::IoFailed("permission denied".to_string()));
    assert!(run.has_ended());
    assert_eq!(
        migrator.run_action(&run),
        Action::Finish(Err(Error::Request("permission denied".to_string())))
    );
    let run = run.advance(Event::UrlSet);
    assert_eq!(
        migrator.run_action(&run),
        Action::Finish(Err(Error::Request("permission denied".to_string())))
    );
}

#[test]
fn listing_failure_aborts_the_run() {
    let migrator = migrator();
    let run = migrator.migrate_till(SOURCE, CUTOFF);
    assert_eq!(
        migrator.run_action(&run),
        Action::List {
            backend: "static".to_string(),
            before: CUTOFF,
            order: ListOrder::Ascending,
            page: 1,
        }
    );
    let run = run.advance(Event::ApiFailed("Invalid page requested".to_string()));
    assert_eq!(
        migrator.run_action(&run),
        Action::Finish(Err(Error::Api("Invalid page requested".to_string())))
    );
}

#[test]
fn listing_with_a_young_demo_is_not_accepted() {
    let migrator = migrator();
    let run = migrator.migrate_till(SOURCE, CUTOFF);
    let young = Demo {
        id: 8,
        url: "https://static.example/demos/b.dem".to_string(),
        hash: [0; 16],
        time: CUTOFF,
        duration: 60,
    };
    assert!(!run.accepts(&Event::Listed(vec![young])));
    assert!(run.accepts(&Event::Listed(Vec::new())));
    assert!(run.accepts(&Event::Removed));
}

#[test]
fn unrelated_event_changes_nothing() {
    let mut world = World::new();
    world.ingest(7, "a.dem", b"first", T0);
    let demo = demo_of(&world, 7);
    let migrator = migrator();
    let migration = migrator.migrate(&demo).advance(Event::Written);
    assert_eq!(migration.phase(), Phase::Unknown);
    let migration = migration.advance(Event::HashRead(Some([1; 16])));
    assert_eq!(migration.phase(), Phase::Refetching(Stage::Downloading));
    let migration = migration.advance(Event::Removed);
    assert_eq!(migration.phase(), Phase::Refetching(Stage::Downloading));
    let migration = migration.advance(Event::Downloaded);
    assert_eq!(migration.phase(), Phase::Refetching(Stage::Removing));
    assert_eq!(
        migrator.action(&migration),
        Action::Remove { path: "/srv/demos/a.dem".to_string() }
    );
    let migration = migration.advance(Event::Removed);
    assert_eq!(migration.phase(), Phase::Refetching(Stage::Writing));
    assert_eq!(
        migrator.action(&migration),
        Action::Write { path: "/srv/demos/a.dem".to_string() }
    );
    let migration = migration.advance(Event::Written);
    assert_eq!(migration.phase(), Phase::Verified);
    let migration = migration.advance(Event::UrlSet);
    assert_eq!(migration.phase(), Phase::Published);
    assert_eq!(migrator.action(&migration), Action::Finish(Ok(())));
    let migration = migration.advance(Event::TimedOut);
    assert_eq!(migration.phase(), Phase::Published);
    assert_eq!(migration.into_failure(), None);
}
