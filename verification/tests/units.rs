use demostf_migrate::digest::Hasher;
use demostf_migrate::{
    buffer_hint, cutoff, digest_chunks, digest_of, listed_before, listed_oldest_first, name_of,
    needs_refetch, same_digest, Demo, Error, Event, MemoryFile, Store,
};

fn demo(id: u32, time: i128) -> Demo {
    Demo { id, url: format!("https://static.example/{}.dem", id), hash: [0; 16], time, duration: 0 }
}

#[test]
fn name_is_last_segment() {
    assert_eq!(name_of("https://static.demos.tf/demos/a.dem"), "a.dem");
    assert_eq!(name_of("a.dem"), "a.dem");
    assert_eq!(name_of("/a.dem"), "a.dem");
    assert_eq!(name_of("https://static.demos.tf/"), "");
    assert_eq!(name_of(""), "");
    assert_eq!(name_of("https://static.demos.tf/d\u{e9}mo/\u{fc}ber.dem"), "\u{fc}ber.dem");
}

#[test]
fn demo_name_is_that_of_its_url() {
    assert_eq!(demo(12, 0).name(), "12.dem");
}

#[test]
fn path_and_url_join_with_one_slash() {
    let store = Store::new("/srv/demos".to_string(), "https://demos.example");
    assert_eq!(store.generate_path("a.dem"), "/srv/demos/a.dem");
    assert_eq!(store.generate_url("a.dem"), "https://demos.example/a.dem");
    assert_eq!(store.generate_path(""), "/srv/demos/");
    assert_eq!(name_of(&store.generate_url("a.dem")), "a.dem");
    assert_eq!(name_of(&store.generate_path("a.dem")), "a.dem");
}

#[test]
fn different_names_have_different_paths() {
    let store = Store::new("/srv/demos".to_string(), "https://demos.example");
    assert_ne!(store.generate_path("a.dem"), store.generate_path("b.dem"));
    assert_ne!(store.generate_url("a.dem"), store.generate_url("a.dem2"));
}

#[test]
fn digest_of_known_content() {
    assert_eq!(
        digest_of(b"abc"),
        [
            0x90, 0x01, 0x50, 0x98, 0x3c, 0xd2, 0x4f, 0xb0, 0xd6, 0x96, 0x3f, 0x7d, 0x28, 0xe1,
            0x7f, 0x72
        ]
    );
    assert_eq!(
        digest_of(b""),
        [
            0xd4, 0x1d, 0x8c, 0xd9, 0x8f, 0x00, 0xb2, 0x04, 0xe9, 0x80, 0x09, 0x98, 0xec, 0xf8,
            0x42, 0x7e
        ]
    );
}

#[test]
fn digest_of_chunks_is_that_of_the_whole() {
    let chunks = vec![b"a".to_vec(), Vec::new(), b"bc".to_vec()];
    assert_eq!(digest_chunks(&chunks), digest_of(b"abc"));
    assert_eq!(digest_chunks(&Vec::new()), digest_of(b""));
    assert_ne!(digest_chunks(&vec![b"ab".to_vec()]), digest_of(b"abc"));
}

#[test]
fn hasher_takes_content_in_pieces() {
    let mut hasher = Hasher::new();
    hasher.update(b"a");
    hasher.update(b"b");
    hasher.update(b"c");
    assert_eq!(hasher.finish(), digest_of(b"abc"));
    assert_eq!(Hasher::new().finish(), digest_of(b""));
}

#[test]
fn digests_compare_by_bytes() {
    let a = [7u8; 16];
    let mut b = [7u8; 16];
    assert!(same_digest(&a, &b));
    b[15] = 8;
    assert!(!same_digest(&a, &b));
}

#[test]
fn refetch_when_missing_or_different() {
    let expected = digest_of(b"demo");
    assert!(needs_refetch(&None, &expected));
    assert!(needs_refetch(&Some(digest_of(b"other")), &expected));
    assert!(!needs_refetch(&Some(digest_of(b"demo")), &expected));
}

#[test]
fn buffer_hint_is_a_kibibyte_a_minute() {
    assert_eq!(buffer_hint(0), 0);
    assert_eq!(buffer_hint(59), 0);
    assert_eq!(buffer_hint(60), 1024);
    assert_eq!(buffer_hint(1800), 30 * 1024);
    assert_eq!(buffer_hint(1859), 30 * 1024);
    assert_eq!(buffer_hint(u16::MAX), 1092 * 1024);
}

#[test]
fn cutoff_is_now_less_age() {
    assert_eq!(cutoff(10_000_000_000, 3), Some(7_000_000_000));
    assert_eq!(cutoff(5, 0), Some(5));
    assert_eq!(cutoff(0, 1), Some(-1_000_000_000));
    assert_eq!(cutoff(i128::MIN, 1), None);
    assert_eq!(cutoff(i128::MIN + 1_000_000_000, 1), Some(i128::MIN));
    assert_eq!(cutoff(i128::MIN + 999_999_999, 1), None);
    assert_eq!(
        cutoff(i128::MAX, u64::MAX),
        Some(i128::MAX - (u64::MAX as i128) * 1_000_000_000)
    );
}

#[test]
fn listing_is_checked_against_the_cutoff() {
    assert!(listed_before(&Vec::new(), 10));
    assert!(listed_before(&vec![demo(1, 3), demo(2, 9)], 10));
    assert!(!listed_before(&vec![demo(1, 3), demo(2, 10)], 10));
    assert!(!listed_before(&vec![demo(1, 11), demo(2, 3)], 10));
}

#[test]
fn listing_is_checked_for_its_order() {
    assert!(listed_oldest_first(&Vec::new()));
    assert!(listed_oldest_first(&vec![demo(1, 3)]));
    assert!(listed_oldest_first(&vec![demo(1, 3), demo(2, 3), demo(3, 4)]));
    assert!(!listed_oldest_first(&vec![demo(1, 3), demo(2, 5), demo(3, 4)]));
}

#[test]
fn errors_have_one_line() {
    assert_eq!(
        Error::Request("disk full".to_string()).message(),
        "Request failed: disk full"
    );
    assert_eq!(Error::Api("Hash mismatch".to_string()).message(), "Hash mismatch");
    assert_eq!(Error::Timeout.message(), "Backup timed out");
    assert_eq!(Error::Config("missing key api".to_string()).message(), "missing key api");
    assert_eq!(Error::Secret("no such file".to_string()).message(), "no such file");
    assert_eq!(Error::Timeout.clone(), Error::Timeout);
    assert_eq!(
        Error::Secret("no such file".to_string()).clone(),
        Error::Secret("no such file".to_string())
    );
}

#[test]
fn events_report_their_failure() {
    assert_eq!(Event::TimedOut.failure(), Some(Error::Timeout));
    assert_eq!(
        Event::IoFailed("disk full".to_string()).failure(),
        Some(Error::Request("disk full".to_string()))
    );
    assert_eq!(
        Event::ApiFailed("Invalid api key".to_string()).failure(),
        Some(Error::Api("Invalid api key".to_string()))
    );
    assert_eq!(Event::Written.failure(), None);
    assert_eq!(Event::HashRead(None).failure(), None);
}

#[test]
fn reader_finds_nothing_before_the_first_write() {
    let file = MemoryFile::new();
    assert_eq!(file.hash(), None);
}

#[test]
fn reader_finds_the_last_complete_write() {
    let mut file = MemoryFile::new();
    file.create();
    file.write(b"first");
    file.release();
    assert_eq!(file.hash(), Some(digest_of(b"first")));
    file.remove();
    file.create();
    file.write(b"sec");
    file.write(b"ond");
    file.release();
    assert_eq!(file.hash(), Some(digest_of(b"second")));
}

#[test]
fn reader_finds_nothing_after_remove() {
    let mut file = MemoryFile::new();
    file.create();
    file.write(b"first");
    file.release();
    file.remove();
    assert_eq!(file.hash(), None);
    file.remove();
    assert_eq!(file.hash(), None);
}

#[test]
fn reader_never_finds_a_write_under_way() {
    let mut file = MemoryFile::new();
    file.create();
    file.write(b"fir");
    assert_eq!(file.hash(), None);
    file.write(b"st");
    assert_eq!(file.hash(), None);
    file.release();
    assert_eq!(file.hash(), Some(digest_of(b"first")));
    file.create();
    assert_eq!(file.hash(), Some(digest_of(b"first")));
    file.write(b"sec");
    assert_eq!(file.hash(), Some(digest_of(b"first")));
    file.remove();
    assert_eq!(file.hash(), None);
    file.write(b"ond");
    file.release();
    assert_eq!(file.hash(), Some(digest_of(b"second")));
}

#[test]
fn writing_without_a_handle_does_nothing() {
    let mut file = MemoryFile::new();
    file.write(b"lost");
    file.release();
    assert_eq!(file.hash(), None);
    file.create();
    file.release();
    assert_eq!(file.hash(), Some(digest_of(b"")));
    file.write(b"lost");
    file.release();
    assert_eq!(file.hash(), Some(digest_of(b"")));
}
