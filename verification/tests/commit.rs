use bottomless::buffer::{WriteBuffer, PAGE_SIZE};
use bottomless::error::ReplicatorError;
use bottomless::generation::Generation;
use bottomless::keys::page_key;
use bottomless::replicator::{CommitAction, CommitEvent, Replicator};
use std::collections::BTreeMap;

const G: Generation = Generation { id: 0x017f22e2_79b0_7aaa_9c4e_0242ac120002 };

fn session() -> Replicator {
    Replicator::new("mydb".to_string(), "bucket".to_string(), G)
}

fn page(fill: u8) -> Vec<u8> {
    vec![fill; PAGE_SIZE]
}

/// Runs a commit against a store that accepts every upload.
fn run(session: &mut Replicator, store: &mut BTreeMap<String, Vec<u8>>) -> Result<(), ReplicatorError> {
    let mut action = session.commit(CommitEvent::Begin);
    loop {
        match action {
            CommitAction::Upload { key, body } => {
                store.insert(key, body);
                action = session.commit(CommitEvent::Uploaded);
            }
            CommitAction::Done => return Ok(()),
            CommitAction::Abort(e) => return Err(e),
        }
    }
}

#[test]
fn page_size_is_4096() {
    assert_eq!(PAGE_SIZE, 4096);
}

#[test]
fn new_session_has_an_empty_buffer() {
    let s = session();
    assert_eq!(s.buffered_pages(), 0);
    assert_eq!(s.db_name(), "mydb");
    assert_eq!(s.bucket(), "bucket");
    assert_eq!(s.generation(), G);
}

#[test]
fn register_db_names_the_database() {
    let mut s = Replicator::new(String::new(), "bucket".to_string(), G);
    s.write(3, &page(1));
    s.register_db("other".to_string());
    assert_eq!(s.db_name(), "other");
    assert_eq!(s.buffered_pages(), 1);
    match s.commit(CommitEvent::Begin) {
        CommitAction::Upload { key, .. } => assert_eq!(key, page_key("other", &G, 3)),
        other => panic!("expected an upload, got {:?}", other),
    }
}

#[test]
fn last_write_to_a_page_wins() {
    let mut buffer = WriteBuffer::new();
    buffer.write(5, &page(1));
    buffer.write(9, &page(2));
    buffer.write(5, &page(3));
    assert_eq!(buffer.len(), 2);
    assert_eq!(buffer.image(5), Some(&page(3)[..]));
    assert_eq!(buffer.image(9), Some(&page(2)[..]));
    assert_eq!(buffer.image(6), None);
    buffer.clear();
    assert_eq!(buffer.len(), 0);
    assert_eq!(buffer.image(5), None);
}

#[test]
fn buffer_enumerates_each_page_once() {
    let mut buffer = WriteBuffer::new();
    assert_eq!(buffer.page_numbers(), Vec::<u32>::new());
    for n in [8u32, 3, 8, 1, 3, 4_000_000_000] {
        buffer.write(n, &page(n as u8));
    }
    let mut numbers = buffer.page_numbers();
    numbers.sort();
    assert_eq!(numbers, vec![1, 3, 8, 4_000_000_000]);
}

#[test]
fn buffered_image_is_a_copy_of_what_was_written() {
    let mut buffer = WriteBuffer::new();
    let mut data = vec![1u8, 2, 3];
    buffer.write(1, &data);
    data[0] = 9;
    buffer.write(2, &data);
    buffer.write(3, &[]);
    assert_eq!(buffer.image(1), Some(&[1u8, 2, 3][..]));
    assert_eq!(buffer.image(2), Some(&[9u8, 2, 3][..]));
    assert_eq!(buffer.image(3), Some(&[][..]));
}

#[test]
fn commit_uploads_every_page_and_clears_the_buffer() {
    let mut s = session();
    s.write(0, &page(b'A'));
    s.write(1, &page(b'B'));
    s.write(2, &page(b'C'));
    let mut store = BTreeMap::new();
    assert!(run(&mut s, &mut store).is_ok());
    assert_eq!(s.buffered_pages(), 0);
    assert_eq!(store.len(), 3);
    assert_eq!(store[&page_key("mydb", &G, 0)], page(b'A'));
    assert_eq!(store[&page_key("mydb", &G, 1)], page(b'B'));
    assert_eq!(store[&page_key("mydb", &G, 2)], page(b'C'));
    assert_eq!(
        store.keys().next().unwrap(),
        "mydb-017f22e2-79b0-7aaa-9c4e-0242ac120002/000000000000"
    );
}

#[test]
fn commit_uploads_each_page_once_with_its_last_image() {
    let mut s = session();
    s.write(7, &page(1));
    s.write(2, &page(2));
    s.write(7, &page(3));
    let mut uploads = Vec::new();
    let mut action = s.commit(CommitEvent::Begin);
    while let CommitAction::Upload { key, body } = action {
        uploads.push((key, body[0]));
        action = s.commit(CommitEvent::Uploaded);
    }
    assert!(matches!(action, CommitAction::Done));
    uploads.sort();
    assert_eq!(uploads, vec![(page_key("mydb", &G, 2), 2), (page_key("mydb", &G, 7), 3)]);
}

#[test]
fn commit_of_an_empty_buffer_is_done_at_once() {
    let mut s = session();
    assert!(matches!(s.commit(CommitEvent::Begin), CommitAction::Done));
    assert!(matches!(s.commit(CommitEvent::Uploaded), CommitAction::Done));
}

#[test]
fn committing_twice_leaves_the_store_as_committing_once() {
    let mut once = BTreeMap::new();
    once.insert("unrelated".to_string(), vec![9u8]);
    let mut twice = once.clone();

    let mut s = session();
    s.write(0, &page(b'A'));
    s.write(1, &page(b'B'));
    assert!(run(&mut s, &mut once).is_ok());

    let mut s = session();
    s.write(0, &page(b'A'));
    s.write(1, &page(b'B'));
    assert!(run(&mut s, &mut twice).is_ok());
    s.write(0, &page(b'A'));
    s.write(1, &page(b'B'));
    assert!(run(&mut s, &mut twice).is_ok());

    assert_eq!(once, twice);
    assert_eq!(once.len(), 3);
}

#[test]
fn failed_upload_aborts_and_keeps_the_buffer_for_a_retry() {
    let mut s = session();
    s.write(0, &page(b'A'));
    s.write(1, &page(b'B'));
    let mut store = BTreeMap::new();
    match s.commit(CommitEvent::Begin) {
        CommitAction::Upload { key, body } => {
            store.insert(key, body);
        }
        other => panic!("expected an upload, got {:?}", other),
    }
    assert!(matches!(s.commit(CommitEvent::Uploaded), CommitAction::Upload { .. }));
    match s.commit(CommitEvent::Failed("connection reset".to_string())) {
        CommitAction::Abort(ReplicatorError::Transport(message)) => {
            assert_eq!(message, "connection reset")
        }
        other => panic!("expected a transport failure, got {:?}", other),
    }
    assert_eq!(s.buffered_pages(), 2);
    assert_eq!(store.len(), 1);
    // the retry uploads the whole buffer again
    assert!(run(&mut s, &mut store).is_ok());
    assert_eq!(s.buffered_pages(), 0);
    assert_eq!(store.len(), 2);
    assert_eq!(store[&page_key("mydb", &G, 0)], page(b'A'));
    assert_eq!(store[&page_key("mydb", &G, 1)], page(b'B'));
}

#[test]
fn page_of_wrong_size_fails_the_commit_with_size_mismatch() {
    let mut s = session();
    s.write(0, &page(b'A'));
    s.write(1, &[0u8; 10]);
    s.write(2, &page(b'C'));
    let mut store = BTreeMap::new();
    match run(&mut s, &mut store) {
        Err(ReplicatorError::SizeMismatch { page_no, len }) => {
            assert_eq!(page_no, 1);
            assert_eq!(len, 10);
        }
        other => panic!("expected a size mismatch, got {:?}", other),
    }
    // pages looked at before the bad one may be uploaded; the bad one is not
    assert!(store.len() <= 2);
    assert!(!store.contains_key(&page_key("mydb", &G, 1)));
    for (key, body) in &store {
        if *key == page_key("mydb", &G, 0) {
            assert_eq!(*body, page(b'A'));
        } else {
            assert_eq!(*key, page_key("mydb", &G, 2));
            assert_eq!(*body, page(b'C'));
        }
    }
    // the buffer is kept
    assert_eq!(s.buffered_pages(), 3);
    // replacing the bad page lets the commit go through
    s.write(1, &page(b'B'));
    assert!(run(&mut s, &mut store).is_ok());
    assert_eq!(store.len(), 3);
    assert_eq!(store[&page_key("mydb", &G, 1)], page(b'B'));
    assert_eq!(s.buffered_pages(), 0);
}

#[test]
fn lone_page_of_wrong_size_uploads_nothing() {
    let mut s = session();
    s.write(1, &[0u8; 10]);
    let mut store = BTreeMap::new();
    assert!(matches!(
        run(&mut s, &mut store),
        Err(ReplicatorError::SizeMismatch { page_no: 1, len: 10 })
    ));
    assert!(store.is_empty());
    assert_eq!(s.buffered_pages(), 1);
}

#[test]
fn too_long_and_empty_pages_are_size_mismatches() {
    let mut s = session();
    s.write(4, &vec![0u8; PAGE_SIZE + 1]);
    assert!(matches!(
        s.commit(CommitEvent::Begin),
        CommitAction::Abort(ReplicatorError::SizeMismatch { page_no: 4, len: 4097 })
    ));
    let mut s = session();
    s.write(4, &[]);
    assert!(matches!(
        s.commit(CommitEvent::Begin),
        CommitAction::Abort(ReplicatorError::SizeMismatch { page_no: 4, len: 0 })
    ));
}

#[test]
fn a_write_makes_the_commit_start_over() {
    let mut s = session();
    s.write(0, &page(b'A'));
    assert!(matches!(s.commit(CommitEvent::Begin), CommitAction::Upload { .. }));
    s.write(0, &page(b'Z'));
    match s.commit(CommitEvent::Uploaded) {
        CommitAction::Upload { key, body } => {
            assert_eq!(key, page_key("mydb", &G, 0));
            assert_eq!(body, page(b'Z'));
        }
        other => panic!("expected an upload, got {:?}", other),
    }
    assert!(matches!(s.commit(CommitEvent::Uploaded), CommitAction::Done));
    assert_eq!(s.buffered_pages(), 0);
}
