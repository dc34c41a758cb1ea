use bottomless::buffer::PAGE_SIZE;
use bottomless::error::ReplicatorError;
use bottomless::generation::Generation;
use bottomless::keys::{generation_prefix, page_key, snapshot_key};
use bottomless::listing::ListPage;
use bottomless::replicator::{CommitAction, CommitEvent, Replicator};
use bottomless::restore::{find_pages, Restore};
use std::collections::BTreeMap;

const G: Generation = Generation { id: 0x017f22e2_79b0_7aaa_9c4e_0242ac120002 };

fn session() -> Replicator {
    Replicator::new("mydb".to_string(), "bucket".to_string(), G)
}

fn commit(session: &mut Replicator, store: &mut BTreeMap<String, Vec<u8>>) {
    let mut action = session.commit(CommitEvent::Begin);
    loop {
        match action {
            CommitAction::Upload { key, body } => {
                store.insert(key, body);
                action = session.commit(CommitEvent::Uploaded);
            }
            CommitAction::Done => return,
            CommitAction::Abort(e) => panic!("commit failed: {:?}", e),
        }
    }
}

/// Answers a listing request from the store, `page_len` keys at a time.
fn list(store: &BTreeMap<String, Vec<u8>>, prefix: &str, marker: Option<&str>, page_len: usize) -> ListPage {
    let keys: Vec<String> = store
        .keys()
        .filter(|k| k.starts_with(prefix))
        .filter(|k| marker.map_or(true, |m| k.as_str() > m))
        .cloned()
        .collect();
    if keys.is_empty() {
        return ListPage { objects: None, prefixes: None, next_marker: None };
    }
    let truncated = keys.len() > page_len;
    let page: Vec<String> = keys.into_iter().take(page_len).collect();
    let next_marker = if truncated { page.last().cloned() } else { None };
    ListPage { objects: Some(page), prefixes: None, next_marker }
}

fn restore(session: &Replicator, store: &BTreeMap<String, Vec<u8>>, page_len: usize) -> Result<Vec<(u32, Vec<u8>)>, ReplicatorError> {
    let mut walk = session.boot();
    let mut pages = Vec::new();
    while let Some(request) = walk.request() {
        let answer = list(store, &request.prefix, request.marker.as_deref(), page_len);
        let batch = walk.accept(&answer);
        for object in batch.items {
            pages.push((object.page_no, store[&object.key].clone()));
        }
        if let Some(e) = batch.failure {
            return Err(e);
        }
    }
    Ok(pages)
}

#[test]
fn restore_yields_exactly_the_pages_committed() {
    let a = vec![b'A'; PAGE_SIZE];
    let b = vec![b'B'; PAGE_SIZE];
    let c = vec![b'C'; PAGE_SIZE];
    let mut s = session();
    s.write(0, &a);
    s.write(1, &b);
    s.write(2, &c);
    let mut store = BTreeMap::new();
    commit(&mut s, &mut store);
    assert_eq!(store.len(), 3);
    let pages = restore(&s, &store, 1000).unwrap();
    assert_eq!(pages, vec![(0, a), (1, b), (2, c)]);
}

#[test]
fn restore_over_many_listing_pages_visits_each_object_once() {
    let mut s = session();
    for n in 0..25u32 {
        s.write(n * 3, &vec![n as u8; PAGE_SIZE]);
    }
    let mut store = BTreeMap::new();
    commit(&mut s, &mut store);
    for page_len in [1, 2, 7, 24, 25, 26] {
        let pages = restore(&s, &store, page_len).unwrap();
        let expected: Vec<(u32, Vec<u8>)> = (0..25u32).map(|n| (n * 3, vec![n as u8; PAGE_SIZE])).collect();
        assert_eq!(pages, expected, "page length {}", page_len);
    }
}

#[test]
fn restore_leaves_other_generations_and_the_snapshot_aside() {
    let other = Generation { id: 0x017f22e2_79b1_7aaa_9c4e_0242ac120002 };
    let mut store = BTreeMap::new();
    store.insert(page_key("mydb", &other, 9), vec![9u8; PAGE_SIZE]);
    store.insert(snapshot_key("mydb", &G), vec![1, 2, 3]);
    let mut s = session();
    s.write(4, &vec![4u8; PAGE_SIZE]);
    commit(&mut s, &mut store);
    assert_eq!(restore(&s, &store, 10).unwrap(), vec![(4, vec![4u8; PAGE_SIZE])]);
    let walk = s.restore_from(other);
    assert_eq!(walk.request().unwrap().prefix, generation_prefix("mydb", &other));
}

#[test]
fn restore_of_an_empty_generation_yields_no_pages() {
    let store = BTreeMap::new();
    assert_eq!(restore(&session(), &store, 10).unwrap(), vec![]);
}

#[test]
fn key_that_names_no_page_ends_the_restore() {
    let prefix = generation_prefix("mydb", &G);
    let stray = format!("{}notes.txt", prefix);
    let keys = vec![page_key("mydb", &G, 1), stray.clone(), page_key("mydb", &G, 2)];
    let (found, failure) = find_pages(&prefix, &keys);
    assert_eq!(found.len(), 1);
    assert_eq!(found[0].page_no, 1);
    assert_eq!(found[0].key, keys[0]);
    match failure {
        Some(ReplicatorError::MalformedKey(key)) => assert_eq!(key, stray),
        other => panic!("expected a malformed key, got {:?}", other),
    }
    let mut walk = Restore::start(prefix);
    let batch = walk.accept(&ListPage { objects: Some(keys), prefixes: None, next_marker: Some("m".to_string()) });
    assert_eq!(batch.items.len(), 1);
    assert!(batch.failure.is_some());
    assert!(walk.request().is_none());
}
