use bottomless::catalog::{scan, Criterion, GenerationScan, Removal};
use bottomless::clock::Timestamp;
use bottomless::error::ReplicatorError;
use bottomless::generation::{Date, Generation};
use bottomless::keys::{generation_prefix, page_key};
use bottomless::listing::{ListPage, ListRequest, Pager};
use bottomless::replicator::Replicator;

fn day(year: i32, month: u32, day: u32) -> Date {
    Date { epoch_day: chrono::NaiveDate::from_ymd_opt(year, month, day).unwrap().to_epoch_days() }
}

fn minted_on(year: i32, month: u32, d: u32) -> Generation {
    let seconds = day(year, month, d).epoch_day as u64 * 86400 + 3600;
    Generation::mint_at(Timestamp { seconds, nanos: 0 }).unwrap()
}

fn session() -> Replicator {
    Replicator::new("mydb".to_string(), "bucket".to_string(), Generation { id: 7 << 76 })
}

fn groups(generations: &[Generation], next_marker: Option<&str>) -> ListPage {
    ListPage {
        objects: None,
        prefixes: Some(generations.iter().map(|g| generation_prefix("mydb", g)).collect()),
        next_marker: next_marker.map(|m| m.to_string()),
    }
}

fn objects(keys: &[String], next_marker: Option<&str>) -> ListPage {
    ListPage {
        objects: Some(keys.to_vec()),
        prefixes: None,
        next_marker: next_marker.map(|m| m.to_string()),
    }
}

fn assert_request(request: &ListRequest, prefix: &str, delimiter: Option<char>, marker: Option<&str>) {
    assert_eq!(request.prefix, prefix);
    assert_eq!(request.delimiter, delimiter);
    assert_eq!(request.marker.as_deref(), marker);
    assert_eq!(request.max_keys, None);
}

#[test]
fn filter_keeps_generations_within_both_days() {
    let january = minted_on(2023, 1, 1);
    let june = minted_on(2023, 6, 1);
    let december = minted_on(2023, 12, 1);
    let mut walk = session().list_generations(None, Some(day(2023, 7, 1)), Some(day(2023, 2, 1)));
    let request = walk.request().unwrap();
    assert_request(&request, "mydb", Some('/'), None);
    let batch = walk.accept(&groups(&[december, june, january], None));
    assert_eq!(batch.items, vec![june]);
    assert!(batch.failure.is_none());
    assert!(batch.listed);
    assert!(walk.request().is_none());
    assert_eq!(walk.emitted, 1);
}

#[test]
fn filter_bounds_are_inclusive() {
    let june = minted_on(2023, 6, 1);
    let c = Criterion::Within { newer_than: Some(day(2023, 6, 1)), older_than: Some(day(2023, 6, 1)) };
    assert!(c.check(june.date()));
    assert!(!c.check(day(2023, 5, 31)));
    assert!(!c.check(day(2023, 6, 2)));
    let open = Criterion::Within { newer_than: None, older_than: None };
    assert!(open.check(Date { epoch_day: i32::MIN }));
    assert!(open.check(Date { epoch_day: i32::MAX }));
    let before = Criterion::Before(day(2023, 6, 1));
    assert!(!before.check(day(2023, 6, 1)));
    assert!(before.check(day(2023, 5, 31)));
}

#[test]
fn listing_without_filter_hands_out_every_generation_in_listing_order() {
    let a = minted_on(2024, 1, 1);
    let b = minted_on(2023, 1, 1);
    let c = minted_on(2022, 1, 1);
    let mut walk = session().list_generations(None, None, None);
    let batch = walk.accept(&groups(&[a, b, c], None));
    assert_eq!(batch.items, vec![a, b, c]);
}

#[test]
fn limit_stops_the_listing() {
    let all: Vec<Generation> = (1..=5).map(|m| minted_on(2023, m, 1)).rev().collect();
    let mut walk = session().list_generations(Some(2), None, None);
    let batch = walk.accept(&groups(&all, Some("more")));
    assert_eq!(batch.items, vec![all[0], all[1]]);
    assert!(batch.failure.is_none());
    assert!(walk.request().is_none());
    assert_eq!(walk.remaining, Some(0));
}

#[test]
fn limit_counts_only_generations_that_pass_the_filter() {
    let all: Vec<Generation> = (1..=5).map(|m| minted_on(2023, m, 1)).rev().collect();
    let mut walk = session().list_generations(Some(2), Some(day(2023, 3, 15)), None);
    let batch = walk.accept(&groups(&all, None));
    assert_eq!(batch.items, vec![all[2], all[3]]);
}

#[test]
fn limit_carries_over_pages() {
    let all: Vec<Generation> = (1..=6).map(|m| minted_on(2023, m, 1)).rev().collect();
    let mut walk = session().list_generations(Some(3), None, None);
    let first = walk.accept(&groups(&all[0..2], Some("m1")));
    assert_eq!(first.items, all[0..2].to_vec());
    assert_request(&walk.request().unwrap(), "mydb", Some('/'), Some("m1"));
    let second = walk.accept(&groups(&all[2..4], Some("m2")));
    assert_eq!(second.items, vec![all[2]]);
    assert!(walk.request().is_none());
    let third = walk.accept(&groups(&all[4..6], None));
    assert!(third.items.is_empty());
    assert_eq!(walk.emitted, 3);
}

#[test]
fn limit_of_zero_asks_for_nothing() {
    let mut walk = session().list_generations(Some(0), None, None);
    assert!(walk.request().is_none());
    let batch = walk.accept(&groups(&[minted_on(2023, 1, 1)], None));
    assert!(batch.items.is_empty());
}

#[test]
fn listing_walks_every_page_once() {
    let all: Vec<Generation> = (1..=12).map(|m| minted_on(2023, m, 1)).rev().collect();
    let pages = [
        groups(&all[0..5], Some("a")),
        groups(&all[5..10], Some("b")),
        groups(&all[10..12], None),
    ];
    let mut walk = session().list_generations(None, None, None);
    let mut seen = Vec::new();
    let mut markers = Vec::new();
    let mut next = 0;
    while let Some(request) = walk.request() {
        markers.push(request.marker.clone());
        let batch = walk.accept(&pages[next]);
        next += 1;
        seen.extend(batch.items);
    }
    assert_eq!(next, 3);
    assert_eq!(markers, vec![None, Some("a".to_string()), Some("b".to_string())]);
    assert_eq!(seen, all);
    assert_eq!(walk.emitted, 12);
}

#[test]
fn malformed_prefix_ends_the_listing_after_what_came_before() {
    let a = minted_on(2023, 3, 1);
    let b = minted_on(2023, 2, 1);
    let page = ListPage {
        objects: None,
        prefixes: Some(vec![
            generation_prefix("mydb", &a),
            "mydb-backup/".to_string(),
            generation_prefix("mydb", &b),
        ]),
        next_marker: Some("more".to_string()),
    };
    let mut walk = session().list_generations(None, None, None);
    let batch = walk.accept(&page);
    assert_eq!(batch.items, vec![a]);
    match batch.failure {
        Some(ReplicatorError::MalformedKey(key)) => assert_eq!(key, "mydb-backup/"),
        other => panic!("expected a malformed key, got {:?}", other),
    }
    assert!(walk.request().is_none());
}

#[test]
fn malformed_prefix_past_the_limit_is_not_looked_at() {
    let a = minted_on(2023, 3, 1);
    let prefixes = vec![generation_prefix("mydb", &a), "mydb-backup/".to_string()];
    let (found, failure) = scan("mydb", &prefixes, Criterion::Within { newer_than: None, older_than: None }, Some(1));
    assert_eq!(found, vec![a]);
    assert!(failure.is_none());
}

#[test]
fn page_without_a_list_of_generations_ends_the_listing() {
    let mut walk = session().list_generations(None, None, None);
    let batch = walk.accept(&ListPage { objects: None, prefixes: None, next_marker: Some("m".to_string()) });
    assert!(batch.items.is_empty());
    assert!(!batch.listed);
    assert!(batch.failure.is_none());
    assert!(walk.request().is_none());
}

#[test]
fn remove_many_hands_out_generations_created_before_the_day() {
    let january = minted_on(2023, 1, 1);
    let june = minted_on(2023, 6, 1);
    let december = minted_on(2023, 12, 1);
    let mut walk = session().remove_many(day(2023, 6, 1));
    assert_request(&walk.request().unwrap(), "mydb", Some('/'), None);
    let first = walk.accept(&groups(&[december, june], Some("m")));
    assert!(first.items.is_empty());
    assert_request(&walk.request().unwrap(), "mydb", Some('/'), Some("m"));
    let second = walk.accept(&groups(&[january], None));
    assert_eq!(second.items, vec![january]);
    assert!(walk.request().is_none());
    assert_eq!(walk.emitted, 1);
}

#[test]
fn remove_many_treats_an_undatable_generation_as_oldest() {
    let undatable = Generation { id: 0xffffffff_ffff_7000_8000_000000000000 };
    let mut walk = session().remove_many(Date { epoch_day: -96_465_291 });
    let batch = walk.accept(&groups(&[undatable], None));
    assert_eq!(batch.items, vec![undatable]);
}

#[test]
fn remove_hands_out_every_key_of_every_page() {
    let g = minted_on(2023, 1, 1);
    let keys: Vec<String> = (0..7).map(|n| page_key("mydb", &g, n)).collect();
    let pages = [
        objects(&keys[0..3], Some("k2")),
        objects(&keys[3..6], Some("k5")),
        objects(&keys[6..7], None),
    ];
    let mut walk = session().remove(g);
    let mut deleted = Vec::new();
    let mut markers = Vec::new();
    let mut next = 0;
    while let Some(request) = walk.request() {
        assert_eq!(request.prefix, generation_prefix("mydb", &g));
        assert_eq!(request.delimiter, None);
        markers.push(request.marker.clone());
        let batch = walk.accept(&pages[next]);
        next += 1;
        assert!(batch.failure.is_none());
        deleted.extend(batch.items);
    }
    assert_eq!(next, 3);
    assert_eq!(markers, vec![None, Some("k2".to_string()), Some("k5".to_string())]);
    assert_eq!(deleted, keys);
}

#[test]
fn remove_of_a_generation_without_objects_does_nothing() {
    let g = minted_on(2023, 1, 1);
    let mut walk = session().remove(g);
    assert!(walk.request().is_some());
    let batch = walk.accept(&ListPage { objects: None, prefixes: None, next_marker: None });
    assert!(batch.items.is_empty());
    assert!(!batch.listed);
    assert!(batch.failure.is_none());
    assert!(walk.request().is_none());
}

#[test]
fn walk_that_is_over_hands_out_nothing() {
    let g = minted_on(2023, 1, 1);
    let mut walk = Removal::start(generation_prefix("mydb", &g));
    let first = walk.accept(&objects(&[page_key("mydb", &g, 1)], None));
    assert_eq!(first.items.len(), 1);
    let again = walk.accept(&objects(&[page_key("mydb", &g, 2)], Some("m")));
    assert!(again.items.is_empty());
    assert!(again.listed);
    assert!(walk.request().is_none());
}

#[test]
fn pager_follows_markers_until_none_is_returned() {
    let mut pager = Pager::start("p".to_string(), Some('/'));
    assert_request(&pager.request().unwrap(), "p", Some('/'), None);
    pager.turn(&Some("m1".to_string()), true);
    assert_request(&pager.request().unwrap(), "p", Some('/'), Some("m1"));
    pager.turn(&None, true);
    assert!(pager.request().is_none());
    let mut stopped = Pager::start("p".to_string(), None);
    stopped.turn(&Some("m1".to_string()), false);
    assert!(stopped.request().is_none());
}

#[test]
fn scan_start_asks_for_the_groups_of_the_database() {
    let walk = GenerationScan::start("db", Criterion::Before(Date { epoch_day: 0 }), None);
    assert_request(&walk.request().unwrap(), "db", Some('/'), None);
    assert_eq!(walk.emitted, 0);
    assert_eq!(walk.remaining, None);
}
