use bottomless::error::ReplicatorError;
use bottomless::generation::Generation;
use bottomless::keys::generation_prefix;
use bottomless::listing::ListPage;
use bottomless::metadata::{marker, snapshot_summary, Fetched, SnapshotAttributes, SnapshotSummary};
use bottomless::replicator::Replicator;

const G: Generation = Generation { id: 0x6f9c2c66_1f3a_11ee_9c4e_0242ac120002 };

fn session() -> Replicator {
    Replicator::new("mydb".to_string(), "bucket".to_string(), G)
}

fn page(objects: Option<Vec<&str>>, prefixes: Option<Vec<&str>>) -> ListPage {
    ListPage {
        objects: objects.map(|l| l.into_iter().map(|s| s.to_string()).collect()),
        prefixes: prefixes.map(|l| l.into_iter().map(|s| s.to_string()).collect()),
        next_marker: None,
    }
}

#[test]
fn snapshot_that_is_there_is_reported_with_size_and_age() {
    let found = Fetched::Found(SnapshotAttributes {
        size: 8192,
        last_modified: Some("2023-07-10T15:57:13Z".to_string()),
    });
    match snapshot_summary(found) {
        SnapshotSummary::Present { size, last_modified } => {
            assert_eq!(size, 8192);
            assert_eq!(last_modified.as_deref(), Some("2023-07-10T15:57:13Z"));
        }
        other => panic!("expected a snapshot, got {:?}", other),
    }
    assert!(matches!(
        snapshot_summary(Fetched::Found(SnapshotAttributes { size: 0, last_modified: None })),
        SnapshotSummary::Present { size: 0, last_modified: None }
    ));
}

#[test]
fn missing_snapshot_is_reported_as_absent() {
    assert!(matches!(snapshot_summary(Fetched::NotFound), SnapshotSummary::Absent));
}

#[test]
fn failed_snapshot_read_is_reported_and_is_no_error() {
    match snapshot_summary(Fetched::Failed("access denied".to_string())) {
        SnapshotSummary::Unavailable(message) => assert_eq!(message, "access denied"),
        other => panic!("expected an unavailable snapshot, got {:?}", other),
    }
}

#[test]
fn marker_that_is_missing_is_absent_and_a_failed_read_is_an_error() {
    assert_eq!(marker(Fetched::Found(17u32)).unwrap(), Some(17));
    assert_eq!(marker(Fetched::<u32>::NotFound).unwrap(), None);
    match marker(Fetched::<u32>::Failed("timeout".to_string())) {
        Err(ReplicatorError::Transport(message)) => assert_eq!(message, "timeout"),
        other => panic!("expected a transport failure, got {:?}", other),
    }
}

#[test]
fn detect_db_reads_the_name_off_the_first_group() {
    let answer = page(None, Some(vec!["mydb-6f9c2c66-1f3a-11ee-9c4e-0242ac120002/", "zzz"]));
    assert_eq!(Replicator::detect_db(Some(&answer)), Some("mydb".to_string()));
}

#[test]
fn detect_db_finds_nothing_without_a_fitting_first_group() {
    assert_eq!(Replicator::detect_db(None), None);
    assert_eq!(Replicator::detect_db(Some(&page(None, None))), None);
    assert_eq!(Replicator::detect_db(Some(&page(None, Some(vec![])))), None);
    let answer = page(None, Some(vec!["mydb/", "mydb-6f9c2c66-1f3a-11ee-9c4e-0242ac120002/"]));
    assert_eq!(Replicator::detect_db(Some(&answer)), None);
}

#[test]
fn generations_request_lists_groups_under_the_database_name() {
    let request = session().generations_request();
    assert_eq!(request.prefix, "mydb");
    assert_eq!(request.delimiter, Some('/'));
    assert_eq!(request.marker, None);
    assert_eq!(request.max_keys, None);
}

#[test]
fn bucket_is_empty_when_nothing_is_listed() {
    let request = Replicator::bucket_request();
    assert_eq!(request.prefix, "");
    assert_eq!(request.delimiter, None);
    assert_eq!(request.marker, None);
    assert!(Replicator::is_bucket_empty(Some(&page(None, None))));
    assert!(Replicator::is_bucket_empty(Some(&page(Some(vec![]), None))));
    assert!(!Replicator::is_bucket_empty(Some(&page(Some(vec!["k"]), None))));
    assert!(!Replicator::is_bucket_empty(None));
}

#[test]
fn generation_with_an_object_is_found() {
    let s = session();
    let request = s.generation_request(G);
    assert_eq!(request.prefix, generation_prefix("mydb", &G));
    assert_eq!(request.delimiter, None);
    assert_eq!(request.marker, None);
    assert_eq!(request.max_keys, Some(1));
    let answer = page(Some(vec!["mydb-6f9c2c66-1f3a-11ee-9c4e-0242ac120002/000000000001"]), None);
    assert!(s.list_generation(G, &answer).is_ok());
}

#[test]
fn generation_without_objects_is_not_found() {
    let s = session();
    for answer in [page(None, None), page(Some(vec![]), None)] {
        match s.list_generation(G, &answer) {
            Err(ReplicatorError::NotFound(what)) => {
                assert_eq!(what, "6f9c2c66-1f3a-11ee-9c4e-0242ac120002")
            }
            other => panic!("expected not found, got {:?}", other),
        }
    }
}
