use bottomless::clock::{Timestamp, FAR_FUTURE_NANOS, FAR_FUTURE_SECONDS};
use bottomless::generation::{Date, Generation};

#[test]
fn reverse_counts_down_from_the_far_future() {
    let t = Timestamp { seconds: 1_700_000_000, nanos: 123_000_000 };
    assert_eq!(
        t.reverse(),
        Some(Timestamp { seconds: 251_670_761_200, nanos: 876_000_000 })
    );
    assert_eq!(t.reverse().unwrap().reverse(), Some(t));
}

#[test]
fn reverse_rejects_times_past_the_far_future() {
    assert_eq!(Timestamp { seconds: FAR_FUTURE_SECONDS + 1, nanos: 0 }.reverse(), None);
    assert_eq!(Timestamp { seconds: 0, nanos: FAR_FUTURE_NANOS + 1 }.reverse(), None);
    assert_eq!(
        Timestamp { seconds: FAR_FUTURE_SECONDS, nanos: FAR_FUTURE_NANOS }.reverse(),
        Some(Timestamp { seconds: 0, nanos: 0 })
    );
}

#[test]
fn minted_generation_recovers_its_time_to_the_millisecond() {
    let now = Timestamp { seconds: 1_687_000_000, nanos: 999_999_999 };
    let g = Generation::mint_at(now).unwrap();
    assert_eq!(g.created_at(), Some(Timestamp { seconds: 1_687_000_000, nanos: 999_000_000 }));
    assert_eq!(g.date(), Date { epoch_day: 19525 });
}
