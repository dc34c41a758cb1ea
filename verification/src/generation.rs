//! Generations: time-ordered identifiers under which the pages of one
//! replication epoch are stored. A generation embeds its creation time
//! counted down from a far-future instant, so that names sort newest first.

use crate::clock::{Timestamp, FAR_FUTURE_SECONDS, NANOS_PER_MILLI};
use crate::error::{ErrorView, ReplicatorError};
use crate::outside::{
    embedded_time, embedded_unix_time, epoch_day, hex_digits, hyphenated, millis_of, new_v7,
    parse_uuid, uuid_parsed, uuid_text, version_of, EARLIEST_EPOCH_DAY,
};
use crate::text::{differ_at, precedes};
use vstd::prelude::*;

verus! {

/// A calendar day, counted in days since 1 January 1970.
#[derive(Clone, Copy, Debug, PartialEq, Eq, Structural)]
pub struct Date {
    pub epoch_day: i32,
}

/// The identifier of one generation: 128 bits, most significant first.
#[derive(Clone, Copy, Debug, PartialEq, Eq, Hash, Structural)]
pub struct Generation {
    pub id: u128,
}

impl Generation {
    /// The canonical text of the identifier, as it appears in object keys.
    pub open spec fn text(self) -> Seq<char> {
        hyphenated(self.id)
    }

    /// The time stored in the identifier; the Unix epoch where it stores none.
    pub open spec fn stored_time(self) -> Timestamp {
        match embedded_time(self.id) {
            Some((seconds, nanos)) => Timestamp { seconds, nanos },
            None => Timestamp { seconds: 0, nanos: 0 },
        }
    }

    /// The creation time: the stored time counted down from the far-future
    /// instant, or nothing where the stored time lies beyond that instant.
    pub open spec fn created(self) -> Option<Timestamp> {
        if self.stored_time().reversible() {
            Some(self.stored_time().reversed())
        } else {
            None
        }
    }

    /// The calendar day of the creation time; the earliest day of the
    /// calendar where there is no creation time.
    pub open spec fn created_on(self) -> Date {
        match self.created() {
            Some(t) => Date { epoch_day: (t.seconds / 86400) as i32 },
            None => Date { epoch_day: EARLIEST_EPOCH_DAY },
        }
    }

    /// Whether this identifier is one that `mint_at` may return for `now`:
    /// a version 7 identifier whose millisecond field holds `now`, cut to
    /// whole milliseconds and counted down from the far-future instant.
    pub open spec fn minted_at(self, now: Timestamp) -> bool {
        &&& now.seconds <= FAR_FUTURE_SECONDS
        &&& now.nanos < 1000000000
        &&& version_of(self.id) == 7
        &&& millis_of(self.id) == now.truncated().reversed().millis()
    }

    /// Reads an identifier from its text.
    pub fn parse(text: &str) -> (r: Result<Generation, ReplicatorError>)
        ensures
            match uuid_parsed(text@) {
                Some(id) => r == Ok::<Generation, ReplicatorError>(Generation { id }),
                None => r matches Err(e) && e@ == ErrorView::MalformedKey(text@),
            },
    {
        match parse_uuid(text) {
            Ok(id) => Ok(Generation { id }),
            Err(_) => Err(ReplicatorError::MalformedKey(text.to_owned())),
        }
    }

    /// Writes the identifier in its canonical text, which `parse` reads back.
    pub fn to_text(&self) -> (text: String)
        ensures
            text@ == self.text(),
            uuid_parsed(text@) == Some(self.id),
    {
        uuid_text(self.id)
    }

    /// Recovers the creation time from the identifier.
    pub fn created_at(&self) -> (r: Option<Timestamp>)
        ensures
            r == self.created(),
    {
        let stored = match embedded_unix_time(self.id) {
            Some((seconds, nanos)) => Timestamp { seconds, nanos },
            None => Timestamp { seconds: 0, nanos: 0 },
        };
        stored.reverse()
    }

    /// The calendar day on which the generation was created.
    pub fn date(&self) -> (r: Date)
        ensures
            r == self.created_on(),
    {
        match self.created_at() {
            Some(t) => {
                match epoch_day(t.seconds as i64, t.nanos) {
                    Some(epoch_day) => Date { epoch_day },
                    None => Date { epoch_day: EARLIEST_EPOCH_DAY },
                }
            },
            None => Date { epoch_day: EARLIEST_EPOCH_DAY },
        }
    }

    /// Mints a generation for a session opened at `now`. The identifier
    /// keeps `now` to the millisecond; its remaining bits are random, so two
    /// calls differ. Times past the far-future instant cannot be minted.
    pub fn mint_at(now: Timestamp) -> (r: Option<Generation>)
        ensures
            r is Some <==> now.seconds <= FAR_FUTURE_SECONDS && now.nanos < 1000000000,
            r matches Some(g) ==> g.minted_at(now) && g.created() == Some(now.truncated()),
    {
        if now.seconds > FAR_FUTURE_SECONDS || now.nanos >= 1000000000 {
            return None;
        }
        match now.truncate().reverse() {
            Some(stored) => {
                let g = Generation { id: new_v7(stored.seconds, stored.nanos) };
                proof {
                    lemma_minted_round_trip(g, now);
                }
                Some(g)
            },
            None => None,
        }
    }
}

/// Round trip: a generation minted at some time yields that time again, to
/// the millisecond.
pub proof fn lemma_minted_round_trip(g: Generation, now: Timestamp)
    requires
        g.minted_at(now),
    ensures
        g.created() == Some(now.truncated()),
{
    let cut = now.truncated();
    let stored = cut.reversed();
    assert(cut.nanos % NANOS_PER_MILLI == 0);
    assert(stored.nanos % NANOS_PER_MILLI == 0);
    assert(stored.nanos / NANOS_PER_MILLI < 1000);
    let m = stored.millis();
    assert(m / 1000 == stored.seconds);
    assert(m % 1000 == stored.nanos / NANOS_PER_MILLI);
    assert(g.stored_time() == stored);
}

/// Sixteen to the power of `exponent`.
pub open spec fn pow16(exponent: nat) -> nat
    decreases exponent,
{
    if exponent == 0 {
        1
    } else {
        16 * pow16((exponent - 1) as nat)
    }
}

/// Of two numbers written in the same number of hexadecimal digits, the
/// lesser has the lesser digit where the two first differ.
pub proof fn lemma_hex_order(lesser: nat, greater: nat, width: nat) -> (at: int)
    requires
        lesser < greater < pow16(width),
    ensures
        hex_digits(lesser, width).len() == width,
        hex_digits(greater, width).len() == width,
        differ_at(hex_digits(lesser, width), hex_digits(greater, width), at),
    decreases width,
{
    crate::keys::lemma_hex_length(lesser, width);
    crate::keys::lemma_hex_length(greater, width);
    let x = hex_digits(lesser, width);
    let y = hex_digits(greater, width);
    let rest_x = hex_digits(lesser / 16, (width - 1) as nat);
    let rest_y = hex_digits(greater / 16, (width - 1) as nat);
    crate::keys::lemma_hex_length(lesser / 16, (width - 1) as nat);
    crate::keys::lemma_hex_length(greater / 16, (width - 1) as nat);
    if lesser / 16 < greater / 16 {
        let at = lemma_hex_order(lesser / 16, greater / 16, (width - 1) as nat);
        assert(x.take(at) == rest_x.take(at));
        assert(y.take(at) == rest_y.take(at));
        assert(x[at] == rest_x[at]);
        assert(y[at] == rest_y[at]);
        at
    } else {
        assert(lesser / 16 == greater / 16);
        assert(lesser % 16 < greater % 16);
        let at = width - 1;
        assert(x.take(at) == rest_x);
        assert(y.take(at) == rest_y);
        at
    }
}

/// The text of the lesser of two identifiers comes first.
pub proof fn lemma_text_order(lesser: Generation, greater: Generation)
    requires
        lesser.id < greater.id,
    ensures
        precedes(lesser.text(), greater.text()),
{
    assert(greater.id < pow16(32)) by {
        reveal_with_fuel(pow16, 33);
    }
    let at = lemma_hex_order(lesser.id as nat, greater.id as nat, 32);
    let x = hex_digits(lesser.id as nat, 32);
    let y = hex_digits(greater.id as nat, 32);
    let shifted = at + (if at >= 20 {
        4int
    } else if at >= 16 {
        3int
    } else if at >= 12 {
        2int
    } else if at >= 8 {
        1int
    } else {
        0int
    });
    let a = lesser.text();
    let b = greater.text();
    assert(a.len() == 36 && b.len() == 36);
    assert(a[shifted] == x[at]);
    assert(b[shifted] == y[at]);
    assert forall|j: int| 0 <= j < shifted implies a[j] == b[j] by {
        let i = j - (if j > 23 {
            4int
        } else if j > 18 {
            3int
        } else if j > 13 {
            2int
        } else if j > 8 {
            1int
        } else {
            0int
        });
        if j != 8 && j != 13 && j != 18 && j != 23 {
            assert(a[j] == x[i]);
            assert(b[j] == y[i]);
            assert(x[i] == x.take(at)[i]);
            assert(y[i] == y.take(at)[i]);
        }
    }
    assert(a.take(shifted) =~= b.take(shifted));
    assert(differ_at(a, b, shifted));
}

/// Ordering: of two generations minted at times that differ by a
/// millisecond or more, the newer has the lesser identifier, and its text
/// comes first, so that an ascending listing shows the newest generation first.
pub proof fn lemma_newer_sorts_first(
    earlier: Timestamp,
    later: Timestamp,
    older: Generation,
    newer: Generation,
)
    requires
        older.minted_at(earlier),
        newer.minted_at(later),
        earlier.truncated().earlier_than(later.truncated()),
    ensures
        newer.id < older.id,
        precedes(newer.text(), older.text()),
{
    let stored_older = earlier.truncated().reversed();
    let stored_newer = later.truncated().reversed();
    assert(earlier.truncated().nanos % NANOS_PER_MILLI == 0);
    assert(later.truncated().nanos % NANOS_PER_MILLI == 0);
    assert(stored_newer.millis() < stored_older.millis());
    assert(millis_of(newer.id) < millis_of(older.id));
    lemma_text_order(newer, older);
}

} // verus!
