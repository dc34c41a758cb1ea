//! Names of remote objects. Every object of a generation lives under the
//! prefix `<db_name>-<generation>/`; a page is named by its number in
//! twelve decimal digits, the consolidated snapshot is named `db.gz`.

use crate::error::{ErrorView, ReplicatorError};
use crate::generation::Generation;
use crate::outside::{hex_digits, uuid_parsed};
use crate::text::{
    all_digits, chars_of, decimal_digits, decimal_value, lemma_decimal_round_trip,
    lemma_page_numbers_fit, matches_at, push_decimal, read_decimal, starts_with, text_of,
};
use vstd::prelude::*;
use vstd::string::StringExecFns;

verus! {

/// The number of digits in which a page number is written.
pub const PAGE_DIGITS: u32 = 12;

/// The number of characters that follow the database name in the prefix of
/// a generation: a hyphen, the 36 characters of the identifier and a slash.
pub const GENERATION_SUFFIX_LEN: usize = 38;

/// What an object under the prefix of a generation holds.
#[derive(Clone, Copy, Debug, PartialEq, Eq, Structural)]
pub enum ObjectKind {
    /// One page, with its number.
    Page(u32),
    /// The consolidated snapshot of the whole database.
    Snapshot,
    /// Neither: the key does not belong to the generation's objects.
    Unknown,
}

/// The name of the snapshot object within a generation.
pub open spec fn snapshot_name() -> Seq<char> {
    seq!['d', 'b', '.', 'g', 'z']
}

/// The prefix shared by all objects of a generation.
pub open spec fn generation_prefix_of(db_name: Seq<char>, generation: Generation) -> Seq<char> {
    db_name + seq!['-'] + generation.text() + seq!['/']
}

/// The key of one page.
pub open spec fn page_key_of(db_name: Seq<char>, generation: Generation, page_no: u32) -> Seq<
    char,
> {
    generation_prefix_of(db_name, generation) + decimal_digits(page_no as nat, PAGE_DIGITS as nat)
}

/// The key of the consolidated snapshot.
pub open spec fn snapshot_key_of(db_name: Seq<char>, generation: Generation) -> Seq<char> {
    generation_prefix_of(db_name, generation) + snapshot_name()
}

/// What the object named `key` holds, for a generation with the given prefix.
pub open spec fn object_kind(prefix: Seq<char>, key: Seq<char>) -> ObjectKind {
    if !starts_with(key, prefix) {
        ObjectKind::Unknown
    } else {
        let name = key.subrange(prefix.len() as int, key.len() as int);
        if name == snapshot_name() {
            ObjectKind::Snapshot
        } else if name.len() == PAGE_DIGITS && all_digits(name) && decimal_value(name)
            <= u32::MAX {
            ObjectKind::Page(decimal_value(name) as u32)
        } else {
            ObjectKind::Unknown
        }
    }
}

/// The part of a listed prefix that names the generation: what stands
/// between the database name with one separator after it and the final
/// separator. A prefix too short to hold both separators names none.
pub open spec fn generation_segment(db_name: Seq<char>, prefix: Seq<char>) -> Option<Seq<char>> {
    if prefix.len() >= db_name.len() + 2 {
        Some(prefix.subrange(db_name.len() as int + 1, prefix.len() - 1))
    } else {
        None
    }
}

/// The generation that a listed prefix names, if it names one.
pub open spec fn generation_named(db_name: Seq<char>, prefix: Seq<char>) -> Option<Generation> {
    match generation_segment(db_name, prefix) {
        Some(segment) => match uuid_parsed(segment) {
            Some(id) => Some(Generation { id }),
            None => None,
        },
        None => None,
    }
}

/// The database name that a listed prefix begins with: what precedes the
/// last 38 characters, provided these begin with a hyphen. A prefix of
/// fewer than 38 characters holds no name.
pub open spec fn detected_name(prefix: Seq<char>) -> Option<Seq<char>> {
    if prefix.len() >= GENERATION_SUFFIX_LEN && prefix[prefix.len() - GENERATION_SUFFIX_LEN]
        == '-' {
        Some(prefix.subrange(0, prefix.len() - GENERATION_SUFFIX_LEN))
    } else {
        None
    }
}

/// Builds the prefix shared by all objects of a generation. The prefix
/// names the generation it was built from.
pub fn generation_prefix(db_name: &str, generation: &Generation) -> (prefix: String)
    ensures
        prefix@ == generation_prefix_of(db_name@, *generation),
        generation_named(db_name@, prefix@) == Some(*generation),
{
    let text = generation.to_text();
    let mut prefix = String::new();
    prefix.append(db_name);
    prefix.push('-');
    prefix.append(text.as_str());
    prefix.push('/');
    proof {
        let n = db_name@.len();
        assert(prefix@.subrange(n as int + 1, prefix@.len() - 1) == text@);
    }
    prefix
}

/// Builds the key under which one page of a generation is stored.
pub fn page_key(db_name: &str, generation: &Generation, page_no: u32) -> (key: String)
    ensures
        key@ == page_key_of(db_name@, *generation, page_no),
{
    let mut key = generation_prefix(db_name, generation);
    push_decimal(&mut key, page_no as u64, PAGE_DIGITS);
    key
}

/// Builds the key of the consolidated snapshot of a generation.
pub fn snapshot_key(db_name: &str, generation: &Generation) -> (key: String)
    ensures
        key@ == snapshot_key_of(db_name@, *generation),
{
    let mut key = generation_prefix(db_name, generation);
    key.push('d');
    key.push('b');
    key.push('.');
    key.push('g');
    key.push('z');
    assert(key@ == generation_prefix_of(db_name@, *generation) + snapshot_name());
    key
}

/// Tells what the object named `key` holds, for a generation with the
/// given prefix.
pub fn classify(prefix: &str, key: &str) -> (kind: ObjectKind)
    ensures
        kind == object_kind(prefix@, key@),
{
    let key_chars = chars_of(key);
    let prefix_chars = chars_of(prefix);
    if !matches_at(&key_chars, 0, &prefix_chars) {
        return ObjectKind::Unknown;
    }
    let start = prefix_chars.len();
    let ghost name = key@.subrange(start as int, key@.len() as int);
    let mut snapshot: Vec<char> = Vec::new();
    snapshot.push('d');
    snapshot.push('b');
    snapshot.push('.');
    snapshot.push('g');
    snapshot.push('z');
    assert(snapshot@ == snapshot_name());
    if key_chars.len() - start == 5 && matches_at(&key_chars, start, &snapshot) {
        return ObjectKind::Snapshot;
    }
    if key_chars.len() - start != PAGE_DIGITS as usize {
        return ObjectKind::Unknown;
    }
    match read_decimal(&key_chars, start, key_chars.len()) {
        Some(value) => {
            if value <= u32::MAX as u64 {
                ObjectKind::Page(value as u32)
            } else {
                ObjectKind::Unknown
            }
        },
        None => {
            proof {
                if all_digits(name) {
                    crate::text::lemma_twelve_digits_fit(name);
                }
            }
            ObjectKind::Unknown
        },
    }
}

/// Cuts out of a listed prefix the part that names the generation.
pub fn segment_of(db_name: &str, prefix: &str) -> (segment: Option<String>)
    ensures
        match generation_segment(db_name@, prefix@) {
            Some(expected) => segment matches Some(found) && found@ == expected,
            None => segment is None,
        },
{
    let chars = chars_of(prefix);
    let name_len = db_name.unicode_len();
    if chars.len() < 2 || chars.len() - 2 < name_len {
        return None;
    }
    Some(text_of(&chars, name_len + 1, chars.len() - 1))
}

/// Reads the generation that a listed prefix names. The prefix is taken to
/// begin with the database name; only the length of the name is used.
pub fn generation_of_prefix(db_name: &str, prefix: &str) -> (r: Result<
    Generation,
    ReplicatorError,
>)
    ensures
        match generation_named(db_name@, prefix@) {
            Some(generation) => r == Ok::<Generation, ReplicatorError>(generation),
            None => r matches Err(e) && e@ == ErrorView::MalformedKey(prefix@),
        },
{
    match segment_of(db_name, prefix) {
        Some(segment) => match Generation::parse(segment.as_str()) {
            Ok(generation) => Ok(generation),
            Err(_) => Err(ReplicatorError::MalformedKey(prefix.to_owned())),
        },
        None => Err(ReplicatorError::MalformedKey(prefix.to_owned())),
    }
}

/// Recovers the database name from the first prefix of a bucket listing.
pub fn detect_db_name(prefix: &str) -> (name: Option<String>)
    ensures
        match detected_name(prefix@) {
            Some(expected) => name matches Some(found) && found@ == expected,
            None => name is None,
        },
{
    let chars = chars_of(prefix);
    if chars.len() < GENERATION_SUFFIX_LEN {
        return None;
    }
    let at: usize = chars.len() - GENERATION_SUFFIX_LEN;
    if chars[at] == '-' {
        Some(text_of(&chars, 0, at))
    } else {
        None
    }
}

/// The text of an identifier has 36 characters.
pub proof fn lemma_text_length(generation: Generation)
    ensures
        generation.text().len() == 36,
{
    lemma_hex_length(generation.id as nat, 32);
}

/// A run of hexadecimal digits has the width it was written with.
pub proof fn lemma_hex_length(value: nat, width: nat)
    ensures
        hex_digits(value, width).len() == width,
    decreases width,
{
    if width > 0 {
        lemma_hex_length(value / 16, (width - 1) as nat);
    }
}

/// The key of a page is recognised as that page.
pub proof fn lemma_page_key_kind(db_name: Seq<char>, generation: Generation, page_no: u32)
    ensures
        object_kind(
            generation_prefix_of(db_name, generation),
            page_key_of(db_name, generation, page_no),
        ) == ObjectKind::Page(page_no),
{
    let prefix = generation_prefix_of(db_name, generation);
    let key = page_key_of(db_name, generation, page_no);
    let digits = decimal_digits(page_no as nat, PAGE_DIGITS as nat);
    lemma_page_numbers_fit(page_no as nat);
    lemma_decimal_round_trip(page_no as nat, PAGE_DIGITS as nat);
    assert(key.subrange(0, prefix.len() as int) == prefix);
    assert(key.subrange(prefix.len() as int, key.len() as int) == digits);
}

/// The key of the snapshot is recognised as the snapshot.
pub proof fn lemma_snapshot_key_kind(db_name: Seq<char>, generation: Generation)
    ensures
        object_kind(
            generation_prefix_of(db_name, generation),
            snapshot_key_of(db_name, generation),
        ) == ObjectKind::Snapshot,
{
    let prefix = generation_prefix_of(db_name, generation);
    let key = snapshot_key_of(db_name, generation);
    assert(key.subrange(0, prefix.len() as int) == prefix);
    assert(key.subrange(prefix.len() as int, key.len() as int) == snapshot_name());
}

/// The database name is recovered from the prefix of any of its generations.
pub proof fn lemma_detects_own_name(db_name: Seq<char>, generation: Generation)
    ensures
        detected_name(generation_prefix_of(db_name, generation)) == Some(db_name),
{
    lemma_text_length(generation);
    let prefix = generation_prefix_of(db_name, generation);
    assert(prefix.len() == db_name.len() + 38);
    assert(prefix[db_name.len() as int] == '-');
    assert(prefix.subrange(0, db_name.len() as int) == db_name);
}

} // verus!
