//! What commits and restores do to the remote history, stated over a model
//! of the object store: a map from keys to contents in which storing under
//! a key replaces what the key held.

use crate::buffer::{enumerates, PAGE_SIZE};
use crate::error::ErrorView;
use crate::generation::Generation;
use crate::keys::{generation_prefix_of, lemma_page_key_kind, object_kind, page_key_of, ObjectKind};
use crate::replicator::{commit_decision, CommitActionView};
use crate::restore::restorable;
use vstd::prelude::*;

verus! {

/// How a commit ends and what the object store holds then.
pub struct CommitRun {
    pub remote: Map<Seq<char>, Seq<u8>>,
    pub end: CommitActionView,
}

/// A commit run from position `at` of an enumeration of the buffer against
/// an object store whose uploads all succeed: every upload that the commit
/// asks for is stored, until the commit is done or aborts.
pub open spec fn commit_run(
    remote: Map<Seq<char>, Seq<u8>>,
    db_name: Seq<char>,
    generation: Generation,
    pages: Map<u32, Seq<u8>>,
    order: Seq<u32>,
    at: nat,
) -> CommitRun
    decreases order.len() - at,
{
    match commit_decision(db_name, generation, pages, order, at) {
        CommitActionView::Upload { key, body } => commit_run(
            remote.insert(key, body),
            db_name,
            generation,
            pages,
            order,
            at + 1,
        ),
        end => CommitRun { remote, end },
    }
}

/// Whether every buffered page has the size of a page.
pub open spec fn all_page_sized(pages: Map<u32, Seq<u8>>) -> bool {
    forall|page_no: u32| #[trigger]
        pages.contains_key(page_no) ==> pages[page_no].len() == PAGE_SIZE
}

/// Whether the page at a position of the enumeration is buffered and has
/// the size of a page.
pub open spec fn fits(pages: Map<u32, Seq<u8>>, order: Seq<u32>, at: int) -> bool {
    pages.contains_key(order[at]) && pages[order[at]].len() == PAGE_SIZE
}

/// The first position from `at` on whose page does not fit; the length of
/// the enumeration if there is none.
pub open spec fn first_misfit(pages: Map<u32, Seq<u8>>, order: Seq<u32>, at: nat) -> nat
    decreases order.len() - at,
{
    if at >= order.len() {
        order.len()
    } else if !fits(pages, order, at as int) {
        at
    } else {
        first_misfit(pages, order, at + 1)
    }
}

/// Whether one of the objects found holds the page.
pub open spec fn finds_page(found: Seq<(Seq<char>, u32)>, page_no: u32) -> bool {
    exists|i: int| 0 <= i < found.len() && (#[trigger] found[i]).1 == page_no
}

/// The pages that a restore yields from the objects found: each page
/// number with the content stored under the key of an object that holds it.
pub open spec fn restored(remote: Map<Seq<char>, Seq<u8>>, found: Seq<(Seq<char>, u32)>) -> Map<
    u32,
    Seq<u8>,
> {
    Map::new(
        |page_no: u32| finds_page(found, page_no),
        |page_no: u32|
            remote[found[choose|i: int|
                0 <= i < found.len() && (#[trigger] found[i]).1 == page_no].0],
    )
}

/// Different pages of a generation have different keys.
pub proof fn lemma_page_keys_differ(
    db_name: Seq<char>,
    generation: Generation,
    first: u32,
    second: u32,
)
    requires
        first != second,
    ensures
        page_key_of(db_name, generation, first) != page_key_of(db_name, generation, second),
{
    lemma_page_key_kind(db_name, generation, first);
    lemma_page_key_kind(db_name, generation, second);
}

/// The first misfit lies within the enumeration, is a misfit, and has
/// none before it.
pub proof fn lemma_first_misfit(pages: Map<u32, Seq<u8>>, order: Seq<u32>, at: nat)
    requires
        at <= order.len(),
    ensures
        at <= first_misfit(pages, order, at) <= order.len(),
        first_misfit(pages, order, at) < order.len() ==> !fits(
            pages,
            order,
            first_misfit(pages, order, at) as int,
        ),
        forall|i: int| at <= i < first_misfit(pages, order, at) ==> fits(pages, order, i),
    decreases order.len() - at,
{
    if at < order.len() && fits(pages, order, at as int) {
        lemma_first_misfit(pages, order, at + 1);
    }
}

/// What a commit run comes to. It ends at the first misfit with the
/// failure of that page, or is done where there is none. Every page before
/// that point is stored under its key, and no other key is touched.
pub proof fn lemma_commit_run(
    remote: Map<Seq<char>, Seq<u8>>,
    db_name: Seq<char>,
    generation: Generation,
    pages: Map<u32, Seq<u8>>,
    order: Seq<u32>,
    at: nat,
)
    requires
        at <= order.len(),
        order.no_duplicates(),
    ensures
        ({
            let stop = first_misfit(pages, order, at);
            let run = commit_run(remote, db_name, generation, pages, order, at);
            &&& run.end == commit_decision(db_name, generation, pages, order, stop)
            &&& !(run.end is Upload)
            &&& forall|i: int|
                at <= i < stop ==> run.remote.contains_key(
                    #[trigger] page_key_of(db_name, generation, order[i]),
                ) && run.remote[page_key_of(db_name, generation, order[i])] == pages[order[i]]
            &&& forall|key: Seq<char>|
                (forall|i: int|
                    at <= i < stop ==> key != #[trigger] page_key_of(db_name, generation, order[i]))
                    ==> (#[trigger] run.remote.contains_key(key) == remote.contains_key(key)
                    && run.remote[key] == remote[key])
        }),
    decreases order.len() - at,
{
    lemma_first_misfit(pages, order, at);
    let stop = first_misfit(pages, order, at);
    let run = commit_run(remote, db_name, generation, pages, order, at);
    if at < stop {
        assert(fits(pages, order, at as int));
        let key = page_key_of(db_name, generation, order[at as int]);
        let next = remote.insert(key, pages[order[at as int]]);
        lemma_commit_run(next, db_name, generation, pages, order, at + 1);
        assert(run == commit_run(next, db_name, generation, pages, order, at + 1));
        assert forall|i: int| at + 1 <= i < stop implies key != #[trigger] page_key_of(
            db_name,
            generation,
            order[i],
        ) by {
            assert(order[at as int] != order[i]);
            lemma_page_keys_differ(db_name, generation, order[at as int], order[i]);
        }
        assert(forall|i: int|
            at + 1 <= i < first_misfit(pages, order, (at + 1) as nat) ==> key
                != #[trigger] page_key_of(db_name, generation, order[i]));
        let inner = commit_run(next, db_name, generation, pages, order, (at + 1) as nat);
        assert(inner.remote.contains_key(key) == next.contains_key(key));
        assert(inner.remote[key] == next[key]);
        assert(run.remote.contains_key(key) && run.remote[key] == pages[order[at as int]]);
        assert forall|other: Seq<char>|
            (forall|i: int|
                at <= i < stop ==> other != #[trigger] page_key_of(db_name, generation, order[i]))
            implies (#[trigger] run.remote.contains_key(other) == remote.contains_key(other)
            && run.remote[other] == remote[other]) by {
            assert(other != page_key_of(db_name, generation, order[at as int]));
            assert forall|i: int| at + 1 <= i < stop implies other != #[trigger] page_key_of(
                db_name,
                generation,
                order[i],
            ) by {}
        }
    }
}

/// A commit of pages that all have the size of a page is done, whatever
/// the order of the enumeration, and leaves in the object store what was
/// there before with every buffered page stored under its key.
pub proof fn lemma_commit_stores_all(
    remote: Map<Seq<char>, Seq<u8>>,
    db_name: Seq<char>,
    generation: Generation,
    pages: Map<u32, Seq<u8>>,
    order: Seq<u32>,
)
    requires
        enumerates(order, pages),
        all_page_sized(pages),
    ensures
        ({
            let run = commit_run(remote, db_name, generation, pages, order, 0);
            &&& run.end == CommitActionView::Done
            &&& forall|page_no: u32| #[trigger]
                pages.contains_key(page_no) ==> run.remote.contains_key(
                    page_key_of(db_name, generation, page_no),
                ) && run.remote[page_key_of(db_name, generation, page_no)] == pages[page_no]
            &&& forall|key: Seq<char>|
                (forall|page_no: u32| #[trigger]
                    pages.contains_key(page_no) ==> key != page_key_of(
                        db_name,
                        generation,
                        page_no,
                    )) ==> (#[trigger] run.remote.contains_key(key) == remote.contains_key(key)
                    && run.remote[key] == remote[key])
        }),
{
    let run = commit_run(remote, db_name, generation, pages, order, 0);
    lemma_first_misfit(pages, order, 0);
    let stop = first_misfit(pages, order, 0);
    if stop < order.len() {
        assert(order.contains(order[stop as int]));
        assert(pages.contains_key(order[stop as int]));
    }
    lemma_commit_run(remote, db_name, generation, pages, order, 0);
    assert forall|page_no: u32| #[trigger] pages.contains_key(page_no) implies run.remote.contains_key(
        page_key_of(db_name, generation, page_no),
    ) && run.remote[page_key_of(db_name, generation, page_no)] == pages[page_no] by {
        assert(order.contains(page_no));
        let i = choose|i: int| 0 <= i < order.len() && order[i] == page_no;
        assert(run.remote.contains_key(page_key_of(db_name, generation, order[i])));
    }
    assert forall|key: Seq<char>|
        (forall|page_no: u32| #[trigger]
            pages.contains_key(page_no) ==> key != page_key_of(db_name, generation, page_no))
        implies (#[trigger] run.remote.contains_key(key) == remote.contains_key(key)
        && run.remote[key] == remote[key]) by {
        assert forall|i: int| 0 <= i < stop implies key != #[trigger] page_key_of(
            db_name,
            generation,
            order[i],
        ) by {
            assert(order.contains(order[i]));
            assert(pages.contains_key(order[i]));
        }
    }
}

/// Idempotence: committing the same buffer once more, as a retry does,
/// leaves the object store as the first commit left it, also where the
/// retry enumerates the buffer in another order.
pub proof fn lemma_commit_retry(
    remote: Map<Seq<char>, Seq<u8>>,
    db_name: Seq<char>,
    generation: Generation,
    pages: Map<u32, Seq<u8>>,
    order: Seq<u32>,
    order_of_retry: Seq<u32>,
)
    requires
        enumerates(order, pages),
        enumerates(order_of_retry, pages),
        all_page_sized(pages),
    ensures
        ({
            let once = commit_run(remote, db_name, generation, pages, order, 0);
            let twice = commit_run(once.remote, db_name, generation, pages, order_of_retry, 0);
            &&& once.end == CommitActionView::Done
            &&& twice.end == CommitActionView::Done
            &&& twice.remote == once.remote
        }),
{
    let once = commit_run(remote, db_name, generation, pages, order, 0);
    let twice = commit_run(once.remote, db_name, generation, pages, order_of_retry, 0);
    lemma_commit_stores_all(remote, db_name, generation, pages, order);
    lemma_commit_stores_all(once.remote, db_name, generation, pages, order_of_retry);
    assert forall|key: Seq<char>|
        twice.remote.contains_key(key) == once.remote.contains_key(key) && twice.remote[key]
            == once.remote[key] by {
        if exists|page_no: u32| #[trigger]
            pages.contains_key(page_no) && key == page_key_of(db_name, generation, page_no) {
            let page_no = choose|page_no: u32| #[trigger]
                pages.contains_key(page_no) && key == page_key_of(db_name, generation, page_no);
            assert(pages.contains_key(page_no));
        } else {
            assert(twice.remote.contains_key(key) == once.remote.contains_key(key));
        }
    }
    assert(twice.remote =~= once.remote);
}

/// A retry that works through the same enumeration leaves the object
/// store as the first attempt left it and ends as the first attempt
/// ended, also where the commit fails.
pub proof fn lemma_commit_retry_in_order(
    remote: Map<Seq<char>, Seq<u8>>,
    db_name: Seq<char>,
    generation: Generation,
    pages: Map<u32, Seq<u8>>,
    order: Seq<u32>,
)
    requires
        order.no_duplicates(),
    ensures
        ({
            let once = commit_run(remote, db_name, generation, pages, order, 0);
            let twice = commit_run(once.remote, db_name, generation, pages, order, 0);
            twice.end == once.end && twice.remote == once.remote
        }),
{
    let once = commit_run(remote, db_name, generation, pages, order, 0);
    let twice = commit_run(once.remote, db_name, generation, pages, order, 0);
    let stop = first_misfit(pages, order, 0);
    lemma_commit_run(remote, db_name, generation, pages, order, 0);
    lemma_commit_run(once.remote, db_name, generation, pages, order, 0);
    assert forall|key: Seq<char>|
        twice.remote.contains_key(key) == once.remote.contains_key(key) && twice.remote[key]
            == once.remote[key] by {
        if exists|i: int| 0 <= i < stop && key == page_key_of(db_name, generation, order[i]) {
            let i = choose|i: int|
                0 <= i < stop && key == page_key_of(db_name, generation, order[i]);
            assert(twice.remote.contains_key(page_key_of(db_name, generation, order[i])));
            assert(once.remote.contains_key(page_key_of(db_name, generation, order[i])));
        } else {
            assert(twice.remote.contains_key(key) == once.remote.contains_key(key));
        }
    }
    assert(twice.remote =~= once.remote);
}

/// A commit in which a page has not the size of a page fails with a size
/// mismatch that names the page, after storing the pages that the
/// enumeration shows before it. Nothing is uploaded for the page of wrong
/// size, nor for any page after it: every key but those of the pages
/// before it holds what it held.
pub proof fn lemma_commit_stops_at_misfit(
    remote: Map<Seq<char>, Seq<u8>>,
    db_name: Seq<char>,
    generation: Generation,
    pages: Map<u32, Seq<u8>>,
    order: Seq<u32>,
    bad: nat,
)
    requires
        enumerates(order, pages),
        bad < order.len(),
        pages[order[bad as int]].len() != PAGE_SIZE,
        forall|i: int| 0 <= i < bad ==> pages[#[trigger] order[i]].len() == PAGE_SIZE,
    ensures
        ({
            let run = commit_run(remote, db_name, generation, pages, order, 0);
            &&& run.end == CommitActionView::Abort(
                ErrorView::SizeMismatch {
                    page_no: order[bad as int],
                    len: pages[order[bad as int]].len() as usize,
                },
            )
            &&& forall|i: int|
                0 <= i < bad ==> run.remote.contains_key(
                    #[trigger] page_key_of(db_name, generation, order[i]),
                ) && run.remote[page_key_of(db_name, generation, order[i])] == pages[order[i]]
            &&& run.remote.contains_key(page_key_of(db_name, generation, order[bad as int]))
                == remote.contains_key(page_key_of(db_name, generation, order[bad as int]))
            &&& run.remote[page_key_of(db_name, generation, order[bad as int])]
                == remote[page_key_of(db_name, generation, order[bad as int])]
            &&& forall|key: Seq<char>|
                (forall|i: int|
                    0 <= i < bad ==> key != #[trigger] page_key_of(db_name, generation, order[i]))
                    ==> (#[trigger] run.remote.contains_key(key) == remote.contains_key(key)
                    && run.remote[key] == remote[key])
        }),
{
    lemma_first_misfit(pages, order, 0);
    let stop = first_misfit(pages, order, 0);
    assert(order.contains(order[bad as int]));
    if stop < bad {
        assert(order.contains(order[stop as int]));
        assert(pages[order[stop as int]].len() == PAGE_SIZE);
    }
    if stop > bad {
        assert(fits(pages, order, bad as int));
    }
    lemma_commit_run(remote, db_name, generation, pages, order, 0);
    let run = commit_run(remote, db_name, generation, pages, order, 0);
    let bad_key = page_key_of(db_name, generation, order[bad as int]);
    assert forall|i: int| 0 <= i < stop implies bad_key != #[trigger] page_key_of(
        db_name,
        generation,
        order[i],
    ) by {
        assert(order[i] != order[bad as int]);
        lemma_page_keys_differ(db_name, generation, order[i], order[bad as int]);
    }
    assert(run.remote.contains_key(bad_key) == remote.contains_key(bad_key));
    assert(run.remote[bad_key] == remote[bad_key]);
}

/// Where every listed key names a page, the look through the keys keeps
/// each of them, in order, with its page number.
pub proof fn lemma_restorable_pages(prefix: Seq<char>, keys: Seq<Seq<char>>)
    requires
        forall|j: int| 0 <= j < keys.len() ==> (#[trigger] object_kind(prefix, keys[j])) is Page,
    ensures
        restorable(prefix, keys).failure is None,
        restorable(prefix, keys).found.len() == keys.len(),
        forall|j: int|
            0 <= j < keys.len() ==> (#[trigger] restorable(prefix, keys).found[j]).0 == keys[j]
                && object_kind(prefix, keys[j]) == ObjectKind::Page(
                restorable(prefix, keys).found[j].1,
            ),
    decreases keys.len(),
{
    if keys.len() > 0 {
        let rest = keys.drop_last();
        assert forall|j: int| 0 <= j < rest.len() implies (#[trigger] object_kind(
            prefix,
            rest[j],
        )) is Page by {
            assert(rest[j] == keys[j]);
        }
        lemma_restorable_pages(prefix, rest);
        assert(object_kind(prefix, keys[keys.len() - 1]) is Page);
        assert forall|j: int| 0 <= j < keys.len() implies (#[trigger] restorable(
            prefix,
            keys,
        ).found[j]).0 == keys[j] && object_kind(prefix, keys[j]) == ObjectKind::Page(
            restorable(prefix, keys).found[j].1,
        ) by {
            if j < rest.len() {
                assert(restorable(prefix, keys).found[j] == restorable(prefix, rest).found[j]);
                assert(rest[j] == keys[j]);
            }
        }
    }
}

/// Round trip of data: after a commit of pages of the right size into an
/// empty object store, a restore that is shown each stored key once, in
/// any order, finds one page object for each key and no page twice, and
/// the pages it yields are exactly the pages committed, none missing and
/// none added.
pub proof fn lemma_restore_returns_commit(
    db_name: Seq<char>,
    generation: Generation,
    pages: Map<u32, Seq<u8>>,
    order: Seq<u32>,
    listed: Seq<Seq<char>>,
)
    requires
        enumerates(order, pages),
        all_page_sized(pages),
        listed.no_duplicates(),
        forall|key: Seq<char>|
            listed.contains(key) <==> commit_run(
                Map::empty(),
                db_name,
                generation,
                pages,
                order,
                0,
            ).remote.contains_key(key),
    ensures
        ({
            let run = commit_run(Map::empty(), db_name, generation, pages, order, 0);
            let look = restorable(generation_prefix_of(db_name, generation), listed);
            &&& run.end == CommitActionView::Done
            &&& look.failure is None
            &&& look.found.len() == listed.len()
            &&& forall|i: int, j: int|
                0 <= i < j < look.found.len() ==> (#[trigger] look.found[i]).1 != (
                #[trigger] look.found[j]).1
            &&& restored(run.remote, look.found) == pages
        }),
{
    let prefix = generation_prefix_of(db_name, generation);
    let run = commit_run(Map::empty(), db_name, generation, pages, order, 0);
    let look = restorable(prefix, listed);
    lemma_commit_stores_all(Map::empty(), db_name, generation, pages, order);
    // every stored key is the key of a buffered page
    assert forall|key: Seq<char>| run.remote.contains_key(key) implies exists|page_no: u32|
        #[trigger] pages.contains_key(page_no) && key == page_key_of(
            db_name,
            generation,
            page_no,
        ) by {
        if forall|page_no: u32| #[trigger]
            pages.contains_key(page_no) ==> key != page_key_of(db_name, generation, page_no) {
            assert(run.remote.contains_key(key) == Map::<Seq<char>, Seq<u8>>::empty().contains_key(
                key,
            ));
        }
    }
    // hence every listed key names a page
    assert forall|j: int| 0 <= j < listed.len() implies (#[trigger] object_kind(
        prefix,
        listed[j],
    )) is Page by {
        assert(listed.contains(listed[j]));
        let page_no = choose|page_no: u32| #[trigger]
            pages.contains_key(page_no) && listed[j] == page_key_of(
                db_name,
                generation,
                page_no,
            );
        lemma_page_key_kind(db_name, generation, page_no);
    }
    lemma_restorable_pages(prefix, listed);
    // each object found holds a buffered page, stored under its key
    assert forall|j: int| 0 <= j < look.found.len() implies pages.contains_key(
        (#[trigger] look.found[j]).1,
    ) && look.found[j].0 == page_key_of(db_name, generation, look.found[j].1) && run.remote[look.found[j].0]
        == pages[look.found[j].1] by {
        assert(listed.contains(listed[j]));
        let page_no = choose|page_no: u32| #[trigger]
            pages.contains_key(page_no) && listed[j] == page_key_of(
                db_name,
                generation,
                page_no,
            );
        lemma_page_key_kind(db_name, generation, page_no);
        assert(look.found[j].0 == listed[j]);
        assert(look.found[j].1 == page_no);
    }
    assert forall|i: int, j: int| 0 <= i < j < look.found.len() implies (#[trigger] look.found[i]).1
        != (#[trigger] look.found[j]).1 by {
        if look.found[i].1 == look.found[j].1 {
            assert(listed[i] == listed[j]);
        }
    }
    assert forall|page_no: u32| finds_page(look.found, page_no) <==> pages.contains_key(
        page_no,
    ) by {
        if finds_page(look.found, page_no) {
            let j = choose|j: int| 0 <= j < look.found.len() && (#[trigger] look.found[j]).1 == page_no;
            assert(pages.contains_key(look.found[j].1));
        }
        if pages.contains_key(page_no) {
            let key = page_key_of(db_name, generation, page_no);
            assert(run.remote.contains_key(key));
            assert(listed.contains(key));
            let j = choose|j: int| 0 <= j < listed.len() && listed[j] == key;
            assert(look.found[j].0 == key);
            if look.found[j].1 != page_no {
                lemma_page_keys_differ(db_name, generation, look.found[j].1, page_no);
            }
            assert(look.found[j].1 == page_no);
        }
    }
    assert forall|page_no: u32| finds_page(look.found, page_no) implies #[trigger] restored(
        run.remote,
        look.found,
    )[page_no] == pages[page_no] by {
        let j = choose|j: int| 0 <= j < look.found.len() && (#[trigger] look.found[j]).1 == page_no;
        assert(run.remote[look.found[j].0] == pages[look.found[j].1]);
    }
    assert(restored(run.remote, look.found) =~= pages);
}

} // verus!
