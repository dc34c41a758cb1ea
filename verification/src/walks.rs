//! Pagination completeness. A walk that is fed the pages of a listing one
//! after the other hands out, over all pages, exactly what it would hand
//! out if the listing had come as a single page: every listed entry is
//! looked at once, in listing order, and the walk ends with the last page.

use crate::catalog::{
    counted, exhausted, left_of, removal_after, removal_yield, scanned, Criterion,
    GenerationScanView,
};
use crate::error::ErrorView;
use crate::generation::Generation;
use crate::listing::{ListPageView, PagerView};
use crate::restore::{restorable, restore_after, restore_yield};
use vstd::prelude::*;

verus! {

/// Whether every page carries a marker that leads on.
pub open spec fn all_lead_on(pages: Seq<ListPageView>) -> bool {
    forall|i: int| 0 <= i < pages.len() ==> (#[trigger] pages[i]).next_marker is Some
}

/// Whether the pages are a whole listing: the last page carries no marker,
/// every page before it does.
pub open spec fn whole_listing(pages: Seq<ListPageView>) -> bool {
    pages.len() > 0 && all_lead_on(pages.drop_last()) && pages.last().next_marker is None
}

/// Whether every page holds a list of objects.
pub open spec fn all_list_objects(pages: Seq<ListPageView>) -> bool {
    forall|i: int| 0 <= i < pages.len() ==> (#[trigger] pages[i]).objects is Some
}

/// Whether every page holds a list of groups.
pub open spec fn all_list_prefixes(pages: Seq<ListPageView>) -> bool {
    forall|i: int| 0 <= i < pages.len() ==> (#[trigger] pages[i]).prefixes is Some
}

/// The objects of all pages, in listing order.
pub open spec fn all_objects(pages: Seq<ListPageView>) -> Seq<Seq<char>>
    decreases pages.len(),
{
    if pages.len() == 0 {
        Seq::empty()
    } else {
        all_objects(pages.drop_last()) + (match pages.last().objects {
            Some(objects) => objects,
            None => Seq::empty(),
        })
    }
}

/// The groups of all pages, in listing order.
pub open spec fn all_prefixes(pages: Seq<ListPageView>) -> Seq<Seq<char>>
    decreases pages.len(),
{
    if pages.len() == 0 {
        Seq::empty()
    } else {
        all_prefixes(pages.drop_last()) + (match pages.last().prefixes {
            Some(prefixes) => prefixes,
            None => Seq::empty(),
        })
    }
}

/// The marker with which the page after `pages` is asked for.
pub open spec fn marker_after(first: Option<Seq<char>>, pages: Seq<ListPageView>) -> Option<
    Seq<char>,
> {
    if pages.len() == 0 {
        first
    } else {
        pages.last().next_marker
    }
}

/// A removal walk fed with pages one after the other: the walk after the
/// last of them, and the keys handed out over all of them.
pub open spec fn removal_walk(walk: PagerView, pages: Seq<ListPageView>) -> (
    PagerView,
    Seq<Seq<char>>,
)
    decreases pages.len(),
{
    if pages.len() == 0 {
        (walk, Seq::empty())
    } else {
        let (before, keys) = removal_walk(walk, pages.drop_last());
        (removal_after(before, pages.last()), keys + removal_yield(before, pages.last()).items)
    }
}

/// A restore walk fed with pages one after the other: the walk after the
/// last of them, the page objects handed out over all of them, and the
/// failure that the walk met, if it met one.
pub open spec fn restore_walk(walk: PagerView, pages: Seq<ListPageView>) -> (
    PagerView,
    Seq<(Seq<char>, u32)>,
    Option<ErrorView>,
)
    decreases pages.len(),
{
    if pages.len() == 0 {
        (walk, Seq::empty(), None)
    } else {
        let (before, found, failure) = restore_walk(walk, pages.drop_last());
        let batch = restore_yield(before, pages.last());
        (
            restore_after(before, pages.last()),
            found + batch.items,
            if failure is Some {
                failure
            } else {
                batch.failure
            },
        )
    }
}

/// A walk through generations fed with pages one after the other: the walk
/// after the last of them, the generations handed out over all of them,
/// and the failure that the walk met, if it met one.
pub open spec fn scan_walk(walk: GenerationScanView, pages: Seq<ListPageView>) -> (
    GenerationScanView,
    Seq<Generation>,
    Option<ErrorView>,
)
    decreases pages.len(),
{
    if pages.len() == 0 {
        (walk, Seq::empty(), None)
    } else {
        let (before, found, failure) = scan_walk(walk, pages.drop_last());
        let batch = before.yield_of(pages.last());
        (
            before.after(pages.last()),
            found + batch.items,
            if failure is Some {
                failure
            } else {
                batch.failure
            },
        )
    }
}

/// While every page leads on, a removal walk stays open, asks for each
/// page with the marker of the page before, and has handed out every
/// listed key once.
pub proof fn lemma_removal_goes_on(walk: PagerView, pages: Seq<ListPageView>)
    requires
        walk.open,
        all_lead_on(pages),
        all_list_objects(pages),
    ensures
        removal_walk(walk, pages).0 == (PagerView {
            marker: marker_after(walk.marker, pages),
            ..walk
        }),
        removal_walk(walk, pages).1 == all_objects(pages),
    decreases pages.len(),
{
    if pages.len() > 0 {
        let rest = pages.drop_last();
        assert forall|i: int| 0 <= i < rest.len() implies (#[trigger] rest[i]).next_marker is Some
            && rest[i].objects is Some by {
            assert(rest[i] == pages[i]);
        }
        lemma_removal_goes_on(walk, rest);
        assert(pages[pages.len() - 1].next_marker is Some);
        assert(pages[pages.len() - 1].objects is Some);
    }
}

/// Pagination completeness of a removal: over a whole listing the walk
/// hands out every listed key exactly once, in order, and is over after
/// the last page.
pub proof fn lemma_removal_visits_all(walk: PagerView, pages: Seq<ListPageView>)
    requires
        walk.open,
        whole_listing(pages),
        all_list_objects(pages),
    ensures
        !removal_walk(walk, pages).0.open,
        removal_walk(walk, pages).1 == all_objects(pages),
{
    let rest = pages.drop_last();
    assert forall|i: int| 0 <= i < rest.len() implies (#[trigger] rest[i]).objects is Some by {
        assert(rest[i] == pages[i]);
    }
    lemma_removal_goes_on(walk, rest);
    assert(pages[pages.len() - 1].objects is Some);
}

/// Looking through two lists of keys one after the other comes to the
/// same as looking through both at once.
pub proof fn lemma_restorable_concat(prefix: Seq<char>, a: Seq<Seq<char>>, b: Seq<Seq<char>>)
    ensures
        ({
            let first = restorable(prefix, a);
            let second = restorable(prefix, b);
            let whole = restorable(prefix, a + b);
            if first.failure is Some {
                whole == first
            } else {
                whole.found == first.found + second.found && whole.failure == second.failure
            }
        }),
    decreases b.len(),
{
    if b.len() == 0 {
        assert(a + b == a);
        assert(restorable(prefix, a).found + Seq::<(Seq<char>, u32)>::empty() == restorable(
            prefix,
            a,
        ).found);
    } else {
        assert((a + b).drop_last() == a + b.drop_last());
        assert((a + b).last() == b.last());
        lemma_restorable_concat(prefix, a, b.drop_last());
        let first = restorable(prefix, a);
        let before = restorable(prefix, b.drop_last());
        let second = restorable(prefix, b);
        let whole = restorable(prefix, a + b);
        if first.failure is None {
            assert(whole.found == first.found + second.found);
        }
    }
}

/// While every page leads on and no key is out of place, a restore walk
/// stays open and has handed out the page objects of all keys listed.
pub proof fn lemma_restore_goes_on(walk: PagerView, pages: Seq<ListPageView>)
    requires
        walk.open,
        all_lead_on(pages),
        all_list_objects(pages),
    ensures
        ({
            let (after, found, failure) = restore_walk(walk, pages);
            let look = restorable(walk.prefix, all_objects(pages));
            &&& found == look.found
            &&& failure == look.failure
            &&& after.prefix == walk.prefix
            &&& after.open == (look.failure is None)
        }),
    decreases pages.len(),
{
    if pages.len() > 0 {
        let rest = pages.drop_last();
        assert forall|i: int| 0 <= i < rest.len() implies (#[trigger] rest[i]).next_marker is Some
            && rest[i].objects is Some by {
            assert(rest[i] == pages[i]);
        }
        lemma_restore_goes_on(walk, rest);
        assert(pages[pages.len() - 1].next_marker is Some);
        assert(pages[pages.len() - 1].objects is Some);
        lemma_restorable_concat(walk.prefix, all_objects(rest), pages.last().objects->0);
        let (before, found, failure) = restore_walk(walk, rest);
        if !before.open {
            assert(found + Seq::<(Seq<char>, u32)>::empty() == found);
        }
    }
}

/// Pagination completeness of a restore: over a whole listing the walk
/// hands out what a look through all listed keys at once comes to, and is
/// over after the last page.
pub proof fn lemma_restore_visits_all(walk: PagerView, pages: Seq<ListPageView>)
    requires
        walk.open,
        whole_listing(pages),
        all_list_objects(pages),
    ensures
        ({
            let (after, found, failure) = restore_walk(walk, pages);
            let look = restorable(walk.prefix, all_objects(pages));
            &&& !after.open
            &&& found == look.found
            &&& failure == look.failure
        }),
{
    let rest = pages.drop_last();
    assert forall|i: int| 0 <= i < rest.len() implies (#[trigger] rest[i]).objects is Some by {
        assert(rest[i] == pages[i]);
    }
    lemma_restore_goes_on(walk, rest);
    assert(pages[pages.len() - 1].objects is Some);
    lemma_restorable_concat(walk.prefix, all_objects(rest), pages.last().objects->0);
    let (before, found, failure) = restore_walk(walk, rest);
    if !before.open {
        assert(found + Seq::<(Seq<char>, u32)>::empty() == found);
    }
}

/// Scanning two lists of prefixes one after the other, the second under
/// what the first left of the limit, comes to the same as scanning both at
/// once.
pub proof fn lemma_scanned_concat(
    db_name: Seq<char>,
    a: Seq<Seq<char>>,
    b: Seq<Seq<char>>,
    criterion: Criterion,
    limit: Option<u64>,
)
    ensures
        ({
            let first = scanned(db_name, a, criterion, limit);
            let second = scanned(db_name, b, criterion, left_of(limit, first.found.len()));
            let whole = scanned(db_name, a + b, criterion, limit);
            if first.failure is Some || exhausted(limit, first.found.len()) {
                whole == first
            } else {
                whole.found == first.found + second.found && whole.failure == second.failure
            }
        }),
    decreases b.len(),
{
    let first = scanned(db_name, a, criterion, limit);
    if b.len() == 0 {
        assert(a + b == a);
        assert(first.found + Seq::<Generation>::empty() == first.found);
    } else {
        assert((a + b).drop_last() == a + b.drop_last());
        assert((a + b).last() == b.last());
        lemma_scanned_concat(db_name, a, b.drop_last(), criterion, limit);
        let left = left_of(limit, first.found.len());
        let before = scanned(db_name, b.drop_last(), criterion, left);
        let second = scanned(db_name, b, criterion, left);
        let whole = scanned(db_name, a + b, criterion, limit);
        if !(first.failure is Some || exhausted(limit, first.found.len())) {
            assert(exhausted(limit, (first.found + before.found).len()) == exhausted(
                left,
                before.found.len(),
            ));
            assert(whole.found == first.found + second.found);
        }
    }
}

/// While every page leads on, a walk through generations has handed out
/// what a scan of all listed prefixes at once comes to, and goes on
/// exactly as long as that scan has neither failed nor exhausted the limit.
pub proof fn lemma_scan_goes_on(walk: GenerationScanView, pages: Seq<ListPageView>)
    requires
        walk.pager.open,
        walk.remaining != Some(0u64),
        all_lead_on(pages),
        all_list_prefixes(pages),
    ensures
        ({
            let (after, found, failure) = scan_walk(walk, pages);
            let whole = scanned(
                walk.db_name,
                all_prefixes(pages),
                walk.criterion,
                walk.remaining,
            );
            &&& found == whole.found
            &&& failure == whole.failure
            &&& after.db_name == walk.db_name
            &&& after.criterion == walk.criterion
            &&& after.remaining == left_of(walk.remaining, whole.found.len())
            &&& after.emitted == counted(walk.emitted, whole.found.len())
            &&& after.pager.open == (whole.failure is None && !exhausted(
                walk.remaining,
                whole.found.len(),
            ))
        }),
    decreases pages.len(),
{
    if pages.len() > 0 {
        let rest = pages.drop_last();
        assert forall|i: int| 0 <= i < rest.len() implies (#[trigger] rest[i]).next_marker is Some
            && rest[i].prefixes is Some by {
            assert(rest[i] == pages[i]);
        }
        lemma_scan_goes_on(walk, rest);
        assert(pages[pages.len() - 1].next_marker is Some);
        assert(pages[pages.len() - 1].prefixes is Some);
        lemma_scanned_concat(
            walk.db_name,
            all_prefixes(rest),
            pages.last().prefixes->0,
            walk.criterion,
            walk.remaining,
        );
        let (before, found, failure) = scan_walk(walk, rest);
        if !before.pager.open {
            assert(found + Seq::<Generation>::empty() == found);
        }
    }
}

/// Pagination completeness of a walk through generations: over a whole
/// listing the walk hands out what a scan of all listed prefixes at once
/// comes to, counts as many generations as it hands out, and is over
/// after the last page.
pub proof fn lemma_scan_visits_all(walk: GenerationScanView, pages: Seq<ListPageView>)
    requires
        walk.pager.open,
        walk.remaining != Some(0u64),
        whole_listing(pages),
        all_list_prefixes(pages),
    ensures
        ({
            let (after, found, failure) = scan_walk(walk, pages);
            let whole = scanned(
                walk.db_name,
                all_prefixes(pages),
                walk.criterion,
                walk.remaining,
            );
            &&& !after.pager.open
            &&& found == whole.found
            &&& failure == whole.failure
            &&& after.emitted == counted(walk.emitted, whole.found.len())
        }),
{
    let rest = pages.drop_last();
    assert forall|i: int| 0 <= i < rest.len() implies (#[trigger] rest[i]).prefixes is Some by {
        assert(rest[i] == pages[i]);
    }
    lemma_scan_goes_on(walk, rest);
    assert(pages[pages.len() - 1].prefixes is Some);
    lemma_scanned_concat(
        walk.db_name,
        all_prefixes(rest),
        pages.last().prefixes->0,
        walk.criterion,
        walk.remaining,
    );
    let (before, found, failure) = scan_walk(walk, rest);
    if !before.pager.open {
        assert(found + Seq::<Generation>::empty() == found);
    }
}

} // verus!
