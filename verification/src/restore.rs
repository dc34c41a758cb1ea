//! Restoring a generation: walking the objects of the generation page by
//! page of the listing, and telling for each key which database page it
//! holds.

use crate::catalog::BatchView;
use crate::error::{ErrorView, ReplicatorError};
use crate::keys::{classify, object_kind, ObjectKind};
use crate::listing::{failure_view, texts, Batch, ListPage, ListPageView, ListRequest, Pager, PagerView};
use vstd::prelude::*;

verus! {

/// An object that holds one page of the database.
#[derive(Debug)]
pub struct PageObject {
    /// The key under which the page is stored.
    pub key: String,
    /// The number of the page.
    pub page_no: u32,
}

/// The objects of a list as plain values: key and page number.
pub open spec fn page_objects(list: Seq<PageObject>) -> Seq<(Seq<char>, u32)> {
    Seq::new(list.len(), |i: int| (list[i].key@, list[i].page_no))
}

/// What a look through listed keys comes to: the pages found, in listing
/// order, and the failure that ended the look, if one did.
pub struct Restorable {
    pub found: Seq<(Seq<char>, u32)>,
    pub failure: Option<ErrorView>,
}

/// Looks through the listed keys of a generation in order. A key that
/// names a page is kept with its page number, the key of the snapshot is
/// passed over, and the first key that is neither ends the look.
pub open spec fn restorable(prefix: Seq<char>, keys: Seq<Seq<char>>) -> Restorable
    decreases keys.len(),
{
    if keys.len() == 0 {
        Restorable { found: Seq::empty(), failure: None }
    } else {
        let before = restorable(prefix, keys.drop_last());
        if before.failure is Some {
            before
        } else {
            match object_kind(prefix, keys.last()) {
                ObjectKind::Page(page_no) => Restorable {
                    found: before.found.push((keys.last(), page_no)),
                    failure: None,
                },
                ObjectKind::Snapshot => before,
                ObjectKind::Unknown => Restorable {
                    found: before.found,
                    failure: Some(ErrorView::MalformedKey(keys.last())),
                },
            }
        }
    }
}

/// Once a look through keys has failed, further keys change nothing.
pub proof fn lemma_restorable_settled(prefix: Seq<char>, keys: Seq<Seq<char>>, n: int)
    requires
        0 <= n <= keys.len(),
        restorable(prefix, keys.take(n)).failure is Some,
    ensures
        restorable(prefix, keys) == restorable(prefix, keys.take(n)),
    decreases keys.len() - n,
{
    if n < keys.len() {
        assert(keys.drop_last().take(n) == keys.take(n));
        lemma_restorable_settled(prefix, keys.drop_last(), n);
    } else {
        assert(keys.take(n) == keys);
    }
}

/// Looks through the keys of one page of the listing of a generation.
pub fn find_pages(prefix: &str, keys: &Vec<String>) -> (r: (Vec<PageObject>, Option<ReplicatorError>))
    ensures
        page_objects(r.0@) == restorable(prefix@, texts(keys@)).found,
        failure_view(r.1) == restorable(prefix@, texts(keys@)).failure,
{
    let ghost all = texts(keys@);
    let mut found: Vec<PageObject> = Vec::new();
    let mut i: usize = 0;
    while i < keys.len()
        invariant
            i <= keys.len(),
            all == texts(keys@),
            page_objects(found@) == restorable(prefix@, all.take(i as int)).found,
            restorable(prefix@, all.take(i as int)).failure is None,
        decreases keys.len() - i,
    {
        proof {
            assert(all.take(i + 1).drop_last() == all.take(i as int));
            assert(all.take(i + 1).last() == keys@[i as int]@);
        }
        let ghost before = page_objects(found@);
        match classify(prefix, keys[i].as_str()) {
            ObjectKind::Page(page_no) => {
                found.push(PageObject { key: keys[i].clone(), page_no });
                assert(page_objects(found@) == before.push((keys@[i as int]@, page_no)));
            },
            ObjectKind::Snapshot => {},
            ObjectKind::Unknown => {
                proof {
                    lemma_restorable_settled(prefix@, all, i + 1);
                }
                return (found, Some(ReplicatorError::MalformedKey(keys[i].clone())));
            },
        }
        i += 1;
    }
    assert(all.take(i as int) == all);
    (found, None)
}

/// A walk through the objects of one generation, page by page of the
/// listing, in order to fetch each database page.
#[derive(Debug)]
pub struct Restore {
    pub pager: Pager,
}

impl View for Restore {
    type V = PagerView;

    open spec fn view(&self) -> PagerView {
        self.pager@
    }
}

/// The pages to fetch that a page of the listing yields: none once the
/// walk is over or where the page holds no list; else what the look
/// through its keys comes to.
pub open spec fn restore_yield(walk: PagerView, page: ListPageView) -> BatchView<
    (Seq<char>, u32),
> {
    if !walk.open {
        BatchView { items: Seq::empty(), failure: None, listed: true }
    } else {
        match page.objects {
            None => BatchView { items: Seq::empty(), failure: None, listed: false },
            Some(keys) => {
                let r = restorable(walk.prefix, keys);
                BatchView { items: r.found, failure: r.failure, listed: true }
            },
        }
    }
}

/// The walk after a page of the listing: it goes on to the next page
/// unless the page held no list, a key was neither page nor snapshot, or
/// the page carried no marker.
pub open spec fn restore_after(walk: PagerView, page: ListPageView) -> PagerView {
    if !walk.open {
        walk
    } else {
        let batch = restore_yield(walk, page);
        walk.turned(page.next_marker, batch.listed && batch.failure is None)
    }
}

impl Restore {
    /// Begins a walk through the objects under the prefix of a generation.
    pub fn start(prefix: String) -> (walk: Self)
        ensures
            walk@ == (PagerView { prefix: prefix@, delimiter: None, marker: None, open: true }),
    {
        Restore { pager: Pager::start(prefix, None) }
    }

    /// The listing request to perform next; none once the walk is over.
    pub fn request(&self) -> (r: Option<ListRequest>)
        ensures
            match self@.request() {
                Some(expected) => r matches Some(request) && request@ == expected,
                None => r is None,
            },
    {
        self.pager.request()
    }

    /// Takes the page that answers the last request and hands out the
    /// objects to fetch, each with the number of the page it holds.
    pub fn accept(&mut self, page: &ListPage) -> (batch: Batch<PageObject>)
        ensures
            final(self)@ == restore_after(old(self)@, page@),
            page_objects(batch.items@) == restore_yield(old(self)@, page@).items,
            failure_view(batch.failure) == restore_yield(old(self)@, page@).failure,
            batch.listed == restore_yield(old(self)@, page@).listed,
    {
        if !self.pager.open {
            return Batch { items: Vec::new(), failure: None, listed: true };
        }
        match &page.objects {
            None => {
                self.pager.turn(&page.next_marker, false);
                Batch { items: Vec::new(), failure: None, listed: false }
            },
            Some(keys) => {
                let (found, failure) = find_pages(self.pager.prefix.as_str(), keys);
                self.pager.turn(&page.next_marker, failure.is_none());
                Batch { items: found, failure, listed: true }
            },
        }
    }
}

} // verus!
