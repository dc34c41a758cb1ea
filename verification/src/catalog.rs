//! The catalog of generations: walking the listing of a database's
//! generations, choosing among them by creation day, and walking the
//! objects of one generation in order to delete them.

use crate::error::{ErrorView, ReplicatorError};
use crate::generation::{Date, Generation};
use crate::keys::{generation_named, generation_of_prefix};
use crate::listing::{
    failure_view, texts, Batch, ListPage, ListPageView, ListRequest, Pager, PagerView,
};
use vstd::prelude::*;

verus! {

/// By what generations are chosen.
#[derive(Clone, Copy, Debug, PartialEq, Eq, Structural)]
pub enum Criterion {
    /// Created no earlier than the first day and no later than the second,
    /// as far as a day is given.
    Within { newer_than: Option<Date>, older_than: Option<Date> },
    /// Created strictly before the given day.
    Before(Date),
}

impl Criterion {
    /// Whether a generation created on `day` is chosen.
    pub open spec fn admits(self, day: Date) -> bool {
        match self {
            Criterion::Within { newer_than, older_than } => {
                &&& (newer_than matches Some(first) ==> day.epoch_day >= first.epoch_day)
                &&& (older_than matches Some(last) ==> day.epoch_day <= last.epoch_day)
            },
            Criterion::Before(limit) => day.epoch_day < limit.epoch_day,
        }
    }

    /// Decides whether a generation created on `day` is chosen.
    pub fn check(&self, day: Date) -> (r: bool)
        ensures
            r == self.admits(day),
    {
        match self {
            Criterion::Within { newer_than, older_than } => {
                let late_enough = match newer_than {
                    Some(first) => day.epoch_day >= first.epoch_day,
                    None => true,
                };
                let early_enough = match older_than {
                    Some(last) => day.epoch_day <= last.epoch_day,
                    None => true,
                };
                late_enough && early_enough
            },
            Criterion::Before(limit) => day.epoch_day < limit.epoch_day,
        }
    }
}

/// What a scan of listed prefixes comes to: the generations chosen, in
/// listing order, and the failure that ended the scan, if one did.
pub struct Scanned {
    pub found: Seq<Generation>,
    pub failure: Option<ErrorView>,
}

/// Whether `count` chosen generations exhaust the limit.
pub open spec fn exhausted(limit: Option<u64>, count: nat) -> bool {
    limit matches Some(l) && count >= l
}

/// Scans listed prefixes in order. Each prefix must name a generation; the
/// generation is chosen if the criterion admits its creation day. The scan
/// ends at the first prefix that names no generation, and as soon as the
/// limit is exhausted; what follows is not looked at.
pub open spec fn scanned(
    db_name: Seq<char>,
    prefixes: Seq<Seq<char>>,
    criterion: Criterion,
    limit: Option<u64>,
) -> Scanned
    decreases prefixes.len(),
{
    if prefixes.len() == 0 {
        Scanned { found: Seq::empty(), failure: None }
    } else {
        let before = scanned(db_name, prefixes.drop_last(), criterion, limit);
        if before.failure is Some || exhausted(limit, before.found.len()) {
            before
        } else {
            match generation_named(db_name, prefixes.last()) {
                None => Scanned {
                    found: before.found,
                    failure: Some(ErrorView::MalformedKey(prefixes.last())),
                },
                Some(generation) => if criterion.admits(generation.created_on()) {
                    Scanned { found: before.found.push(generation), failure: None }
                } else {
                    before
                },
            }
        }
    }
}

/// Once a scan has failed or exhausted its limit, further prefixes change nothing.
pub proof fn lemma_scan_settled(
    db_name: Seq<char>,
    prefixes: Seq<Seq<char>>,
    criterion: Criterion,
    limit: Option<u64>,
    n: int,
)
    requires
        0 <= n <= prefixes.len(),
        ({
            let so_far = scanned(db_name, prefixes.take(n), criterion, limit);
            so_far.failure is Some || exhausted(limit, so_far.found.len())
        }),
    ensures
        scanned(db_name, prefixes, criterion, limit) == scanned(
            db_name,
            prefixes.take(n),
            criterion,
            limit,
        ),
    decreases prefixes.len() - n,
{
    if n < prefixes.len() {
        assert(prefixes.drop_last().take(n) == prefixes.take(n));
        lemma_scan_settled(db_name, prefixes.drop_last(), criterion, limit, n);
    } else {
        assert(prefixes.take(n) == prefixes);
    }
}

/// A scan never chooses more generations than there are prefixes, nor more
/// than the limit allows.
pub proof fn lemma_scan_bounded(
    db_name: Seq<char>,
    prefixes: Seq<Seq<char>>,
    criterion: Criterion,
    limit: Option<u64>,
)
    ensures
        scanned(db_name, prefixes, criterion, limit).found.len() <= prefixes.len(),
        limit matches Some(l) ==> scanned(db_name, prefixes, criterion, limit).found.len() <= l,
    decreases prefixes.len(),
{
    if prefixes.len() > 0 {
        lemma_scan_bounded(db_name, prefixes.drop_last(), criterion, limit);
    }
}

/// Scans the prefixes of one page of a listing of generations.
pub fn scan(db_name: &str, prefixes: &Vec<String>, criterion: Criterion, limit: Option<u64>) -> (r:
    (Vec<Generation>, Option<ReplicatorError>))
    ensures
        r.0@ == scanned(db_name@, texts(prefixes@), criterion, limit).found,
        failure_view(r.1) == scanned(db_name@, texts(prefixes@), criterion, limit).failure,
{
    let ghost all = texts(prefixes@);
    let mut found: Vec<Generation> = Vec::new();
    let mut i: usize = 0;
    while i < prefixes.len()
        invariant
            i <= prefixes.len(),
            all == texts(prefixes@),
            found@ == scanned(db_name@, all.take(i as int), criterion, limit).found,
            scanned(db_name@, all.take(i as int), criterion, limit).failure is None,
            found.len() <= i,
        decreases prefixes.len() - i,
    {
        let full = match limit {
            Some(l) => found.len() as u64 >= l,
            None => false,
        };
        if full {
            proof {
                lemma_scan_settled(db_name@, all, criterion, limit, i as int);
            }
            return (found, None);
        }
        proof {
            assert(all.take(i + 1).drop_last() == all.take(i as int));
            assert(all.take(i + 1).last() == prefixes@[i as int]@);
        }
        match generation_of_prefix(db_name, prefixes[i].as_str()) {
            Ok(generation) => {
                if criterion.check(generation.date()) {
                    found.push(generation);
                }
            },
            Err(e) => {
                proof {
                    lemma_scan_settled(db_name@, all, criterion, limit, i + 1);
                }
                return (found, Some(e));
            },
        }
        i += 1;
    }
    assert(all.take(i as int) == all);
    (found, None)
}

/// What one page yields, as plain mathematical values.
pub struct BatchView<T> {
    pub items: Seq<T>,
    pub failure: Option<ErrorView>,
    pub listed: bool,
}

/// A walk through the generations of a database, page by page.
#[derive(Debug)]
pub struct GenerationScan {
    pub db_name: String,
    pub criterion: Criterion,
    /// How many more generations may be chosen, where that is limited.
    pub remaining: Option<u64>,
    /// How many generations were chosen so far; the count stops at the
    /// largest number it can hold.
    pub emitted: u64,
    pub pager: Pager,
}

/// A walk through generations as plain mathematical values.
pub struct GenerationScanView {
    pub db_name: Seq<char>,
    pub criterion: Criterion,
    pub remaining: Option<u64>,
    pub emitted: u64,
    pub pager: PagerView,
}

impl View for GenerationScan {
    type V = GenerationScanView;

    open spec fn view(&self) -> GenerationScanView {
        GenerationScanView {
            db_name: self.db_name@,
            criterion: self.criterion,
            remaining: self.remaining,
            emitted: self.emitted,
            pager: self.pager@,
        }
    }
}

/// What is left of a limit after `count` generations were chosen.
pub open spec fn left_of(limit: Option<u64>, count: nat) -> Option<u64> {
    match limit {
        Some(l) => Some(if count >= l { 0 } else { (l - count) as u64 }),
        None => None,
    }
}

/// The sum of a count and an addition, held at the largest `u64`.
pub open spec fn counted(count: u64, more: nat) -> u64 {
    if count + more > u64::MAX {
        u64::MAX
    } else {
        (count + more) as u64
    }
}

impl GenerationScanView {
    /// The walk before its first page.
    pub open spec fn start(db_name: Seq<char>, criterion: Criterion, limit: Option<u64>) -> Self {
        GenerationScanView {
            db_name,
            criterion,
            remaining: limit,
            emitted: 0,
            pager: PagerView {
                prefix: db_name,
                delimiter: Some('/'),
                marker: None,
                open: limit != Some(0u64),
            },
        }
    }

    /// What the page yields: nothing, and no change, once the walk is
    /// over; else the scan of the page's prefixes under what is left of the
    /// limit. A page without a list of prefixes ends the walk.
    pub open spec fn yield_of(self, page: ListPageView) -> BatchView<Generation> {
        if !self.pager.open {
            BatchView { items: Seq::empty(), failure: None, listed: true }
        } else {
            match page.prefixes {
                None => BatchView { items: Seq::empty(), failure: None, listed: false },
                Some(prefixes) => {
                    let s = scanned(self.db_name, prefixes, self.criterion, self.remaining);
                    BatchView { items: s.found, failure: s.failure, listed: true }
                },
            }
        }
    }

    /// The walk after the page: the limit and the count move by the number
    /// of generations chosen; the walk goes on to the next page unless the
    /// page held no list, the scan failed, the limit is exhausted or the
    /// page carried no marker.
    pub open spec fn after(self, page: ListPageView) -> GenerationScanView {
        if !self.pager.open {
            self
        } else {
            let batch = self.yield_of(page);
            let remaining = left_of(self.remaining, batch.items.len());
            let more = batch.listed && batch.failure is None && remaining != Some(0u64);
            GenerationScanView {
                remaining,
                emitted: counted(self.emitted, batch.items.len()),
                pager: self.pager.turned(page.next_marker, more),
                ..self
            }
        }
    }
}

impl GenerationScan {
    /// Begins a walk through the generations of `db_name`.
    pub fn start(db_name: &str, criterion: Criterion, limit: Option<u64>) -> (scan: Self)
        ensures
            scan@ == GenerationScanView::start(db_name@, criterion, limit),
    {
        let open = match limit {
            Some(l) => l != 0,
            None => true,
        };
        GenerationScan {
            db_name: db_name.to_owned(),
            criterion,
            remaining: limit,
            emitted: 0,
            pager: Pager { prefix: db_name.to_owned(), delimiter: Some('/'), marker: None, open },
        }
    }

    /// The listing request to perform next; none once the walk is over.
    pub fn request(&self) -> (r: Option<ListRequest>)
        ensures
            match self@.pager.request() {
                Some(expected) => r matches Some(request) && request@ == expected,
                None => r is None,
            },
    {
        self.pager.request()
    }

    /// Takes the page that answers the last request and hands out the
    /// generations chosen from it.
    pub fn accept(&mut self, page: &ListPage) -> (batch: Batch<Generation>)
        ensures
            final(self)@ == old(self)@.after(page@),
            batch.items@ == old(self)@.yield_of(page@).items,
            failure_view(batch.failure) == old(self)@.yield_of(page@).failure,
            batch.listed == old(self)@.yield_of(page@).listed,
    {
        if !self.pager.open {
            return Batch { items: Vec::new(), failure: None, listed: true };
        }
        match &page.prefixes {
            None => {
                self.pager.turn(&page.next_marker, false);
                Batch { items: Vec::new(), failure: None, listed: false }
            },
            Some(prefixes) => {
                let (found, failure) = scan(
                    self.db_name.as_str(),
                    prefixes,
                    self.criterion,
                    self.remaining,
                );
                proof {
                    lemma_scan_bounded(
                        self.db_name@,
                        texts(prefixes@),
                        self.criterion,
                        self.remaining,
                    );
                }
                let count = found.len() as u64;
                let remaining = match self.remaining {
                    Some(l) => Some(if count >= l { 0 } else { l - count }),
                    None => None,
                };
                let more = failure.is_none() && match remaining {
                    Some(l) => l != 0,
                    None => true,
                };
                self.remaining = remaining;
                self.emitted = if count > u64::MAX - self.emitted {
                    u64::MAX
                } else {
                    self.emitted + count
                };
                self.pager.turn(&page.next_marker, more);
                Batch { items: found, failure, listed: true }
            },
        }
    }
}

/// A walk through the objects of one generation, page by page, in order
/// to delete each of them.
#[derive(Debug)]
pub struct Removal {
    pub pager: Pager,
}

impl View for Removal {
    type V = PagerView;

    open spec fn view(&self) -> PagerView {
        self.pager@
    }
}

/// The keys to delete that a page yields: none once the walk is over, else
/// every key that the page lists, in order.
pub open spec fn removal_yield(walk: PagerView, page: ListPageView) -> BatchView<Seq<char>> {
    if !walk.open {
        BatchView { items: Seq::empty(), failure: None, listed: true }
    } else {
        match page.objects {
            None => BatchView { items: Seq::empty(), failure: None, listed: false },
            Some(keys) => BatchView { items: keys, failure: None, listed: true },
        }
    }
}

/// The walk after a page: it goes on to the next page unless the page held
/// no list or carried no marker.
pub open spec fn removal_after(walk: PagerView, page: ListPageView) -> PagerView {
    if !walk.open {
        walk
    } else {
        walk.turned(page.next_marker, page.objects is Some)
    }
}

impl Removal {
    /// Begins a walk through the objects under `prefix`.
    pub fn start(prefix: String) -> (walk: Self)
        ensures
            walk@ == (PagerView { prefix: prefix@, delimiter: None, marker: None, open: true }),
    {
        Removal { pager: Pager::start(prefix, None) }
    }

    /// The listing request to perform next; none once the walk is over.
    pub fn request(&self) -> (r: Option<ListRequest>)
        ensures
            match self@.request() {
                Some(expected) => r matches Some(request) && request@ == expected,
                None => r is None,
            },
    {
        self.pager.request()
    }

    /// Takes the page that answers the last request and hands out the keys
    /// to delete.
    pub fn accept(&mut self, page: &ListPage) -> (batch: Batch<String>)
        ensures
            final(self)@ == removal_after(old(self)@, page@),
            texts(batch.items@) == removal_yield(old(self)@, page@).items,
            batch.failure is None,
            batch.listed == removal_yield(old(self)@, page@).listed,
    {
        if !self.pager.open {
            return Batch { items: Vec::new(), failure: None, listed: true };
        }
        match &page.objects {
            None => {
                self.pager.turn(&page.next_marker, false);
                Batch { items: Vec::new(), failure: None, listed: false }
            },
            Some(keys) => {
                let items = copy_texts(keys);
                self.pager.turn(&page.next_marker, true);
                Batch { items, failure: None, listed: true }
            },
        }
    }
}

/// A copy of a list of texts.
pub fn copy_texts(list: &Vec<String>) -> (copy: Vec<String>)
    ensures
        texts(copy@) == texts(list@),
{
    let mut copy: Vec<String> = Vec::new();
    let mut i: usize = 0;
    while i < list.len()
        invariant
            i <= list.len(),
            copy.len() == i,
            forall|j: int| 0 <= j < i ==> copy@[j]@ == list@[j]@,
        decreases list.len() - i,
    {
        copy.push(list[i].clone());
        i += 1;
    }
    assert(texts(copy@) =~= texts(list@));
    copy
}

} // verus!
