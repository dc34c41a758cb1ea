//! Paginated listings. The object store answers a listing one page at a
//! time; a page may carry a marker, and handing that marker back yields the
//! page that follows. A pager keeps the marker between pages and knows when
//! the listing is over.

use crate::error::{ErrorView, ReplicatorError};
use vstd::prelude::*;

verus! {

/// One listing request for the object store.
#[derive(Debug)]
pub struct ListRequest {
    /// Only keys that begin with this text are listed.
    pub prefix: String,
    /// With a delimiter, keys are grouped by what precedes its first
    /// occurrence after the prefix, and the groups are listed.
    pub delimiter: Option<char>,
    /// The marker of the page before; none asks for the first page.
    pub marker: Option<String>,
    /// The largest number of entries wanted, where it is limited.
    pub max_keys: Option<u32>,
}

/// One page of a listing, as the object store answered it.
#[derive(Debug)]
pub struct ListPage {
    /// The keys of the objects listed; none where the answer held no list.
    pub objects: Option<Vec<String>>,
    /// The groups listed; none where the answer held no list.
    pub prefixes: Option<Vec<String>>,
    /// The marker that leads to the next page; none on the last page.
    pub next_marker: Option<String>,
}

/// What one page of a listing yields: the items to act on, in order, and
/// the failure that ended the page, which is to be reported once the items
/// before it have been acted on.
#[derive(Debug)]
pub struct Batch<T> {
    pub items: Vec<T>,
    pub failure: Option<ReplicatorError>,
    /// False where the page held no list at all.
    pub listed: bool,
}

/// Keeps the place in a paginated listing.
#[derive(Debug)]
pub struct Pager {
    pub prefix: String,
    pub delimiter: Option<char>,
    pub marker: Option<String>,
    /// Whether a further page is to be asked for.
    pub open: bool,
}

/// A listing request as plain mathematical values.
pub struct ListRequestView {
    pub prefix: Seq<char>,
    pub delimiter: Option<char>,
    pub marker: Option<Seq<char>>,
    pub max_keys: Option<u32>,
}

/// A page of a listing as plain mathematical values.
pub struct ListPageView {
    pub objects: Option<Seq<Seq<char>>>,
    pub prefixes: Option<Seq<Seq<char>>>,
    pub next_marker: Option<Seq<char>>,
}

/// A pager as plain mathematical values.
pub struct PagerView {
    pub prefix: Seq<char>,
    pub delimiter: Option<char>,
    pub marker: Option<Seq<char>>,
    pub open: bool,
}

/// The characters of each text of a list.
pub open spec fn texts(list: Seq<String>) -> Seq<Seq<char>> {
    Seq::new(list.len(), |i: int| list[i]@)
}

/// The characters of a text that may be absent.
pub open spec fn text_view(text: Option<String>) -> Option<Seq<char>> {
    match text {
        Some(t) => Some(t@),
        None => None,
    }
}

/// The characters of each text of a list that may be absent.
pub open spec fn texts_view(list: Option<Vec<String>>) -> Option<Seq<Seq<char>>> {
    match list {
        Some(l) => Some(texts(l@)),
        None => None,
    }
}

/// A failure that may be absent, as plain values.
pub open spec fn failure_view(failure: Option<ReplicatorError>) -> Option<ErrorView> {
    match failure {
        Some(e) => Some(e@),
        None => None,
    }
}

impl View for ListRequest {
    type V = ListRequestView;

    open spec fn view(&self) -> ListRequestView {
        ListRequestView {
            prefix: self.prefix@,
            delimiter: self.delimiter,
            marker: text_view(self.marker),
            max_keys: self.max_keys,
        }
    }
}

impl View for ListPage {
    type V = ListPageView;

    open spec fn view(&self) -> ListPageView {
        ListPageView {
            objects: texts_view(self.objects),
            prefixes: texts_view(self.prefixes),
            next_marker: text_view(self.next_marker),
        }
    }
}

impl View for Pager {
    type V = PagerView;

    open spec fn view(&self) -> PagerView {
        PagerView {
            prefix: self.prefix@,
            delimiter: self.delimiter,
            marker: text_view(self.marker),
            open: self.open,
        }
    }
}

impl PagerView {
    /// The request for the next page; none once the listing is over.
    pub open spec fn request(self) -> Option<ListRequestView> {
        if self.open {
            Some(
                ListRequestView {
                    prefix: self.prefix,
                    delimiter: self.delimiter,
                    marker: self.marker,
                    max_keys: None,
                },
            )
        } else {
            None
        }
    }

    /// The pager after a page was answered with the given marker. The
    /// listing goes on only if more is wanted and the page carried a marker.
    pub open spec fn turned(self, next_marker: Option<Seq<char>>, more_wanted: bool) -> PagerView {
        if self.open && more_wanted && next_marker is Some {
            PagerView { marker: next_marker, ..self }
        } else {
            PagerView { open: false, ..self }
        }
    }
}

/// A copy of a text that may be absent.
pub fn copy_text(text: &Option<String>) -> (copy: Option<String>)
    ensures
        text_view(copy) == text_view(*text),
{
    match text {
        Some(t) => Some(t.clone()),
        None => None,
    }
}

impl Pager {
    /// A pager before the first page of a listing.
    pub fn start(prefix: String, delimiter: Option<char>) -> (pager: Pager)
        ensures
            pager@ == (PagerView { prefix: prefix@, delimiter, marker: None, open: true }),
    {
        Pager { prefix, delimiter, marker: None, open: true }
    }

    /// The request for the next page; none once the listing is over.
    pub fn request(&self) -> (r: Option<ListRequest>)
        ensures
            match self@.request() {
                Some(expected) => r matches Some(request) && request@ == expected,
                None => r is None,
            },
    {
        if self.open {
            Some(
                ListRequest {
                    prefix: self.prefix.clone(),
                    delimiter: self.delimiter,
                    marker: copy_text(&self.marker),
                    max_keys: None,
                },
            )
        } else {
            None
        }
    }

    /// Takes note of the marker of the page just answered.
    pub fn turn(&mut self, next_marker: &Option<String>, more_wanted: bool)
        ensures
            final(self)@ == old(self)@.turned(text_view(*next_marker), more_wanted),
    {
        if self.open && more_wanted && next_marker.is_some() {
            self.marker = copy_text(next_marker);
        } else {
            self.open = false;
        }
    }
}

} // verus!
