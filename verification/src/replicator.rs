//! The replicator session of one open database: its generation, its write
//! buffer, the commit that uploads the buffer page by page, and the
//! catalog operations on the remote history of the database. The session
//! performs no request itself: it says which request to perform and is
//! told the answer.

use crate::buffer::{enumerates, WriteBuffer, PAGE_SIZE};
use crate::catalog::{Criterion, GenerationScan, GenerationScanView, Removal};
use crate::error::{ErrorView, ReplicatorError};
use crate::generation::{Date, Generation};
use crate::keys::{
    detect_db_name, detected_name, generation_prefix, generation_prefix_of, page_key, page_key_of,
};
use crate::listing::{ListPage, ListPageView, ListRequest, ListRequestView, PagerView};
use crate::restore::Restore;
use vstd::prelude::*;
use vstd::slice::slice_to_vec;

verus! {

/// What happened since the replicator last said what to do for a commit.
#[derive(Debug)]
pub enum CommitEvent {
    /// The transaction commits: enumerate the buffered pages and start
    /// with the first of them.
    Begin,
    /// The upload that was asked for has succeeded.
    Uploaded,
    /// The upload that was asked for has failed; the text is the
    /// transport's message.
    Failed(String),
}

/// What is to be done next for a commit.
#[derive(Debug)]
pub enum CommitAction {
    /// Store `body` under `key`, then report `Uploaded` or `Failed`.
    Upload { key: String, body: Vec<u8> },
    /// Every buffered page is stored; the buffer is now empty.
    Done,
    /// The commit has failed; the buffer is kept for another attempt.
    Abort(ReplicatorError),
}

/// A commit event as plain mathematical values.
pub enum CommitEventView {
    Begin,
    Uploaded,
    Failed(Seq<char>),
}

/// A commit action as plain mathematical values.
pub enum CommitActionView {
    Upload { key: Seq<char>, body: Seq<u8> },
    Done,
    Abort(ErrorView),
}

impl View for CommitEvent {
    type V = CommitEventView;

    open spec fn view(&self) -> CommitEventView {
        match self {
            CommitEvent::Begin => CommitEventView::Begin,
            CommitEvent::Uploaded => CommitEventView::Uploaded,
            CommitEvent::Failed(message) => CommitEventView::Failed(message@),
        }
    }
}

impl View for CommitAction {
    type V = CommitActionView;

    open spec fn view(&self) -> CommitActionView {
        match self {
            CommitAction::Upload { key, body } => CommitActionView::Upload {
                key: key@,
                body: body@,
            },
            CommitAction::Done => CommitActionView::Done,
            CommitAction::Abort(e) => CommitActionView::Abort(e@),
        }
    }
}

/// Whether an event makes a commit enumerate the buffer anew: the
/// beginning does, and so does a success that answers no upload.
pub open spec fn starts_over(uploading: Option<nat>, event: CommitEventView) -> bool {
    event is Begin || (event is Uploaded && uploading is None)
}

/// The position in the enumeration that a commit looks at after an event:
/// the first at the beginning, the one after the page whose upload was
/// asked for once that upload has succeeded.
pub open spec fn commit_position(uploading: Option<nat>, len: nat, event: CommitEventView) -> nat {
    match event {
        CommitEventView::Uploaded => match uploading {
            Some(at) => if at < len {
                at + 1
            } else {
                len
            },
            None => 0,
        },
        _ => 0,
    }
}

/// What a commit does on reaching a position of the enumeration: past the
/// last page it is done; a page that has not the size of a page aborts it
/// before anything is uploaded for that page; any other page is uploaded
/// under its key. A page that is enumerated but not buffered aborts it too.
pub open spec fn commit_decision(
    db_name: Seq<char>,
    generation: Generation,
    pages: Map<u32, Seq<u8>>,
    order: Seq<u32>,
    at: nat,
) -> CommitActionView {
    if at >= order.len() {
        CommitActionView::Done
    } else if !pages.contains_key(order[at as int]) {
        CommitActionView::Abort(
            ErrorView::NotFound(page_key_of(db_name, generation, order[at as int])),
        )
    } else if pages[order[at as int]].len() != PAGE_SIZE {
        CommitActionView::Abort(
            ErrorView::SizeMismatch {
                page_no: order[at as int],
                len: pages[order[at as int]].len() as usize,
            },
        )
    } else {
        CommitActionView::Upload {
            key: page_key_of(db_name, generation, order[at as int]),
            body: pages[order[at as int]],
        }
    }
}

/// How a commit reacts to an event, given the enumeration it works
/// through: a failed upload aborts it with the transport's message;
/// otherwise it decides on the next position.
pub open spec fn commit_reaction(
    db_name: Seq<char>,
    generation: Generation,
    pages: Map<u32, Seq<u8>>,
    order: Seq<u32>,
    uploading: Option<nat>,
    event: CommitEventView,
) -> CommitActionView {
    match event {
        CommitEventView::Failed(message) => CommitActionView::Abort(ErrorView::Transport(message)),
        _ => commit_decision(
            db_name,
            generation,
            pages,
            order,
            commit_position(uploading, order.len(), event),
        ),
    }
}

/// The request that lists the generations of a database from the start.
pub open spec fn generations_request_of(db_name: Seq<char>) -> ListRequestView {
    ListRequestView { prefix: db_name, delimiter: Some('/'), marker: None, max_keys: None }
}

/// The request that asks whether a generation has any object.
pub open spec fn generation_request_of(db_name: Seq<char>, generation: Generation) -> ListRequestView {
    ListRequestView {
        prefix: generation_prefix_of(db_name, generation),
        delimiter: None,
        marker: None,
        max_keys: Some(1u32),
    }
}

/// The request that lists the objects of the bucket from the start.
pub open spec fn bucket_request_of() -> ListRequestView {
    ListRequestView { prefix: Seq::empty(), delimiter: None, marker: None, max_keys: None }
}

/// The database name that the answer to a listing of generations shows:
/// the name detected in the first group listed, if there is one.
pub open spec fn detected_db(answer: Option<ListPageView>) -> Option<Seq<char>> {
    match answer {
        Some(page) => match page.prefixes {
            Some(prefixes) => if prefixes.len() > 0 {
                detected_name(prefixes[0])
            } else {
                None
            },
            None => None,
        },
        None => None,
    }
}

/// Whether the answer to a listing of the bucket shows an empty bucket: it
/// holds no list of objects or an empty one. No answer shows nothing.
pub open spec fn shows_empty_bucket(answer: Option<ListPageView>) -> bool {
    match answer {
        Some(page) => match page.objects {
            Some(objects) => objects.len() == 0,
            None => true,
        },
        None => false,
    }
}

/// Whether a page of a listing shows at least one object.
pub open spec fn shows_objects(page: ListPageView) -> bool {
    page.objects matches Some(objects) && objects.len() > 0
}

/// The state of one replicator session.
#[derive(Debug)]
pub struct Replicator {
    bucket: String,
    db_name: String,
    generation: Generation,
    write_buffer: WriteBuffer,
    uploads: Vec<u32>,
    in_flight: Option<usize>,
}

impl Replicator {
    /// The bucket that holds the remote history.
    pub closed spec fn bucket_name(&self) -> Seq<char> {
        self.bucket@
    }

    /// The name of the database, with which every key begins.
    pub closed spec fn name(&self) -> Seq<char> {
        self.db_name@
    }

    /// The generation under which this session stores its pages.
    pub closed spec fn current(&self) -> Generation {
        self.generation
    }

    /// The buffered image of each page.
    pub closed spec fn buffered(&self) -> Map<u32, Seq<u8>> {
        self.write_buffer@
    }

    /// The page numbers of the commit under way, in the order in which the
    /// buffer enumerated them when the commit began.
    pub closed spec fn upload_order(&self) -> Seq<u32> {
        self.uploads@
    }

    /// The position in the enumeration of the page whose upload the commit
    /// under way has asked for; none while no upload is asked for.
    pub closed spec fn uploading(&self) -> Option<nat> {
        match self.in_flight {
            Some(at) => Some(at as nat),
            None => None,
        }
    }

    /// A session for `db_name` that stores under `generation`, with an
    /// empty write buffer.
    pub fn new(db_name: String, bucket: String, generation: Generation) -> (session: Replicator)
        ensures
            session.name() == db_name@,
            session.bucket_name() == bucket@,
            session.current() == generation,
            session.buffered() == Map::<u32, Seq<u8>>::empty(),
            session.uploading() is None,
    {
        Replicator {
            bucket,
            db_name,
            generation,
            write_buffer: WriteBuffer::new(),
            uploads: Vec::new(),
            in_flight: None,
        }
    }

    /// Names the database that the session works on.
    pub fn register_db(&mut self, db_name: String)
        ensures
            final(self).name() == db_name@,
            final(self).bucket_name() == old(self).bucket_name(),
            final(self).current() == old(self).current(),
            final(self).buffered() == old(self).buffered(),
            final(self).upload_order() == old(self).upload_order(),
            final(self).uploading() == old(self).uploading(),
    {
        self.db_name = db_name;
    }

    /// The name of the database.
    pub fn db_name(&self) -> (name: &String)
        ensures
            name@ == self.name(),
    {
        &self.db_name
    }

    /// The bucket that holds the remote history.
    pub fn bucket(&self) -> (bucket: &String)
        ensures
            bucket@ == self.bucket_name(),
    {
        &self.bucket
    }

    /// The generation under which this session stores its pages.
    pub fn generation(&self) -> (generation: Generation)
        ensures
            generation == self.current(),
    {
        self.generation
    }

    /// The number of pages buffered.
    pub fn buffered_pages(&self) -> (n: usize)
        ensures
            n == self.buffered().dom().len(),
    {
        self.write_buffer.len()
    }

    /// Buffers the image of a page. The last image written for a page
    /// wins. A commit under way enumerates the buffer anew with its next step.
    pub fn write(&mut self, page_no: u32, data: &[u8])
        ensures
            final(self).buffered() == old(self).buffered().insert(page_no, data@),
            final(self).uploading() is None,
            final(self).name() == old(self).name(),
            final(self).bucket_name() == old(self).bucket_name(),
            final(self).current() == old(self).current(),
    {
        self.write_buffer.write(page_no, data);
        self.in_flight = None;
    }

    /// Takes a commit one step further: given what happened to the last
    /// upload, says what to do next. At its beginning the commit
    /// enumerates the buffered pages, in an order that is not fixed, and
    /// then works through that enumeration. The buffer is emptied when
    /// every page has been uploaded, and at no other time.
    pub fn commit(&mut self, event: CommitEvent) -> (action: CommitAction)
        ensures
            starts_over(old(self).uploading(), event@) ==> enumerates(
                final(self).upload_order(),
                old(self).buffered(),
            ),
            !starts_over(old(self).uploading(), event@) ==> final(self).upload_order() == old(
                self,
            ).upload_order(),
            action@ == commit_reaction(
                old(self).name(),
                old(self).current(),
                old(self).buffered(),
                final(self).upload_order(),
                old(self).uploading(),
                event@,
            ),
            final(self).buffered() == (if action@ is Done {
                Map::<u32, Seq<u8>>::empty()
            } else {
                old(self).buffered()
            }),
            final(self).uploading() == (if action@ is Upload {
                Some(
                    commit_position(
                        old(self).uploading(),
                        final(self).upload_order().len(),
                        event@,
                    ),
                )
            } else {
                None::<nat>
            }),
            final(self).name() == old(self).name(),
            final(self).bucket_name() == old(self).bucket_name(),
            final(self).current() == old(self).current(),
    {
        let at: usize = match event {
            CommitEvent::Failed(message) => {
                self.in_flight = None;
                return CommitAction::Abort(ReplicatorError::Transport(message));
            },
            CommitEvent::Begin => {
                self.uploads = self.write_buffer.page_numbers();
                0
            },
            CommitEvent::Uploaded => match self.in_flight {
                Some(uploaded) => if uploaded < self.uploads.len() {
                    uploaded + 1
                } else {
                    self.uploads.len()
                },
                None => {
                    self.uploads = self.write_buffer.page_numbers();
                    0
                },
            },
        };
        if at >= self.uploads.len() {
            self.write_buffer.clear();
            self.in_flight = None;
            return CommitAction::Done;
        }
        let page_no = self.uploads[at];
        let key = page_key(self.db_name.as_str(), &self.generation, page_no);
        match self.write_buffer.image(page_no) {
            None => {
                self.in_flight = None;
                CommitAction::Abort(ReplicatorError::NotFound(key))
            },
            Some(image) => {
                if image.len() != PAGE_SIZE {
                    let failure = ReplicatorError::SizeMismatch { page_no, len: image.len() };
                    self.in_flight = None;
                    return CommitAction::Abort(failure);
                }
                let body = slice_to_vec(image);
                self.in_flight = Some(at);
                CommitAction::Upload { key, body }
            },
        }
    }

    /// Begins a walk through the generations of the database, newest
    /// first, that hands out those created within the given days, up to
    /// `limit` of them.
    pub fn list_generations(
        &self,
        limit: Option<u64>,
        older_than: Option<Date>,
        newer_than: Option<Date>,
    ) -> (scan: GenerationScan)
        ensures
            scan@ == GenerationScanView::start(
                self.name(),
                Criterion::Within { newer_than, older_than },
                limit,
            ),
    {
        GenerationScan::start(
            self.db_name.as_str(),
            Criterion::Within { newer_than, older_than },
            limit,
        )
    }

    /// Begins a walk through the generations of the database that hands
    /// out those created before `older_than`, each of which is to be removed.
    pub fn remove_many(&self, older_than: Date) -> (scan: GenerationScan)
        ensures
            scan@ == GenerationScanView::start(
                self.name(),
                Criterion::Before(older_than),
                None,
            ),
    {
        GenerationScan::start(self.db_name.as_str(), Criterion::Before(older_than), None)
    }

    /// Begins a walk through the objects of a generation that hands out
    /// the key of each, to be deleted.
    pub fn remove(&self, generation: Generation) -> (walk: Removal)
        ensures
            walk@ == (PagerView {
                prefix: generation_prefix_of(self.name(), generation),
                delimiter: None,
                marker: None,
                open: true,
            }),
    {
        Removal::start(generation_prefix(self.db_name.as_str(), &generation))
    }

    /// Begins a walk through the objects of a generation that hands out
    /// the page objects to fetch, by which the database is restored.
    pub fn restore_from(&self, generation: Generation) -> (walk: Restore)
        ensures
            walk@ == (PagerView {
                prefix: generation_prefix_of(self.name(), generation),
                delimiter: None,
                marker: None,
                open: true,
            }),
    {
        Restore::start(generation_prefix(self.db_name.as_str(), &generation))
    }

    /// Begins the restore of the session's own generation.
    pub fn boot(&self) -> (walk: Restore)
        ensures
            walk@ == (PagerView {
                prefix: generation_prefix_of(self.name(), self.current()),
                delimiter: None,
                marker: None,
                open: true,
            }),
    {
        self.restore_from(self.generation)
    }

    /// The request that asks whether a generation has any object.
    pub fn generation_request(&self, generation: Generation) -> (request: ListRequest)
        ensures
            request@ == generation_request_of(self.name(), generation),
    {
        ListRequest {
            prefix: generation_prefix(self.db_name.as_str(), &generation),
            delimiter: None,
            marker: None,
            max_keys: Some(1),
        }
    }

    /// Checks the answer to `generation_request`: the generation is there
    /// if at least one object is listed, and not found otherwise.
    pub fn list_generation(&self, generation: Generation, page: &ListPage) -> (r: Result<
        (),
        ReplicatorError,
    >)
        ensures
            if shows_objects(page@) {
                r is Ok
            } else {
                r matches Err(e) && e@ == ErrorView::NotFound(generation.text())
            },
    {
        let found = match &page.objects {
            Some(objects) => objects.len() > 0,
            None => false,
        };
        if found {
            Ok(())
        } else {
            Err(ReplicatorError::NotFound(generation.to_text()))
        }
    }

    /// The request that lists the generations of the database from the start.
    pub fn generations_request(&self) -> (request: ListRequest)
        ensures
            request@ == generations_request_of(self.name()),
    {
        ListRequest {
            prefix: self.db_name.clone(),
            delimiter: Some('/'),
            marker: None,
            max_keys: None,
        }
    }

    /// Reads the name of the database off the answer to
    /// `generations_request`; no answer, no group or a first group of
    /// another shape yields none.
    pub fn detect_db(answer: Option<&ListPage>) -> (name: Option<String>)
        ensures
            match detected_db(page_view(answer)) {
                Some(expected) => name matches Some(found) && found@ == expected,
                None => name is None,
            },
    {
        match answer {
            Some(page) => match &page.prefixes {
                Some(prefixes) => if prefixes.len() > 0 {
                    detect_db_name(prefixes[0].as_str())
                } else {
                    None
                },
                None => None,
            },
            None => None,
        }
    }

    /// The request that lists the objects of the bucket from the start.
    pub fn bucket_request() -> (request: ListRequest)
        ensures
            request@ == bucket_request_of(),
    {
        ListRequest { prefix: String::new(), delimiter: None, marker: None, max_keys: None }
    }

    /// Tells from the answer to `bucket_request` whether the bucket is
    /// empty; where the listing failed and there is no answer, it is not
    /// taken to be empty.
    pub fn is_bucket_empty(answer: Option<&ListPage>) -> (empty: bool)
        ensures
            empty == shows_empty_bucket(page_view(answer)),
    {
        match answer {
            Some(page) => match &page.objects {
                Some(objects) => objects.len() == 0,
                None => true,
            },
            None => false,
        }
    }
}

/// An answer that may be absent, as plain values.
pub open spec fn page_view(answer: Option<&ListPage>) -> Option<ListPageView> {
    match answer {
        Some(page) => Some(page@),
        None => None,
    }
}

} // verus!
