//! Consistency metadata of a generation: how the answers to reads of its
//! optional remote resources are reported. Absence is no failure.

use crate::error::{ErrorView, ReplicatorError};
use crate::listing::text_view;
use vstd::prelude::*;

verus! {

/// The answer of the object store to a read of one resource.
#[derive(Debug)]
pub enum Fetched<T> {
    /// The resource is there, with this content.
    Found(T),
    /// The object store has no such resource.
    NotFound,
    /// The read failed otherwise; the text is the transport's message.
    Failed(String),
}

/// Size and age of a consolidated snapshot, as the object store tells them.
#[derive(Debug)]
pub struct SnapshotAttributes {
    pub size: i64,
    pub last_modified: Option<String>,
}

/// What is reported of the consolidated snapshot of a generation.
#[derive(Debug)]
pub enum SnapshotSummary {
    /// There is a snapshot.
    Present { size: i64, last_modified: Option<String> },
    /// There is no snapshot.
    Absent,
    /// The object store could not tell; the text is its message.
    Unavailable(String),
}

/// A snapshot summary as plain mathematical values.
pub enum SnapshotSummaryView {
    Present { size: i64, last_modified: Option<Seq<char>> },
    Absent,
    Unavailable(Seq<char>),
}

impl View for SnapshotSummary {
    type V = SnapshotSummaryView;

    open spec fn view(&self) -> SnapshotSummaryView {
        match self {
            SnapshotSummary::Present { size, last_modified } => SnapshotSummaryView::Present {
                size: *size,
                last_modified: text_view(*last_modified),
            },
            SnapshotSummary::Absent => SnapshotSummaryView::Absent,
            SnapshotSummary::Unavailable(message) => SnapshotSummaryView::Unavailable(message@),
        }
    }
}

/// The summary that an answer to the read of a snapshot's attributes comes to.
pub open spec fn summary_of(answer: Fetched<SnapshotAttributes>) -> SnapshotSummaryView {
    match answer {
        Fetched::Found(attributes) => SnapshotSummaryView::Present {
            size: attributes.size,
            last_modified: text_view(attributes.last_modified),
        },
        Fetched::NotFound => SnapshotSummaryView::Absent,
        Fetched::Failed(message) => SnapshotSummaryView::Unavailable(message@),
    }
}

/// Reports on the consolidated snapshot of a generation. A snapshot that
/// is not there is reported as absent, and a failed read is reported with
/// its message; neither is an error of the operation that asked.
pub fn snapshot_summary(answer: Fetched<SnapshotAttributes>) -> (summary: SnapshotSummary)
    ensures
        summary@ == summary_of(answer),
{
    match answer {
        Fetched::Found(attributes) => SnapshotSummary::Present {
            size: attributes.size,
            last_modified: attributes.last_modified,
        },
        Fetched::NotFound => SnapshotSummary::Absent,
        Fetched::Failed(message) => SnapshotSummary::Unavailable(message),
    }
}

/// Reports a durability marker of a generation, such as its change
/// counter or its last consistent frame: a marker that is not there is
/// reported as absent, a failed read is the failure of the operation.
pub fn marker<T>(answer: Fetched<T>) -> (r: Result<Option<T>, ReplicatorError>)
    ensures
        match answer {
            Fetched::Found(value) => r == Ok::<Option<T>, ReplicatorError>(Some(value)),
            Fetched::NotFound => r == Ok::<Option<T>, ReplicatorError>(None),
            Fetched::Failed(message) => r matches Err(e) && e@ == ErrorView::Transport(message@),
        },
{
    match answer {
        Fetched::Found(value) => Ok(Some(value)),
        Fetched::NotFound => Ok(None),
        Fetched::Failed(message) => Err(ReplicatorError::Transport(message)),
    }
}

} // verus!
