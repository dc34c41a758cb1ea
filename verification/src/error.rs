//! The failures that replication and catalog operations report.

use vstd::prelude::*;

verus! {

/// Why an operation on the remote history failed.
#[derive(Debug)]
pub enum ReplicatorError {
    /// A resource that was required is absent; the text names it.
    NotFound(String),
    /// The object store could not be reached or refused the request; the
    /// text is the transport's own message.
    Transport(String),
    /// A listed key or prefix names no generation or page; the text is the
    /// offending key.
    MalformedKey(String),
    /// A buffered page does not have the size of a page.
    SizeMismatch { page_no: u32, len: usize },
}

/// A failure as plain mathematical values.
pub enum ErrorView {
    NotFound(Seq<char>),
    Transport(Seq<char>),
    MalformedKey(Seq<char>),
    SizeMismatch { page_no: u32, len: usize },
}

impl View for ReplicatorError {
    type V = ErrorView;

    open spec fn view(&self) -> ErrorView {
        match self {
            ReplicatorError::NotFound(what) => ErrorView::NotFound(what@),
            ReplicatorError::Transport(message) => ErrorView::Transport(message@),
            ReplicatorError::MalformedKey(key) => ErrorView::MalformedKey(key@),
            ReplicatorError::SizeMismatch { page_no, len } => ErrorView::SizeMismatch {
                page_no: *page_no,
                len: *len,
            },
        }
    }
}

} // verus!
