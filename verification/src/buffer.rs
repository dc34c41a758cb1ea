//! The write buffer of one transaction: the latest image of every page
//! written since the last successful commit.

use crate::outside::{bytes_held, bytes_slice, extend_bytes, new_bytes};
use bytes::BytesMut;
use std::collections::HashMap;
use vstd::prelude::*;
use vstd::std_specs::iter::IteratorSpec;

verus! {

broadcast use vstd::std_specs::hash::group_hash_axioms;

/// The size of a database page in bytes.
pub const PAGE_SIZE: usize = 4096;

/// The buffered page images of one transaction, by page number.
#[derive(Debug)]
pub struct WriteBuffer {
    pages: HashMap<u32, BytesMut>,
}

/// Whether a list names every buffered page once: this is what an
/// enumeration of the buffer yields, in an order that is not fixed.
pub open spec fn enumerates(order: Seq<u32>, pages: Map<u32, Seq<u8>>) -> bool {
    &&& order.no_duplicates()
    &&& forall|page_no: u32| order.contains(page_no) <==> pages.contains_key(page_no)
}

impl View for WriteBuffer {
    type V = Map<u32, Seq<u8>>;

    closed spec fn view(&self) -> Map<u32, Seq<u8>> {
        Map::new(
            |page_no: u32| self.pages@.contains_key(page_no),
            |page_no: u32| bytes_held(self.pages@[page_no]),
        )
    }
}

impl WriteBuffer {
    /// An empty buffer.
    pub fn new() -> (buffer: WriteBuffer)
        ensures
            buffer@ == Map::<u32, Seq<u8>>::empty(),
    {
        let buffer = WriteBuffer { pages: HashMap::new() };
        assert(buffer@ =~= Map::<u32, Seq<u8>>::empty());
        buffer
    }

    /// The number of pages buffered.
    pub fn len(&self) -> (n: usize)
        ensures
            n == self@.dom().len(),
            self@.dom().finite(),
    {
        assert(self@.dom() =~= self.pages@.dom());
        self.pages.len()
    }

    /// The buffered image of a page, if there is one.
    pub fn image(&self, page_no: u32) -> (image: Option<&[u8]>)
        ensures
            match image {
                Some(bytes) => self@.contains_key(page_no) && bytes@ == self@[page_no],
                None => !self@.contains_key(page_no),
            },
    {
        match self.pages.get(&page_no) {
            Some(held) => Some(bytes_slice(held)),
            None => None,
        }
    }

    /// The numbers of the buffered pages, in the order in which the buffer
    /// enumerates them.
    pub fn page_numbers(&self) -> (order: Vec<u32>)
        ensures
            enumerates(order@, self@),
    {
        let mut order: Vec<u32> = Vec::new();
        let keys = self.pages.keys();
        let ghost all = keys.remaining().unref();
        for page_no in it: keys
            invariant
                all == it.seq().unref(),
                order@ == all.take(it.index()),
        {
            assert(all.take(it.index() + 1) == all.take(it.index()).push(*page_no));
            order.push(*page_no);
        }
        assert(order@ == all);
        assert forall|page_no: u32| order@.contains(page_no) <==> self@.contains_key(page_no) by {
            assert(all.to_set().contains(page_no) <==> self.pages@.dom().contains(page_no));
        }
        order
    }

    /// Buffers the image of a page; an earlier image of the same page is
    /// superseded.
    pub fn write(&mut self, page_no: u32, data: &[u8])
        ensures
            final(self)@ == old(self)@.insert(page_no, data@),
    {
        let mut image = new_bytes();
        extend_bytes(&mut image, data);
        self.pages.insert(page_no, image);
        assert(self@ =~= old(self)@.insert(page_no, data@));
    }

    /// Empties the buffer.
    pub fn clear(&mut self)
        ensures
            final(self)@ == Map::<u32, Seq<u8>>::empty(),
    {
        self.pages.clear();
        assert(self@ =~= Map::<u32, Seq<u8>>::empty());
    }
}

} // verus!
