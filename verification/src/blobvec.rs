//! A homogeneous, type-erased store of fixed-size records.
//!
//! A `BlobVec` keeps the raw bytes of equally sized records back to back in
//! one flat buffer, together with the memory layout the records were declared
//! with.  Records go in and come out as byte slices of exactly the layout's
//! size; interpreting those bytes as a typed value is the caller's business.

use vstd::prelude::*;

verus! {

/// Declares `core::alloc::Layout` so that a layout can be stored and passed
/// through verified code; the type stays opaque.
#[verifier::external_type_specification]
#[verifier::external_body]
pub struct ExLayout(core::alloc::Layout);

/// The size in bytes that a layout describes.
pub uninterp spec fn layout_size(layout: core::alloc::Layout) -> usize;

/// Relies on core::alloc::Layout::size: returns the size in bytes recorded
/// in the layout, a function of the layout value alone.
#[verifier::external_body]
pub(crate) fn size_of_layout(layout: &core::alloc::Layout) -> (r: usize)
    ensures
        r == layout_size(*layout),
{
    layout.size()
}

/// Flat byte storage for `len` records of `layout_size(layout)` bytes each.
pub struct BlobVec {
    pub layout: core::alloc::Layout,
    pub len: usize,
    pub data: Vec<u8>,
}

impl BlobVec {
    /// The byte buffer holds exactly the records it claims to hold.
    pub open spec fn well_formed(self) -> bool {
        self.data@.len() == self.len * layout_size(self.layout)
    }

    /// The bytes of the record at `index`.
    pub open spec fn record_at(self, index: int) -> Seq<u8> {
        self.data@.subrange(
            index * layout_size(self.layout),
            (index + 1) * layout_size(self.layout),
        )
    }

    /// An empty store for records of the given layout.
    pub fn new(layout: core::alloc::Layout) -> (r: BlobVec)
        ensures
            r.layout == layout,
            r.len == 0,
            r.data@ == Seq::<u8>::empty(),
            r.well_formed(),
    {
        BlobVec { layout, len: 0, data: Vec::new() }
    }

    /// How many records are stored.
    pub fn len(&self) -> (r: usize)
        ensures
            r == self.len,
    {
        self.len
    }

    /// Whether no record is stored.
    pub fn is_empty(&self) -> (r: bool)
        ensures
            r == (self.len == 0),
    {
        self.len == 0
    }

    /// Appends one record, given as exactly one layout's worth of bytes.
    pub fn add(&mut self, record: &[u8])
        requires
            old(self).well_formed(),
            record@.len() == layout_size(old(self).layout),
            old(self).len < usize::MAX,
        ensures
            final(self).layout == old(self).layout,
            final(self).len == old(self).len + 1,
            final(self).data@ == old(self).data@ + record@,
            final(self).well_formed(),
            final(self).record_at(old(self).len as int) == record@,
    {
        let ghost old_data: Seq<u8> = self.data@;
        let mut i: usize = 0;
        while i < record.len()
            invariant
                i <= record@.len(),
                self.data@ == old_data + record@.subrange(0, i as int),
                self.layout == old(self).layout,
                self.len == old(self).len,
            decreases record@.len() - i,
        {
            self.data.push(record[i]);
            proof {
                assert(self.data@ =~= old_data + record@.subrange(0, i + 1));
            }
            i = i + 1;
        }
        proof {
            assert(self.data@ =~= old_data + record@);
        }
        self.len = self.len + 1;
        proof {
            let size = layout_size(self.layout) as int;
            let n = old(self).len as int;
            assert((n + 1) * size == n * size + size) by (nonlinear_arith);
            assert(self.record_at(n) =~= record@);
        }
    }

    /// Copies out the bytes of the record at `index`.
    pub fn get(&self, index: usize) -> (r: Vec<u8>)
        requires
            self.well_formed(),
            index < self.len,
        ensures
            r@ == self.record_at(index as int),
    {
        let size = size_of_layout(&self.layout);
        let dlen: usize = self.data.len();
        proof {
            lemma_record_bounds(index as int, self.len as int, size as int);
            assert(self.len * size == dlen);
        }
        let start: usize = index * size;
        let mut out: Vec<u8> = Vec::new();
        let mut i: usize = 0;
        while i < size
            invariant
                i <= size,
                size == layout_size(self.layout),
                start == index * size,
                dlen == self.data@.len(),
                start + size <= dlen,
                out@ == self.data@.subrange(start as int, start as int + i as int),
            decreases size - i,
        {
            out.push(self.data[start + i]);
            proof {
                assert(out@ =~= self.data@.subrange(start as int, start as int + i + 1));
            }
            i = i + 1;
        }
        out
    }

    /// All stored bytes, in record order.
    pub fn as_slice(&self) -> (r: &[u8])
        ensures
            r@ == self.data@,
    {
        self.data.as_slice()
    }
}

/// For a record index strictly below the record count, the record's byte
/// range lies inside a buffer holding `count` records of `size` bytes.
proof fn lemma_record_bounds(index: int, count: int, size: int) by (nonlinear_arith)
    requires
        0 <= index < count,
        0 <= size,
    ensures
        0 <= index * size,
        index * size + size <= count * size,
        (index + 1) * size == index * size + size,
{
}

} // verus!
