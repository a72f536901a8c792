//! A counter of stored blobs.

use vstd::prelude::*;

verus! {

/// Counts the blobs handed to it. The blobs themselves are not kept.
pub struct BlobStorage {
    count: u64,
}

impl View for BlobStorage {
    type V = nat;

    /// The number of blobs stored so far.
    closed spec fn view(&self) -> nat {
        self.count as nat
    }
}

impl Default for BlobStorage {
    /// A counter at zero.
    fn default() -> (storage: Self)
        ensures
            storage@ == 0,
    {
        BlobStorage { count: 0 }
    }
}

impl BlobStorage {
    /// A counter that stands at `count`, as read back from where it was
    /// kept.
    pub fn with_count(count: u64) -> (storage: Self)
        ensures
            storage@ == count,
    {
        BlobStorage { count }
    }

    /// Counts one more blob and returns the new count, which is the number
    /// of the blob.
    #[allow(unused_variables)]
    pub fn store_blob(&mut self, data: String) -> (number: u64)
        requires
            old(self)@ < u64::MAX,
        ensures
            final(self)@ == old(self)@ + 1,
            number == final(self)@,
    {
        self.count += 1;
        self.count
    }

    /// The number of blobs stored so far.
    pub fn get_count(&self) -> (count: u64)
        ensures
            count == self@,
    {
        self.count
    }
}

} // verus!
