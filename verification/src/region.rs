//! The storage region that holds a tally, and the identity that owns it.

use crate::error::Failure;
use vstd::prelude::*;
use vstd::std_specs::cmp::PartialEqSpecImpl;

verus! {

/// The identity of whoever may read a storage region as a tally: 32 bytes.
#[derive(Debug, Clone, Copy, Eq)]
pub struct Identity {
    /// The bytes that make up the identity.
    pub bytes: [u8; 32],
}

impl View for Identity {
    type V = Seq<u8>;

    open spec fn view(&self) -> Seq<u8> {
        self.bytes@
    }
}

impl PartialEqSpecImpl for Identity {
    open spec fn obeys_eq_spec() -> bool {
        true
    }

    open spec fn eq_spec(&self, other: &Identity) -> bool {
        self@ == other@
    }
}

impl PartialEq for Identity {
    /// Two identities are equal when they are made of the same bytes.
    fn eq(&self, other: &Identity) -> (same: bool) {
        let mut at: usize = 0;
        while at < 32
            invariant
                at <= 32,
                forall|k: int| 0 <= k < at ==> self@[k] == other@[k],
            decreases 32 - at,
        {
            if self.bytes[at] != other.bytes[at] {
                return false;
            }
            at = at + 1;
        }
        assert(self@ =~= other@);
        true
    }
}

/// A caller-owned slot of storage: the bytes written to it so far, how many
/// bytes it can hold, and the identity that owns it. A slot that was never
/// written holds no bytes.
#[derive(Debug, PartialEq, Eq)]
pub struct StorageRegion {
    /// The identity that owns the region.
    pub owner: Identity,
    /// The bytes that the region holds.
    pub data: Vec<u8>,
    /// The number of bytes that the region can hold.
    pub capacity: usize,
}

/// A storage region as a mathematical value.
#[verifier::ext_equal]
pub struct RegionView {
    /// The bytes of the identity that owns the region.
    pub owner: Seq<u8>,
    /// The bytes that the region holds.
    pub data: Seq<u8>,
    /// The number of bytes that the region can hold.
    pub capacity: nat,
}

impl RegionView {
    /// Whether the region holds no more bytes than it can hold.
    pub open spec fn wf(self) -> bool {
        self.data.len() <= self.capacity
    }

    /// What an attempt to replace the contents by `bytes` leaves: the region
    /// with `bytes` as its contents where they fit, else the region as it
    /// was and `BufferTooSmall`.
    pub open spec fn stored(self, bytes: Seq<u8>) -> (RegionView, Result<(), Failure>) {
        if bytes.len() <= self.capacity {
            (RegionView { data: bytes, ..self }, Ok(()))
        } else {
            (self, Err(Failure::BufferTooSmall))
        }
    }
}

impl View for StorageRegion {
    type V = RegionView;

    open spec fn view(&self) -> RegionView {
        RegionView { owner: self.owner@, data: self.data@, capacity: self.capacity as nat }
    }
}

impl Clone for StorageRegion {
    /// A region with the same owner, contents and capacity.
    fn clone(&self) -> (copy: StorageRegion)
        ensures
            copy@ == self@,
    {
        StorageRegion { owner: self.owner, data: self.data.clone(), capacity: self.capacity }
    }
}

impl StorageRegion {
    /// A region of the given owner and capacity that was never written.
    pub fn new(owner: Identity, capacity: usize) -> (region: StorageRegion)
        ensures
            region@ == (RegionView { owner: owner@, data: Seq::empty(), capacity: capacity as nat }),
            region@.wf(),
    {
        StorageRegion { owner, data: Vec::new(), capacity }
    }

    /// Replaces the whole contents of the region by `bytes`, or refuses with
    /// `BufferTooSmall` and changes nothing where the region cannot hold
    /// them.
    pub fn store(&mut self, bytes: Vec<u8>) -> (result: Result<(), Failure>)
        ensures
            final(self)@ == old(self)@.stored(bytes@).0,
            result == old(self)@.stored(bytes@).1,
            old(self)@.wf() ==> final(self)@.wf(),
    {
        if bytes.len() > self.capacity {
            return Err(Failure::BufferTooSmall);
        }
        self.data = bytes;
        Ok(())
    }
}

} // verus!
