//! Bit-sets for export behaviour, unexport behaviour and the privilege
//! attributes that travel with a memory descriptor.
use vstd::prelude::*;
use crate::desc::PrivPayload;

verus! {

/// Bit of the owner-chip marking.
pub const UB_OCHIP_BIT: u16 = 32;
/// Bit of the cacheable marking.
pub const UB_CACHEABLE_BIT: u16 = 64;
/// Bit that lets importers map the region.
pub const EXPORT_ALLOWMMAP_BIT: u64 = 1;
/// Bit that lets the region be placed on remote NUMA nodes.
pub const EXPORT_REMOTENUMA_BIT: u64 = 2;
/// Bit that forces teardown while importers still hold the region.
pub const UNEXPORT_FORCE_BIT: u64 = 1;

/// Privilege and caching attributes of a region (16-bit domain; bits 0 to 4 are reserved).
#[derive(Clone, Copy, Debug, PartialEq, Eq, Structural)]
pub struct UbPrivData {
    bits: u16,
}

impl View for UbPrivData {
    type V = u16;

    closed spec fn view(&self) -> u16 {
        self.bits
    }
}

impl PrivPayload for UbPrivData {
    /// The payload is encoded as its 16-bit integer.
    open spec fn spec_encoded_len() -> nat {
        2
    }

    fn encoded_len() -> (r: u16) {
        2
    }
}

impl Default for UbPrivData {
    fn default() -> (r: Self)
        ensures
            r@ == 0,
    {
        UbPrivData { bits: 0 }
    }
}

impl UbPrivData {
    /// The owner-chip marking alone.
    pub fn ochip() -> (r: Self)
        ensures
            r@ == UB_OCHIP_BIT,
    {
        UbPrivData { bits: UB_OCHIP_BIT }
    }

    /// The cacheable marking alone.
    pub fn cacheable() -> (r: Self)
        ensures
            r@ == UB_CACHEABLE_BIT,
    {
        UbPrivData { bits: UB_CACHEABLE_BIT }
    }

    /// The set with no bit.
    pub fn empty() -> (r: Self)
        ensures
            r@ == 0,
    {
        UbPrivData { bits: 0 }
    }

    /// The underlying integer.
    pub fn bits(&self) -> (r: u16)
        ensures
            r == self@,
    {
        self.bits
    }

    /// The set with exactly these bits, known or not.
    pub fn from_bits_retain(bits: u16) -> (r: Self)
        ensures
            r@ == bits,
    {
        UbPrivData { bits }
    }

    /// True iff no bit is set.
    pub fn is_empty(&self) -> (r: bool)
        ensures
            r == (self@ == 0),
    {
        self.bits == 0
    }

    /// True iff every bit of `other` is set in `self`.
    pub fn contains(&self, other: Self) -> (r: bool)
        ensures
            r == (self@ & other@ == other@),
    {
        self.bits & other.bits == other.bits
    }

    /// The bits set in either.
    pub fn union(self, other: Self) -> (r: Self)
        ensures
            r@ == self@ | other@,
    {
        UbPrivData { bits: self.bits | other.bits }
    }

    /// The bits set in both.
    pub fn intersection(self, other: Self) -> (r: Self)
        ensures
            r@ == self@ & other@,
    {
        UbPrivData { bits: self.bits & other.bits }
    }

    /// The bits of `self` that are not set in `other`.
    pub fn difference(self, other: Self) -> (r: Self)
        ensures
            r@ == self@ & !other@,
    {
        UbPrivData { bits: self.bits & !other.bits }
    }
}

/// Flags of an export or import request; bits without a name are handed on as they are.
#[derive(Clone, Copy, Debug, PartialEq, Eq, Structural)]
pub struct ObmmExportFlags {
    bits: u64,
}

impl View for ObmmExportFlags {
    type V = u64;

    closed spec fn view(&self) -> u64 {
        self.bits
    }
}

impl Default for ObmmExportFlags {
    fn default() -> (r: Self)
        ensures
            r@ == 0,
    {
        ObmmExportFlags { bits: 0 }
    }
}

impl ObmmExportFlags {
    /// Importers may map the region.
    pub fn allow_mmap() -> (r: Self)
        ensures
            r@ == EXPORT_ALLOWMMAP_BIT,
    {
        ObmmExportFlags { bits: EXPORT_ALLOWMMAP_BIT }
    }

    /// The region may be placed on NUMA nodes other than the caller's.
    pub fn remote_numa() -> (r: Self)
        ensures
            r@ == EXPORT_REMOTENUMA_BIT,
    {
        ObmmExportFlags { bits: EXPORT_REMOTENUMA_BIT }
    }

    /// The set with no bit.
    pub fn empty() -> (r: Self)
        ensures
            r@ == 0,
    {
        ObmmExportFlags { bits: 0 }
    }

    /// The underlying integer.
    pub fn bits(&self) -> (r: u64)
        ensures
            r == self@,
    {
        self.bits
    }

    /// The set with exactly these bits, known or not.
    pub fn from_bits_retain(bits: u64) -> (r: Self)
        ensures
            r@ == bits,
    {
        ObmmExportFlags { bits }
    }

    /// True iff no bit is set.
    pub fn is_empty(&self) -> (r: bool)
        ensures
            r == (self@ == 0),
    {
        self.bits == 0
    }

    /// True iff every bit of `other` is set in `self`.
    pub fn contains(&self, other: Self) -> (r: bool)
        ensures
            r == (self@ & other@ == other@),
    {
        self.bits & other.bits == other.bits
    }

    /// The bits set in either.
    pub fn union(self, other: Self) -> (r: Self)
        ensures
            r@ == self@ | other@,
    {
        ObmmExportFlags { bits: self.bits | other.bits }
    }

    /// The bits set in both.
    pub fn intersection(self, other: Self) -> (r: Self)
        ensures
            r@ == self@ & other@,
    {
        ObmmExportFlags { bits: self.bits & other.bits }
    }

    /// The bits of `self` that are not set in `other`.
    pub fn difference(self, other: Self) -> (r: Self)
        ensures
            r@ == self@ & !other@,
    {
        ObmmExportFlags { bits: self.bits & !other.bits }
    }
}

/// Flags of an unexport request.
#[derive(Clone, Copy, Debug, PartialEq, Eq, Structural)]
pub struct ObmmUnexportFlags {
    bits: u64,
}

impl View for ObmmUnexportFlags {
    type V = u64;

    closed spec fn view(&self) -> u64 {
        self.bits
    }
}

impl Default for ObmmUnexportFlags {
    fn default() -> (r: Self)
        ensures
            r@ == 0,
    {
        ObmmUnexportFlags { bits: 0 }
    }
}

impl ObmmUnexportFlags {
    /// Tear down even while importers hold the region.
    pub fn force() -> (r: Self)
        ensures
            r@ == UNEXPORT_FORCE_BIT,
    {
        ObmmUnexportFlags { bits: UNEXPORT_FORCE_BIT }
    }

    /// The set with no bit.
    pub fn empty() -> (r: Self)
        ensures
            r@ == 0,
    {
        ObmmUnexportFlags { bits: 0 }
    }

    /// The underlying integer.
    pub fn bits(&self) -> (r: u64)
        ensures
            r == self@,
    {
        self.bits
    }

    /// The set with exactly these bits, known or not.
    pub fn from_bits_retain(bits: u64) -> (r: Self)
        ensures
            r@ == bits,
    {
        ObmmUnexportFlags { bits }
    }

    /// True iff no bit is set.
    pub fn is_empty(&self) -> (r: bool)
        ensures
            r == (self@ == 0),
    {
        self.bits == 0
    }

    /// True iff every bit of `other` is set in `self`.
    pub fn contains(&self, other: Self) -> (r: bool)
        ensures
            r == (self@ & other@ == other@),
    {
        self.bits & other.bits == other.bits
    }

    /// The bits set in either.
    pub fn union(self, other: Self) -> (r: Self)
        ensures
            r@ == self@ | other@,
    {
        ObmmUnexportFlags { bits: self.bits | other.bits }
    }

    /// The bits set in both.
    pub fn intersection(self, other: Self) -> (r: Self)
        ensures
            r@ == self@ & other@,
    {
        ObmmUnexportFlags { bits: self.bits & other.bits }
    }

    /// The bits of `self` that are not set in `other`.
    pub fn difference(self, other: Self) -> (r: Self)
        ensures
            r@ == self@ & !other@,
    {
        ObmmUnexportFlags { bits: self.bits & !other.bits }
    }
}

} // verus!
