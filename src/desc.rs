//! The memory descriptor: the portable record that identifies an exported
//! region and is shipped to the importing node.
use vstd::prelude::*;
use crate::ops::ObmmError;

verus! {

/// Handle of one exported or imported region, local to a node.
pub type MemId = u64;

/// Most NUMA nodes a per-node length vector can address.
pub const MAX_NUMA_NODES: usize = 16;
/// The reserved handle that stands for "no handle".
pub const OBMM_INVALID_MEMID: u64 = 0;
/// Most local NUMA nodes supported.
pub const OBMM_MAX_LOCAL_NUMA_NODES: usize = 16;

/// Memory descriptor, generic over the attribute set that it carries.
#[derive(Debug, PartialEq, Eq)]
pub struct ObmmMemDesc<T> {
    /// Base address of the region in the exporting node's address space.
    pub addr: u64,
    /// Total length of the region in bytes.
    pub length: u64,
    /// Source endpoint identity, little-endian.
    pub seid: [u8; 16],
    /// Destination endpoint identity, little-endian.
    pub deid: [u8; 16],
    /// Capability token that ties an import to its export.
    pub tokenid: u32,
    /// Source interconnect identity.
    pub scna: u32,
    /// Destination interconnect identity.
    pub dcna: u32,
    /// Byte length of the attribute payload.
    pub priv_len: u16,
    /// Privilege and caching attributes.
    pub priv_data: T,
}

/// Every byte of an identity is zero.
pub open spec fn zero_identity(id: [u8; 16]) -> bool {
    forall|i: int| 0 <= i < 16 ==> #[trigger] id@[i] == 0
}

/// All fields but `priv_data` are zero.
pub open spec fn zero_fields<T>(d: ObmmMemDesc<T>) -> bool {
    &&& d.addr == 0
    &&& d.length == 0
    &&& zero_identity(d.seid)
    &&& zero_identity(d.deid)
    &&& d.tokenid == 0
    &&& d.scna == 0
    &&& d.dcna == 0
    &&& d.priv_len == 0
}

/// An attribute payload whose encoded form has a fixed byte length.
pub trait PrivPayload {
    /// Byte length of the encoded payload.
    spec fn spec_encoded_len() -> nat;

    /// Byte length of the encoded payload.
    fn encoded_len() -> (r: u16)
        ensures
            r as nat == Self::spec_encoded_len(),
    ;
}

/// `priv_len` is the encoded byte length of the attribute payload.
pub open spec fn priv_len_ok<T: PrivPayload>(d: ObmmMemDesc<T>) -> bool {
    d.priv_len as nat == T::spec_encoded_len()
}

impl<T: Default> ObmmMemDesc<T> {
    /// A scratch descriptor: every field zero, default attributes.
    pub fn new() -> (r: Self)
        ensures
            zero_fields(r),
            call_ensures(T::default, (), r.priv_data),
    {
        let r = ObmmMemDesc {
            addr: 0,
            length: 0,
            seid: [0u8; 16],
            deid: [0u8; 16],
            tokenid: 0,
            scna: 0,
            dcna: 0,
            priv_len: 0,
            priv_data: T::default(),
        };
        assert(zero_identity(r.seid));
        r
    }
}

impl<T: Default> Default for ObmmMemDesc<T> {
    /// The scratch descriptor of `new`.
    fn default() -> (r: Self)
        ensures
            zero_fields(r),
            call_ensures(T::default, (), r.priv_data),
    {
        ObmmMemDesc::new()
    }
}

impl<T: PrivPayload> ObmmMemDesc<T> {
    /// True iff `priv_len` equals the encoded byte length of the attribute
    /// payload.
    pub fn priv_len_valid(&self) -> (r: bool)
        ensures
            r == priv_len_ok(*self),
    {
        T::encoded_len() == self.priv_len
    }

    /// Accepts a descriptor read from its serialized form only where
    /// `priv_len` equals the encoded byte length of the attribute payload.
    pub fn check_priv_len(self) -> (r: Result<Self, ObmmError>)
        ensures
            priv_len_ok(self) ==> r == Ok::<Self, ObmmError>(self),
            !priv_len_ok(self) ==> r == Err::<Self, ObmmError>(ObmmError::PrivLenMismatch),
    {
        if self.priv_len_valid() {
            Ok(self)
        } else {
            Err(ObmmError::PrivLenMismatch)
        }
    }
}

} // verus!
