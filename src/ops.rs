//! Export, unexport, import and unimport of memory regions.
//!
//! The provider that maps memory across nodes is outside this library. Each
//! operation is therefore split in two: a check of the request, made before
//! the provider is asked (`export_request`, `export_slots`,
//! `release_request`), and a function that takes the provider's raw answer (a
//! handle that may be the invalid one, a status code) and gives the typed
//! result (`mem_export`, `mem_unexport`, `mem_import`, `mem_unimport`).
//! Nothing here retries: a refusal is handed back as the provider gave it.
use vstd::prelude::*;
use crate::desc::{
    MemId, ObmmMemDesc, PrivPayload, MAX_NUMA_NODES, OBMM_INVALID_MEMID, OBMM_MAX_LOCAL_NUMA_NODES,
};

verus! {

/// Code of a provider call that failed without a code of its own.
pub const OBMM_ERR_FAILED: i32 = -1;
/// Code of an import answered with a NUMA node that is not a local one.
pub const OBMM_ERR_BAD_NODE: i32 = -34;
/// Code of a request on the reserved invalid handle.
pub const OBMM_ERR_INVALID_HANDLE: i32 = -22;

/// Why an operation failed.
#[derive(Clone, Copy, Debug, PartialEq, Eq, Structural)]
pub enum ObmmError {
    /// The per-node length vector addresses more nodes than supported.
    TooManyNodes,
    /// The requested lengths add up to more than 64 bits can hold.
    LengthOverflow,
    /// `priv_len` differs from the encoded length of the attribute payload.
    PrivLenMismatch,
    /// The provider refused the export (it answered the invalid handle).
    ExportRejected,
    /// The provider refused with this code.
    Provider(i32),
    /// The handle is not live in this table.
    NotLive(MemId),
    /// The provider answered a handle that is already live in this table.
    HandleReused(MemId),
}

/// `numa` names one of the supported local NUMA nodes.
pub open spec fn node_in_range(numa: i32) -> bool {
    0 <= numa < OBMM_MAX_LOCAL_NUMA_NODES as i32
}

/// Sum of the non-zero entries of a per-node length vector.
pub open spec fn requested_total(s: Seq<usize>) -> nat
    decreases s.len(),
{
    if s.len() == 0 {
        0
    } else if s.last() == 0 {
        requested_total(s.drop_last())
    } else {
        requested_total(s.drop_last()) + s.last() as nat
    }
}

/// What checking a per-node length vector gives: the total to export.
pub open spec fn export_request_spec(s: Seq<usize>) -> Result<u64, ObmmError> {
    if s.len() > MAX_NUMA_NODES {
        Err(ObmmError::TooManyNodes)
    } else if requested_total(s) > u64::MAX {
        Err(ObmmError::LengthOverflow)
    } else {
        Ok(requested_total(s) as u64)
    }
}

proof fn lemma_total_monotone(s: Seq<usize>, i: int)
    requires
        0 <= i <= s.len(),
    ensures
        requested_total(s.subrange(0, i)) <= requested_total(s),
    decreases s.len() - i,
{
    if i < s.len() {
        lemma_total_monotone(s, i + 1);
        assert(s.subrange(0, i + 1).drop_last() =~= s.subrange(0, i));
    } else {
        assert(s.subrange(0, i) =~= s);
    }
}

/// Checks a per-node length vector before it reaches the provider, and
/// gives the total length that it requests.
pub fn export_request(length: &[usize]) -> (r: Result<u64, ObmmError>)
    ensures
        r == export_request_spec(length@),
{
    if length.len() > MAX_NUMA_NODES {
        return Err(ObmmError::TooManyNodes);
    }
    let mut total: u64 = 0;
    let mut i: usize = 0;
    while i < length.len()
        invariant
            i <= length@.len(),
            length@.len() <= MAX_NUMA_NODES,
            total as int == requested_total(length@.subrange(0, i as int)),
        decreases length@.len() - i,
    {
        proof {
            assert(length@.subrange(0, i + 1).drop_last() =~= length@.subrange(0, i as int));
            assert(length@.subrange(0, i + 1).last() == length@[i as int]);
        }
        let add = length[i] as u64;
        if add > u64::MAX - total {
            proof {
                assert(requested_total(length@.subrange(0, i + 1)) > u64::MAX);
                lemma_total_monotone(length@, i + 1);
            }
            return Err(ObmmError::LengthOverflow);
        }
        total = total + add;
        i = i + 1;
    }
    assert(length@.subrange(0, length@.len() as int) =~= length@);
    Ok(total)
}

/// The per-node length vector as the provider reads it: one slot for each
/// supported node, the requested lengths first and zero after them.
pub fn export_slots(length: &[usize]) -> (r: Result<Vec<usize>, ObmmError>)
    ensures
        export_request_spec(length@) is Err ==> r == Err::<Vec<usize>, ObmmError>(export_request_spec(length@)->Err_0),
        r is Ok <==> export_request_spec(length@) is Ok,
        r matches Ok(v) ==> {
            &&& v@.len() == MAX_NUMA_NODES
            &&& forall|i: int| 0 <= i < length@.len() ==> v@[i] == length@[i]
            &&& forall|i: int| length@.len() <= i < MAX_NUMA_NODES ==> v@[i] == 0
        },
{
    match export_request(length) {
        Ok(_) => {},
        Err(e) => {
            return Err(e);
        },
    }
    let mut v: Vec<usize> = Vec::new();
    let mut i: usize = 0;
    while i < MAX_NUMA_NODES
        invariant
            length@.len() <= MAX_NUMA_NODES,
            i <= MAX_NUMA_NODES,
            v@.len() == i,
            forall|k: int| 0 <= k < i && k < length@.len() ==> v@[k] == length@[k],
            forall|k: int| length@.len() <= k < i ==> v@[k] == 0,
        decreases MAX_NUMA_NODES - i,
    {
        if i < length.len() {
            v.push(length[i]);
        } else {
            v.push(0);
        }
        i = i + 1;
    }
    Ok(v)
}

/// The fields that the provider fills are kept from its descriptor.
pub open spec fn provider_fields_kept<T>(d: ObmmMemDesc<T>, from: ObmmMemDesc<T>) -> bool {
    &&& d.addr == from.addr
    &&& d.seid == from.seid
    &&& d.deid == from.deid
    &&& d.tokenid == from.tokenid
    &&& d.scna == from.scna
    &&& d.dcna == from.dcna
    &&& d.priv_data == from.priv_data
}

/// The result of an export, from the request and the provider's answer to
/// it: the handle `memid` and the descriptor `desc` that it filled. A
/// malformed request is refused whatever the answer; the invalid handle is
/// the provider's refusal. On success the descriptor's `length` is the
/// total requested and its `priv_len` the payload's encoded length; the
/// other fields are the provider's.
pub fn mem_export<T: PrivPayload>(length: &[usize], memid: MemId, desc: ObmmMemDesc<T>) -> (r: Result<(MemId, ObmmMemDesc<T>), ObmmError>)
    ensures
        export_request_spec(length@) is Err ==> r == Err::<(MemId, ObmmMemDesc<T>), ObmmError>(
            export_request_spec(length@)->Err_0,
        ),
        export_request_spec(length@) is Ok && memid == OBMM_INVALID_MEMID ==> r == Err::<(MemId, ObmmMemDesc<T>), ObmmError>(
            ObmmError::ExportRejected,
        ),
        r is Ok <==> export_request_spec(length@) is Ok && memid != OBMM_INVALID_MEMID,
        r matches Ok((id, d)) ==> {
            &&& id == memid
            &&& d.length as int == requested_total(length@)
            &&& d.priv_len as nat == T::spec_encoded_len()
            &&& provider_fields_kept(d, desc)
        },
{
    let total = match export_request(length) {
        Ok(t) => t,
        Err(e) => {
            return Err(e);
        },
    };
    if memid == OBMM_INVALID_MEMID {
        return Err(ObmmError::ExportRejected);
    }
    let mut d = desc;
    d.length = total;
    d.priv_len = T::encoded_len();
    Ok((memid, d))
}

/// Checks a handle before its release is asked of the provider: the reserved
/// invalid handle is refused.
pub fn release_request(memid: MemId) -> (r: Result<(), i32>)
    ensures
        memid == OBMM_INVALID_MEMID ==> r == Err::<(), i32>(OBMM_ERR_INVALID_HANDLE),
        memid != OBMM_INVALID_MEMID ==> r == Ok::<(), i32>(()),
{
    if memid == OBMM_INVALID_MEMID {
        Err(OBMM_ERR_INVALID_HANDLE)
    } else {
        Ok(())
    }
}

/// The result of releasing an exported region, from the provider's status
/// `ret`: zero is success, any other code is handed back as it came. The
/// invalid handle is refused whatever `ret` says. Nothing here remembers a
/// release: a second release of one handle is decided by the provider's
/// answer to it; `HandleTable::unexport` refuses it without asking.
pub fn mem_unexport(memid: MemId, ret: i32) -> (r: Result<(), i32>)
    ensures
        memid == OBMM_INVALID_MEMID ==> r == Err::<(), i32>(OBMM_ERR_INVALID_HANDLE),
        memid != OBMM_INVALID_MEMID && ret == 0 ==> r == Ok::<(), i32>(()),
        memid != OBMM_INVALID_MEMID && ret != 0 ==> r == Err::<(), i32>(ret),
{
    release_request(memid)?;
    if ret == 0 {
        Ok(())
    } else {
        Err(ret)
    }
}

/// The result of an import, from the provider's answer: the local handle
/// `memid` and the NUMA node `numa` it chose. The invalid handle is the
/// provider's refusal (of a descriptor it does not know, or whose region is
/// gone); a node outside the supported local nodes is no real answer and is
/// refused too.
pub fn mem_import(memid: MemId, numa: i32) -> (r: Result<(MemId, i32), i32>)
    ensures
        memid == OBMM_INVALID_MEMID ==> r == Err::<(MemId, i32), i32>(OBMM_ERR_FAILED),
        memid != OBMM_INVALID_MEMID && !node_in_range(numa) ==> r == Err::<(MemId, i32), i32>(
            OBMM_ERR_BAD_NODE,
        ),
        memid != OBMM_INVALID_MEMID && node_in_range(numa) ==> r == Ok::<(MemId, i32), i32>((memid, numa)),
        r matches Ok((_, n)) ==> node_in_range(n),
{
    if memid == OBMM_INVALID_MEMID {
        Err(OBMM_ERR_FAILED)
    } else if numa < 0 || numa >= OBMM_MAX_LOCAL_NUMA_NODES as i32 {
        Err(OBMM_ERR_BAD_NODE)
    } else {
        Ok((memid, numa))
    }
}

/// The result of releasing an imported region, from the provider's status
/// `ret`, as for `mem_unexport`. A second release is decided by the provider;
/// `HandleTable::unimport` refuses it without asking.
pub fn mem_unimport(memid: MemId, ret: i32) -> (r: Result<(), i32>)
    ensures
        memid == OBMM_INVALID_MEMID ==> r == Err::<(), i32>(OBMM_ERR_INVALID_HANDLE),
        memid != OBMM_INVALID_MEMID && ret == 0 ==> r == Ok::<(), i32>(()),
        memid != OBMM_INVALID_MEMID && ret != 0 ==> r == Err::<(), i32>(ret),
{
    release_request(memid)?;
    if ret == 0 {
        Ok(())
    } else {
        Err(ret)
    }
}

} // verus!
