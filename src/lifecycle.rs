//! The handles that one node holds, and the lifecycle that each follows:
//! unbound, then exported or imported, then released. Each step takes the
//! provider's answer to the call that the caller made and gives the next
//! state. A handle is live in one role at a time; a released handle is no
//! longer live, and a release of a handle that is not live in that role is
//! refused here. Callers test `is_exported` / `is_imported` before asking the
//! provider for a release, so that such a release never reaches it.
use vstd::prelude::*;
use crate::desc::{MemId, ObmmMemDesc, PrivPayload, OBMM_INVALID_MEMID};
use crate::ops::{
    export_request_spec, mem_export, mem_import, mem_unexport, mem_unimport, provider_fields_kept,
    node_in_range, requested_total, ObmmError, OBMM_ERR_BAD_NODE, OBMM_ERR_FAILED,
};

verus! {

/// The live handles of a node, each recorded once.
pub struct HandleTable {
    exported: Vec<MemId>,
    imported: Vec<MemId>,
}

proof fn lemma_remove_to_set(s: Seq<MemId>, i: int)
    requires
        s.no_duplicates(),
        0 <= i < s.len(),
    ensures
        s.remove(i).to_set() == s.to_set().remove(s[i]),
        s.remove(i).no_duplicates(),
{
    let r = s.remove(i);
    assert forall|x: MemId| r.to_set().contains(x) <==> s.to_set().remove(s[i]).contains(x) by {
        if r.contains(x) {
            let k = choose|k: int| 0 <= k < r.len() && r[k] == x;
            if k < i {
                assert(s[k] == x);
            } else {
                assert(s[k + 1] == x);
            }
        }
        if s.contains(x) && x != s[i] {
            let k = choose|k: int| 0 <= k < s.len() && s[k] == x;
            if k < i {
                assert(r[k] == x);
            } else {
                assert(r[k - 1] == x);
            }
        }
    }
    assert(r.to_set() =~= s.to_set().remove(s[i]));
}

proof fn lemma_push_to_set(s: Seq<MemId>, x: MemId)
    requires
        s.no_duplicates(),
        !s.contains(x),
    ensures
        s.push(x).to_set() == s.to_set().insert(x),
        s.push(x).no_duplicates(),
{
    assert forall|y: MemId| s.push(x).contains(y) <==> (s.contains(y) || y == x) by {
        if s.push(x).contains(y) {
            let k = choose|k: int| 0 <= k < s.push(x).len() && s.push(x)[k] == y;
            if k < s.len() {
                assert(s[k] == y);
            }
        }
        if s.contains(y) {
            let k = choose|k: int| 0 <= k < s.len() && s[k] == y;
            assert(s.push(x)[k] == y);
        }
        if y == x {
            assert(s.push(x)[s.len() as int] == y);
        }
    }
    assert(s.push(x).to_set() =~= s.to_set().insert(x));
}

fn position(v: &Vec<MemId>, id: MemId) -> (r: Option<usize>)
    ensures
        r is None <==> !v@.contains(id),
        r matches Some(i) ==> i < v@.len() && v@[i as int] == id,
{
    let mut i: usize = 0;
    while i < v.len()
        invariant
            i <= v@.len(),
            forall|k: int| 0 <= k < i ==> v@[k] != id,
        decreases v@.len() - i,
    {
        if v[i] == id {
            return Some(i);
        }
        i = i + 1;
    }
    None
}

/// Once an exported handle is released, it is no longer live as an export:
/// a second `unexport` of it is refused with `NotLive`, whatever the provider
/// would answer, until a fresh export records it again.
pub proof fn lemma_released_export_not_live(before: HandleTable, after: HandleTable, id: MemId)
    requires
        after.exported_ids() == before.exported_ids().remove(id),
    ensures
        !after.exported_ids().contains(id),
{
}

/// Once an imported handle is released, it is no longer live as an import:
/// a second `unimport` of it is refused with `NotLive`.
pub proof fn lemma_released_import_not_live(before: HandleTable, after: HandleTable, id: MemId)
    requires
        after.imported_ids() == before.imported_ids().remove(id),
    ensures
        !after.imported_ids().contains(id),
{
}

impl HandleTable {
    /// Handles that are exported and not yet released.
    pub closed spec fn exported_ids(&self) -> Set<MemId> {
        self.exported@.to_set()
    }

    /// Handles that are imported and not yet released.
    pub closed spec fn imported_ids(&self) -> Set<MemId> {
        self.imported@.to_set()
    }

    /// Each live handle is recorded once, in one role, and none is the
    /// invalid handle.
    pub closed spec fn wf(&self) -> bool {
        &&& self.exported@.no_duplicates()
        &&& self.imported@.no_duplicates()
        &&& forall|x: MemId| self.exported@.contains(x) ==> !self.imported@.contains(x)
        &&& !self.exported@.contains(OBMM_INVALID_MEMID)
        &&& !self.imported@.contains(OBMM_INVALID_MEMID)
    }

    /// A handle live in either role.
    pub open spec fn live(&self, id: MemId) -> bool {
        self.exported_ids().contains(id) || self.imported_ids().contains(id)
    }

    /// A table with no live handle.
    pub fn new() -> (r: Self)
        ensures
            r.wf(),
            r.exported_ids() == Set::<MemId>::empty(),
            r.imported_ids() == Set::<MemId>::empty(),
    {
        let r = HandleTable { exported: Vec::new(), imported: Vec::new() };
        assert(r.exported@.to_set() =~= Set::<MemId>::empty());
        assert(r.imported@.to_set() =~= Set::<MemId>::empty());
        r
    }

    /// True iff `id` is exported and not yet released.
    pub fn is_exported(&self, id: MemId) -> (r: bool)
        ensures
            r == self.exported_ids().contains(id),
    {
        position(&self.exported, id).is_some()
    }

    /// True iff `id` is imported and not yet released.
    pub fn is_imported(&self, id: MemId) -> (r: bool)
        ensures
            r == self.imported_ids().contains(id),
    {
        position(&self.imported, id).is_some()
    }

    /// Records an export from the request and the provider's answer to it
    /// (`memid`, and the descriptor `desc` that it filled). A handle that is
    /// already live here is refused and not recorded.
    pub fn export<T: PrivPayload>(&mut self, length: &[usize], memid: MemId, desc: ObmmMemDesc<T>) -> (r: Result<(MemId, ObmmMemDesc<T>), ObmmError>)
        requires
            old(self).wf(),
        ensures
            final(self).wf(),
            export_request_spec(length@) is Err ==> r == Err::<(MemId, ObmmMemDesc<T>), ObmmError>(
                export_request_spec(length@)->Err_0,
            ),
            export_request_spec(length@) is Ok && memid == OBMM_INVALID_MEMID ==> r == Err::<(MemId, ObmmMemDesc<T>), ObmmError>(
                ObmmError::ExportRejected,
            ),
            export_request_spec(length@) is Ok && memid != OBMM_INVALID_MEMID && old(self).live(memid) ==> r
                == Err::<(MemId, ObmmMemDesc<T>), ObmmError>(ObmmError::HandleReused(memid)),
            r is Ok <==> export_request_spec(length@) is Ok && memid != OBMM_INVALID_MEMID && !old(self).live(memid),
            r matches Ok((id, d)) ==> {
                &&& id == memid
                &&& final(self).exported_ids() == old(self).exported_ids().insert(id)
                &&& d.length as int == requested_total(length@)
                &&& d.priv_len as nat == T::spec_encoded_len()
                &&& provider_fields_kept(d, desc)
            },
            r is Err ==> final(self).exported_ids() == old(self).exported_ids(),
            final(self).imported_ids() == old(self).imported_ids(),
    {
        let (id, d) = match mem_export(length, memid, desc) {
            Ok(p) => p,
            Err(e) => {
                return Err(e);
            },
        };
        if self.is_exported(id) || self.is_imported(id) {
            return Err(ObmmError::HandleReused(id));
        }
        proof {
            lemma_push_to_set(self.exported@, id);
        }
        self.exported.push(id);
        Ok((id, d))
    }

    /// Records the release of an exported handle, from the provider's status
    /// `ret`. A handle that is not exported here is refused; a refusal by the
    /// provider leaves the handle live.
    pub fn unexport(&mut self, id: MemId, ret: i32) -> (r: Result<(), ObmmError>)
        requires
            old(self).wf(),
        ensures
            final(self).wf(),
            r is Ok <==> old(self).exported_ids().contains(id) && ret == 0,
            !old(self).exported_ids().contains(id) ==> r == Err::<(), ObmmError>(ObmmError::NotLive(id)),
            old(self).exported_ids().contains(id) && ret != 0 ==> r == Err::<(), ObmmError>(ObmmError::Provider(ret)),
            r is Ok ==> final(self).exported_ids() == old(self).exported_ids().remove(id),
            r is Err ==> final(self).exported_ids() == old(self).exported_ids(),
            final(self).imported_ids() == old(self).imported_ids(),
    {
        let i = match position(&self.exported, id) {
            Some(i) => i,
            None => {
                return Err(ObmmError::NotLive(id));
            },
        };
        match mem_unexport(id, ret) {
            Ok(()) => {},
            Err(code) => {
                return Err(ObmmError::Provider(code));
            },
        }
        proof {
            lemma_remove_to_set(self.exported@, i as int);
        }
        self.exported.remove(i);
        Ok(())
    }

    /// Records an import from the provider's answer: the local handle
    /// `memid` and the NUMA node `numa` it chose. The invalid handle is the
    /// provider's refusal, a node that is not a local one is refused as
    /// `mem_import` does, and a handle already live here is refused.
    pub fn import(&mut self, memid: MemId, numa: i32) -> (r: Result<(MemId, i32), ObmmError>)
        requires
            old(self).wf(),
        ensures
            final(self).wf(),
            memid == OBMM_INVALID_MEMID ==> r == Err::<(MemId, i32), ObmmError>(ObmmError::Provider(OBMM_ERR_FAILED)),
            memid != OBMM_INVALID_MEMID && !node_in_range(numa) ==> r == Err::<(MemId, i32), ObmmError>(
                ObmmError::Provider(OBMM_ERR_BAD_NODE),
            ),
            memid != OBMM_INVALID_MEMID && node_in_range(numa) && old(self).live(memid) ==> r == Err::<
                (MemId, i32),
                ObmmError,
            >(ObmmError::HandleReused(memid)),
            r is Ok <==> memid != OBMM_INVALID_MEMID && node_in_range(numa) && !old(self).live(memid),
            r matches Ok((_, n)) ==> node_in_range(n),
            r is Ok ==> r == Ok::<(MemId, i32), ObmmError>((memid, numa)) && final(self).imported_ids() == old(
                self,
            ).imported_ids().insert(memid),
            r is Err ==> final(self).imported_ids() == old(self).imported_ids(),
            final(self).exported_ids() == old(self).exported_ids(),
    {
        let (id, node) = match mem_import(memid, numa) {
            Ok(p) => p,
            Err(code) => {
                return Err(ObmmError::Provider(code));
            },
        };
        if self.is_exported(id) || self.is_imported(id) {
            return Err(ObmmError::HandleReused(id));
        }
        proof {
            lemma_push_to_set(self.imported@, id);
        }
        self.imported.push(id);
        Ok((id, node))
    }

    /// Records the release of an imported handle, from the provider's status
    /// `ret`. A handle that is not imported here (an exported one included)
    /// is refused; a refusal by the provider leaves the handle live.
    pub fn unimport(&mut self, id: MemId, ret: i32) -> (r: Result<(), ObmmError>)
        requires
            old(self).wf(),
        ensures
            final(self).wf(),
            r is Ok <==> old(self).imported_ids().contains(id) && ret == 0,
            !old(self).imported_ids().contains(id) ==> r == Err::<(), ObmmError>(ObmmError::NotLive(id)),
            old(self).imported_ids().contains(id) && ret != 0 ==> r == Err::<(), ObmmError>(ObmmError::Provider(ret)),
            r is Ok ==> final(self).imported_ids() == old(self).imported_ids().remove(id),
            r is Err ==> final(self).imported_ids() == old(self).imported_ids(),
            final(self).exported_ids() == old(self).exported_ids(),
    {
        let i = match position(&self.imported, id) {
            Some(i) => i,
            None => {
                return Err(ObmmError::NotLive(id));
            },
        };
        match mem_unimport(id, ret) {
            Ok(()) => {},
            Err(code) => {
                return Err(ObmmError::Provider(code));
            },
        }
        proof {
            lemma_remove_to_set(self.imported@, i as int);
        }
        self.imported.remove(i);
        Ok(())
    }
}

} // verus!
