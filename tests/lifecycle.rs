use obmm_rs::desc::{MemId, ObmmMemDesc, MAX_NUMA_NODES, OBMM_INVALID_MEMID};
use obmm_rs::flags::{ObmmExportFlags, UbPrivData};
use obmm_rs::lifecycle::HandleTable;
use obmm_rs::ops::{export_request, export_slots, mem_export, ObmmError};

const MIB_128: usize = 134217728;

fn node_one_request() -> Vec<usize> {
    let mut lengths = vec![0; MAX_NUMA_NODES];
    lengths[1] = MIB_128;
    lengths
}

/// A descriptor as a provider fills it.
fn filled(addr: u64, tokenid: u32) -> ObmmMemDesc<UbPrivData> {
    let mut d = ObmmMemDesc::<UbPrivData>::new();
    d.addr = addr;
    d.seid = [1; 16];
    d.deid = [2; 16];
    d.tokenid = tokenid;
    d.scna = 3;
    d.dcna = 4;
    d.priv_data = UbPrivData::ochip();
    d
}

#[test]
fn export_of_one_node_gives_its_length() {
    let (id, d) = mem_export::<UbPrivData>(&node_one_request(), 7, filled(0xffff_fc00_0000, 42)).unwrap();
    assert_eq!(id, 7);
    assert_eq!(d.length, 134217728);
    assert_eq!(d.addr, 0xffff_fc00_0000);
    assert_eq!(d.seid, [1; 16]);
    assert_eq!(d.tokenid, 42);
    assert_eq!((d.scna, d.dcna), (3, 4));
    assert_eq!(d.priv_data, UbPrivData::ochip());
    assert_eq!(d.priv_len, 2);
    assert!(d.priv_len_valid());
}

#[test]
fn export_length_is_sum_of_entries() {
    let lengths = vec![4096, 0, 8192, 0, 1];
    let (_, d) = mem_export::<UbPrivData>(&lengths, 3, filled(1, 0)).unwrap();
    assert_eq!(d.length, 12289);
    assert_eq!(export_request(&[]), Ok(0));
    assert_eq!(export_request(&[0; 16]), Ok(0));
}

#[test]
fn export_refused_by_provider() {
    let r = mem_export::<UbPrivData>(&node_one_request(), OBMM_INVALID_MEMID, filled(0, 0));
    assert_eq!(r.err(), Some(ObmmError::ExportRejected));
}

#[test]
fn export_refuses_too_many_nodes() {
    let lengths = vec![1; MAX_NUMA_NODES + 1];
    let r = mem_export::<UbPrivData>(&lengths, 5, filled(1, 0));
    assert_eq!(r.err(), Some(ObmmError::TooManyNodes));
    assert_eq!(export_slots(&lengths), Err(ObmmError::TooManyNodes));
    assert_eq!(export_request(&[1; 16]), Ok(16));
}

#[test]
fn export_refuses_overflowing_total() {
    let lengths = vec![usize::MAX, 1];
    let r = mem_export::<UbPrivData>(&lengths, 5, filled(1, 0));
    assert_eq!(r.err(), Some(ObmmError::LengthOverflow));
    assert_eq!(export_request(&[usize::MAX, 0]), Ok(u64::MAX));
}

#[test]
fn export_slots_pad_to_every_node() {
    let slots = export_slots(&[0, 128, 7]).unwrap();
    assert_eq!(slots.len(), MAX_NUMA_NODES);
    assert_eq!(&slots[..3], &[0, 128, 7]);
    assert!(slots[3..].iter().all(|&x| x == 0));
    assert_eq!(export_slots(&node_one_request()).unwrap(), node_one_request());
}

fn export_into(t: &mut HandleTable, id: MemId) -> Result<(MemId, ObmmMemDesc<UbPrivData>), ObmmError> {
    t.export::<UbPrivData>(&node_one_request(), id, filled(0xffff_fc00_0000, 1))
}

#[test]
fn unexport_twice_in_table_fails_the_second_time() {
    let mut t = HandleTable::new();
    let (id, d) = export_into(&mut t, 11).unwrap();
    assert_eq!(d.length, 134217728);
    assert!(t.is_exported(id));
    assert_eq!(t.unexport(id, 0), Ok(()));
    assert!(!t.is_exported(id));
    assert_eq!(t.unexport(id, 0), Err(ObmmError::NotLive(id)));
}

#[test]
fn table_holds_many_handles() {
    let mut t = HandleTable::new();
    assert!(export_into(&mut t, 11).is_ok());
    assert!(export_into(&mut t, 12).is_ok());
    assert_eq!(t.import(13, 1), Ok((13, 1)));
    assert!(t.is_exported(11) && t.is_exported(12) && t.is_imported(13));
    assert_eq!(t.unexport(11, 0), Ok(()));
    assert!(t.is_exported(12));
}

#[test]
fn provider_refusal_keeps_handle_live() {
    let mut t = HandleTable::new();
    export_into(&mut t, 11).unwrap();
    assert_eq!(t.unexport(11, -16), Err(ObmmError::Provider(-16)));
    assert!(t.is_exported(11));
    assert_eq!(t.import(21, 0), Ok((21, 0)));
    assert_eq!(t.unimport(21, -5), Err(ObmmError::Provider(-5)));
    assert!(t.is_imported(21));
}

#[test]
fn table_refuses_invalid_handle() {
    let mut t = HandleTable::new();
    assert_eq!(t.unexport(OBMM_INVALID_MEMID, 0), Err(ObmmError::NotLive(0)));
    assert_eq!(t.unimport(OBMM_INVALID_MEMID, 0), Err(ObmmError::NotLive(0)));
    assert_eq!(t.import(OBMM_INVALID_MEMID, 0), Err(ObmmError::Provider(-1)));
    assert_eq!(export_into(&mut t, OBMM_INVALID_MEMID).err(), Some(ObmmError::ExportRejected));
}

#[test]
fn table_refuses_a_handle_live_twice() {
    let mut t = HandleTable::new();
    export_into(&mut t, 11).unwrap();
    assert_eq!(export_into(&mut t, 11).err(), Some(ObmmError::HandleReused(11)));
    assert_eq!(t.import(11, 0), Err(ObmmError::HandleReused(11)));
    assert_eq!(t.unexport(11, 0), Ok(()));
    assert!(export_into(&mut t, 11).is_ok());
}

#[test]
fn table_refuses_import_on_a_node_that_is_not_local() {
    let mut t = HandleTable::new();
    assert_eq!(t.import(41, -1), Err(ObmmError::Provider(-34)));
    assert_eq!(t.import(41, 16), Err(ObmmError::Provider(-34)));
    assert!(!t.is_imported(41));
    assert_eq!(t.import(41, 15), Ok((41, 15)));
}

#[test]
fn exported_handle_cannot_be_unimported() {
    let mut t = HandleTable::new();
    export_into(&mut t, 11).unwrap();
    assert_eq!(t.unimport(11, 0), Err(ObmmError::NotLive(11)));
    assert!(t.is_exported(11));
    assert_eq!(t.unexport(11, 0), Ok(()));
}

#[test]
fn table_import_then_unimport() {
    let mut t = HandleTable::new();
    let (id, numa) = t.import(31, 2).unwrap();
    assert_eq!((id, numa), (31, 2));
    assert!(t.is_imported(id));
    assert!(!t.is_exported(id));
    assert_eq!(t.unexport(id, 0), Err(ObmmError::NotLive(id)));
    assert_eq!(t.unimport(id, 0), Ok(()));
    assert_eq!(t.unimport(id, 0), Err(ObmmError::NotLive(id)));
}

#[test]
fn table_export_errors_leave_it_unchanged() {
    let mut t = HandleTable::new();
    let r = t.export::<UbPrivData>(&vec![1; 17], 11, filled(1, 0));
    assert_eq!(r.err(), Some(ObmmError::TooManyNodes));
    assert!(!t.is_exported(11));
}
