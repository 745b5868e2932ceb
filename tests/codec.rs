use obmm_rs::desc::ObmmMemDesc;
use obmm_rs::flag_text::FlagParseError;
use obmm_rs::flags::{ObmmExportFlags, ObmmUnexportFlags, UbPrivData};
use obmm_rs::ops::ObmmError;

fn both() -> UbPrivData {
    UbPrivData::ochip().union(UbPrivData::cacheable())
}

#[test]
fn priv_text_of_each_named_combination() {
    assert_eq!(UbPrivData::empty().to_text(), "");
    assert_eq!(UbPrivData::ochip().to_text(), "OCHIP");
    assert_eq!(UbPrivData::cacheable().to_text(), "CACHEABLE");
    assert_eq!(both().to_text(), "OCHIP | CACHEABLE");
}

#[test]
fn priv_text_leaves_out_reserved_bits() {
    assert_eq!(UbPrivData::from_bits_retain(0b111_1111).to_text(), "OCHIP | CACHEABLE");
    assert_eq!(UbPrivData::from_bits_retain(0b1).to_text(), "");
}

#[test]
fn priv_text_round_trips() {
    for bits in [0u16, 32, 64, 96] {
        let f = UbPrivData::from_bits_retain(bits);
        assert_eq!(UbPrivData::from_text(&f.to_text()), Ok(f));
    }
}

#[test]
fn priv_text_equals_raw_integer_form() {
    let parsed = UbPrivData::from_text("OCHIP | CACHEABLE").unwrap();
    assert_eq!(parsed, UbPrivData::from_bits_retain(0b1100000));
    assert_eq!(parsed.bits(), 96);
    assert_eq!(parsed, both());
}

#[test]
fn priv_text_accepts_blanks_and_any_order() {
    assert_eq!(UbPrivData::from_text("  CACHEABLE|OCHIP \t"), Ok(both()));
    assert_eq!(UbPrivData::from_text("OCHIP | OCHIP"), Ok(UbPrivData::ochip()));
    assert_eq!(UbPrivData::from_text("   "), Ok(UbPrivData::empty()));
    assert_eq!(UbPrivData::from_text(""), Ok(UbPrivData::empty()));
}

#[test]
fn priv_text_refuses_unknown_or_missing_names() {
    assert_eq!(UbPrivData::from_text("OCHIP | BOGUS"), Err(FlagParseError { start: 8, end: 13 }));
    assert_eq!(UbPrivData::from_text("ochip"), Err(FlagParseError { start: 0, end: 5 }));
    assert_eq!(UbPrivData::from_text("OCHIP |"), Err(FlagParseError { start: 7, end: 7 }));
    assert_eq!(UbPrivData::from_text("OCHIP || CACHEABLE"), Err(FlagParseError { start: 7, end: 7 }));
    assert_eq!(UbPrivData::from_text("0x60"), Err(FlagParseError { start: 0, end: 4 }));
}

#[test]
fn flag_set_operations() {
    let f = both();
    assert!(f.contains(UbPrivData::ochip()));
    assert!(!UbPrivData::ochip().contains(f));
    assert_eq!(f.intersection(UbPrivData::cacheable()), UbPrivData::cacheable());
    assert_eq!(f.difference(UbPrivData::cacheable()), UbPrivData::ochip());
    assert!(UbPrivData::default().is_empty());
    assert!(!f.is_empty());
    let e = ObmmExportFlags::allow_mmap().union(ObmmExportFlags::remote_numa());
    assert_eq!(e.bits(), 3);
    assert_eq!(ObmmExportFlags::from_bits_retain(1 << 40).bits(), 1 << 40);
    assert_eq!(ObmmUnexportFlags::force().bits(), 1);
    assert!(ObmmUnexportFlags::default().is_empty());
}

#[test]
fn new_descriptor_is_zero() {
    let d = ObmmMemDesc::<UbPrivData>::new();
    assert_eq!(d.addr, 0);
    assert_eq!(d.length, 0);
    assert_eq!(d.seid, [0; 16]);
    assert_eq!(d.deid, [0; 16]);
    assert_eq!(d.tokenid, 0);
    assert_eq!(d.priv_len, 0);
    assert!(d.priv_data.is_empty());
}

#[test]
fn priv_len_must_match_payload_size() {
    let mut d = ObmmMemDesc::<UbPrivData>::new();
    d.priv_data = both();
    assert!(!d.priv_len_valid());
    d.priv_len = 2;
    assert!(d.priv_len_valid());
    d.priv_len = 3;
    assert!(!d.priv_len_valid());
}

#[test]
fn check_priv_len_accepts_only_matching_payload() {
    let mut d = ObmmMemDesc::<UbPrivData>::new();
    d.tokenid = 42;
    d.priv_data = both();
    assert_eq!(d.check_priv_len().err(), Some(ObmmError::PrivLenMismatch));
    let mut d = ObmmMemDesc::<UbPrivData>::new();
    d.tokenid = 42;
    d.priv_len = 2;
    d.priv_data = both();
    let ok = d.check_priv_len().unwrap();
    assert_eq!(ok.tokenid, 42);
    assert_eq!(ok.priv_data, both());
}

#[test]
fn export_flag_text_round_trips() {
    let both = ObmmExportFlags::allow_mmap().union(ObmmExportFlags::remote_numa());
    assert_eq!(both.to_text(), "ALLOWMMAP | REMOTENUMA");
    assert_eq!(ObmmExportFlags::remote_numa().to_text(), "REMOTENUMA");
    assert_eq!(ObmmExportFlags::from_bits_retain(1 << 9).to_text(), "");
    for bits in [0u64, 1, 2, 3] {
        let f = ObmmExportFlags::from_bits_retain(bits);
        assert_eq!(ObmmExportFlags::from_text(&f.to_text()), Ok(f));
    }
    assert_eq!(ObmmExportFlags::from_text("REMOTENUMA | ALLOWMMAP"), Ok(both));
    assert_eq!(ObmmExportFlags::from_text("ALLOWMMAP | FORCE"), Err(FlagParseError { start: 12, end: 17 }));
}

#[test]
fn unexport_flag_text_round_trips() {
    assert_eq!(ObmmUnexportFlags::force().to_text(), "FORCE");
    assert_eq!(ObmmUnexportFlags::empty().to_text(), "");
    assert_eq!(ObmmUnexportFlags::from_text(" FORCE "), Ok(ObmmUnexportFlags::force()));
    assert_eq!(ObmmUnexportFlags::from_text(""), Ok(ObmmUnexportFlags::empty()));
    assert_eq!(ObmmUnexportFlags::from_text("FORCE |"), Err(FlagParseError { start: 7, end: 7 }));
    assert_eq!(ObmmUnexportFlags::from_text("force"), Err(FlagParseError { start: 0, end: 5 }));
}

#[test]
fn default_descriptor_is_the_scratch_one() {
    let d: ObmmMemDesc<UbPrivData> = Default::default();
    assert_eq!(d, ObmmMemDesc::<UbPrivData>::new());
    assert_eq!(d.addr, 0);
    assert_eq!(d.priv_len, 0);
}

#[test]
fn priv_text_accepts_unicode_blanks() {
    assert_eq!(UbPrivData::from_text("\u{00A0}OCHIP\u{3000}|\u{2003}CACHEABLE\u{2029}"), Ok(both()));
}

#[test]
fn new_descriptor_has_default_payload() {
    let d = ObmmMemDesc::<UbPrivData>::new();
    assert_eq!(d.priv_data, UbPrivData::default());
    let e = ObmmMemDesc::<u64>::new();
    assert_eq!(e.priv_data, 0);
}
