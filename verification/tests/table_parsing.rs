use os81::madt::{Madt, MadtEntry, MadtIntSrcOverride, MadtIoApic, MadtLocalApic, Sdt};

fn le32(v: u32) -> [u8; 4] {
    [v as u8, (v >> 8) as u8, (v >> 16) as u8, (v >> 24) as u8]
}

fn apic_sdt(payload: Vec<u8>) -> Sdt {
    Sdt { signature: *b"APIC", data: payload }
}

fn prefix(local_address: u32, flags: u32) -> Vec<u8> {
    let mut d = Vec::new();
    d.extend_from_slice(&le32(local_address));
    d.extend_from_slice(&le32(flags));
    d
}

fn collect(madt: &Madt) -> Vec<MadtEntry> {
    let mut it = madt.iter();
    let mut out = Vec::new();
    while let Some(e) = it.next() {
        out.push(e);
    }
    out
}

#[test]
fn rejects_wrong_signature() {
    let sdt = Sdt {
        signature: *b"FACP",
        data: prefix(0xFEE0_0000, 1),
    };
    assert!(Madt::new(&sdt).is_none());
}

#[test]
fn rejects_short_payload() {
    let sdt = apic_sdt(vec![0, 0, 0xE0, 0xFE, 1, 0, 0]);
    assert!(Madt::new(&sdt).is_none());
}

#[test]
fn decodes_prefix_fields() {
    let sdt = apic_sdt(prefix(0xFEE0_0000, 1));
    let madt = Madt::new(&sdt).unwrap();
    assert_eq!(madt.local_address, 0xFEE0_0000);
    assert_eq!(madt.flags, 1);
}

#[test]
fn synthetic_table_yields_expected_records() {
    // prefix (controller_address = 0xFEE00000, flags = 1), then:
    // processor(id 0, enabled), processor(id 1, enabled), unknown(0x99, length 4)
    let mut d = prefix(0xFEE0_0000, 1);
    d.extend_from_slice(&[0, 8, 0, 0, 1, 0, 0, 0]);
    d.extend_from_slice(&[0, 8, 1, 1, 1, 0, 0, 0]);
    d.extend_from_slice(&[0x99, 4, 0xAA, 0xBB]);
    let madt = Madt::new(&apic_sdt(d)).unwrap();
    let got = collect(&madt);
    assert_eq!(
        got,
        vec![
            MadtEntry::LocalApic(MadtLocalApic { processor: 0, id: 0, flags: 1 }),
            MadtEntry::LocalApic(MadtLocalApic { processor: 1, id: 1, flags: 1 }),
            MadtEntry::Unknown(0x99),
        ]
    );
}

#[test]
fn reiteration_yields_identical_sequences() {
    let mut d = prefix(0xFEE0_0000, 1);
    d.extend_from_slice(&[0, 8, 0, 0, 1, 0, 0, 0]);
    d.extend_from_slice(&[0x99, 4, 0xAA, 0xBB]);
    d.extend_from_slice(&[2, 10, 0, 2, 9, 0, 0, 0, 5, 0]);
    let madt = Madt::new(&apic_sdt(d)).unwrap();
    let first = collect(&madt);
    let second = collect(&madt);
    assert_eq!(first, second);
    assert!(madt.stream_well_formed());
    assert_eq!(madt.entries(), first);
}

#[test]
fn truncated_record_ends_iteration_without_partial_record() {
    let mut d = prefix(0, 0);
    d.extend_from_slice(&[0, 8, 0, 0, 1, 0, 0, 0]);
    // declares 12 bytes but only 3 remain
    d.extend_from_slice(&[1, 12, 9]);
    let madt = Madt::new(&apic_sdt(d)).unwrap();
    let got = collect(&madt);
    assert_eq!(
        got,
        vec![MadtEntry::LocalApic(MadtLocalApic { processor: 0, id: 0, flags: 1 })]
    );
}

#[test]
fn truncated_header_ends_iteration() {
    let mut d = prefix(0, 0);
    d.push(0); // lone type byte, no length byte
    let madt = Madt::new(&apic_sdt(d)).unwrap();
    assert_eq!(collect(&madt), vec![]);
}

#[test]
fn mismatched_length_yields_marker_and_keeps_alignment() {
    // processor record declaring 9 bytes (expected size is 8), then a
    // well-formed unknown record that must still be found
    let mut d = prefix(0, 0);
    d.extend_from_slice(&[0, 9, 0, 0, 1, 0, 0, 0, 0xCC]);
    d.extend_from_slice(&[5, 2]);
    let madt = Madt::new(&apic_sdt(d)).unwrap();
    let got = collect(&madt);
    assert_eq!(got, vec![MadtEntry::InvalidLocalApic(9), MadtEntry::Unknown(5)]);
}

#[test]
fn mismatched_lengths_of_known_types_are_marked() {
    let mut d = prefix(0, 0);
    d.extend_from_slice(&[1, 5, 0, 0, 0]);
    d.extend_from_slice(&[2, 3, 0]);
    let madt = Madt::new(&apic_sdt(d)).unwrap();
    let got = collect(&madt);
    assert_eq!(
        got,
        vec![MadtEntry::InvalidIoApic(5), MadtEntry::InvalidIntSrcOverride(3)]
    );
}

#[test]
fn decodes_io_controller_record() {
    let mut d = prefix(0, 0);
    let mut rec = vec![1, 12, 9, 0];
    rec.extend_from_slice(&le32(0xFEC0_0000));
    rec.extend_from_slice(&le32(0x30));
    d.extend_from_slice(&rec);
    let madt = Madt::new(&apic_sdt(d)).unwrap();
    assert_eq!(
        collect(&madt),
        vec![MadtEntry::IoApic(MadtIoApic {
            id: 9,
            reserved: 0,
            address: 0xFEC0_0000,
            gsi_base: 0x30,
        })]
    );
}

#[test]
fn decodes_interrupt_source_override_record() {
    let mut d = prefix(0, 0);
    d.extend_from_slice(&[2, 10, 0, 2, 9, 0, 0, 0, 5, 0]);
    let madt = Madt::new(&apic_sdt(d)).unwrap();
    assert_eq!(
        collect(&madt),
        vec![MadtEntry::IntSrcOverride(MadtIntSrcOverride {
            bus_source: 0,
            irq_source: 2,
            gsi_base: 9,
            flags: 5,
        })]
    );
}

#[test]
fn zero_length_record_is_not_well_formed() {
    let mut d = prefix(0, 0);
    d.extend_from_slice(&[0x42, 0, 1, 1]);
    let madt = Madt::new(&apic_sdt(d)).unwrap();
    assert!(!madt.stream_well_formed());
}
