use cardboard::ic::InterruptController;
use cardboard::madt::Madt;
use cardboard::tables::AcpiError;

/// Builds a MADT: a 36-byte header with signature "APIC" and a correct
/// checksum, the local interrupt controller address, the flag word, and the
/// given record bytes.
fn make_madt(local_ic_addr: u32, flags: u32, body: &[u8]) -> Vec<u8> {
    let total = (44 + body.len()) as u32;
    let mut v = vec![0u8; 36];
    v[0..4].copy_from_slice(b"APIC");
    v[4..8].copy_from_slice(&total.to_le_bytes());
    v.extend_from_slice(&local_ic_addr.to_le_bytes());
    v.extend_from_slice(&flags.to_le_bytes());
    v.extend_from_slice(body);
    let sum: u32 = v.iter().map(|b| *b as u32).sum();
    v[9] = ((256 - (sum % 256)) % 256) as u8;
    v
}

fn lapic_record(proc_id: u8, apic_id: u8, flags: u32) -> Vec<u8> {
    let mut r = vec![0u8, 8, proc_id, apic_id];
    r.extend_from_slice(&flags.to_le_bytes());
    r
}

fn ioapic_record(id: u8, addr: u32, gsi_base: u32) -> Vec<u8> {
    let mut r = vec![1u8, 12, id, 0];
    r.extend_from_slice(&addr.to_le_bytes());
    r.extend_from_slice(&gsi_base.to_le_bytes());
    r
}

fn iso_record(bus: u8, irq: u8, gsi: u32, flags: u16) -> Vec<u8> {
    let mut r = vec![2u8, 10, bus, irq];
    r.extend_from_slice(&gsi.to_le_bytes());
    r.extend_from_slice(&flags.to_le_bytes());
    r
}

#[test]
fn iteration_yields_all_records_in_order() {
    let mut body = lapic_record(1, 2, 1);
    body.extend_from_slice(&ioapic_record(3, 0xFEC0_0000, 24));
    body.extend_from_slice(&iso_record(0, 9, 9, 0xD));
    let bytes = make_madt(0xFEE0_0000, 0, &body);
    let madt = Madt::new(&bytes).unwrap();
    let recs = madt.records();
    assert_eq!(recs.len(), 3);
    match &recs[0] {
        InterruptController::ProcessorLocalAPIC(r) => {
            assert_eq!(r.header.type_, 0);
            assert_eq!(r.header.length, 8);
            assert_eq!(r.proc_id, 1);
            assert_eq!(r.apic_id, 2);
            assert_eq!(r.flags, 1);
        },
        other => panic!("expected local APIC, got {:?}", other),
    }
    match &recs[1] {
        InterruptController::InputOutputAPIC(r) => {
            assert_eq!(r.id, 3);
            assert_eq!(r.addr, 0xFEC0_0000);
            assert_eq!(r.gsi_base, 24);
        },
        other => panic!("expected I/O APIC, got {:?}", other),
    }
    match &recs[2] {
        InterruptController::InterruptSourceOverride(r) => {
            assert_eq!(r.bus, 0);
            assert_eq!(r.irq, 9);
            assert_eq!(r.gsi, 9);
            assert_eq!(r.flags, 0xD);
        },
        other => panic!("expected source override, got {:?}", other),
    }
    // The walk consumed the whole body and then terminates.
    let mut it = madt.as_iter();
    assert!(it.next().is_some());
    assert!(it.next().is_some());
    assert!(it.next().is_some());
    assert!(it.next().is_none());
    assert!(it.next().is_none());
}

#[test]
fn empty_body_yields_nothing() {
    let bytes = make_madt(0, 0, &[]);
    let madt = Madt::new(&bytes).unwrap();
    assert_eq!(madt.records().len(), 0);
    assert!(madt.as_iter().next().is_none());
}

#[test]
fn oem_reserved_tag_yields_oem_reserved_variant() {
    let body = [0x90u8, 5, 1, 2, 3];
    let bytes = make_madt(0, 0, &body);
    let madt = Madt::new(&bytes).unwrap();
    let recs = madt.records();
    assert_eq!(recs.len(), 1);
    match &recs[0] {
        InterruptController::OemReserved(h) => {
            assert_eq!(h.type_, 0x90);
            assert_eq!(h.length, 5);
        },
        other => panic!("expected OEM-reserved, got {:?}", other),
    }
    for tag in [0x80u8, 0xFF] {
        let bytes = make_madt(0, 0, &[tag, 2]);
        let madt = Madt::new(&bytes).unwrap();
        let recs = madt.records();
        assert!(matches!(recs[0], InterruptController::OemReserved(_)));
    }
}

#[test]
fn reserved_tag_yields_reserved_variant() {
    let body = [0x30u8, 4, 9, 9];
    let bytes = make_madt(0, 0, &body);
    let madt = Madt::new(&bytes).unwrap();
    let recs = madt.records();
    assert_eq!(recs.len(), 1);
    match &recs[0] {
        InterruptController::Reserved(h) => {
            assert_eq!(h.type_, 0x30);
            assert_eq!(h.length, 4);
        },
        other => panic!("expected reserved, got {:?}", other),
    }
    // The reserved range runs to 0x7F; the OEM range starts at 0x80.
    for tag in [0x11u8, 0x50, 0x7F] {
        let bytes = make_madt(0, 0, &[tag, 2]);
        let madt = Madt::new(&bytes).unwrap();
        let recs = madt.records();
        assert!(matches!(recs[0], InterruptController::Reserved(_)));
    }
}

#[test]
fn every_known_tag_is_classified() {
    // One minimal record per tag 6 through 0x10: sub-header view kept.
    for (tag, want) in [
        (6u8, "IoSapic"),
        (7, "LocalSapic"),
        (8, "PlatformInterruptSrcs"),
        (9, "ProcessorLocalx2APIC"),
        (0xA, "Localx2APICNmi"),
        (0xB, "GicCpu"),
        (0xC, "GicDist"),
        (0xD, "GicMsiFrame"),
        (0xE, "GicRedist"),
        (0xF, "GicIts"),
        (0x10, "MpWakeup"),
    ] {
        let body = [tag, 2];
        let bytes = make_madt(0, 0, &body);
        let madt = Madt::new(&bytes).unwrap();
        let recs = madt.records();
        assert_eq!(recs.len(), 1);
        let name = format!("{:?}", recs[0]);
        assert!(name.starts_with(want), "tag {:#x} gave {}", tag, name);
    }
}

#[test]
fn nmi_and_override_records_decode() {
    let mut body = vec![3u8, 8];
    body.extend_from_slice(&5u16.to_le_bytes());
    body.extend_from_slice(&33u32.to_le_bytes());
    body.extend_from_slice(&[4u8, 6, 2]);
    body.extend_from_slice(&1u16.to_le_bytes());
    body.push(1);
    body.extend_from_slice(&[5u8, 12, 0, 0]);
    body.extend_from_slice(&0xFEE0_0000_0000u64.to_le_bytes());
    let bytes = make_madt(0, 0, &body);
    let madt = Madt::new(&bytes).unwrap();
    let recs = madt.records();
    assert_eq!(recs.len(), 3);
    match &recs[0] {
        InterruptController::NmiSrc(r) => {
            assert_eq!(r.flags, 5);
            assert_eq!(r.gsi, 33);
        },
        other => panic!("expected NMI source, got {:?}", other),
    }
    match &recs[1] {
        InterruptController::LApicNmi(r) => {
            assert_eq!(r.proc_id, 2);
            assert_eq!(r.flags, 1);
            assert_eq!(r.lint, 1);
        },
        other => panic!("expected local APIC NMI, got {:?}", other),
    }
    match &recs[2] {
        InterruptController::LApicAddrOverride(r) => {
            assert_eq!(r.addr, 0xFEE0_0000_0000);
        },
        other => panic!("expected address override, got {:?}", other),
    }
}

#[test]
fn zero_length_record_stops_iteration() {
    let body = [0u8, 0, 1, 2, 3, 4, 5, 6];
    let bytes = make_madt(0, 0, &body);
    let madt = Madt::new(&bytes).unwrap();
    assert_eq!(madt.records().len(), 0);
    let mut it = madt.as_iter();
    assert!(it.next().is_none());
    assert!(it.next().is_none());
}

#[test]
fn overrunning_length_stops_iteration() {
    // A good record, then one whose declared length passes the body's end.
    let mut body = lapic_record(0, 0, 0);
    body.extend_from_slice(&[1u8, 12, 0, 0]);
    let bytes = make_madt(0, 0, &body);
    let madt = Madt::new(&bytes).unwrap();
    let recs = madt.records();
    assert_eq!(recs.len(), 1);
    assert!(matches!(recs[0], InterruptController::ProcessorLocalAPIC(_)));
}

#[test]
fn known_tag_shorter_than_its_shape_stops_iteration() {
    // Tag 1 needs 12 bytes but declares 4: within bounds, still malformed.
    let body = [1u8, 4, 0, 0];
    let bytes = make_madt(0, 0, &body);
    let madt = Madt::new(&bytes).unwrap();
    assert_eq!(madt.records().len(), 0);
}

#[test]
fn trailing_single_byte_stops_iteration() {
    let mut body = lapic_record(0, 0, 0);
    body.push(0);
    let bytes = make_madt(0, 0, &body);
    let madt = Madt::new(&bytes).unwrap();
    assert_eq!(madt.records().len(), 1);
}

#[test]
fn flags_report_pcat_compat_from_bit_zero_alone() {
    // Bit 0 set, reserved bits at an arbitrary pattern.
    let bytes = make_madt(0, 0xFFFF_FFFF, &[]);
    let madt = Madt::new(&bytes).unwrap();
    assert!(madt.flags().pcat_compat());
    // Bit 0 clear, other bits set.
    let bytes = make_madt(0, 0xFFFF_FFFE, &[]);
    let madt = Madt::new(&bytes).unwrap();
    assert!(!madt.flags().pcat_compat());
    let bytes = make_madt(0, 1, &[]);
    let madt = Madt::new(&bytes).unwrap();
    assert!(madt.flags().pcat_compat());
    let bytes = make_madt(0, 0, &[]);
    let madt = Madt::new(&bytes).unwrap();
    assert!(!madt.flags().pcat_compat());
}

#[test]
fn madt_refused_when_declared_span_cannot_hold_it() {
    let bytes = make_madt(0, 0, &[]);
    let mut short = bytes.clone();
    short.truncate(40);
    assert!(matches!(Madt::new(&short), Err(AcpiError::StructuralCorruption)));
    let mut lying = bytes.clone();
    lying[4..8].copy_from_slice(&43u32.to_le_bytes());
    assert!(matches!(Madt::new(&lying), Err(AcpiError::StructuralCorruption)));
    let mut overlong = bytes;
    overlong[4..8].copy_from_slice(&100u32.to_le_bytes());
    assert!(matches!(Madt::new(&overlong), Err(AcpiError::StructuralCorruption)));
}

#[test]
fn end_to_end_two_record_scenario() {
    let mut body = lapic_record(0, 0, 1);
    body.extend_from_slice(&ioapic_record(1, 0xFEC0_0000, 0));
    let bytes = make_madt(0xFEE0_0000, 1, &body);
    let madt = Madt::new(&bytes).unwrap();
    assert_eq!(madt.local_ic_addr(), 0xFEE0_0000);
    assert!(madt.flags().pcat_compat());
    assert!(madt.header().checksum_ok());
    assert!(madt.header().signature_is(b"APIC"));
    let recs = madt.records();
    assert_eq!(recs.len(), 2);
    match &recs[0] {
        InterruptController::ProcessorLocalAPIC(r) => {
            assert_eq!(r.proc_id, 0);
            assert_eq!(r.apic_id, 0);
            assert_eq!(r.flags, 1);
        },
        other => panic!("expected local APIC, got {:?}", other),
    }
    match &recs[1] {
        InterruptController::InputOutputAPIC(r) => {
            assert_eq!(r.id, 1);
            assert_eq!(r.addr, 0xFEC0_0000);
            assert_eq!(r.gsi_base, 0);
        },
        other => panic!("expected I/O APIC, got {:?}", other),
    }
}

#[test]
fn lookup_then_walk_through_root_table() {
    // The full flow: a memory image with a root table pointing at a MADT.
    let mut body = lapic_record(7, 7, 1);
    body.extend_from_slice(&ioapic_record(2, 0xFEC0_0000, 0));
    let madt_bytes = make_madt(0xFEE0_0000, 1, &body);
    let rsdt_len = 40u32;
    let mut mem = vec![0u8; 36];
    mem[0..4].copy_from_slice(b"RSDT");
    mem[4..8].copy_from_slice(&rsdt_len.to_le_bytes());
    mem.extend_from_slice(&rsdt_len.to_le_bytes()); // one slot: the MADT offset
    mem.extend_from_slice(&madt_bytes);
    let sum: u32 = mem[..rsdt_len as usize].iter().map(|b| *b as u32).sum();
    mem[9] = ((256 - (sum % 256)) % 256) as u8;

    let rsdt = cardboard::tables::Rsdt::new(&mem, 0).unwrap();
    assert!(rsdt.header().checksum_ok());
    let h = rsdt.find_table(b"APIC").unwrap();
    assert!(h.checksum_ok());
    let madt = Madt::new(h.as_bytes()).unwrap();
    assert_eq!(madt.local_ic_addr(), 0xFEE0_0000);
    assert_eq!(madt.records().len(), 2);
}
