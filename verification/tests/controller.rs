use os81::ap_init::{
    ap_stack_bounds, launch_signal_words, launch_targets, KernelArgsAp, AP_STACK_FRAMES,
    TRAMPOLINE,
};
use os81::local_apic::{
    apic_base_address, bsp_apic_id, icr_from_halves, send_step, x2apic_enable_value, IcrAction,
    IcrSendPhase, LocalApic, ERROR_INTERRUPT_VECTOR, SPURIOUS_REGISTER_VALUE,
};
use os81::madt::{MadtEntry, MadtLocalApic};
use os81::pio::Pio;
use os81::PHYS_OFFSET;

fn window_apic() -> LocalApic {
    LocalApic { address: 0xFEE0_0000, x2: false }
}

fn register_apic() -> LocalApic {
    LocalApic { address: 0, x2: true }
}

#[test]
fn signal_words_place_target_per_backend() {
    assert_eq!(window_apic().ipi_command(2), 0x0200_0000_0000_4040);
    assert_eq!(register_apic().ipi_command(2), 0x0000_0002_0000_4040);
    assert_eq!(window_apic().ipi_nmi_command(3), 0x0300_0000_0000_4400);
    assert_eq!(register_apic().ipi_nmi_command(3), 0x0000_0003_0000_4400);
}

#[test]
fn startup_sequence_words_are_exact() {
    let apic = window_apic();
    assert_eq!(apic.init_ipi_command(1), 0x0100_0000_0000_4500);
    assert_eq!(apic.startup_ipi_command(1, TRAMPOLINE), 0x0100_0000_0000_4608);
    assert_eq!(
        launch_signal_words(&apic, 1),
        (0x0100_0000_0000_4500, 0x0100_0000_0000_4608)
    );
    let x2 = register_apic();
    assert_eq!(
        launch_signal_words(&x2, 1),
        (0x0000_0001_0000_4500, 0x0000_0001_0000_4608)
    );
}

#[test]
fn first_core_identity_is_published_only_when_it_fits() {
    assert_eq!(bsp_apic_id(5), Some(5));
    assert_eq!(bsp_apic_id(0xFFFF_FFFF), Some(0xFFFF_FFFF));
    assert_eq!(bsp_apic_id(0x1_0000_0000), None);
    assert_eq!(bsp_apic_id(u64::MAX), None);
}

#[test]
fn window_base_address_from_base_register() {
    assert_eq!(
        apic_base_address(0xFEE0_0900, PHYS_OFFSET),
        0x0000_4000_FEE0_0000
    );
}

#[test]
fn command_word_reassembled_from_halves() {
    assert_eq!(icr_from_halves(0x12, 0x4500), 0x0000_0012_0000_4500);
}

#[test]
fn register_mode_enable_sets_bit_ten() {
    assert_eq!(x2apic_enable_value(0xFEE0_0900), 0xFEE0_0D00);
    assert_eq!(SPURIOUS_REGISTER_VALUE, 0x100);
    assert_eq!(ERROR_INTERRUPT_VECTOR, 49);
}

#[test]
fn send_protocol_stores_only_after_idle_observation() {
    let v: u64 = 0x0100_0000_0000_4500;
    // a command is still pending: keep polling, store nothing
    assert_eq!(
        send_step(IcrSendPhase::AwaitIdle, true, v),
        (IcrSendPhase::AwaitIdle, IcrAction::Poll)
    );
    // pending observed clear: the two stores follow, upper half first
    let (p1, a1) = send_step(IcrSendPhase::AwaitIdle, false, v);
    assert_eq!((p1, a1), (IcrSendPhase::UpperStored, IcrAction::StoreUpper(0x0100_0000)));
    let (p2, a2) = send_step(p1, true, v);
    assert_eq!((p2, a2), (IcrSendPhase::AwaitAccept, IcrAction::StoreLower(0x4500)));
    // not accepted yet: poll; accepted: done
    assert_eq!(send_step(p2, true, v), (IcrSendPhase::AwaitAccept, IcrAction::Poll));
    let (p3, a3) = send_step(p2, false, v);
    assert_eq!((p3, a3), (IcrSendPhase::Complete, IcrAction::Rest));
    assert_eq!(send_step(p3, true, v), (IcrSendPhase::Complete, IcrAction::Rest));
}

#[test]
fn back_to_back_sends_wait_for_each_other() {
    let first: u64 = 0x0100_0000_0000_4500;
    let second: u64 = 0x0100_0000_0000_4608;
    // first send runs to completion: its last step observed pending clear
    let (p, _) = send_step(IcrSendPhase::AwaitIdle, false, first);
    let (p, _) = send_step(p, true, first);
    let (p, _) = send_step(p, false, first);
    assert_eq!(p, IcrSendPhase::Complete);
    // second send begins with its own leading wait; while the bit reads
    // pending, nothing is stored
    let (q, a) = send_step(IcrSendPhase::AwaitIdle, true, second);
    assert_eq!((q, a), (IcrSendPhase::AwaitIdle, IcrAction::Poll));
    let (q, a) = send_step(q, true, second);
    assert_eq!((q, a), (IcrSendPhase::AwaitIdle, IcrAction::Poll));
    // only an idle observation releases the stores
    let (q, a) = send_step(q, false, second);
    assert_eq!((q, a), (IcrSendPhase::UpperStored, IcrAction::StoreUpper(0x0100_0000)));
    let (_, a) = send_step(q, false, second);
    assert_eq!(a, IcrAction::StoreLower(0x4608));
}

#[test]
fn stack_bounds_for_allocated_run() {
    let (start, end) = ap_stack_bounds(0x12000);
    assert_eq!(start, 0x0000_4000_0001_2000);
    assert_eq!(end, start + AP_STACK_FRAMES * 4096);
    assert_eq!(end - start, 0x40000);
}

#[test]
fn launch_list_skips_self_and_disabled_cores() {
    let entries = vec![
        MadtEntry::LocalApic(MadtLocalApic { processor: 0, id: 0, flags: 1 }),
        MadtEntry::LocalApic(MadtLocalApic { processor: 1, id: 1, flags: 1 }),
        MadtEntry::LocalApic(MadtLocalApic { processor: 2, id: 2, flags: 0 }),
        MadtEntry::Unknown(0x99),
    ];
    assert_eq!(launch_targets(&entries, 0), vec![1]);
    assert_eq!(launch_targets(&entries, 1), vec![0]);
    assert_eq!(launch_targets(&entries, 7), vec![0, 1]);
}

#[test]
fn end_to_end_bringup_targets_exactly_the_other_enabled_core() {
    // synthetic table: prefix (0xFEE00000, flags 1), processor(id 0,
    // enabled), processor(id 1, enabled), unknown(0x99, length 4); run as
    // core 0: exactly core 1 is started, core 0 never targeted
    let mut d = vec![0x00, 0x00, 0xE0, 0xFE, 1, 0, 0, 0];
    d.extend_from_slice(&[0, 8, 0, 0, 1, 0, 0, 0]);
    d.extend_from_slice(&[0, 8, 1, 1, 1, 0, 0, 0]);
    d.extend_from_slice(&[0x99, 4, 0xAA, 0xBB]);
    let sdt = os81::madt::Sdt { signature: *b"APIC", data: d };
    let madt = os81::madt::Madt::new(&sdt).unwrap();
    assert_eq!(madt.local_address, 0xFEE0_0000);
    assert_eq!(madt.flags & os81::madt::FLAG_PCAT, 1);
    assert!(madt.stream_well_formed());
    let entries = madt.entries();
    let targets = launch_targets(&entries, 0);
    assert_eq!(targets, vec![1]);
    let apic = window_apic();
    for t in targets {
        assert_ne!(t, 0);
        let (init_word, startup_word) = launch_signal_words(&apic, t);
        assert_eq!(init_word, 0x0100_0000_0000_4500);
        assert_eq!(startup_word, 0x0100_0000_0000_4608);
    }
}

#[test]
fn launch_record_carries_the_startup_parameters() {
    let args = KernelArgsAp {
        cpu_id: 1,
        page_table: 0x1000,
        stack_start: 0x0000_4000_0001_2000,
        stack_end: 0x0000_4000_0005_2000,
    };
    assert_eq!(args.cpu_id, 1);
    assert_eq!(args.page_table, 0x1000);
    assert_eq!(args.stack_end - args.stack_start, 0x40000);
}

#[test]
fn port_handle_keeps_its_port() {
    let p: Pio<u8> = Pio::new(0x3F8);
    assert_eq!(p.port, 0x3F8);
    let w: Pio<u32> = Pio::new(0xF4);
    assert_eq!(w.port, 0xF4);
}
