//! Decision logic of the application-processor bootstrap.
//!
//! The orchestrator core walks the processor records of the APIC table
//! and, for every enabled core other than itself, allocates a private
//! stack, fills the shared launch record, and issues the two-step startup
//! signal sequence.  This module holds the decisions: which records are
//! launch targets, the stack bounds derived from an allocated frame run,
//! and the exact pair of command words of the startup sequence.  The
//! shell performs the stores, the signals and the busy-waits.

use vstd::prelude::*;

use crate::PHYS_OFFSET;
use crate::local_apic::LocalApic;
use crate::local_apic::spec_target_field;
use crate::madt::MadtEntry;

verus! {

/// Physical (and identity-mapped virtual) address of the launch code
/// page; must match the address the precompiled launch stub was built
/// for.
pub const TRAMPOLINE: u64 = 0x8000;

/// Number of page frames in one application processor's stack.
pub const AP_STACK_FRAMES: u64 = 64;

/// Parameters the orchestrator passes to a starting core through the
/// shared launch record.
pub struct KernelArgsAp {
    pub cpu_id: u64,
    pub page_table: u64,
    pub stack_start: u64,
    pub stack_end: u64,
}

/// A record names a core the orchestrator must start: a processor-local
/// controller record for a core other than the running one whose
/// enabled flag is set.
pub open spec fn spec_is_launch_target(e: MadtEntry, me: u8) -> bool {
    match e {
        MadtEntry::LocalApic(la) => la.id != me && la.flags & 1 == 1,
        _ => false,
    }
}

/// The ids of the cores to start, in the order their records stand in
/// the table.
pub open spec fn spec_launch_ids(entries: Seq<MadtEntry>, me: u8) -> Seq<u8>
    decreases entries.len(),
{
    if entries.len() == 0 {
        Seq::empty()
    } else {
        spec_launch_ids(entries.drop_last(), me) + if spec_is_launch_target(
            entries.last(),
            me,
        ) {
            seq![entries.last()->LocalApic_0.id]
        } else {
            Seq::empty()
        }
    }
}

/// Walks the record list and collects the ids of the cores to start:
/// every enabled processor record except the running core's own, records
/// of other kinds and disabled cores skipped.
pub fn launch_targets(entries: &Vec<MadtEntry>, me: u8) -> (ids: Vec<u8>)
    ensures
        ids@ == spec_launch_ids(entries@, me),
{
    let mut ids: Vec<u8> = Vec::new();
    let mut idx: usize = 0;
    proof {
        assert(entries@.take(0) =~= Seq::<MadtEntry>::empty());
    }
    while idx < entries.len()
        invariant
            idx <= entries@.len(),
            ids@ == spec_launch_ids(entries@.take(idx as int), me),
        decreases entries@.len() - idx,
    {
        let ghost prev = entries@.take(idx as int);
        match entries[idx] {
            MadtEntry::LocalApic(la) => {
                if la.id != me && la.flags & 1 == 1 {
                    ids.push(la.id);
                }
            },
            _ => {},
        }
        proof {
            let cur = entries@.take(idx + 1);
            assert(cur.drop_last() =~= prev);
            assert(cur.last() == entries@[idx as int]);
            if spec_is_launch_target(entries@[idx as int], me) {
                assert(ids@ =~= spec_launch_ids(prev, me) + seq![
                    entries@[idx as int]->LocalApic_0.id,
                ]);
            }
        }
        idx = idx + 1;
    }
    proof {
        assert(entries@.take(entries@.len() as int) =~= entries@);
    }
    ids
}

/// The orchestrator never signals itself: whatever the table holds, the
/// launch list never contains the running core's own id.
pub proof fn lemma_launch_targets_skip_self(entries: Seq<MadtEntry>, me: u8)
    ensures
        forall|t: int|
            0 <= t < spec_launch_ids(entries, me).len() ==> #[trigger] spec_launch_ids(
                entries,
                me,
            )[t] != me,
    decreases entries.len(),
{
    if entries.len() > 0 {
        lemma_launch_targets_skip_self(entries.drop_last(), me);
        let prev = spec_launch_ids(entries.drop_last(), me);
        let cur = spec_launch_ids(entries, me);
        assert forall|t: int| 0 <= t < cur.len() implies #[trigger] cur[t] != me by {
            if t < prev.len() {
                assert(cur[t] == prev[t]);
            } else {
                assert(spec_is_launch_target(entries.last(), me));
            }
        }
    }
}

/// The stack bounds for a starting core, given the base of its freshly
/// allocated frame run: the run's first address seen through the
/// physical-memory map, and one past its last.  The bound on the frame
/// base is the machine's physical address width.
pub fn ap_stack_bounds(frame_base: u64) -> (r: (u64, u64))
    requires
        frame_base < 0x10_0000_0000_0000,
    ensures
        r.0 == frame_base + PHYS_OFFSET,
        r.1 == r.0 + AP_STACK_FRAMES * 4096,
{
    let start = frame_base + PHYS_OFFSET;
    (start, start + AP_STACK_FRAMES * 4096)
}

/// The two command words of the startup sequence for one target core, in
/// the order they must be issued: the INIT-class word, then the
/// STARTUP-class word carrying the launch code's page as a segment.
/// This two-step sequence is the architecture's contract, not a choice.
pub fn launch_signal_words(apic: &LocalApic, target: u8) -> (w: (u64, u64))
    ensures
        w.0 == 0x4500u64 | spec_target_field(apic.x2, target as u64),
        w.1 == (0x4600u64 | ((TRAMPOLINE >> 12) & 0xFF)) | spec_target_field(
            apic.x2,
            target as u64,
        ),
{
    (apic.init_ipi_command(target), apic.startup_ipi_command(target, TRAMPOLINE))
}

} // verus!
