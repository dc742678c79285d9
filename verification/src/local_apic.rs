//! Decision logic of the per-core interrupt-controller driver.
//!
//! The controller has two mutually exclusive backends chosen once at
//! initialisation: a memory-mapped register window, and the register-based
//! mode addressed through model-specific registers.  This module holds
//! everything about the driver that is pure computation: assembling the
//! 64-bit command words (the target id sits in a different bit field per
//! backend), deriving the register window's base address, and the step
//! function of the one-command-in-flight send protocol the register-window
//! backend must follow.  The shell that touches the actual registers
//! drives these functions.

use vstd::prelude::*;

verus! {

/// The controller handle: base address of the register window, and
/// whether the register-based mode is active (the window is then unused).
pub struct LocalApic {
    pub address: usize,
    pub x2: bool,
}

/// Where the target core's id sits in a command word: bits 32.. for the
/// register-based mode, bits 56.. for the memory-mapped window.
pub open spec fn spec_target_field(x2: bool, apic_id: u64) -> u64 {
    if x2 {
        apic_id << 32
    } else {
        apic_id << 56
    }
}

impl LocalApic {
    /// The command word of an ordinary inter-processor signal to the
    /// given core.
    pub fn ipi_command(&self, apic_id: usize) -> (r: u64)
        ensures
            r == 0x4040u64 | spec_target_field(self.x2, apic_id as u64),
    {
        if self.x2 {
            0x4040u64 | ((apic_id as u64) << 32)
        } else {
            0x4040u64 | ((apic_id as u64) << 56)
        }
    }

    /// The command word of a non-maskable signal to the given core.
    pub fn ipi_nmi_command(&self, apic_id: u32) -> (r: u64)
        ensures
            r == spec_target_field(self.x2, apic_id as u64) | (1u64 << 14) | (0b100u64 << 8),
    {
        if self.x2 {
            ((apic_id as u64) << 32) | (1u64 << 14) | (0b100u64 << 8)
        } else {
            ((apic_id as u64) << 56) | (1u64 << 14) | (0b100u64 << 8)
        }
    }

    /// The command word of the INIT-class signal opening the two-step
    /// startup sequence for the given core.
    pub fn init_ipi_command(&self, target: u8) -> (r: u64)
        ensures
            r == 0x4500u64 | spec_target_field(self.x2, target as u64),
    {
        if self.x2 {
            0x4500u64 | ((target as u64) << 32)
        } else {
            0x4500u64 | ((target as u64) << 56)
        }
    }

    /// The command word of the STARTUP-class signal: the launch code's
    /// physical page encoded as a segment value, plus the target field.
    pub fn startup_ipi_command(&self, target: u8, trampoline: u64) -> (r: u64)
        ensures
            r == (0x4600u64 | ((trampoline >> 12) & 0xFF)) | spec_target_field(
                self.x2,
                target as u64,
            ),
    {
        let segment = (trampoline >> 12) & 0xFF;
        if self.x2 {
            (0x4600u64 | segment) | ((target as u64) << 32)
        } else {
            (0x4600u64 | segment) | ((target as u64) << 56)
        }
    }
}

/// The identity of the first core, as published through a shared word: a
/// value that fits 32 bits is an id, anything larger means none was
/// published yet.
pub fn bsp_apic_id(value: u64) -> (r: Option<u32>)
    ensures
        value <= u32::MAX ==> r == Option::Some(value as u32),
        value > u32::MAX ==> r is None,
{
    if value <= 0xFFFF_FFFF {
        Option::Some(value as u32)
    } else {
        Option::None
    }
}

/// The virtual base address of the register window: the window's physical
/// base taken from the base-address register, plus the offset at which
/// physical memory is mapped.
pub fn apic_base_address(msr: u64, phys_offset: u64) -> (r: u64)
    requires
        phys_offset <= u64::MAX - 0xFFFF_0000,
    ensures
        r == (msr & 0xFFFF_0000) + phys_offset,
{
    proof {
        assert((msr & 0xFFFF_0000) <= 0xFFFF_0000) by (bit_vector);
    }
    (msr & 0xFFFF_0000) + phys_offset
}

/// The 64-bit command word read back from the window's two 32-bit halves.
pub fn icr_from_halves(high: u32, low: u32) -> (r: u64)
    ensures
        r == ((high as u64) << 32) | (low as u64),
{
    ((high as u64) << 32) | (low as u64)
}

/// The register-based mode is switched on by setting bit 10 of the
/// base-address register.
pub fn x2apic_enable_value(msr: u64) -> (r: u64)
    ensures
        r == msr | (1u64 << 10),
{
    msr | (1u64 << 10)
}

/// Value written to the spurious-vector register to enable the controller.
pub const SPURIOUS_REGISTER_VALUE: u32 = 0x100;

/// Vector programmed into the local error-reporting register.
pub const ERROR_INTERRUPT_VECTOR: u32 = 49;

/// Phase of the register-window send protocol.  The hardware takes one
/// command at a time: before the two halves of a new command may be
/// stored, the pending bit must have been observed clear, and the
/// protocol finishes only once the pending bit has been observed clear
/// again afterwards.
#[derive(Clone, Copy, Debug, PartialEq, Eq)]
pub enum IcrSendPhase {
    /// Waiting for any earlier command to be accepted.
    AwaitIdle,
    /// The upper half is stored; the lower half (which triggers the send)
    /// is next.
    UpperStored,
    /// Both halves are stored; waiting for the hardware to accept them.
    AwaitAccept,
    /// The command was stored and observed accepted.
    Complete,
}

/// What the shell must do after a protocol step.
#[derive(Clone, Copy, Debug, PartialEq, Eq)]
pub enum IcrAction {
    /// Read the pending bit again.
    Poll,
    /// Store this value to the upper command register.
    StoreUpper(u32),
    /// Store this value to the lower command register, triggering the send.
    StoreLower(u32),
    /// Nothing left to do.
    Rest,
}

/// One step of the send protocol: from the current phase and the latest
/// observation of the pending bit, the next phase and the action to
/// perform.
pub open spec fn spec_send_step(phase: IcrSendPhase, pending: bool, value: u64) -> (IcrSendPhase,
    IcrAction) {
    match phase {
        IcrSendPhase::AwaitIdle => if pending {
            (IcrSendPhase::AwaitIdle, IcrAction::Poll)
        } else {
            (IcrSendPhase::UpperStored, IcrAction::StoreUpper((value >> 32) as u32))
        },
        IcrSendPhase::UpperStored => (IcrSendPhase::AwaitAccept, IcrAction::StoreLower(
            value as u32,
        )),
        IcrSendPhase::AwaitAccept => if pending {
            (IcrSendPhase::AwaitAccept, IcrAction::Poll)
        } else {
            (IcrSendPhase::Complete, IcrAction::Rest)
        },
        IcrSendPhase::Complete => (IcrSendPhase::Complete, IcrAction::Rest),
    }
}

/// Executable form of one protocol step, for the shell that spins on the
/// pending bit.
pub fn send_step(phase: IcrSendPhase, pending: bool, value: u64) -> (r: (IcrSendPhase, IcrAction))
    ensures
        r == spec_send_step(phase, pending, value),
{
    match phase {
        IcrSendPhase::AwaitIdle => if pending {
            (IcrSendPhase::AwaitIdle, IcrAction::Poll)
        } else {
            (IcrSendPhase::UpperStored, IcrAction::StoreUpper((value >> 32) as u32))
        },
        IcrSendPhase::UpperStored => (
            IcrSendPhase::AwaitAccept,
            IcrAction::StoreLower(#[verifier::truncate] (value as u32)),
        ),
        IcrSendPhase::AwaitAccept => if pending {
            (IcrSendPhase::AwaitAccept, IcrAction::Poll)
        } else {
            (IcrSendPhase::Complete, IcrAction::Rest)
        },
        IcrSendPhase::Complete => (IcrSendPhase::Complete, IcrAction::Rest),
    }
}

/// A run of the protocol: `phases` are the visited phases starting at the
/// leading wait, `obs[i]` is the pending bit observed before step `i`, and
/// `actions[i]` the action the step asked for.
pub open spec fn spec_valid_send_trace(
    phases: Seq<IcrSendPhase>,
    obs: Seq<bool>,
    actions: Seq<IcrAction>,
    value: u64,
) -> bool {
    &&& phases.len() == obs.len() + 1
    &&& actions.len() == obs.len()
    &&& phases[0] is AwaitIdle
    &&& forall|i: int|
        0 <= i < obs.len() ==> phases[i + 1] == #[trigger] spec_send_step(
            phases[i],
            obs[i],
            value,
        ).0 && actions[i] == spec_send_step(phases[i], obs[i], value).1
}

/// The triggering store happens only right after the leading wait saw the
/// pending bit clear: a store of the lower half at step `i` means the
/// upper half was stored at step `i - 1`, out of the leading wait, on an
/// observation that the pending bit was clear — never while a command was
/// still observed pending.
pub proof fn lemma_store_follows_idle_observation(
    phases: Seq<IcrSendPhase>,
    obs: Seq<bool>,
    actions: Seq<IcrAction>,
    value: u64,
    i: int,
)
    requires
        spec_valid_send_trace(phases, obs, actions, value),
        0 <= i < actions.len(),
        actions[i] is StoreLower,
    ensures
        1 <= i,
        phases[i] is UpperStored,
        actions[i - 1] is StoreUpper,
        phases[i - 1] is AwaitIdle,
        obs[i - 1] == false,
{
    assert(phases[i + 1] == spec_send_step(phases[i], obs[i], value).0);
    assert(actions[i] == spec_send_step(phases[i], obs[i], value).1);
    assert(phases[i] is UpperStored);
    if i == 0 {
        assert(phases[0] is AwaitIdle);
    } else {
        assert(phases[i] == spec_send_step(phases[i - 1], obs[i - 1], value).0);
    }
}

/// The protocol finishes only on an accepted command: every entry into the
/// final phase happens out of the acceptance wait, on an observation that
/// the pending bit cleared after the store.
pub proof fn lemma_complete_follows_accept(
    phases: Seq<IcrSendPhase>,
    obs: Seq<bool>,
    actions: Seq<IcrAction>,
    value: u64,
    i: int,
)
    requires
        spec_valid_send_trace(phases, obs, actions, value),
        0 <= i < obs.len(),
        phases[i + 1] is Complete,
        !(phases[i] is Complete),
    ensures
        phases[i] is AwaitAccept,
        obs[i] == false,
{
    assert(phases[i + 1] == spec_send_step(phases[i], obs[i], value).0);
}

/// A trace that reaches the final phase passed through an acceptance-wait
/// step that observed the pending bit clear.
pub proof fn lemma_complete_trace_saw_accept(
    phases: Seq<IcrSendPhase>,
    obs: Seq<bool>,
    actions: Seq<IcrAction>,
    value: u64,
    n: int,
)
    requires
        spec_valid_send_trace(phases, obs, actions, value),
        0 <= n < phases.len(),
        phases[n] is Complete,
    ensures
        exists|c: int| 0 <= c < n && #[trigger] phases[c] is AwaitAccept && obs[c] == false,
    decreases n,
{
    assert(n >= 1) by {
        assert(phases[0] is AwaitIdle);
    }
    if phases[n - 1] is Complete {
        lemma_complete_trace_saw_accept(phases, obs, actions, value, n - 1);
    } else {
        lemma_complete_follows_accept(phases, obs, actions, value, n - 1);
        assert(phases[n - 1] is AwaitAccept && obs[n - 1] == false);
    }
}

/// Two back-to-back sends through the register window never overlap.  The
/// first run finishes only after its acceptance wait observed the pending
/// bit clear — the first command was accepted by the hardware.  And the
/// second run stores nothing until its own leading wait has again
/// observed the pending bit clear, so its triggering store cannot race a
/// command still in flight.
pub proof fn lemma_back_to_back_sends_do_not_overlap(
    phases1: Seq<IcrSendPhase>,
    obs1: Seq<bool>,
    actions1: Seq<IcrAction>,
    value1: u64,
    phases2: Seq<IcrSendPhase>,
    obs2: Seq<bool>,
    actions2: Seq<IcrAction>,
    value2: u64,
    i: int,
)
    requires
        spec_valid_send_trace(phases1, obs1, actions1, value1),
        spec_valid_send_trace(phases2, obs2, actions2, value2),
        phases1.len() >= 1,
        phases1.last() is Complete,
        0 <= i < actions2.len(),
        actions2[i] is StoreLower,
    ensures
        exists|c: int| 0 <= c < phases1.len() - 1 && #[trigger] phases1[c] is AwaitAccept
            && obs1[c] == false,
        1 <= i && phases2[i - 1] is AwaitIdle && obs2[i - 1] == false,
{
    lemma_complete_trace_saw_accept(phases1, obs1, actions1, value1, phases1.len() - 1);
    lemma_store_follows_idle_observation(phases2, obs2, actions2, value2, i);
}

} // verus!
