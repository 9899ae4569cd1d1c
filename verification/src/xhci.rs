//! Register-level decisions for bringing up an xHCI USB host controller: finding
//! it on the PCI bus, placing its registers, building command TRBs and reading
//! the events it answers with.

use vstd::prelude::*;

verus! {

/// PCI class, subclass and programming interface of an xHCI controller.
pub const XHCI_CLASS: u32 = 0x0C;

pub const XHCI_SUBCLASS: u32 = 0x03;

pub const XHCI_PROG_IF: u32 = 0x30;

/// Physical address given to an unassigned BAR (as firmware-less emulators leave it).
pub const XHCI_DEFAULT_MMIO: u64 = 0xFE00_0000;

/// TRB type of an Enable Slot command.
pub const TRB_ENABLE_SLOT: u32 = 9;

/// TRB type of an Address Device command.
pub const TRB_ADDRESS_DEVICE: u32 = 11;

/// TRB type of a Command Completion event.
pub const TRB_COMMAND_COMPLETION: u32 = 33;

/// Completion code of a successful command.
pub const COMPLETION_SUCCESS: u32 = 1;

/// A function answers at this PCI address (its vendor ID is not 0xFFFF).
pub fn function_present(id_reg: u32) -> (b: bool)
    ensures
        b == (id_reg & 0xFFFF != 0xFFFF),
{
    (id_reg & 0xFFFF) != 0xFFFF
}

/// The class/revision register (offset 0x08) of a function describes an xHCI controller.
pub open spec fn is_xhci_spec(class_rev: u32) -> bool {
    &&& (class_rev >> 24u32) & 0xFF == XHCI_CLASS
    &&& (class_rev >> 16u32) & 0xFF == XHCI_SUBCLASS
    &&& (class_rev >> 8u32) & 0xFF == XHCI_PROG_IF
}

pub fn is_xhci_controller(class_rev: u32) -> (b: bool)
    ensures
        b == is_xhci_spec(class_rev),
{
    let class = (class_rev >> 24) & 0xFF;
    let sub = (class_rev >> 16) & 0xFF;
    let prog = (class_rev >> 8) & 0xFF;
    class == XHCI_CLASS && sub == XHCI_SUBCLASS && prog == XHCI_PROG_IF
}

/// The address bits of a memory BAR are all zero: no address was assigned.
pub fn bar_unassigned(bar0: u32) -> (b: bool)
    ensures
        b == (bar0 & !0xFu32 == 0),
{
    (bar0 & !0xF) == 0
}

/// The BAR is the low half of a 64-bit BAR pair (type bits 2:1 = 10).
pub fn bar_is_64bit(bar0: u32) -> (b: bool)
    ensures
        b == (bar0 & 0x4 != 0),
{
    (bar0 & 0x4) != 0
}

/// The values to write into BAR0 and, for a 64-bit BAR, BAR1 so that the
/// registers appear at `target`; BAR0 keeps its four flag bits.
pub fn bar_assignment(bar0: u32, target: u64) -> (w: (u32, Option<u32>))
    ensures
        w.0 == (target as u32) | (bar0 & 0xF),
        w.1 == if bar0 & 0x4 != 0 {
            Some((target >> 32u64) as u32)
        } else {
            None
        },
{
    let low = (target as u32) | (bar0 & 0xF);
    if (bar0 & 0x4) != 0 {
        (low, Some((target >> 32) as u32))
    } else {
        (low, None)
    }
}

/// The PCI command register with memory space (bit 1) and bus mastering (bit 2) enabled.
pub fn enable_memory_and_bus_master(cmd: u32) -> (c: u32)
    ensures
        c == cmd | 0x06,
{
    cmd | 0x06
}

/// Physical address of the controller's registers from BAR0 and BAR1.
pub fn mmio_base(bar0: u32, bar1: u32) -> (base: u64)
    ensures
        base == if bar0 & 0x4 != 0 {
            ((bar1 as u64) << 32u64) | ((bar0 & !0xFu32) as u64)
        } else {
            (bar0 & !0xFu32) as u64
        },
{
    if (bar0 & 0x4) != 0 {
        ((bar1 as u64) << 32) | ((bar0 & !0xF) as u64)
    } else {
        (bar0 & !0xF) as u64
    }
}

/// CAPLENGTH (bits 0-7) and HCIVERSION (bits 16-31) of the first capability register.
pub fn parse_capability(cap_reg: u32) -> (r: (u8, u16))
    ensures
        r.0 == (cap_reg & 0xFF) as u8,
        r.1 == (cap_reg >> 16u32) as u16,
{
    ((cap_reg & 0xFF) as u8, (cap_reg >> 16) as u16)
}

/// MaxSlots (bits 0-7) and MaxPorts (bits 24-31) of HCSPARAMS1.
pub fn structural_params(hcs_params1: u32) -> (r: (u8, u8))
    ensures
        r.0 == (hcs_params1 & 0xFF) as u8,
        r.1 == ((hcs_params1 >> 24u32) & 0xFF) as u8,
{
    ((hcs_params1 & 0xFF) as u8, ((hcs_params1 >> 24) & 0xFF) as u8)
}

/// USBCMD with Run/Stop cleared.
pub fn usbcmd_stop(cmd: u32) -> (c: u32)
    ensures
        c == cmd & !1u32,
{
    cmd & !0x0001
}

/// USBCMD with Run/Stop set.
pub fn usbcmd_run(cmd: u32) -> (c: u32)
    ensures
        c == cmd | 1,
{
    cmd | 0x0001
}

/// USBCMD value that starts a host controller reset.
pub const USBCMD_RESET: u32 = 0x0002;

/// USBSTS reports the controller halted (HCH).
pub fn halted(sts: u32) -> (b: bool)
    ensures
        b == (sts & 1 != 0),
{
    (sts & 0x0001) != 0
}

/// USBCMD still shows the reset in progress (HCRST).
pub fn reset_pending(cmd: u32) -> (b: bool)
    ensures
        b == (cmd & 2 != 0),
{
    (cmd & 0x0002) != 0
}

/// USBSTS reports the controller not ready (CNR).
pub fn controller_not_ready(sts: u32) -> (b: bool)
    ensures
        b == (sts & 0x800 != 0),
{
    (sts & 0x0800) != 0
}

/// CONFIG with MaxSlotsEn (bits 0-7) set to `max_slots`, the rest kept.
pub fn config_with_slots(conf: u32, max_slots: u8) -> (c: u32)
    ensures
        c == (conf & !0xFFu32) | (max_slots as u32),
{
    (conf & !0xFF) | (max_slots as u32)
}

/// ERSTSZ with a one-segment table, the reserved upper half kept.
pub fn erst_size_one(erstsz: u32) -> (v: u32)
    ensures
        v == (erstsz & !0xFFFFu32) | 1,
{
    (erstsz & !0xFFFF) | 1
}

/// Start of the runtime registers: RTSOFF (32-byte aligned) past the register base.
pub fn runtime_base(mmio_virt: u64, rtsoff: u32) -> (b: u64)
    requires
        mmio_virt + (rtsoff & !0x1Fu32) <= u64::MAX,
    ensures
        b == mmio_virt + (rtsoff & !0x1Fu32),
{
    mmio_virt + (rtsoff & !0x1F) as u64
}

/// A memory block address is not 4 KiB aligned.
pub fn misaligned(addr: u64) -> (b: bool)
    ensures
        b == (addr & 0xFFF != 0),
{
    (addr & 0xFFF) != 0
}

/// The four dwords of an Enable Slot command TRB with the cycle bit set.
pub fn enable_slot_trb() -> (t: [u32; 4])
    ensures
        t@ == seq![0u32, 0u32, 0u32, (TRB_ENABLE_SLOT << 10u32) | 1u32],
{
    let t = [0, 0, 0, (TRB_ENABLE_SLOT << 10) | 1];
    proof {
        assert(t@ =~= seq![0u32, 0u32, 0u32, (TRB_ENABLE_SLOT << 10u32) | 1u32]);
    }
    t
}

/// The four dwords of an Address Device command TRB for `slot_id`, pointing at the
/// input context at `input_context`, with BSR clear and the cycle bit set.
pub fn address_device_trb(input_context: u64, slot_id: u32) -> (t: [u32; 4])
    ensures
        t@ == seq![
            input_context as u32,
            (input_context >> 32u64) as u32,
            0u32,
            (slot_id << 24u32) | (TRB_ADDRESS_DEVICE << 10u32) | (0u32 << 9u32) | 1u32,
        ],
{
    let bsr: u32 = 0;
    let cycle: u32 = 1;
    let t = [
        input_context as u32,
        (input_context >> 32) as u32,
        0,
        (slot_id << 24) | (TRB_ADDRESS_DEVICE << 10) | (bsr << 9) | cycle,
    ];
    proof {
        assert(t@ =~= seq![
            input_context as u32,
            (input_context >> 32u64) as u32,
            0u32,
            (slot_id << 24u32) | (TRB_ADDRESS_DEVICE << 10u32) | (0u32 << 9u32) | 1u32,
        ]);
    }
    t
}

/// What an event TRB reports, once its cycle bit is set.
pub struct CommandEvent {
    pub completion_code: u32,
    pub slot_id: u32,
    pub trb_type: u32,
}

/// Reads an event TRB from its third and fourth dwords: `None` while the cycle
/// bit (bit 0 of the fourth dword) is clear, else the completion code (bits
/// 24-31 of the third), slot ID (bits 24-31 of the fourth) and TRB type (bits
/// 10-15 of the fourth).
pub fn parse_event(dw2: u32, dw3: u32) -> (e: Option<CommandEvent>)
    ensures
        match e {
            None => dw3 & 1 == 0,
            Some(ev) => {
                &&& dw3 & 1 != 0
                &&& ev.completion_code == (dw2 >> 24u32) & 0xFF
                &&& ev.slot_id == (dw3 >> 24u32) & 0xFF
                &&& ev.trb_type == (dw3 >> 10u32) & 0x3F
            },
        },
{
    if (dw3 & 0x01) != 0 {
        Some(
            CommandEvent {
                completion_code: (dw2 >> 24) & 0xFF,
                slot_id: (dw3 >> 24) & 0xFF,
                trb_type: (dw3 >> 10) & 0x3F,
            },
        )
    } else {
        None
    }
}

/// Completion code of a Context State Error.
pub const COMPLETION_CONTEXT_STATE_ERROR: u32 = 17;

/// Completion code of a Parameter Error.
pub const COMPLETION_PARAMETER_ERROR: u32 = 19;

/// What the controller answered to Enable Slot.
pub enum SlotOutcome {
    /// A device slot was enabled.
    Enabled { slot_id: u32 },
    /// The command failed with this completion code.
    Failed { completion_code: u32 },
}

/// The answer to Enable Slot: success carries the slot ID, anything else the
/// completion code.
pub fn enable_slot_outcome(event: &CommandEvent) -> (o: SlotOutcome)
    ensures
        o == if event.completion_code == COMPLETION_SUCCESS {
            SlotOutcome::Enabled { slot_id: event.slot_id }
        } else {
            SlotOutcome::Failed { completion_code: event.completion_code }
        },
{
    if event.completion_code == COMPLETION_SUCCESS {
        SlotOutcome::Enabled { slot_id: event.slot_id }
    } else {
        SlotOutcome::Failed { completion_code: event.completion_code }
    }
}

/// What to check after a failed Address Device.
pub enum FailureHint {
    /// Context State Error: the context state or the number of context entries.
    ContextState,
    /// Parameter Error: the alignment of the structures or the BSR flag.
    Parameter,
}

/// What the controller answered to Address Device.
pub enum AddressOutcome {
    /// The event is not a Command Completion event; nothing is reported.
    NotCompletion,
    /// The device was addressed.
    Addressed,
    /// The command failed with this completion code.
    Failed { completion_code: u32, hint: Option<FailureHint> },
}

/// The answer to Address Device: only a Command Completion event counts; its
/// completion code tells success, and two failure codes come with a hint.
pub fn address_device_outcome(event: &CommandEvent) -> (o: AddressOutcome)
    ensures
        o == if event.trb_type != TRB_COMMAND_COMPLETION {
            AddressOutcome::NotCompletion
        } else if event.completion_code == COMPLETION_SUCCESS {
            AddressOutcome::Addressed
        } else {
            AddressOutcome::Failed {
                completion_code: event.completion_code,
                hint: if event.completion_code == COMPLETION_CONTEXT_STATE_ERROR {
                    Some(FailureHint::ContextState)
                } else if event.completion_code == COMPLETION_PARAMETER_ERROR {
                    Some(FailureHint::Parameter)
                } else {
                    None
                },
            }
        },
{
    if event.trb_type != TRB_COMMAND_COMPLETION {
        AddressOutcome::NotCompletion
    } else if event.completion_code == COMPLETION_SUCCESS {
        AddressOutcome::Addressed
    } else {
        let hint = if event.completion_code == COMPLETION_CONTEXT_STATE_ERROR {
            Some(FailureHint::ContextState)
        } else if event.completion_code == COMPLETION_PARAMETER_ERROR {
            Some(FailureHint::Parameter)
        } else {
            None
        };
        AddressOutcome::Failed { completion_code: event.completion_code, hint }
    }
}

/// The first dwords of the slot context and of the endpoint 0 context in an input
/// context: one context entry, SuperSpeed (3), root hub port `port`; control
/// endpoint (type 4) with a 64-byte maximum packet.
pub fn slot_context_words(port: u32) -> (w: (u32, u32, u32))
    ensures
        w.0 == (1u32 << 27u32) | (3u32 << 20u32),
        w.1 == port << 16u32,
        w.2 == (4u32 << 3u32) | (64u32 << 16u32),
{
    ((1u32 << 27) | (3u32 << 20), port << 16, (4u32 << 3) | (64u32 << 16))
}

/// TR Dequeue Pointer dwords of an endpoint context for the transfer ring at
/// `ring`, with the dequeue cycle state set.
pub fn dequeue_pointer_words(ring: u64) -> (w: (u32, u32))
    ensures
        w.0 == (ring as u32) | 1,
        w.1 == (ring >> 32u64) as u32,
{
    ((ring as u32) | 1, (ring >> 32) as u32)
}

/// Offset of the PORTSC register of root hub port `port` (1-based) from the
/// operational registers.
pub fn portsc_offset(port: u64) -> (o: u64)
    requires
        1 <= port <= 256,
    ensures
        o == 0x400 + (port - 1) * 0x10,
{
    0x400 + (port - 1) * 0x10
}

/// How PORTSC describes the attached device: not connected (CCS clear), or its
/// port speed ID (bits 10-13).
pub open spec fn speed_name_spec(portsc: u32) -> Seq<char> {
    if portsc & 1 == 0 {
        "Not Connected"@
    } else {
        let id = (portsc >> 10u32) & 0x0F;
        if id == 1 {
            "Full-Speed"@
        } else if id == 2 {
            "Low-Speed"@
        } else if id == 3 {
            "High-Speed"@
        } else if id == 4 {
            "SuperSpeed"@
        } else {
            "?? (Unknown Speed)"@
        }
    }
}

pub fn port_speed_name(portsc: u32) -> (s: &'static str)
    ensures
        s@ == speed_name_spec(portsc),
{
    let is_connected = (portsc & 0x01) != 0;
    let speed_id = (portsc >> 10) & 0x0F;
    if !is_connected {
        "Not Connected"
    } else if speed_id == 1 {
        "Full-Speed"
    } else if speed_id == 2 {
        "Low-Speed"
    } else if speed_id == 3 {
        "High-Speed"
    } else if speed_id == 4 {
        "SuperSpeed"
    } else {
        "?? (Unknown Speed)"
    }
}

/// Where dword `i` of the input-context dump is shown: eight per row, 80 pixels
/// apart, rows 20 pixels apart, starting at (20, 100).
pub fn dump_position(i: usize) -> (p: (usize, usize))
    requires
        (i / 8) * 20 + 100 <= usize::MAX,
    ensures
        p.0 == (i % 8) * 80 + 20,
        p.1 == (i / 8) * 20 + 100,
{
    ((i % 8) * 80 + 20, (i / 8) * 20 + 100)
}

/// After an unassigned BAR is given a 16-byte aligned `target` (below 4 GiB for a
/// 32-bit BAR) and the device latches the written values, the register base read
/// back from the BARs is `target`.
pub proof fn lemma_assigned_bar_reads_back(bar0: u32, target: u64)
    requires
        target & 0xF == 0,
        bar0 & 0x4 == 0 ==> target < 0x1_0000_0000,
    ensures
        ({
            let low = (target as u32) | (bar0 & 0xF);
            let high = (target >> 32u64) as u32;
            &&& low & 0x4 == bar0 & 0x4
            &&& bar0 & 0x4 != 0 ==> ((high as u64) << 32u64) | ((low & !0xFu32) as u64) == target
            &&& bar0 & 0x4 == 0 ==> (low & !0xFu32) as u64 == target
        }),
{
    assert({
        let low = (target as u32) | (bar0 & 0xF);
        let high = (target >> 32u64) as u32;
        &&& low & 0x4 == bar0 & 0x4
        &&& ((high as u64) << 32u64) | ((low & !0xFu32) as u64) == target
    }) by (bit_vector)
        requires
            target & 0xF == 0,
    ;
    if bar0 & 0x4 == 0 {
        assert(((target as u32) | (bar0 & 0xF)) & !0xFu32 == target as u32 && (target as u32) as u64 == target) by (bit_vector)
            requires
                target & 0xF == 0,
                target < 0x1_0000_0000,
        ;
    }
}

/// A command TRB is handed to the controller with its cycle bit set, and an event
/// is only read once the controller has set its cycle bit.
pub proof fn lemma_commands_carry_cycle_bit(input_context: u64, slot_id: u32)
    ensures
        ((TRB_ENABLE_SLOT << 10u32) | 1u32) & 1 == 1,
        ((slot_id << 24u32) | (TRB_ADDRESS_DEVICE << 10u32) | (0u32 << 9u32) | 1u32) & 1 == 1,
        ((TRB_ENABLE_SLOT << 10u32) | 1u32) >> 10u32 & 0x3F == TRB_ENABLE_SLOT,
        ((slot_id << 24u32) | (TRB_ADDRESS_DEVICE << 10u32) | (0u32 << 9u32) | 1u32) >> 10u32 & 0x3F
            == TRB_ADDRESS_DEVICE,
{
    assert(((9u32 << 10u32) | 1u32) & 1 == 1 && ((9u32 << 10u32) | 1u32) >> 10u32 & 0x3F == 9) by (bit_vector);
    assert(((slot_id << 24u32) | (11u32 << 10u32) | (0u32 << 9u32) | 1u32) & 1 == 1 && ((slot_id << 24u32)
        | (11u32 << 10u32) | (0u32 << 9u32) | 1u32) >> 10u32 & 0x3F == 11) by (bit_vector);
}

} // verus!
