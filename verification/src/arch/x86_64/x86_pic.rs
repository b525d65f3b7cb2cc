//! The legacy 8259 interrupt controllers (a master and a slave on IRQ2):
//! the port writes that program and mask them.
use vstd::prelude::*;

verus! {

pub const PIC1_PORT_CMD: u16 = 0x20;
pub const PIC1_PORT_DAT: u16 = 0x21;
pub const PIC2_PORT_CMD: u16 = 0xA0;
pub const PIC2_PORT_DAT: u16 = 0xA1;
pub const PIC_CMD_EOI: u8 = 0x20;
pub const PIC_CMD_INIT: u8 = 0x11;

/// The writes that initialise both controllers with their vectors at
/// `idt_vector_offset` and `idt_vector_offset + 8`, cascaded, in 8086 mode,
/// restoring the masks read before (`mask1`, `mask2`).
pub fn init(idt_vector_offset: u8, mask1: u8, mask2: u8) -> (w: Vec<(u16, u8)>)
    requires
        idt_vector_offset + 8 <= u8::MAX,
    ensures
        w@ == seq![
            (PIC1_PORT_CMD, PIC_CMD_INIT),
            (PIC2_PORT_CMD, PIC_CMD_INIT),
            (PIC1_PORT_DAT, idt_vector_offset),
            (PIC2_PORT_DAT, (idt_vector_offset + 8) as u8),
            (PIC1_PORT_DAT, 4u8),
            (PIC2_PORT_DAT, 2u8),
            (PIC1_PORT_DAT, 1u8),
            (PIC2_PORT_DAT, 1u8),
            (PIC1_PORT_DAT, mask1),
            (PIC2_PORT_DAT, mask2),
        ],
{
    let mut w: Vec<(u16, u8)> = Vec::new();
    w.push((PIC1_PORT_CMD, PIC_CMD_INIT));
    w.push((PIC2_PORT_CMD, PIC_CMD_INIT));
    w.push((PIC1_PORT_DAT, idt_vector_offset));
    w.push((PIC2_PORT_DAT, idt_vector_offset + 8));
    w.push((PIC1_PORT_DAT, 4));
    w.push((PIC2_PORT_DAT, 2));
    w.push((PIC1_PORT_DAT, 1));
    w.push((PIC2_PORT_DAT, 1));
    w.push((PIC1_PORT_DAT, mask1));
    w.push((PIC2_PORT_DAT, mask2));
    assert(w@ =~= seq![
        (PIC1_PORT_CMD, PIC_CMD_INIT),
        (PIC2_PORT_CMD, PIC_CMD_INIT),
        (PIC1_PORT_DAT, idt_vector_offset),
        (PIC2_PORT_DAT, (idt_vector_offset + 8) as u8),
        (PIC1_PORT_DAT, 4u8),
        (PIC2_PORT_DAT, 2u8),
        (PIC1_PORT_DAT, 1u8),
        (PIC2_PORT_DAT, 1u8),
        (PIC1_PORT_DAT, mask1),
        (PIC2_PORT_DAT, mask2),
    ]);
    w
}

/// End of interrupt: the slave too for IRQs 8 and above.
pub fn send_eoi(irq: u8) -> (w: Vec<(u16, u8)>)
    ensures
        irq >= 8 ==> w@ == seq![(PIC2_PORT_CMD, PIC_CMD_EOI), (PIC1_PORT_CMD, PIC_CMD_EOI)],
        irq < 8 ==> w@ == seq![(PIC1_PORT_CMD, PIC_CMD_EOI)],
{
    let mut w: Vec<(u16, u8)> = Vec::new();
    if irq >= 8 {
        w.push((PIC2_PORT_CMD, PIC_CMD_EOI));
    }
    w.push((PIC1_PORT_CMD, PIC_CMD_EOI));
    proof {
        if irq >= 8 {
            assert(w@ =~= seq![(PIC2_PORT_CMD, PIC_CMD_EOI), (PIC1_PORT_CMD, PIC_CMD_EOI)]);
        } else {
            assert(w@ =~= seq![(PIC1_PORT_CMD, PIC_CMD_EOI)]);
        }
    }
    w
}

/// The data port holding the mask bit of `irq`.
pub open spec fn mask_port(irq: u8) -> u16 {
    if irq < 8 {
        PIC1_PORT_DAT
    } else {
        PIC2_PORT_DAT
    }
}

/// The mask bit of `irq` in its controller's mask.
pub open spec fn mask_bit(irq: u8) -> u8 {
    if irq < 8 {
        (1u8 << irq) as u8
    } else {
        (1u8 << (irq - 8) as u8) as u8
    }
}

/// Masks `irq` (< 16): the port and the new mask, given the mask `current`
/// read from that port.
pub fn mask_irq(irq: u8, current: u8) -> (w: (u16, u8))
    requires
        irq < 16,
    ensures
        w == (mask_port(irq), current | mask_bit(irq)),
{
    if irq < 8 {
        (PIC1_PORT_DAT, current | (1u8 << irq))
    } else {
        (PIC2_PORT_DAT, current | (1u8 << (irq - 8)))
    }
}

/// Unmasks `irq` (< 16), given the mask `current` read from its port.
pub fn unmask_irq(irq: u8, current: u8) -> (w: (u16, u8))
    requires
        irq < 16,
    ensures
        w == (mask_port(irq), current & !mask_bit(irq)),
{
    if irq < 8 {
        (PIC1_PORT_DAT, current & !(1u8 << irq))
    } else {
        (PIC2_PORT_DAT, current & !(1u8 << (irq - 8)))
    }
}

/// Masks every IRQ of both controllers.
pub fn mask_all() -> (w: Vec<(u16, u8)>)
    ensures
        w@ == seq![(PIC1_PORT_DAT, 0xFFu8), (PIC2_PORT_DAT, 0xFFu8)],
{
    let mut w: Vec<(u16, u8)> = Vec::new();
    w.push((PIC1_PORT_DAT, 0xFF));
    w.push((PIC2_PORT_DAT, 0xFF));
    assert(w@ =~= seq![(PIC1_PORT_DAT, 0xFFu8), (PIC2_PORT_DAT, 0xFFu8)]);
    w
}

} // verus!
