//! The BCM2837 GPIO, mini UART and PL011 UART: the register writes that
//! set them up and send characters.
use vstd::prelude::*;

verus! {

pub const BCM_PERIPHERAL_BASE: usize = 0x3F000000;
pub const GPFSEL1: usize = 0x3F200004;
pub const GPPUD: usize = 0x3F200094;
pub const GPPUDCLK0: usize = 0x3F200098;
pub const UART0_DR: usize = 0x3F201000;
pub const UART0_FR: usize = 0x3F201018;
pub const UART0_IBRD: usize = 0x3F201024;
pub const UART0_FBRD: usize = 0x3F201028;
pub const UART0_LCRH: usize = 0x3F20102C;
pub const UART0_CR: usize = 0x3F201030;
pub const UART0_IMSC: usize = 0x3F201038;
pub const UART0_ICR: usize = 0x3F201044;
pub const AUX_ENABLES: usize = 0x3F215004;
pub const AUX_MU_IO: usize = 0x3F215040;
pub const AUX_MU_IER: usize = 0x3F215044;
pub const AUX_MU_IIR: usize = 0x3F215048;
pub const AUX_MU_LCR: usize = 0x3F21504C;
pub const AUX_MU_MCR: usize = 0x3F215050;
pub const AUX_MU_LSR: usize = 0x3F215054;
pub const AUX_MU_CNTL: usize = 0x3F215060;
pub const AUX_MU_BAUD: usize = 0x3F215068;

/// A step of a register programming sequence.
#[derive(Clone, Copy, Debug, PartialEq, Eq, Structural)]
pub enum MmioOp {
    Write { reg: usize, val: u32 },
    /// Let the given number of cycles pass
    Spin { cycles: u32 },
}

/// Mini UART at 115200 baud (250 MHz core clock), 8 bits, on GPIO 14/15
/// (alternate function 5, pulls disabled); `gpfsel1` is the function
/// select register as read.
pub open spec fn miniuart_init_ops(gpfsel1: u32) -> Seq<MmioOp> {
    seq![
        MmioOp::Write { reg: AUX_ENABLES, val: 1 },
        MmioOp::Write { reg: AUX_MU_IER, val: 0 },
        MmioOp::Write { reg: AUX_MU_CNTL, val: 0 },
        MmioOp::Write { reg: AUX_MU_LCR, val: 3 },
        MmioOp::Write { reg: AUX_MU_MCR, val: 0 },
        MmioOp::Write { reg: AUX_MU_IIR, val: 0xC6 },
        MmioOp::Write { reg: AUX_MU_BAUD, val: 270 },
        MmioOp::Write { reg: GPFSEL1, val: (gpfsel1 & !0x7000u32) | 0x2000u32 },
        MmioOp::Write { reg: GPPUD, val: 0 },
        MmioOp::Spin { cycles: 150 },
        MmioOp::Write { reg: GPPUDCLK0, val: 0xC000 },
        MmioOp::Spin { cycles: 150 },
        MmioOp::Write { reg: GPPUDCLK0, val: 0 },
        MmioOp::Write { reg: AUX_MU_CNTL, val: 2 },
    ]
}

pub fn miniuart_init(gpfsel1: u32) -> (ops: Vec<MmioOp>)
    ensures
        ops@ == miniuart_init_ops(gpfsel1),
{
    let mut ops: Vec<MmioOp> = Vec::new();
    ops.push(MmioOp::Write { reg: AUX_ENABLES, val: 1 });
    ops.push(MmioOp::Write { reg: AUX_MU_IER, val: 0 });
    ops.push(MmioOp::Write { reg: AUX_MU_CNTL, val: 0 });
    ops.push(MmioOp::Write { reg: AUX_MU_LCR, val: 3 });
    ops.push(MmioOp::Write { reg: AUX_MU_MCR, val: 0 });
    ops.push(MmioOp::Write { reg: AUX_MU_IIR, val: 0xC6 });
    ops.push(MmioOp::Write { reg: AUX_MU_BAUD, val: 270 });
    ops.push(MmioOp::Write { reg: GPFSEL1, val: (gpfsel1 & !0x7000u32) | 0x2000u32 });
    ops.push(MmioOp::Write { reg: GPPUD, val: 0 });
    ops.push(MmioOp::Spin { cycles: 150 });
    ops.push(MmioOp::Write { reg: GPPUDCLK0, val: 0xC000 });
    ops.push(MmioOp::Spin { cycles: 150 });
    ops.push(MmioOp::Write { reg: GPPUDCLK0, val: 0 });
    ops.push(MmioOp::Write { reg: AUX_MU_CNTL, val: 2 });
    assert(ops@ =~= miniuart_init_ops(gpfsel1));
    ops
}

/// Whether the mini UART takes a byte, from its line status.
pub fn miniuart_tx_ready(lsr: u32) -> (b: bool)
    ensures
        b == (lsr & 0x20 > 0),
{
    lsr & 0x20 > 0
}

/// The data register writes that print `msg` on the mini UART.
pub fn miniuart_print_str(msg: &[u8]) -> (w: Vec<(usize, u32)>)
    ensures
        w@.len() == msg@.len(),
        forall|i: int| 0 <= i < msg@.len() ==> #[trigger] w@[i] == (AUX_MU_IO, msg@[i] as u32),
{
    let mut w: Vec<(usize, u32)> = Vec::new();
    let mut i: usize = 0;
    while i < msg.len()
        invariant
            i <= msg@.len(),
            w@.len() == i,
            forall|k: int| 0 <= k < i ==> #[trigger] w@[k] == (AUX_MU_IO, msg@[k] as u32),
        decreases msg@.len() - i,
    {
        w.push((AUX_MU_IO, msg[i] as u32));
        i = i + 1;
    }
    w
}

/// PL011 UART0: disabled, GPIO 14/15 pulls disabled, interrupts cleared,
/// divider 1 + 40/64 (115200 baud from 3 MHz), FIFO on with 8-bit words,
/// all interrupts masked, then enabled for receiving and sending.
pub open spec fn pl011uart_init_ops() -> Seq<MmioOp> {
    seq![
        MmioOp::Write { reg: UART0_CR, val: 0 },
        MmioOp::Write { reg: GPPUD, val: 0 },
        MmioOp::Spin { cycles: 150 },
        MmioOp::Write { reg: GPPUDCLK0, val: 0xC000 },
        MmioOp::Spin { cycles: 150 },
        MmioOp::Write { reg: GPPUDCLK0, val: 0 },
        MmioOp::Write { reg: UART0_ICR, val: 0x7FF },
        MmioOp::Write { reg: UART0_IBRD, val: 1 },
        MmioOp::Write { reg: UART0_FBRD, val: 40 },
        MmioOp::Write { reg: UART0_LCRH, val: 0x70 },
        MmioOp::Write { reg: UART0_IMSC, val: 0x7F2 },
        MmioOp::Write { reg: UART0_CR, val: 0x301 },
    ]
}

pub fn pl011uart_init() -> (ops: Vec<MmioOp>)
    ensures
        ops@ == pl011uart_init_ops(),
{
    let mut ops: Vec<MmioOp> = Vec::new();
    ops.push(MmioOp::Write { reg: UART0_CR, val: 0 });
    ops.push(MmioOp::Write { reg: GPPUD, val: 0 });
    ops.push(MmioOp::Spin { cycles: 150 });
    ops.push(MmioOp::Write { reg: GPPUDCLK0, val: 0xC000 });
    ops.push(MmioOp::Spin { cycles: 150 });
    ops.push(MmioOp::Write { reg: GPPUDCLK0, val: 0 });
    ops.push(MmioOp::Write { reg: UART0_ICR, val: 0x7FF });
    ops.push(MmioOp::Write { reg: UART0_IBRD, val: 1 });
    ops.push(MmioOp::Write { reg: UART0_FBRD, val: 40 });
    ops.push(MmioOp::Write { reg: UART0_LCRH, val: 0x70 });
    ops.push(MmioOp::Write { reg: UART0_IMSC, val: 0x7F2 });
    ops.push(MmioOp::Write { reg: UART0_CR, val: 0x301 });
    assert(ops@ =~= pl011uart_init_ops());
    ops
}

/// A received byte, if the receive FIFO is not empty (from the flag and
/// data registers as read).
pub fn pl011uart_getc(fr: u32, dr: u32) -> (c: Option<u8>)
    ensures
        fr & 0x10 == 0 ==> c == Some(dr as u8),
        fr & 0x10 != 0 ==> c is None,
{
    if fr & 0x10 == 0 {
        Some(dr as u8)
    } else {
        None
    }
}

/// Whether the PL011 takes a byte: its transmit FIFO is not full.
pub fn pl011uart_tx_ready(fr: u32) -> (b: bool)
    ensures
        b == (fr & 0x20 == 0),
{
    fr & 0x20 == 0
}

/// The data register writes that print `msg` on the PL011.
pub fn pl011uart_print_str(msg: &[u8]) -> (w: Vec<(usize, u32)>)
    ensures
        w@.len() == msg@.len(),
        forall|i: int| 0 <= i < msg@.len() ==> #[trigger] w@[i] == (UART0_DR, msg@[i] as u32),
{
    let mut w: Vec<(usize, u32)> = Vec::new();
    let mut i: usize = 0;
    while i < msg.len()
        invariant
            i <= msg@.len(),
            w@.len() == i,
            forall|k: int| 0 <= k < i ==> #[trigger] w@[k] == (UART0_DR, msg@[k] as u32),
        decreases msg@.len() - i,
    {
        w.push((UART0_DR, msg[i] as u32));
        i = i + 1;
    }
    w
}

} // verus!
