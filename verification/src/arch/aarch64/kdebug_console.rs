//! The debug console on UART0.
use vstd::prelude::*;
use crate::arch::aarch64::bcm_peripherals::{
    pl011uart_init, pl011uart_init_ops, pl011uart_print_str, MmioOp, UART0_DR,
};

verus! {

pub fn init() -> (ops: Vec<MmioOp>)
    ensures
        ops@ == pl011uart_init_ops(),
{
    pl011uart_init()
}

pub fn print_str(msg: &[u8]) -> (w: Vec<(usize, u32)>)
    ensures
        w@.len() == msg@.len(),
        forall|i: int| 0 <= i < msg@.len() ==> #[trigger] w@[i] == (UART0_DR, msg@[i] as u32),
{
    pl011uart_print_str(msg)
}

} // verus!
