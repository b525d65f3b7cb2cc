//! The debug console on the first serial port.
use vstd::prelude::*;
use crate::arch::x86_64::stub::PortBasedUART;

verus! {

/// The I/O port of the first serial port.
pub const DEBUG_UART_PORT: u16 = 0x3F8;

/// The port writes that print `msg` on the debug serial port.
pub fn print_str(msg: &[u8]) -> (w: Vec<(u16, u8)>)
    ensures
        w@.len() == msg@.len(),
        forall|i: int| 0 <= i < msg@.len() ==> #[trigger] w@[i] == (DEBUG_UART_PORT, msg@[i]),
{
    let uart = PortBasedUART::new(DEBUG_UART_PORT);
    uart.puts(msg)
}

} // verus!
