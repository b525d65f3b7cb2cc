//! The boot console: the frame buffer when there is one, else UART0.
use vstd::prelude::*;
use crate::arch::aarch64::bcm_peripherals::{
    pl011uart_init, pl011uart_init_ops, pl011uart_print_str, MmioOp, UART0_DR,
};
use crate::arch::console::{console_write, cursor_ok, print_str_vga};

verus! {

/// Sets up UART0 and, with a frame buffer, moves the cursor home: the
/// register programming and the new cursor.
pub fn init(fb_enabled: bool, cursor: (u32, u32)) -> (r: (Vec<MmioOp>, (u32, u32)))
    ensures
        r.0@ == pl011uart_init_ops(),
        r.1 == if fb_enabled { (0u32, 0u32) } else { cursor },
{
    let ops = pl011uart_init();
    (ops, if fb_enabled { (0, 0) } else { cursor })
}

/// What printing `msg` does: characters drawn on the frame buffer (and the
/// new cursor), or bytes written to UART0.
pub enum ConsoleOutput {
    Screen { cursor: (u32, u32), draws: Vec<(u8, u32, u32)> },
    Serial { writes: Vec<(usize, u32)> },
}

pub fn print_str(fb_enabled: bool, cursor: (u32, u32), msg: &[u8], rows: u32, cols: u32) -> (o: ConsoleOutput)
    requires
        fb_enabled ==> rows > 0 && cols > 0 && cursor_ok(cursor, rows, cols),
    ensures
        fb_enabled ==> (o matches ConsoleOutput::Screen { cursor: c, draws } && c == console_write(
            cursor,
            msg@,
            rows,
            cols,
        ).0 && draws@ == console_write(cursor, msg@, rows, cols).1),
        !fb_enabled ==> (o matches ConsoleOutput::Serial { writes } && writes@.len() == msg@.len()
            && forall|i: int| 0 <= i < msg@.len() ==> #[trigger] writes@[i] == (UART0_DR, msg@[i] as u32)),
{
    if fb_enabled {
        let (c, d) = print_str_vga(cursor, msg, rows, cols);
        ConsoleOutput::Screen { cursor: c, draws: d }
    } else {
        ConsoleOutput::Serial { writes: pl011uart_print_str(msg) }
    }
}

} // verus!
