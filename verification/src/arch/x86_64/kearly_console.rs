//! The boot console drawn on the frame buffer.
use vstd::prelude::*;
use crate::arch::console::{console_write, cursor_ok, print_str_vga};

verus! {

/// The cursor after clearing the screen: the top left corner.
pub fn init() -> (cur: (u32, u32))
    ensures
        cur == (0u32, 0u32),
{
    (0, 0)
}

/// Writes `msg` on a screen of `rows` by `cols` characters from `cursor`:
/// the new cursor and the characters to draw at their positions.
pub fn print_str(cursor: (u32, u32), msg: &[u8], rows: u32, cols: u32) -> (r: ((u32, u32), Vec<(u8, u32, u32)>))
    requires
        rows > 0,
        cols > 0,
        cursor_ok(cursor, rows, cols),
    ensures
        r.0 == console_write(cursor, msg@, rows, cols).0,
        r.1@ == console_write(cursor, msg@, rows, cols).1,
        cursor_ok(r.0, rows, cols),
{
    print_str_vga(cursor, msg, rows, cols)
}

} // verus!
