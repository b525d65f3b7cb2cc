//! Text consoles drawn on the frame buffer: where each character goes.
use vstd::prelude::*;

verus! {

/// The cursor (row, column) after writing `c`, and the character drawn, if
/// any, with its position: a newline moves to the next row (wrapping to the
/// top), a backspace erases the character before the cursor, anything else
/// is drawn and the cursor advances, wrapping at the end of the row.
pub open spec fn console_step(cur: (u32, u32), c: u8, rows: u32, cols: u32) -> ((u32, u32), Option<(u8, u32, u32)>) {
    if c == 0x0a {
        ((((cur.0 + 1) % rows as int) as u32, 0u32), None)
    } else if c == 0x08 {
        if cur.1 > 0 {
            ((cur.0, (cur.1 - 1) as u32), Some((0x20u8, cur.0, (cur.1 - 1) as u32)))
        } else {
            (cur, None)
        }
    } else {
        let next = if cur.1 + 1 == cols {
            (((cur.0 + 1) % rows as int) as u32, 0u32)
        } else {
            (cur.0, (cur.1 + 1) as u32)
        };
        (next, Some((c, cur.0, cur.1)))
    }
}

/// Writing `msg` from cursor `cur`: the final cursor and the characters
/// drawn, in order.
pub open spec fn console_write(cur: (u32, u32), msg: Seq<u8>, rows: u32, cols: u32) -> ((u32, u32), Seq<(u8, u32, u32)>)
    decreases msg.len(),
{
    if msg.len() == 0 {
        (cur, Seq::empty())
    } else {
        let prev = console_write(cur, msg.drop_last(), rows, cols);
        let (next, drawn) = console_step(prev.0, msg.last(), rows, cols);
        (next, match drawn {
            Some(d) => prev.1.push(d),
            None => prev.1,
        })
    }
}

/// A cursor inside the screen.
pub open spec fn cursor_ok(cur: (u32, u32), rows: u32, cols: u32) -> bool {
    cur.0 < rows && cur.1 < cols
}

/// Writes `msg` on a screen of `rows` by `cols` characters from `cursor`:
/// the new cursor and the characters to draw at their positions.
pub fn print_str_vga(cursor: (u32, u32), msg: &[u8], rows: u32, cols: u32) -> (r: ((u32, u32), Vec<(u8, u32, u32)>))
    requires
        rows > 0,
        cols > 0,
        cursor_ok(cursor, rows, cols),
    ensures
        r.0 == console_write(cursor, msg@, rows, cols).0,
        r.1@ == console_write(cursor, msg@, rows, cols).1,
        cursor_ok(r.0, rows, cols),
{
    let mut cur = cursor;
    let mut draws: Vec<(u8, u32, u32)> = Vec::new();
    let mut i: usize = 0;
    while i < msg.len()
        invariant
            i <= msg@.len(),
            rows > 0 && cols > 0,
            cursor_ok(cur, rows, cols),
            (cur, draws@) == console_write(cursor, msg@.subrange(0, i as int), rows, cols),
        decreases msg@.len() - i,
    {
        let c = msg[i];
        proof {
            let s = msg@.subrange(0, i + 1);
            assert(s.drop_last() =~= msg@.subrange(0, i as int));
            assert(s.last() == c);
        }
        if c == 0x0a {
            cur = ((cur.0 + 1) % rows, 0);
        } else if c == 0x08 {
            if cur.1 > 0 {
                cur = (cur.0, cur.1 - 1);
                draws.push((0x20, cur.0, cur.1));
            }
        } else {
            draws.push((c, cur.0, cur.1));
            if cur.1 + 1 == cols {
                cur = ((cur.0 + 1) % rows, 0);
            } else {
                cur = (cur.0, cur.1 + 1);
            }
        }
        i = i + 1;
    }
    assert(msg@.subrange(0, msg@.len() as int) =~= msg@);
    (cur, draws)
}

} // verus!
