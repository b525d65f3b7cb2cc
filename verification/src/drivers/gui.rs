//! The GUI server: windows with graphical contexts shared with their
//! process, their properties, and the composition of the screen from the
//! windows and the mouse cursor.
use vstd::prelude::*;
use crate::{Error, ErrorCode, is_err_code};
use crate::util::{le32, le64, spec_le32, spec_le64};
use crate::drivers::DRV_GUI;
use crate::drivers::input::{Mouse, spec_relative_path};
use crate::fs::{
    DirectoryEntry, MountPoint, MountTable, mount_map, mount_names, bytes_eq, bytes_to_vec,
    DEV_R_DIR_FLAGS, DEV_RWX_FILE_FLAGS,
};

verus! {

/// A rectangle given as (left, top, right, bottom).
pub type Rect = (u32, u32, u32, u32);

/// True when the two rectangles (inclusive bounds) share at least one point.
pub open spec fn spec_rect_overlap(r1: Rect, r2: Rect) -> bool {
    !(r1.2 < r2.0 || r1.0 > r2.2 || r1.3 < r2.1 || r1.1 > r2.3)
}

/// The point (`x`, `y`) lies in the rectangle, bounds included.
pub open spec fn in_rect(r: Rect, x: int, y: int) -> bool {
    r.0 <= x <= r.2 && r.1 <= y <= r.3
}

/// Two rectangles (left <= right, top <= bottom) overlap exactly when some
/// point lies in both; so overlapping does not depend on their order.
pub proof fn lemma_rect_overlap_shares_a_point(r1: Rect, r2: Rect)
    requires
        r1.0 <= r1.2 && r1.1 <= r1.3,
        r2.0 <= r2.2 && r2.1 <= r2.3,
    ensures
        spec_rect_overlap(r1, r2) <==> exists|x: int, y: int| in_rect(r1, x, y) && in_rect(r2, x, y),
        spec_rect_overlap(r1, r2) == spec_rect_overlap(r2, r1),
{
    if spec_rect_overlap(r1, r2) {
        let x: int = if r1.0 >= r2.0 { r1.0 as int } else { r2.0 as int };
        let y: int = if r1.1 >= r2.1 { r1.1 as int } else { r2.1 as int };
        assert(in_rect(r1, x, y) && in_rect(r2, x, y));
    }
    if exists|x: int, y: int| in_rect(r1, x, y) && in_rect(r2, x, y) {
        let (x, y) = choose|x: int, y: int| in_rect(r1, x, y) && in_rect(r2, x, y);
        assert(in_rect(r1, x, y) && in_rect(r2, x, y));
    }
}

/// Checks if the two rectangles overlap.
pub fn rect_overlap(r1: Rect, r2: Rect) -> (res: bool)
    ensures
        res == spec_rect_overlap(r1, r2),
{
    if r1.2 < r2.0 || r1.0 > r2.2 || r1.3 < r2.1 || r1.1 > r2.3 {
        return false;
    }
    true
}

/// Set while a window is not to be rendered.
pub const WIN_FLG_HIDDEN: u64 = 0x2;
/// Bytes of a physical frame.
pub const PHY_FRAME_SIZE: u32 = 4096;

/// The frames a window's graphical context takes: four bytes (RGBA) per
/// pixel of the screen.
pub open spec fn spec_context_frames(scr_height: u32, scr_width: u32) -> int {
    (scr_height * scr_width * 4 + 4095) / 4096
}

/// The memory of a window's graphical context: where its frames are and
/// where the kernel and the process see them.
#[derive(Clone, Copy, Debug)]
pub struct WindowContext {
    pub phys_base: usize,
    pub kmap_base: usize,
    pub dmap_base: usize,
}

/// A window of a process.
#[derive(Clone, Copy, Debug)]
pub struct Window {
    pub hnd: usize,
    /// Physical base of the graphical context (the window's own frame buffer)
    pub phys_base: usize,
    /// Frames of the graphical context
    pub num_frames: u32,
    /// Where the process sees the graphical context
    pub dmap_base: usize,
    /// Where the kernel sees the graphical context
    pub kmap_base: usize,
    pub flags: u64,
    pub left: u32,
    pub top: u32,
    pub width: u32,
    pub height: u32,
    /// The window, or one over it, changed: it is to be drawn again
    pub redraw: bool,
}

impl Window {
    /// A hidden window with no graphical context yet.
    pub fn new(hnd: usize) -> (w: Self)
        ensures
            w.hnd == hnd,
            w.phys_base == 0 && w.num_frames == 0 && w.dmap_base == 0 && w.kmap_base == 0,
            w.flags == WIN_FLG_HIDDEN,
            w.left == 0 && w.top == 0 && w.width == 0 && w.height == 0,
            w.redraw,
    {
        Window {
            hnd,
            phys_base: 0,
            num_frames: 0,
            dmap_base: 0,
            kmap_base: 0,
            flags: WIN_FLG_HIDDEN,
            left: 0,
            top: 0,
            width: 0,
            height: 0,
            redraw: true,
        }
    }

    /// The frames a graphical context takes on a screen of the given size.
    pub fn context_frames(scr_height: u32, scr_width: u32) -> (n: u32)
        requires
            scr_height * scr_width * 4 + 4095 <= u32::MAX,
        ensures
            n == spec_context_frames(scr_height, scr_width),
    {
        assert(scr_height * scr_width <= u32::MAX) by (nonlinear_arith)
            requires
                scr_height * scr_width * 4 + 4095 <= u32::MAX,
        ;
        (scr_height * scr_width * 4 + (PHY_FRAME_SIZE - 1)) / PHY_FRAME_SIZE
    }

    /// The addresses of the `num_frames` contiguous frames from `phys_base`.
    pub fn frame_addresses(phys_base: usize, num_frames: u32) -> (v: Vec<usize>)
        requires
            phys_base + num_frames * 4096 <= usize::MAX,
        ensures
            v@.len() == num_frames,
            forall|i: int| 0 <= i < num_frames ==> #[trigger] v@[i] == phys_base + i * 4096,
    {
        let mut v: Vec<usize> = Vec::new();
        let mut i: u32 = 0;
        while i < num_frames
            invariant
                i <= num_frames,
                phys_base + num_frames * 4096 <= usize::MAX,
                v@.len() == i,
                forall|k: int| 0 <= k < i ==> #[trigger] v@[k] == phys_base + k * 4096,
            decreases num_frames - i,
        {
            v.push(phys_base + (i as usize) * 4096);
            i = i + 1;
        }
        v
    }

    /// Gives the window its graphical context on a screen of the given
    /// size: the frames allocated for it (`ctx`, or the allocation's error)
    /// and their two mappings.
    pub fn init(&mut self, scr_height: u32, scr_width: u32, ctx: Result<WindowContext, Error>) -> (r: Result<(), Error>)
        requires
            scr_height * scr_width * 4 + 4095 <= u32::MAX,
        ensures
            match ctx {
                Ok(c) => {
                    &&& r is Ok
                    &&& final(self).phys_base == c.phys_base
                    &&& final(self).kmap_base == c.kmap_base
                    &&& final(self).dmap_base == c.dmap_base
                    &&& final(self).num_frames == spec_context_frames(scr_height, scr_width)
                },
                Err(e) => r == Err::<(), Error>(e) && *final(self) == *old(self),
            },
            final(self).hnd == old(self).hnd && final(self).flags == old(self).flags,
            final(self).left == old(self).left && final(self).top == old(self).top,
            final(self).width == old(self).width && final(self).height == old(self).height,
            final(self).redraw == old(self).redraw,
    {
        let num_frames = Window::context_frames(scr_height, scr_width);
        match ctx {
            Ok(c) => {
                self.phys_base = c.phys_base;
                self.num_frames = num_frames;
                self.kmap_base = c.kmap_base;
                self.dmap_base = c.dmap_base;
                Ok(())
            },
            Err(e) => Err(e),
        }
    }

    /// What goes away with the window: its kernel mapping, frames and frame
    /// count, when it has a graphical context.
    pub fn release(&self) -> (r: Option<(usize, usize, u32)>)
        ensures
            r == if self.num_frames == 0 {
                None::<(usize, usize, u32)>
            } else {
                Some((self.kmap_base, self.phys_base, self.num_frames))
            },
    {
        if self.num_frames == 0 {
            None
        } else {
            Some((self.kmap_base, self.phys_base, self.num_frames))
        }
    }

    /// The window's rectangle: (left, top, right, bottom).
    pub open spec fn spec_rect(&self) -> Rect {
        (self.left, self.top, (self.left + self.width) as u32, (self.top + self.height) as u32)
    }

    /// Its right and bottom edges fit in 32 bits.
    pub open spec fn rect_fits(&self) -> bool {
        self.left + self.width <= u32::MAX && self.top + self.height <= u32::MAX
    }
}

/// The properties of a window as user space reads and writes them.
#[derive(Clone, Copy, Debug, PartialEq, Eq, Structural)]
pub struct WindowProperties {
    pub flags: u64,
    pub left: u32,
    pub top: u32,
    pub width: u32,
    pub height: u32,
}

/// Bytes of `WindowProperties` in memory: flags, left, top, width and
/// height, packed and little-endian.
pub const WINDOW_PROPERTIES_SIZE: usize = 24;

pub open spec fn spec_props_from_bytes(b: Seq<u8>) -> WindowProperties {
    WindowProperties {
        flags: spec_le64(b, 0) as u64,
        left: spec_le32(b, 8) as u32,
        top: spec_le32(b, 12) as u32,
        width: spec_le32(b, 16) as u32,
        height: spec_le32(b, 20) as u32,
    }
}

/// The little-endian bytes of a 32-bit value.
pub open spec fn le32_bytes(v: u32) -> Seq<u8> {
    seq![(v % 0x100) as u8, ((v / 0x100) % 0x100) as u8, ((v / 0x10000) % 0x100) as u8, (v / 0x1000000) as u8]
}

/// The little-endian bytes of a 64-bit value.
pub open spec fn le64_bytes(v: u64) -> Seq<u8> {
    le32_bytes((v % 0x1_0000_0000) as u32) + le32_bytes((v / 0x1_0000_0000) as u32)
}

pub open spec fn spec_props_bytes(p: WindowProperties) -> Seq<u8> {
    le64_bytes(p.flags) + le32_bytes(p.left) + le32_bytes(p.top) + le32_bytes(p.width) + le32_bytes(p.height)
}

/// Copies `src` over the whole of `dst`.
fn copy_all(dst: &mut [u8], src: &Vec<u8>)
    requires
        old(dst)@.len() == src@.len(),
    ensures
        final(dst)@ == src@,
{
    let mut k: usize = 0;
    let n = src.len();
    while k < n
        invariant
            k <= n,
            n == src@.len(),
            dst@.len() == n,
            forall|j: int| 0 <= j < k ==> dst@[j] == src@[j],
        decreases n - k,
    {
        dst[k] = src[k];
        k = k + 1;
    }
    assert(dst@ =~= src@);
}

fn push_le32(out: &mut Vec<u8>, v: u32)
    ensures
        final(out)@ == old(out)@ + le32_bytes(v),
{
    out.push((v % 0x100) as u8);
    out.push(((v / 0x100) % 0x100) as u8);
    out.push(((v / 0x10000) % 0x100) as u8);
    out.push((v / 0x1000000) as u8);
    assert(final(out)@ =~= old(out)@ + le32_bytes(v));
}

impl WindowProperties {
    /// Reads the properties from their 24 bytes; `None` for another length.
    pub fn from_bytes(b: &[u8]) -> (r: Option<Self>)
        ensures
            r == if b@.len() == WINDOW_PROPERTIES_SIZE {
                Some(spec_props_from_bytes(b@))
            } else {
                None::<WindowProperties>
            },
    {
        if b.len() != WINDOW_PROPERTIES_SIZE {
            return None;
        }
        Some(
            WindowProperties {
                flags: le64(b, 0),
                left: le32(b, 8),
                top: le32(b, 12),
                width: le32(b, 16),
                height: le32(b, 20),
            },
        )
    }

    /// The 24 bytes of the properties.
    pub fn to_bytes(&self) -> (v: Vec<u8>)
        ensures
            v@ == spec_props_bytes(*self),
    {
        let mut v: Vec<u8> = Vec::new();
        push_le32(&mut v, (self.flags % 0x1_0000_0000) as u32);
        push_le32(&mut v, (self.flags / 0x1_0000_0000) as u32);
        push_le32(&mut v, self.left);
        push_le32(&mut v, self.top);
        push_le32(&mut v, self.width);
        push_le32(&mut v, self.height);
        assert(v@ =~= spec_props_bytes(*self));
        v
    }
}

proof fn lemma_le32_roundtrip(v: u32, s: Seq<u8>, off: int)
    requires
        0 <= off,
        off + 4 <= s.len(),
        s.subrange(off, off + 4) == le32_bytes(v),
    ensures
        spec_le32(s, off) == v,
{
    assert(s[off] == le32_bytes(v)[0]);
    assert(s[off + 1] == le32_bytes(v)[1]);
    assert(s[off + 2] == le32_bytes(v)[2]);
    assert(s[off + 3] == le32_bytes(v)[3]);
    assert(spec_le32(s, off) == v) by (nonlinear_arith)
        requires
            s[off] == (v % 0x100) as u8,
            s[off + 1] == ((v / 0x100) % 0x100) as u8,
            s[off + 2] == ((v / 0x10000) % 0x100) as u8,
            s[off + 3] == (v / 0x1000000) as u8,
            spec_le32(s, off) == s[off] + s[off + 1] * 0x100 + (s[off + 2] + s[off + 3] * 0x100)
                * 0x10000,
    ;
}

/// Four bytes read as a little-endian value and written back are the same
/// bytes.
proof fn lemma_le32_bytes_of(s: Seq<u8>, off: int)
    requires
        0 <= off,
        off + 4 <= s.len(),
    ensures
        0 <= spec_le32(s, off) <= u32::MAX,
        le32_bytes(spec_le32(s, off) as u32) == s.subrange(off, off + 4),
{
    let a = s[off] as int;
    let b = s[off + 1] as int;
    let c = s[off + 2] as int;
    let d = s[off + 3] as int;
    let v = spec_le32(s, off);
    assert(v == a + b * 0x100 + c * 0x10000 + d * 0x1000000);
    assert(0 <= v <= u32::MAX);
    let lo2 = a + b * 0x100;
    vstd::arithmetic::div_mod::lemma_fundamental_div_mod_converse_mod(v, 0x100, b + c * 0x100 + d * 0x10000, a);
    vstd::arithmetic::div_mod::lemma_fundamental_div_mod_converse_div(v, 0x100, b + c * 0x100 + d * 0x10000, a);
    let q1 = b + c * 0x100 + d * 0x10000;
    vstd::arithmetic::div_mod::lemma_fundamental_div_mod_converse_mod(q1, 0x100, c + d * 0x100, b);
    vstd::arithmetic::div_mod::lemma_fundamental_div_mod_converse_div(v, 0x10000, c + d * 0x100, lo2);
    vstd::arithmetic::div_mod::lemma_fundamental_div_mod_converse_mod(c + d * 0x100, 0x100, d, c);
    vstd::arithmetic::div_mod::lemma_fundamental_div_mod_converse_div(v, 0x1000000, d, lo2 + c * 0x10000);
    let w = v as u32;
    assert(w as int == v);
    assert(le32_bytes(w) =~= s.subrange(off, off + 4));
}

/// Eight bytes read as a little-endian value and written back are the same
/// bytes.
proof fn lemma_le64_bytes_of(s: Seq<u8>, off: int)
    requires
        0 <= off,
        off + 8 <= s.len(),
    ensures
        0 <= spec_le64(s, off) <= u64::MAX,
        le64_bytes(spec_le64(s, off) as u64) == s.subrange(off, off + 8),
{
    lemma_le32_bytes_of(s, off);
    lemma_le32_bytes_of(s, off + 4);
    let lo = spec_le32(s, off);
    let hi = spec_le32(s, off + 4);
    let v = spec_le64(s, off);
    assert(v == hi * 0x1_0000_0000 + lo);
    assert(0 <= v <= u64::MAX) by (nonlinear_arith)
        requires
            v == hi * 0x1_0000_0000 + lo,
            0 <= lo <= u32::MAX,
            0 <= hi <= u32::MAX,
    ;
    vstd::arithmetic::div_mod::lemma_fundamental_div_mod_converse_mod(v, 0x1_0000_0000, hi, lo);
    vstd::arithmetic::div_mod::lemma_fundamental_div_mod_converse_div(v, 0x1_0000_0000, hi, lo);
    let w = v as u64;
    assert(w as int == v);
    assert(le64_bytes(w) =~= s.subrange(off, off + 8));
}

/// What a window's properties are set to from 24 bytes (its set function)
/// reads back as the same 24 bytes (its get function).
pub proof fn lemma_set_then_get_window(w: Window, b: Seq<u8>)
    requires
        b.len() == WINDOW_PROPERTIES_SIZE,
    ensures
        spec_props_bytes(props_of(spec_with_props(w, spec_props_from_bytes(b)))) == b,
{
    lemma_le64_bytes_of(b, 0);
    lemma_le32_bytes_of(b, 8);
    lemma_le32_bytes_of(b, 12);
    lemma_le32_bytes_of(b, 16);
    lemma_le32_bytes_of(b, 20);
    let p = props_of(spec_with_props(w, spec_props_from_bytes(b)));
    assert(p == spec_props_from_bytes(b));
    assert(spec_props_bytes(p) =~= b.subrange(0, 8) + b.subrange(8, 12) + b.subrange(12, 16) + b.subrange(16, 20) + b.subrange(20, 24));
    assert(b.subrange(0, 8) + b.subrange(8, 12) + b.subrange(12, 16) + b.subrange(16, 20) + b.subrange(20, 24) =~= b);
}

/// Writing window properties to bytes and reading them back gives the same
/// properties.
#[verifier::spinoff_prover]
pub proof fn lemma_props_roundtrip(p: WindowProperties)
    ensures
        spec_props_bytes(p).len() == WINDOW_PROPERTIES_SIZE,
        spec_props_from_bytes(spec_props_bytes(p)) == p,
{
    let b = spec_props_bytes(p);
    let lo = (p.flags % 0x1_0000_0000) as u32;
    let hi = (p.flags / 0x1_0000_0000) as u32;
    assert(b.subrange(0, 4) =~= le32_bytes(lo));
    assert(b.subrange(4, 8) =~= le32_bytes(hi));
    assert(b.subrange(8, 12) =~= le32_bytes(p.left));
    assert(b.subrange(12, 16) =~= le32_bytes(p.top));
    assert(b.subrange(16, 20) =~= le32_bytes(p.width));
    assert(b.subrange(20, 24) =~= le32_bytes(p.height));
    lemma_le32_roundtrip(lo, b, 0);
    lemma_le32_roundtrip(hi, b, 4);
    lemma_le32_roundtrip(p.left, b, 8);
    lemma_le32_roundtrip(p.top, b, 12);
    lemma_le32_roundtrip(p.width, b, 16);
    lemma_le32_roundtrip(p.height, b, 20);
    assert(spec_le64(b, 0) == p.flags) by (nonlinear_arith)
        requires
            spec_le64(b, 0) == spec_le32(b, 0) + spec_le32(b, 4) * 0x1_0000_0000,
            spec_le32(b, 0) == lo,
            spec_le32(b, 4) == hi,
            lo == p.flags % 0x1_0000_0000,
            hi == p.flags / 0x1_0000_0000,
    ;
}

// ---------------------------------------------------------------------------
// The server
// ---------------------------------------------------------------------------

pub type Rgb = (u8, u8, u8);
pub type Rgba = (u8, u8, u8, u8);

/// Handle of `gui:/`.
pub const HND_ROOT: usize = 0x0;
/// Handle of the first window.
pub const HND_WINDOW0: usize = 0x10;
/// Size of a window file: its largest graphical context.
pub const MAX_WINDOW_BUFFER: usize = 0x400_0000;
/// Functions of a window file: set, get and update the window.
pub const WIN_FUNC_SET: usize = 0x1;
pub const WIN_FUNC_GET: usize = 0x2;
pub const WIN_FUNC_UPDATE: usize = 0x3;

/// The bytes `"gui"`.
pub open spec fn gui_name() -> Seq<u8> {
    seq![0x67u8, 0x75u8, 0x69u8]
}

/// The bytes `"window"`.
pub open spec fn window_name() -> Seq<u8> {
    seq![0x77u8, 0x69u8, 0x6eu8, 0x64u8, 0x6fu8, 0x77u8]
}

/// The index of the first window with handle `hnd`.
pub open spec fn spec_find_window(ws: Seq<Window>, hnd: usize) -> Option<int> {
    if exists|i: int| 0 <= i < ws.len() && ws[i].hnd == hnd {
        Some(
            choose|i: int|
                0 <= i < ws.len() && ws[i].hnd == hnd && forall|j: int|
                    0 <= j < i ==> ws[j].hnd != hnd,
        )
    } else {
        None
    }
}

/// The window list after the window at `idx` is gone: the others are to be
/// drawn again exactly when they overlap the rectangle it had.
pub open spec fn spec_after_destroy(ws: Seq<Window>, idx: int) -> Seq<Window> {
    let r0 = ws[idx].spec_rect();
    let rest = ws.remove(idx);
    Seq::new(rest.len(), |k: int| with_redraw(rest[k], spec_rect_overlap(r0, rest[k].spec_rect())))
}

/// The window with `redraw` set to `b`.
pub open spec fn with_redraw(w: Window, b: bool) -> Window {
    Window { redraw: b, ..w }
}

/// The properties of a window.
pub open spec fn props_of(w: Window) -> WindowProperties {
    WindowProperties { flags: w.flags, left: w.left, top: w.top, width: w.width, height: w.height }
}

/// The windows with the properties set.
pub open spec fn spec_with_props(w: Window, p: WindowProperties) -> Window {
    Window { flags: p.flags, left: p.left, top: p.top, width: p.width, height: p.height, ..w }
}

/// The GUI server: the screen's two shadow buffers (the one being composed
/// and the one the frame buffer shows), the windows from back to front, and
/// the screen update that is due.
pub struct GUI {
    pub cur_buf: usize,
    pub pre_buf: usize,
    pub sfb0: Vec<Rgb>,
    pub sfb1: Vec<Rgb>,
    pub sc_height: usize,
    pub sc_width: usize,
    pub pxl_cnt: usize,
    pub windows: Vec<Window>,
    /// Handle of the next window
    pub next_whnd: usize,
    /// A screen update is due (`Some(true)` for the whole screen)
    pub pending_update: Option<bool>,
}

impl GUI {
    pub open spec fn wf(&self) -> bool {
        &&& (self.cur_buf == 0 && self.pre_buf == 1) || (self.cur_buf == 1 && self.pre_buf == 0)
        &&& self.sfb0@.len() == self.pxl_cnt && self.sfb1@.len() == self.pxl_cnt
        &&& self.pxl_cnt == self.sc_height * self.sc_width
        &&& self.sc_height <= u32::MAX && self.sc_width <= u32::MAX
    }

    /// Shadow buffer `i` (0 or 1).
    pub open spec fn sfb(&self, i: int) -> Seq<Rgb> {
        if i == 0 {
            self.sfb0@
        } else {
            self.sfb1@
        }
    }

    /// The rectangles of all windows fit in 32 bits.
    pub open spec fn rects_fit(&self) -> bool {
        forall|i: int| 0 <= i < self.windows@.len() ==> (#[trigger] self.windows@[i]).rect_fits()
    }

    /// A screen update, added to the one already due.
    pub open spec fn spec_pending(&self, full: bool) -> Option<bool> {
        Some(full || self.pending_update == Some(true))
    }

    /// A server with no screen and no window.
    pub fn new() -> (g: Self)
        ensures
            g.wf(),
            g.cur_buf == 0 && g.pre_buf == 1,
            g.sc_height == 0 && g.sc_width == 0 && g.pxl_cnt == 0,
            g.windows@.len() == 0,
            g.next_whnd == HND_WINDOW0,
            g.pending_update is None,
    {
        GUI {
            cur_buf: 0,
            pre_buf: 1,
            sfb0: Vec::new(),
            sfb1: Vec::new(),
            sc_height: 0,
            sc_width: 0,
            pxl_cnt: 0,
            windows: Vec::new(),
            next_whnd: HND_WINDOW0,
            pending_update: None,
        }
    }

    /// Mounts `gui:`; returns the number of devices it provides (1, or 0
    /// when the name is taken).
    pub fn enumerate(mounts: &mut MountTable) -> (n: usize)
        requires
            old(mounts).wf(),
        ensures
            final(mounts).wf(),
            n == if mount_names(old(mounts).entries()).contains(gui_name()) {
                0usize
            } else {
                1usize
            },
            n == 1 ==> mount_map(final(mounts).entries()) == mount_map(old(mounts).entries()).insert(
                gui_name(),
                DRV_GUI,
            ),
            n == 0 ==> final(mounts).entries() == old(mounts).entries(),
    {
        let name: [u8; 3] = [0x67, 0x75, 0x69];
        assert(name@ =~= gui_name());
        if MountPoint::mount(mounts, MountPoint::new(&name, DRV_GUI)) {
            return 1;
        }
        0
    }

    /// Takes the screen's size: clears the shadow buffers, puts the mouse
    /// in the middle of the screen, clipped to it, and has it call back on
    /// each event.
    pub fn post_enum(&mut self, scr_height: u32, scr_width: u32, mouse: &mut Mouse)
        requires
            scr_height * scr_width <= usize::MAX,
        ensures
            final(self).wf(),
            final(self).sc_height == scr_height && final(self).sc_width == scr_width,
            final(self).pxl_cnt == scr_height * scr_width,
            forall|k: int| 0 <= k < final(self).pxl_cnt ==> #[trigger] final(self).sfb0@[k] == (0u8, 0u8, 0u8)
                && final(self).sfb1@[k] == (0u8, 0u8, 0u8),
            final(self).cur_buf == old(self).cur_buf || !old(self).wf(),
            final(self).windows@ == old(self).windows@,
            final(self).next_whnd == old(self).next_whnd,
            final(mouse).cur_x == scr_width / 2 && final(mouse).cur_y == scr_height / 2,
            final(mouse).max_x == scr_width && final(mouse).max_y == scr_height,
            final(mouse).irq_cb,
            final(mouse).events@ == old(mouse).events@,
    {
        self.sc_height = scr_height as usize;
        self.sc_width = scr_width as usize;
        let n: usize = (scr_height as usize) * (scr_width as usize);
        self.pxl_cnt = n;
        let mut a: Vec<Rgb> = Vec::new();
        let mut b: Vec<Rgb> = Vec::new();
        let mut k: usize = 0;
        while k < n
            invariant
                k <= n,
                a@.len() == k && b@.len() == k,
                forall|j: int| 0 <= j < k ==> #[trigger] a@[j] == (0u8, 0u8, 0u8) && b@[j] == (0u8, 0u8, 0u8),
            decreases n - k,
        {
            a.push((0, 0, 0));
            b.push((0, 0, 0));
            k = k + 1;
        }
        self.sfb0 = a;
        self.sfb1 = b;
        if !((self.cur_buf == 0 && self.pre_buf == 1) || (self.cur_buf == 1 && self.pre_buf == 0)) {
            self.cur_buf = 0;
            self.pre_buf = 1;
        }
        mouse.reset_coordinates(scr_width / 2, scr_height / 2, scr_width, scr_height);
        mouse.set_irq_callback();
    }

    /// Nothing to release.
    pub fn release(_dev_id: usize) {
    }

    /// The index of the first window with handle `hnd`.
    pub fn find_window(&self, hnd: usize) -> (r: Option<usize>)
        ensures
            r is None <==> spec_find_window(self.windows@, hnd) is None,
            r matches Some(i) ==> spec_find_window(self.windows@, hnd) == Some(i as int) && i
                < self.windows@.len() && self.windows@[i as int].hnd == hnd,
    {
        let n = self.windows.len();
        let mut i: usize = 0;
        while i < n
            invariant
                i <= n,
                n == self.windows@.len(),
                forall|j: int| 0 <= j < i ==> self.windows@[j].hnd != hnd,
            decreases n - i,
        {
            if self.windows[i].hnd == hnd {
                proof {
                    let ws = self.windows@;
                    let c = choose|k: int|
                        0 <= k < ws.len() && ws[k].hnd == hnd && forall|j: int|
                            0 <= j < k ==> ws[j].hnd != hnd;
                    assert(0 <= i < ws.len() && ws[i as int].hnd == hnd);
                    if c > i {
                        assert(ws[i as int].hnd != hnd);
                    }
                }
                return Some(i);
            }
            i = i + 1;
        }
        None
    }

    /// Creates window `hnd` with its graphical context and puts it in front
    /// of all others, hidden until user space sets it up.
    pub fn create_window(&mut self, hnd: usize, ctx: Result<WindowContext, Error>) -> (r: Result<(), Error>)
        requires
            old(self).sc_height * old(self).sc_width * 4 + 4095 <= u32::MAX,
            old(self).sc_height <= u32::MAX && old(self).sc_width <= u32::MAX,
        ensures
            match ctx {
                Ok(c) => {
                    &&& r is Ok
                    &&& final(self).windows@.len() == old(self).windows@.len() + 1
                    &&& final(self).windows@.drop_last() == old(self).windows@
                    &&& ({
                        let w = final(self).windows@.last();
                        &&& w.hnd == hnd && w.flags == WIN_FLG_HIDDEN && w.redraw
                        &&& w.left == 0 && w.top == 0 && w.width == 0 && w.height == 0
                        &&& w.phys_base == c.phys_base && w.kmap_base == c.kmap_base
                        &&& w.dmap_base == c.dmap_base
                        &&& w.num_frames == spec_context_frames(
                            old(self).sc_height as u32,
                            old(self).sc_width as u32,
                        )
                    })
                },
                Err(e) => r == Err::<(), Error>(e) && final(self).windows@ == old(self).windows@,
            },
            final(self).next_whnd == old(self).next_whnd,
            final(self).pending_update == old(self).pending_update,
            final(self).sfb0@ == old(self).sfb0@ && final(self).sfb1@ == old(self).sfb1@,
            final(self).cur_buf == old(self).cur_buf && final(self).pre_buf == old(self).pre_buf,
            final(self).sc_height == old(self).sc_height && final(self).sc_width == old(self).sc_width,
            final(self).pxl_cnt == old(self).pxl_cnt,
    {
        let mut w = Window::new(hnd);
        match w.init(self.sc_height as u32, self.sc_width as u32, ctx) {
            Ok(()) => {},
            Err(e) => {
                return Err(e);
            },
        }
        self.windows.push(w);
        Ok(())
    }

    /// Removes window `hnd`; the windows that overlapped it are to be drawn
    /// again (the others are not), and a screen update is due. A handle
    /// without a window changes nothing.
    #[verifier::spinoff_prover]
    #[verifier::rlimit(40)]
    pub fn destroy_window(&mut self, hnd: usize)
        requires
            old(self).rects_fit(),
        ensures
            match spec_find_window(old(self).windows@, hnd) {
                Some(idx) => {
                    &&& final(self).windows@ == spec_after_destroy(old(self).windows@, idx)
                    &&& final(self).pending_update == old(self).spec_pending(false)
                },
                None => final(self).windows@ == old(self).windows@ && final(self).pending_update
                    == old(self).pending_update,
            },
            final(self).rects_fit(),
            final(self).next_whnd == old(self).next_whnd,
            final(self).sfb0@ == old(self).sfb0@ && final(self).sfb1@ == old(self).sfb1@,
            final(self).cur_buf == old(self).cur_buf && final(self).pre_buf == old(self).pre_buf,
            final(self).sc_height == old(self).sc_height && final(self).sc_width == old(self).sc_width,
            final(self).pxl_cnt == old(self).pxl_cnt,
    {
        let idx = match self.find_window(hnd) {
            Some(i) => i,
            None => {
                return;
            },
        };
        let w0 = self.windows[idx];
        assert(w0.rect_fits());
        let r0: Rect = (w0.left, w0.top, w0.left + w0.width, w0.top + w0.height);
        let ghost ws0 = self.windows@;
        self.windows.remove(idx);
        let ghost rest = self.windows@;
        assert(rest == ws0.remove(idx as int));
        let n = self.windows.len();
        let mut i: usize = 0;
        while i < n
            invariant
                i <= n,
                n == rest.len(),
                self.windows@.len() == n,
                0 <= idx < ws0.len(),
                ws0 == old(self).windows@,
                spec_find_window(old(self).windows@, hnd) == Some(idx as int),
                r0 == ws0[idx as int].spec_rect(),
                self.next_whnd == old(self).next_whnd,
                self.pending_update == old(self).pending_update,
                self.sfb0@ == old(self).sfb0@ && self.sfb1@ == old(self).sfb1@,
                self.cur_buf == old(self).cur_buf && self.pre_buf == old(self).pre_buf,
                self.sc_height == old(self).sc_height && self.sc_width == old(self).sc_width,
                self.pxl_cnt == old(self).pxl_cnt,
                forall|k: int| 0 <= k < n ==> (#[trigger] rest[k]).rect_fits(),
                forall|k: int|
                    0 <= k < n ==> #[trigger] self.windows@[k] == if k < i {
                        with_redraw(rest[k], spec_rect_overlap(r0, rest[k].spec_rect()))
                    } else {
                        rest[k]
                    },
            decreases n - i,
        {
            let mut w = self.windows[i];
            assert(rest[i as int].rect_fits());
            w.redraw = rect_overlap(r0, (w.left, w.top, w.left + w.width, w.top + w.height));
            self.windows.set(i, w);
            i = i + 1;
        }
        assert(self.windows@ =~= spec_after_destroy(ws0, idx as int));
        self.pending_update = Some(self.pending_update == Some(true));
    }

    /// Sets window `hnd`'s properties from the 24 bytes of `buff` and
    /// returns where the process sees its graphical context.
    pub fn set_window(&mut self, hnd: usize, buff: &[u8]) -> (r: Result<usize, Error>)
        ensures
            buff@.len() != WINDOW_PROPERTIES_SIZE ==> is_err_code(r, ErrorCode::InvalidArgument)
                && final(self).windows@ == old(self).windows@,
            buff@.len() == WINDOW_PROPERTIES_SIZE ==> match spec_find_window(old(self).windows@, hnd) {
                Some(i) => {
                    &&& r == Ok::<usize, Error>(old(self).windows@[i].dmap_base)
                    &&& final(self).windows@ == old(self).windows@.update(
                        i,
                        spec_with_props(old(self).windows@[i], spec_props_from_bytes(buff@)),
                    )
                },
                None => is_err_code(r, ErrorCode::InvalidHandle) && final(self).windows@ == old(self).windows@,
            },
            final(self).next_whnd == old(self).next_whnd,
            final(self).pending_update == old(self).pending_update,
            final(self).sfb0@ == old(self).sfb0@ && final(self).sfb1@ == old(self).sfb1@,
            final(self).cur_buf == old(self).cur_buf && final(self).pre_buf == old(self).pre_buf,
            final(self).sc_height == old(self).sc_height && final(self).sc_width == old(self).sc_width,
            final(self).pxl_cnt == old(self).pxl_cnt,
    {
        let args = match WindowProperties::from_bytes(buff) {
            Some(a) => a,
            None => {
                return Err(Error::new(ErrorCode::InvalidArgument));
            },
        };
        match self.find_window(hnd) {
            Some(i) => {
                let mut w = self.windows[i];
                w.flags = args.flags;
                w.left = args.left;
                w.top = args.top;
                w.width = args.width;
                w.height = args.height;
                assert(w == spec_with_props(old(self).windows@[i as int], args));
                let d = w.dmap_base;
                self.windows.set(i, w);
                Ok(d)
            },
            None => Err(Error::new(ErrorCode::InvalidHandle)),
        }
    }

    /// Reads window `hnd`'s properties back into the 24 bytes of `buff`;
    /// answers the byte count, or `InvalidHandle` when no window has that
    /// handle.
    pub fn get_window(&self, hnd: usize, buff: &mut [u8]) -> (r: Result<usize, Error>)
        ensures
            old(buff)@.len() != WINDOW_PROPERTIES_SIZE ==> is_err_code(r, ErrorCode::InvalidArgument)
                && final(buff)@ == old(buff)@,
            old(buff)@.len() == WINDOW_PROPERTIES_SIZE ==> match spec_find_window(self.windows@, hnd) {
                Some(i) => {
                    &&& r == Ok::<usize, Error>(WINDOW_PROPERTIES_SIZE)
                    &&& final(buff)@ == spec_props_bytes(props_of(self.windows@[i]))
                },
                None => is_err_code(r, ErrorCode::InvalidHandle) && final(buff)@ == old(buff)@,
            },
    {
        if buff.len() != WINDOW_PROPERTIES_SIZE {
            return Err(Error::new(ErrorCode::InvalidArgument));
        }
        if let Some(i) = self.find_window(hnd) {
            let w = self.windows[i];
            let props = WindowProperties {
                flags: w.flags,
                left: w.left,
                top: w.top,
                width: w.width,
                height: w.height,
            };
            let bytes = props.to_bytes();
            assert(props == props_of(self.windows@[i as int]));
            proof { lemma_props_roundtrip(props); }
            copy_all(buff, &bytes);
            return Ok(WINDOW_PROPERTIES_SIZE);
        }
        Err(Error::new(ErrorCode::InvalidHandle))
    }

    /// Marks window `hnd` to be drawn again and makes a screen update due
    /// (of the whole screen for the desktop window).
    pub fn update_window(&mut self, hnd: usize) -> (r: Result<usize, Error>)
        ensures
            match spec_find_window(old(self).windows@, hnd) {
                Some(i) => {
                    &&& r == Ok::<usize, Error>(0)
                    &&& final(self).windows@ == old(self).windows@.update(
                        i,
                        with_redraw(old(self).windows@[i], true),
                    )
                    &&& final(self).pending_update == old(self).spec_pending(hnd == HND_WINDOW0)
                },
                None => is_err_code(r, ErrorCode::InvalidHandle) && final(self).windows@ == old(self).windows@ && final(self).pending_update == old(self).pending_update,
            },
            final(self).next_whnd == old(self).next_whnd,
            final(self).sfb0@ == old(self).sfb0@ && final(self).sfb1@ == old(self).sfb1@,
            final(self).cur_buf == old(self).cur_buf && final(self).pre_buf == old(self).pre_buf,
            final(self).sc_height == old(self).sc_height && final(self).sc_width == old(self).sc_width,
            final(self).pxl_cnt == old(self).pxl_cnt,
    {
        match self.find_window(hnd) {
            Some(i) => {
                let mut w = self.windows[i];
                w.redraw = true;
                assert(w == with_redraw(old(self).windows@[i as int], true));
                self.windows.set(i, w);
                self.pending_update = Some(hnd == HND_WINDOW0 || self.pending_update == Some(true));
                Ok(0)
            },
            None => Err(Error::new(ErrorCode::InvalidHandle)),
        }
    }

    /// The mouse moved: every window is to be drawn again and a screen
    /// update is due.
    pub fn update_mouse(&mut self)
        ensures
            final(self).windows@.len() == old(self).windows@.len(),
            forall|k: int|
                0 <= k < old(self).windows@.len() ==> #[trigger] final(self).windows@[k] == with_redraw(
                    old(self).windows@[k],
                    true,
                ),
            final(self).pending_update == old(self).spec_pending(false),
            final(self).next_whnd == old(self).next_whnd,
            final(self).sfb0@ == old(self).sfb0@ && final(self).sfb1@ == old(self).sfb1@,
            final(self).cur_buf == old(self).cur_buf && final(self).pre_buf == old(self).pre_buf,
            final(self).sc_height == old(self).sc_height && final(self).sc_width == old(self).sc_width,
            final(self).pxl_cnt == old(self).pxl_cnt,
    {
        let n = self.windows.len();
        let mut i: usize = 0;
        while i < n
            invariant
                i <= n,
                self.windows@.len() == n,
                n == old(self).windows@.len(),
                self.next_whnd == old(self).next_whnd,
                self.pending_update == old(self).pending_update,
                self.sfb0@ == old(self).sfb0@ && self.sfb1@ == old(self).sfb1@,
                self.cur_buf == old(self).cur_buf && self.pre_buf == old(self).pre_buf,
                self.sc_height == old(self).sc_height && self.sc_width == old(self).sc_width,
                self.pxl_cnt == old(self).pxl_cnt,
                forall|k: int|
                    0 <= k < n ==> #[trigger] self.windows@[k] == if k < i {
                        with_redraw(old(self).windows@[k], true)
                    } else {
                        old(self).windows@[k]
                    },
            decreases n - i,
        {
            let mut w = self.windows[i];
            w.redraw = true;
            self.windows.set(i, w);
            i = i + 1;
        }
        self.pending_update = Some(self.pending_update == Some(true));
    }
}

impl GUI {
    /// Opens `gui:/` (the root) or `gui:/window`, which creates a new window
    /// with the graphical context `ctx` (allocated by the caller for it; an
    /// allocation error fails the open). The window's handle is used up
    /// even when the open fails.
    pub fn fops_open(
        &mut self,
        full_path: &[u8],
        dent: &mut DirectoryEntry,
        ctx: Result<WindowContext, Error>,
    ) -> (r: Result<usize, Error>)
        requires
            old(self).next_whnd < usize::MAX,
            old(self).sc_height * old(self).sc_width * 4 + 4095 <= u32::MAX,
            old(self).sc_height <= u32::MAX && old(self).sc_width <= u32::MAX,
        ensures
            ({
                let p = spec_relative_path(full_path@);
                if p == seq![0x2fu8] {
                    &&& r == Ok::<usize, Error>(HND_ROOT)
                    &&& final(dent).name@.len() == 0 && final(dent).size == 0
                    &&& final(dent).flags == DEV_R_DIR_FLAGS
                    &&& final(self).windows@ == old(self).windows@
                    &&& final(self).next_whnd == old(self).next_whnd
                } else if p == seq![0x2fu8] + window_name() {
                    &&& final(dent).name@ == window_name() && final(dent).size == MAX_WINDOW_BUFFER
                    &&& final(dent).flags == DEV_RWX_FILE_FLAGS
                    &&& final(self).next_whnd == old(self).next_whnd + 1
                    &&& match ctx {
                        Ok(c) => {
                            &&& r == Ok::<usize, Error>(old(self).next_whnd)
                            &&& final(self).windows@.len() == old(self).windows@.len() + 1
                            &&& final(self).windows@.drop_last() == old(self).windows@
                            &&& final(self).windows@.last().hnd == old(self).next_whnd
                            &&& final(self).windows@.last().flags == WIN_FLG_HIDDEN
                            &&& final(self).windows@.last().dmap_base == c.dmap_base
                        },
                        Err(e) => r == Err::<usize, Error>(e) && final(self).windows@ == old(self).windows@,
                    }
                } else {
                    &&& is_err_code(r, ErrorCode::InvalidPath)
                    &&& final(self).windows@ == old(self).windows@
                    &&& final(self).next_whnd == old(self).next_whnd
                }
            }),
            final(self).pending_update == old(self).pending_update,
            final(self).sfb0@ == old(self).sfb0@ && final(self).sfb1@ == old(self).sfb1@,
            final(self).cur_buf == old(self).cur_buf && final(self).pre_buf == old(self).pre_buf,
            final(self).sc_height == old(self).sc_height && final(self).sc_width == old(self).sc_width,
            final(self).pxl_cnt == old(self).pxl_cnt,
    {
        let mpath = MountPoint::device_relative_path(full_path);
        let root: [u8; 1] = [0x2f];
        let win_p: [u8; 7] = [0x2f, 0x77, 0x69, 0x6e, 0x64, 0x6f, 0x77];
        let win: [u8; 6] = [0x77, 0x69, 0x6e, 0x64, 0x6f, 0x77];
        assert(root@ =~= seq![0x2fu8]);
        assert(win_p@ =~= seq![0x2fu8] + window_name());
        assert(win@ =~= window_name());
        assert(mpath@ == spec_relative_path(full_path@));
        if bytes_eq(mpath, &root) {
            dent.name = Vec::new();
            dent.size = 0;
            dent.flags = DEV_R_DIR_FLAGS;
            Ok(HND_ROOT)
        } else if bytes_eq(mpath, &win_p) {
            dent.name = bytes_to_vec(&win);
            dent.size = MAX_WINDOW_BUFFER;
            dent.flags = DEV_RWX_FILE_FLAGS;
            let whnd = self.next_whnd;
            self.next_whnd = whnd + 1;
            match self.create_window(whnd, ctx) {
                Ok(()) => Ok(whnd),
                Err(e) => Err(e),
            }
        } else {
            Err(Error::new(ErrorCode::InvalidPath))
        }
    }

    /// The handle of a window that was opened (or of one opened next).
    pub open spec fn is_window_hnd(&self, hnd: usize) -> bool {
        HND_WINDOW0 <= hnd <= self.next_whnd
    }

    /// Closing a window destroys it.
    pub fn fops_close(&mut self, hnd: usize) -> (r: Result<usize, Error>)
        requires
            old(self).rects_fit(),
        ensures
            r == Ok::<usize, Error>(0),
            old(self).is_window_hnd(hnd) ==> match spec_find_window(old(self).windows@, hnd) {
                Some(idx) => final(self).windows@ == spec_after_destroy(old(self).windows@, idx)
                    && final(self).pending_update == old(self).spec_pending(false),
                None => final(self).windows@ == old(self).windows@ && final(self).pending_update
                    == old(self).pending_update,
            },
            !old(self).is_window_hnd(hnd) ==> final(self).windows@ == old(self).windows@
                && final(self).pending_update == old(self).pending_update,
            final(self).rects_fit(),
            final(self).next_whnd == old(self).next_whnd,
            final(self).sfb0@ == old(self).sfb0@ && final(self).sfb1@ == old(self).sfb1@,
            final(self).cur_buf == old(self).cur_buf && final(self).pre_buf == old(self).pre_buf,
            final(self).sc_height == old(self).sc_height && final(self).sc_width == old(self).sc_width,
            final(self).pxl_cnt == old(self).pxl_cnt,
    {
        if hnd >= HND_WINDOW0 && hnd <= self.next_whnd {
            self.destroy_window(hnd);
        }
        Ok(0)
    }

    /// Runs a window function: set (1), get (2) or update (3) the window.
    pub fn fops_exec(&mut self, hnd: usize, func: usize, buff: &mut [u8]) -> (r: Result<usize, Error>)
        ensures
            !old(self).is_window_hnd(hnd) ==> is_err_code(r, ErrorCode::InvalidHandle)
                && final(self).windows@ == old(self).windows@ && final(buff)@ == old(buff)@,
            old(self).is_window_hnd(hnd) && func != WIN_FUNC_SET && func != WIN_FUNC_GET && func
                != WIN_FUNC_UPDATE ==> is_err_code(r, ErrorCode::InvalidArgument)
                && final(self).windows@ == old(self).windows@ && final(buff)@ == old(buff)@,
            old(self).is_window_hnd(hnd) && func == WIN_FUNC_SET ==> final(buff)@ == old(buff)@ && (
            old(buff)@.len() != WINDOW_PROPERTIES_SIZE ==> is_err_code(r, ErrorCode::InvalidArgument))
                && (old(buff)@.len() == WINDOW_PROPERTIES_SIZE ==> match spec_find_window(
                old(self).windows@,
                hnd,
            ) {
                Some(i) => r == Ok::<usize, Error>(old(self).windows@[i].dmap_base)
                    && final(self).windows@ == old(self).windows@.update(
                    i,
                    spec_with_props(old(self).windows@[i], spec_props_from_bytes(old(buff)@)),
                ),
                None => is_err_code(r, ErrorCode::InvalidHandle),
            }),
            old(self).is_window_hnd(hnd) && func == WIN_FUNC_GET ==> final(self).windows@ == old(self).windows@ && (old(buff)@.len() != WINDOW_PROPERTIES_SIZE ==> is_err_code(
                r,
                ErrorCode::InvalidArgument,
            ) && final(buff)@ == old(buff)@) && (old(buff)@.len() == WINDOW_PROPERTIES_SIZE ==> match spec_find_window(old(self).windows@, hnd) {
                Some(i) => r == Ok::<usize, Error>(WINDOW_PROPERTIES_SIZE) && final(buff)@ == spec_props_bytes(props_of(old(self).windows@[i])),
                None => is_err_code(r, ErrorCode::InvalidHandle) && final(buff)@ == old(buff)@,
            }),
            old(self).is_window_hnd(hnd) && func == WIN_FUNC_UPDATE ==> final(buff)@ == old(buff)@
                && match spec_find_window(old(self).windows@, hnd) {
                Some(i) => r == Ok::<usize, Error>(0) && final(self).windows@ == old(self).windows@.update(i, with_redraw(old(self).windows@[i], true))
                    && final(self).pending_update == old(self).spec_pending(hnd == HND_WINDOW0),
                None => is_err_code(r, ErrorCode::InvalidHandle),
            },
            final(self).next_whnd == old(self).next_whnd,
            final(self).sfb0@ == old(self).sfb0@ && final(self).sfb1@ == old(self).sfb1@,
            final(self).cur_buf == old(self).cur_buf && final(self).pre_buf == old(self).pre_buf,
            final(self).sc_height == old(self).sc_height && final(self).sc_width == old(self).sc_width,
            final(self).pxl_cnt == old(self).pxl_cnt,
    {
        if hnd >= HND_WINDOW0 && hnd <= self.next_whnd {
            if func == WIN_FUNC_SET {
                return self.set_window(hnd, buff);
            } else if func == WIN_FUNC_GET {
                return self.get_window(hnd, buff);
            } else if func == WIN_FUNC_UPDATE {
                return self.update_window(hnd);
            }
            return Err(Error::new(ErrorCode::InvalidArgument));
        }
        Err(Error::new(ErrorCode::InvalidHandle))
    }

    /// `gui:` has no listing for user space.
    pub fn fops_enum(&self, hnd: usize) -> (r: Result<usize, Error>)
        ensures
            is_err_code(r, ErrorCode::InvalidOp),
    {
        Err(Error::new(ErrorCode::InvalidOp))
    }

    /// Window files are not read.
    pub fn fops_read(&self, hnd: usize) -> (r: Result<usize, Error>)
        ensures
            is_err_code(r, ErrorCode::InvalidHandle),
    {
        Err(Error::new(ErrorCode::InvalidHandle))
    }
}

// ---------------------------------------------------------------------------
// Composing the screen
// ---------------------------------------------------------------------------

/// The colour a graphical-context pixel gives on the frame buffer (its alpha
/// is dropped).
pub open spec fn rgb_of(p: Rgba) -> Rgb {
    (p.0, p.1, p.2)
}

/// `buf` with the `count` pixels from `start` on taken from `src`, from
/// `src_off` on.
pub open spec fn spec_row_write(buf: Seq<Rgb>, start: int, src: Seq<Rgba>, src_off: int, count: int) -> Seq<Rgb> {
    Seq::new(
        buf.len(),
        |k: int|
            if start <= k < start + count {
                rgb_of(src[src_off + k - start])
            } else {
                buf[k]
            },
    )
}

/// Where row `r` of window `w` starts on a screen `scr_width` pixels wide.
pub open spec fn row_start(w: Window, r: int, scr_width: int) -> int {
    (w.top + r) * scr_width + w.left
}

/// `buf` with the first `n` rows of window `w` drawn from its graphical
/// context `px`, one after the other: row `r` lays the `width` pixels of the
/// context from `r * width` on, from `row_start` on.
pub open spec fn spec_blit_rows(buf: Seq<Rgb>, w: Window, px: Seq<Rgba>, scr_width: int, n: nat) -> Seq<Rgb>
    decreases n,
{
    if n == 0 {
        buf
    } else {
        spec_row_write(
            spec_blit_rows(buf, w, px, scr_width, (n - 1) as nat),
            row_start(w, n - 1, scr_width),
            px,
            (n - 1) * w.width,
            w.width as int,
        )
    }
}

/// Window `w` can be drawn on a screen of `scr_height` by `scr_width` pixels
/// from a graphical context of `cnt` pixels: its rows are within 32 bits and
/// within the screen's pixels, and its pixels within the context.
pub open spec fn drawable(w: Window, scr_height: int, scr_width: int, cnt: int) -> bool {
    w.height == 0 || {
        &&& w.top + w.height - 1 <= u32::MAX
        &&& w.width == 0 ==> row_start(w, w.height - 1, scr_width) <= usize::MAX
        &&& w.width > 0 ==> row_start(w, w.height - 1, scr_width) + w.width <= scr_height * scr_width
            && w.height * w.width <= cnt
    }
}

/// `buf` with the first `n` windows of `ws` that are to be drawn again drawn
/// in order, each over those before it; window `i` from `pxs[i]`.
pub open spec fn spec_compose(buf: Seq<Rgb>, ws: Seq<Window>, pxs: Seq<Vec<Rgba>>, scr_width: int, n: nat) -> Seq<Rgb>
    decreases n,
{
    if n == 0 {
        buf
    } else {
        let prev = spec_compose(buf, ws, pxs, scr_width, (n - 1) as nat);
        if ws[n - 1].redraw {
            spec_blit_rows(prev, ws[n - 1], pxs[n - 1]@, scr_width, ws[n - 1].height as nat)
        } else {
            prev
        }
    }
}

/// Row `y` of the 24 by 24 mouse cursor, two bits a pixel from the left:
/// 0 clear, 1 outline, 2 fill.
pub open spec fn spec_cursor_row(y: int) -> u64 {
    if y == 0 { 0x1 }
    else if y == 1 { 0x5 }
    else if y == 2 { 0x19 }
    else if y == 3 { 0x69 }
    else if y == 4 { 0x1a9 }
    else if y == 5 { 0x6a9 }
    else if y == 6 { 0x1aa9 }
    else if y == 7 { 0x6a99 }
    else if y == 8 { 0x1aa99 }
    else if y == 9 { 0x6aaa9 }
    else if y == 10 { 0x1aaaa9 }
    else if y == 11 { 0x6aaa99 }
    else if y == 12 { 0x1aaaa99 }
    else if y == 13 { 0x6aaaa99 }
    else if y == 14 { 0x56aaa99 }
    else if y == 15 { 0x55aaa9 }
    else if y == 16 { 0x15aa9 }
    else if y == 17 { 0x15a9 }
    else if y == 18 { 0x159 }
    else if y == 19 { 0x15 }
    else { 0 }
}

/// The cursor's pixel at row `y`, column `x`.
pub open spec fn spec_cursor_pixel(y: int, x: int) -> u64 {
    (spec_cursor_row(y) >> ((2 * x) as u64)) & 3u64
}

/// A pixel of `p` with the cursor's pixel at (`y`, `x`) drawn over it: the
/// fill dark, the outline light.
pub open spec fn paint_cursor(p: Rgb, y: int, x: int) -> Rgb {
    if spec_cursor_pixel(y, x) == 2 {
        (30u8, 30u8, 30u8)
    } else if spec_cursor_pixel(y, x) == 1 {
        (240u8, 240u8, 240u8)
    } else {
        p
    }
}

/// Cursor pixel (`y`, `x`) is among those drawn once the rows before `ny`
/// and the first `nx` pixels of row `ny` are, each row `xlim` pixels long.
pub open spec fn cursor_done(y: int, x: int, xlim: int, ny: int, nx: int) -> bool {
    0 <= y && 0 <= x < xlim && (y < ny || (y == ny && x < nx))
}

/// `buf` (a screen `scr_width` pixels wide) with the cursor, its top left at
/// (`cx`, `cy`), drawn in its rows before `ny` and the first `nx` pixels of
/// row `ny`, each row `xlim` pixels long.
pub open spec fn spec_cursor_partial(buf: Seq<Rgb>, cx: int, cy: int, scr_width: int, xlim: int, ny: int, nx: int) -> Seq<Rgb> {
    Seq::new(
        buf.len(),
        |k: int|
            if cursor_done(k / scr_width - cy, k % scr_width - cx, xlim, ny, nx) {
                paint_cursor(buf[k], k / scr_width - cy, k % scr_width - cx)
            } else {
                buf[k]
            },
    )
}

/// The smaller of `a` and `b`.
pub open spec fn min_int(a: int, b: int) -> int {
    if a < b { a } else { b }
}

/// `buf` with the mouse cursor drawn with its top left at (`cx`, `cy`),
/// clipped to the screen's bottom and right edges.
pub open spec fn spec_draw_cursor(buf: Seq<Rgb>, cx: int, cy: int, scr_height: int, scr_width: int) -> Seq<Rgb> {
    spec_cursor_partial(
        buf,
        cx,
        cy,
        scr_width,
        min_int(24, scr_width - cx),
        min_int(24, scr_height - cy),
        0,
    )
}

/// The frame-buffer writes of a screen update, in order: each of the first
/// `n` pixels that differs between `cur` and `pre`, or each of them when the
/// whole screen is written, as its row, its column and its colour in `cur`.
pub open spec fn spec_screen_writes(cur: Seq<Rgb>, pre: Seq<Rgb>, full: bool, scr_width: int, n: nat) -> Seq<(u32, u32, Rgb)>
    decreases n,
{
    if n == 0 {
        Seq::empty()
    } else {
        let prev = spec_screen_writes(cur, pre, full, scr_width, (n - 1) as nat);
        let k = n - 1;
        if full || cur[k] != pre[k] {
            prev.push(((k / scr_width) as u32, (k % scr_width) as u32, cur[k]))
        } else {
            prev
        }
    }
}

/// Row `y` of the mouse cursor (see `spec_cursor_row`).
fn cursor_row(y: usize) -> (c: u64)
    ensures
        c == spec_cursor_row(y as int),
{
    if y == 0 { 0x1 }
    else if y == 1 { 0x5 }
    else if y == 2 { 0x19 }
    else if y == 3 { 0x69 }
    else if y == 4 { 0x1a9 }
    else if y == 5 { 0x6a9 }
    else if y == 6 { 0x1aa9 }
    else if y == 7 { 0x6a99 }
    else if y == 8 { 0x1aa99 }
    else if y == 9 { 0x6aaa9 }
    else if y == 10 { 0x1aaaa9 }
    else if y == 11 { 0x6aaa99 }
    else if y == 12 { 0x1aaaa99 }
    else if y == 13 { 0x6aaaa99 }
    else if y == 14 { 0x56aaa99 }
    else if y == 15 { 0x55aaa9 }
    else if y == 16 { 0x15aa9 }
    else if y == 17 { 0x15a9 }
    else if y == 18 { 0x159 }
    else if y == 19 { 0x15 }
    else { 0 }
}

/// The cursor's pixel at row `y`, column `x`.
pub fn cursor_pixel(y: usize, x: usize) -> (p: u64)
    requires
        x < 24,
    ensures
        p == spec_cursor_pixel(y as int, x as int),
{
    (cursor_row(y) >> ((2 * x) as u64)) & 3
}

/// Draws the first `w.height` rows of window `w` into `buf` from its
/// graphical context `px`.
fn blit_window(buf: &mut Vec<Rgb>, w: &Window, px: &Vec<Rgba>, scr_height: usize, scr_width: usize)
    requires
        old(buf)@.len() == scr_height * scr_width,
        scr_height * scr_width <= usize::MAX,
        px@.len() == old(buf)@.len(),
        drawable(*w, scr_height as int, scr_width as int, px@.len() as int),
    ensures
        final(buf)@ == spec_blit_rows(old(buf)@, *w, px@, scr_width as int, w.height as nat),
        final(buf)@.len() == old(buf)@.len(),
{
    let mut wfbx: usize = 0;
    let mut r: u32 = 0;
    while r < w.height
        invariant
            r <= w.height,
            buf@.len() == old(buf)@.len(),
            old(buf)@.len() == scr_height * scr_width,
            scr_height * scr_width <= usize::MAX,
            px@.len() == old(buf)@.len(),
            drawable(*w, scr_height as int, scr_width as int, px@.len() as int),
            wfbx == r * w.width,
            buf@ == spec_blit_rows(old(buf)@, *w, px@, scr_width as int, r as nat),
        decreases w.height - r,
    {
        let ghost h = w.height as int;
        let ghost wd = w.width as int;
        let ghost ri = r as int;
        let ghost sw = scr_width as int;
        assert(row_start(*w, ri, sw) <= row_start(*w, h - 1, sw)) by (nonlinear_arith)
            requires
                0 <= ri <= h - 1,
                sw >= 0,
                row_start(*w, ri, sw) == (w.top + ri) * sw + w.left,
                row_start(*w, h - 1, sw) == (w.top + h - 1) * sw + w.left,
        ;
        assert(ri * wd + wd <= h * wd) by (nonlinear_arith)
            requires
                0 <= ri < h,
                wd >= 0,
        ;
        let mut sfbx: usize = ((w.top + r) as usize) * scr_width + (w.left as usize);
        let ghost before = buf@;
        let ghost start = sfbx as int;
        let mut c: u32 = 0;
        while c < w.width
            invariant
                c <= w.width,
                r < w.height,
                start == row_start(*w, r as int, scr_width as int),
                sfbx == start + c,
                wfbx == r * w.width + c,
                w.width > 0 ==> start + w.width <= buf@.len(),
                r * w.width + w.width <= px@.len(),
                px@.len() <= usize::MAX && buf@.len() <= usize::MAX,
                buf@.len() == before.len(),
                buf@ == spec_row_write(before, start, px@, r * w.width, c as int),
            decreases w.width - c,
        {
            let p = px[wfbx];
            buf.set(sfbx, (p.0, p.1, p.2));
            assert(buf@ =~= spec_row_write(before, start, px@, r * w.width, c + 1));
            wfbx = wfbx + 1;
            sfbx = sfbx + 1;
            c = c + 1;
        }
        assert(wfbx == (r + 1) * w.width) by (nonlinear_arith)
            requires
                wfbx == r * w.width + w.width,
        ;
        r = r + 1;
    }
}

/// Draws the mouse cursor into `buf` with its top left at (`cx`, `cy`),
/// clipped to the screen.
fn draw_cursor(buf: &mut Vec<Rgb>, cx: u32, cy: u32, scr_height: usize, scr_width: usize)
    requires
        old(buf)@.len() == scr_height * scr_width,
        scr_height * scr_width <= usize::MAX,
        cy <= scr_height,
        cy < scr_height ==> cx <= scr_width,
    ensures
        final(buf)@ == spec_draw_cursor(old(buf)@, cx as int, cy as int, scr_height as int, scr_width as int),
{
    let ghost sw = scr_width as int;
    let ghost xl = min_int(24, scr_width - cx);
    let ylim: usize = if scr_height - (cy as usize) < 24 {
        scr_height - (cy as usize)
    } else {
        24
    };
    assert(old(buf)@ =~= spec_cursor_partial(old(buf)@, cx as int, cy as int, sw, xl, 0, 0));
    let mut y: usize = 0;
    while y < ylim
        invariant
            y <= ylim,
            ylim == min_int(24, scr_height - cy),
            sw == scr_width,
            xl == min_int(24, scr_width - cx),
            old(buf)@.len() == scr_height * scr_width,
            scr_height * scr_width <= usize::MAX,
            cy <= scr_height,
            cy < scr_height ==> cx <= scr_width,
            buf@.len() == old(buf)@.len(),
            buf@ == spec_cursor_partial(old(buf)@, cx as int, cy as int, sw, xl, y as int, 0),
        decreases ylim - y,
    {
        let xlim: usize = if scr_width - (cx as usize) < 24 {
            scr_width - (cx as usize)
        } else {
            24
        };
        let ghost yy = y as int;
        let ghost row = (cy + yy) * sw;
        assert(row + sw <= scr_height * scr_width) by (nonlinear_arith)
            requires
                row == (cy + yy) * sw,
                cy + yy < scr_height,
                sw == scr_width,
                sw >= 0,
        ;
        let mut sfbx: usize = (cy as usize + y) * scr_width + cx as usize;
        let mut x: usize = 0;
        while x < xlim
            invariant
                x <= xlim,
                xlim == xl,
                y < ylim,
                ylim == min_int(24, scr_height - cy),
                sw == scr_width,
                xl == min_int(24, scr_width - cx),
                yy == y,
                row == (cy + yy) * sw,
                row + sw <= scr_height * scr_width,
                scr_height * scr_width <= usize::MAX,
                cx + xlim <= scr_width,
                sfbx == row + cx + x,
                old(buf)@.len() == scr_height * scr_width,
                buf@.len() == old(buf)@.len(),
                buf@ == spec_cursor_partial(old(buf)@, cx as int, cy as int, sw, xl, yy, x as int),
            decreases xlim - x,
        {
            let p = cursor_pixel(y, x);
            let ghost before = buf@;
            let ghost s = sfbx as int;
            let ghost xx = x as int;
            if p == 2 {
                buf.set(sfbx, (30, 30, 30));
            } else if p == 1 {
                buf.set(sfbx, (240, 240, 240));
            }
            proof {
                vstd::arithmetic::div_mod::lemma_fundamental_div_mod_converse_div(s, sw, cy + yy, cx + xx);
                vstd::arithmetic::div_mod::lemma_fundamental_div_mod_converse_mod(s, sw, cy + yy, cx + xx);
                assert(sw * (cy + yy) == row) by (nonlinear_arith)
                    requires
                        row == (cy + yy) * sw,
                ;
                let target = spec_cursor_partial(old(buf)@, cx as int, cy as int, sw, xl, yy, xx + 1);
                assert forall|k: int| 0 <= k < buf@.len() implies buf@[k] == target[k] by {
                    vstd::arithmetic::div_mod::lemma_fundamental_div_mod(k, sw);
                    if k == s {
                        assert(k / sw - cy == yy && k % sw - cx == xx);
                    } else {
                        assert(!(k / sw - cy == yy && k % sw - cx == xx));
                    }
                }
                assert(buf@ =~= target);
            }
            sfbx = sfbx + 1;
            x = x + 1;
        }
        assert(spec_cursor_partial(old(buf)@, cx as int, cy as int, sw, xl, yy, xl)
            =~= spec_cursor_partial(old(buf)@, cx as int, cy as int, sw, xl, yy + 1, 0));
        y = y + 1;
    }
}

/// Writes the pixels of `cur` that differ from `pre` (all of them for a
/// full update) to `pre` and returns them as frame-buffer writes.
fn flush_screen(cur: &Vec<Rgb>, pre: &mut Vec<Rgb>, full: bool, scr_height: usize, scr_width: usize) -> (writes: Vec<(u32, u32, Rgb)>)
    requires
        cur@.len() == scr_height * scr_width,
        old(pre)@.len() == cur@.len(),
        scr_height * scr_width <= usize::MAX,
        scr_height <= u32::MAX && scr_width <= u32::MAX,
    ensures
        final(pre)@ == cur@,
        writes@ == spec_screen_writes(cur@, old(pre)@, full, scr_width as int, (scr_height * scr_width) as nat),
{
    let ghost pre0 = pre@;
    let ghost sw = scr_width as int;
    let h = scr_height as u32;
    let w = scr_width as u32;
    let mut out: Vec<(u32, u32, Rgb)> = Vec::new();
    let mut px: usize = 0;
    let mut r: u32 = 0;
    while r < h
        invariant
            r <= h,
            h == scr_height && w == scr_width && sw == scr_width,
            px == r * sw,
            cur@.len() == scr_height * scr_width,
            scr_height * scr_width <= usize::MAX,
            pre0 == old(pre)@,
            pre0.len() == cur@.len(),
            pre@.len() == cur@.len(),
            forall|k: int| 0 <= k < pre@.len() ==> #[trigger] pre@[k] == if k < px { cur@[k] } else { pre0[k] },
            out@ == spec_screen_writes(cur@, pre0, full, sw, px as nat),
        decreases h - r,
    {
        let ghost ri = r as int;
        assert(ri * sw + sw <= scr_height * scr_width) by (nonlinear_arith)
            requires
                ri < scr_height,
                sw == scr_width,
                sw >= 0,
        ;
        let mut c: u32 = 0;
        while c < w
            invariant
                c <= w,
                r < h,
                ri == r,
                h == scr_height && w == scr_width && sw == scr_width,
                ri * sw + sw <= scr_height * scr_width,
                px == ri * sw + c,
                cur@.len() == scr_height * scr_width,
                scr_height * scr_width <= usize::MAX,
                pre0.len() == cur@.len(),
                pre@.len() == cur@.len(),
                forall|k: int| 0 <= k < pre@.len() ==> #[trigger] pre@[k] == if k < px { cur@[k] } else { pre0[k] },
                out@ == spec_screen_writes(cur@, pre0, full, sw, px as nat),
            decreases w - c,
        {
            let a = cur[px];
            let b = pre[px];
            proof {
                vstd::arithmetic::div_mod::lemma_fundamental_div_mod_converse_div(px as int, sw, ri, c as int);
                vstd::arithmetic::div_mod::lemma_fundamental_div_mod_converse_mod(px as int, sw, ri, c as int);
            }
            if a.0 != b.0 || a.1 != b.1 || a.2 != b.2 || full {
                out.push((r, c, a));
                pre.set(px, a);
            }
            px = px + 1;
            c = c + 1;
        }
        assert(px == (ri + 1) * sw) by (nonlinear_arith)
            requires
                px == ri * sw + sw,
        ;
        r = r + 1;
    }
    assert(px == scr_height * scr_width);
    assert(pre@ =~= cur@);
    out
}

impl GUI {
    /// The screen composed from the buffer being composed: the windows to
    /// be drawn again, from back to front, from their graphical contexts
    /// `pxs`, then the mouse cursor at `cursor` (x, y).
    pub open spec fn spec_screen(&self, pxs: Seq<Vec<Rgba>>, cursor: (u32, u32)) -> Seq<Rgb> {
        spec_draw_cursor(
            spec_compose(self.sfb(self.cur_buf as int), self.windows@, pxs, self.sc_width as int, self.windows@.len()),
            cursor.0 as int,
            cursor.1 as int,
            self.sc_height as int,
            self.sc_width as int,
        )
    }

    /// Each window to be drawn again has its graphical context (of the
    /// screen's size) in `pxs` and can be drawn.
    pub open spec fn can_draw(&self, pxs: Seq<Vec<Rgba>>) -> bool {
        &&& pxs.len() == self.windows@.len()
        &&& forall|i: int|
            0 <= i < self.windows@.len() && (#[trigger] self.windows@[i]).redraw ==> pxs[i]@.len()
                == self.pxl_cnt && drawable(self.windows@[i], self.sc_height as int, self.sc_width as int, self.pxl_cnt as int)
    }

    /// Updates the screen: draws the windows to be drawn again (window `i`
    /// from its graphical context `wpixels[i]`) and the mouse cursor at
    /// `cursor` (x, y) into the buffer being composed, and returns the
    /// frame-buffer writes of the pixels that changed since the last update
    /// (of all of them for a full update). Afterwards both buffers hold the
    /// new screen and they trade places; no window is left to be drawn and
    /// no update is due.
    pub fn update_screen(&mut self, full_update: bool, wpixels: &Vec<Vec<Rgba>>, cursor: (u32, u32)) -> (writes: Vec<(u32, u32, Rgb)>)
        requires
            old(self).wf(),
            old(self).can_draw(wpixels@),
            cursor.1 <= old(self).sc_height,
            cursor.1 < old(self).sc_height ==> cursor.0 <= old(self).sc_width,
        ensures
            final(self).wf(),
            final(self).cur_buf == old(self).pre_buf && final(self).pre_buf == old(self).cur_buf,
            final(self).sfb0@ == old(self).spec_screen(wpixels@, cursor),
            final(self).sfb1@ == old(self).spec_screen(wpixels@, cursor),
            writes@ == spec_screen_writes(
                old(self).spec_screen(wpixels@, cursor),
                old(self).sfb(old(self).pre_buf as int),
                full_update,
                old(self).sc_width as int,
                old(self).pxl_cnt as nat,
            ),
            final(self).windows@.len() == old(self).windows@.len(),
            forall|k: int|
                0 <= k < old(self).windows@.len() ==> #[trigger] final(self).windows@[k] == with_redraw(
                    old(self).windows@[k],
                    false,
                ),
            final(self).pending_update is None,
            final(self).next_whnd == old(self).next_whnd,
            final(self).sc_height == old(self).sc_height && final(self).sc_width == old(self).sc_width,
            final(self).pxl_cnt == old(self).pxl_cnt,
    {
        let mut cur: Vec<Rgb> = Vec::new();
        let mut pre: Vec<Rgb> = Vec::new();
        if self.cur_buf == 0 {
            std::mem::swap(&mut cur, &mut self.sfb0);
            std::mem::swap(&mut pre, &mut self.sfb1);
        } else {
            std::mem::swap(&mut cur, &mut self.sfb1);
            std::mem::swap(&mut pre, &mut self.sfb0);
        }
        let ghost cur0 = cur@;
        let ghost pre0 = pre@;
        assert(cur0 == old(self).sfb(old(self).cur_buf as int));
        assert(pre0 == old(self).sfb(old(self).pre_buf as int));
        let h = self.sc_height;
        let wd = self.sc_width;
        let n = self.windows.len();
        let mut i: usize = 0;
        while i < n
            invariant
                i <= n,
                n == old(self).windows@.len(),
                self.windows@.len() == n,
                h == old(self).sc_height && wd == old(self).sc_width,
                self.cur_buf == old(self).cur_buf && self.pre_buf == old(self).pre_buf,
                self.sc_height == old(self).sc_height && self.sc_width == old(self).sc_width,
                self.pxl_cnt == old(self).pxl_cnt && self.next_whnd == old(self).next_whnd,
                old(self).wf(),
                old(self).can_draw(wpixels@),
                cur@.len() == old(self).pxl_cnt,
                cur@ == spec_compose(cur0, old(self).windows@, wpixels@, wd as int, i as nat),
                forall|k: int|
                    0 <= k < n ==> #[trigger] self.windows@[k] == if k < i {
                        with_redraw(old(self).windows@[k], false)
                    } else {
                        old(self).windows@[k]
                    },
            decreases n - i,
        {
            let w = self.windows[i];
            assert(w == old(self).windows@[i as int]);
            if w.redraw {
                blit_window(&mut cur, &w, &wpixels[i], h, wd);
                let mut w2 = w;
                w2.redraw = false;
                self.windows.set(i, w2);
            }
            i = i + 1;
        }
        draw_cursor(&mut cur, cursor.0, cursor.1, h, wd);
        let writes = flush_screen(&cur, &mut pre, full_update, h, wd);
        if self.cur_buf == 0 {
            self.sfb0 = cur;
            self.sfb1 = pre;
        } else {
            self.sfb1 = cur;
            self.sfb0 = pre;
        }
        let c = self.cur_buf;
        self.cur_buf = self.pre_buf;
        self.pre_buf = c;
        self.pending_update = None;
        writes
    }
}

/// With no window to be drawn again, composing leaves the buffer as it is.
proof fn lemma_compose_none(buf: Seq<Rgb>, ws: Seq<Window>, pxs: Seq<Vec<Rgba>>, scr_width: int, n: nat)
    requires
        n <= ws.len(),
        forall|i: int| 0 <= i < n ==> !(#[trigger] ws[i]).redraw,
    ensures
        spec_compose(buf, ws, pxs, scr_width, n) == buf,
    decreases n,
{
    if n > 0 {
        lemma_compose_none(buf, ws, pxs, scr_width, (n - 1) as nat);
    }
}

/// A buffer compared with itself gives no write, but in a full update.
proof fn lemma_writes_same(s: Seq<Rgb>, scr_width: int, n: nat)
    requires
        n <= s.len(),
    ensures
        spec_screen_writes(s, s, false, scr_width, n) == Seq::<(u32, u32, Rgb)>::empty(),
    decreases n,
{
    if n > 0 {
        lemma_writes_same(s, scr_width, (n - 1) as nat);
    }
}

/// An update of the screen with nothing changed (no window to be drawn
/// again, the cursor where it was drawn last) writes nothing to the frame
/// buffer, unless it is a full update.
pub proof fn lemma_repeat_update_writes_nothing(
    before: GUI,
    after: GUI,
    pxs: Seq<Vec<Rgba>>,
    pxs2: Seq<Vec<Rgba>>,
    cursor: (u32, u32),
)
    requires
        after.wf(),
        after.sc_height == before.sc_height && after.sc_width == before.sc_width,
        after.sfb0@ == before.spec_screen(pxs, cursor),
        after.sfb1@ == before.spec_screen(pxs, cursor),
        forall|i: int| 0 <= i < after.windows@.len() ==> !(#[trigger] after.windows@[i]).redraw,
    ensures
        spec_screen_writes(
            after.spec_screen(pxs2, cursor),
            after.sfb(after.pre_buf as int),
            false,
            after.sc_width as int,
            after.pxl_cnt as nat,
        ) == Seq::<(u32, u32, Rgb)>::empty(),
{
    let s = before.spec_screen(pxs, cursor);
    let w = after.sc_width as int;
    let cx = cursor.0 as int;
    let cy = cursor.1 as int;
    let h = after.sc_height as int;
    lemma_compose_none(after.sfb(after.cur_buf as int), after.windows@, pxs2, w, after.windows@.len());
    assert(after.sfb(after.cur_buf as int) == s);
    assert(after.spec_screen(pxs2, cursor) == spec_draw_cursor(s, cx, cy, h, w));
    assert(spec_draw_cursor(s, cx, cy, h, w) =~= s);
    assert(after.sfb(after.pre_buf as int) == s);
    lemma_writes_same(s, w, after.pxl_cnt as nat);
}

} // verus!
