//! Raspberry Pi (BCM2835/2836) machine support: the VideoCore mailbox, the
//! interrupt controllers, exception classification and task contexts.
//! Register accesses are performed by the caller with the values computed
//! here.
use vstd::prelude::*;
use crate::arch::aarch64::fdt::{FdtDeviceType, FdtMachineResources, FdtPeripheral, StrRef};
use crate::arch::x86_64::stub::FrameBufferInfo;

verus! {

// ---------------------------------------------------------------------------
// Strings of the device tree
// ---------------------------------------------------------------------------

/// The string `r` of the blob holds `pat` somewhere.
pub open spec fn str_contains(s: Seq<u8>, r: StrRef, pat: Seq<u8>) -> bool {
    exists|k: int|
        0 <= k && k + pat.len() <= r.len && r.off + k + pat.len() <= s.len()
            && #[trigger] s.subrange(r.off + k, r.off + k + pat.len()) == pat
}

/// Whether the string `r` of the blob holds `pat`.
pub fn contains(s: &[u8], r: StrRef, pat: &[u8]) -> (b: bool)
    ensures
        b == str_contains(s@, r, pat@),
{
    if pat.len() > r.len {
        return false;
    }
    let n = s.len();
    let last = r.len - pat.len();
    let mut k: usize = 0;
    while k <= last
        invariant
            n == s@.len(),
            last == r.len - pat@.len(),
            pat@.len() <= r.len,
            forall|j: int|
                0 <= j < k ==> !(j + pat@.len() <= r.len && r.off + j + pat@.len() <= s@.len()
                    && #[trigger] s@.subrange(r.off + j, r.off + j + pat@.len()) == pat@),
        decreases last + 1 - k,
    {
        if r.off <= n && k <= n - r.off && pat.len() <= n - r.off - k {
            let mut i: usize = 0;
            let mut same = true;
            while i < pat.len()
                invariant
                    r.off + k + pat@.len() <= n,
                    n == s@.len(),
                    i <= pat@.len(),
                    same <==> forall|q: int| 0 <= q < i ==> s@[r.off + k + q] == pat@[q],
                decreases pat@.len() - i,
            {
                if s[r.off + k + i] != pat[i] {
                    same = false;
                }
                i = i + 1;
            }
            if same {
                assert(s@.subrange(r.off + k, r.off + k + pat@.len()) =~= pat@);
                return true;
            } else {
                proof {
                    if s@.subrange(r.off + k, r.off + k + pat@.len()) == pat@ {
                        assert forall|q: int| 0 <= q < pat@.len() implies s@[r.off + k + q] == pat@[q] by {
                            assert(s@.subrange(r.off + k, r.off + k + pat@.len())[q] == pat@[q]);
                        }
                    }
                }
            }
        }
        if k == last {
            return false;
        }
        k = k + 1;
    }
    false
}

// ---------------------------------------------------------------------------
// VideoCore mailbox
// ---------------------------------------------------------------------------

pub const MBOX_REG_READ: usize = 0x0;
pub const MBOX_REG_STATUS: usize = 0x18;
pub const MBOX_REG_WRITE: usize = 0x20;
pub const MBOX_STATUS_FULL: u32 = 0x80000000;
pub const MBOX_STATUS_EMPTY: u32 = 0x40000000;
pub const MBOX_TAG_RESPONSE: u32 = 0x80000000;
/// Words of a mailbox message.
pub const MBOX_MSG_WORDS: usize = 36;

/// The mailbox to the VideoCore firmware. Messages go through `mbox` from
/// index `mbox_start`, the first 16-byte aligned word.
pub struct BCM2835MailBox {
    pub mmio_base: usize,
    pub mbox_start: usize,
    pub mbox: [u32; 52],
}

/// The index of the first 16-byte aligned word of a buffer at `addr`
/// (among the first 15; 0 when none is).
pub open spec fn aligned_start(addr: usize, i: int) -> int
    decreases 15 - i,
{
    if i >= 15 || i < 0 {
        0
    } else if (addr + 4 * i) % 16 == 0 {
        i
    } else {
        aligned_start(addr, i + 1)
    }
}

proof fn lemma_aligned_start(addr: usize, i: int)
    ensures
        0 <= aligned_start(addr, i) < 15,
    decreases 15 - i,
{
    if !(i >= 15 || i < 0) && (addr + 4 * i) % 16 != 0 {
        lemma_aligned_start(addr, i + 1);
    }
}

impl BCM2835MailBox {
    pub fn new() -> (m: Self)
        ensures
            m.mmio_base == 0 && m.mbox_start == 0,
            forall|i: int| 0 <= i < 52 ==> m.mbox@[i] == 0,
    {
        BCM2835MailBox { mmio_base: 0, mbox_start: 0, mbox: [0u32; 52] }
    }

    /// Sets the register window and picks the aligned start of the message
    /// buffer, whose first word is at `mbox_addr`.
    pub fn init(&mut self, mmio_addr: usize, mbox_addr: usize)
        requires
            mbox_addr + 64 <= usize::MAX,
        ensures
            final(self).mmio_base == mmio_addr,
            final(self).mbox_start == aligned_start(mbox_addr, 0),
            final(self).mbox_start < 15,
            final(self).mbox == old(self).mbox,
    {
        self.mmio_base = mmio_addr;
        let mut i: usize = 0;
        proof { lemma_aligned_start(mbox_addr, 0); }
        while i < 15
            invariant
                i <= 15,
                self.mmio_base == mmio_addr,
                self.mbox == old(self).mbox,
                mbox_addr + 64 <= usize::MAX,
                aligned_start(mbox_addr, 0) == aligned_start(mbox_addr, i as int),
            decreases 15 - i,
        {
            if (mbox_addr + 4 * i) % 16 == 0 {
                self.mbox_start = i;
                return;
            }
            i = i + 1;
        }
        self.mbox_start = 0;
    }

    /// Copies the 36-word message into the buffer and returns the command
    /// word to write (the buffer's address with the channel in the low
    /// nibble) once the mailbox is not full.
    pub fn call(&mut self, ch: u8, msg: &[u32], mbox_addr: usize) -> (cmd: u32)
        requires
            msg@.len() >= MBOX_MSG_WORDS,
            old(self).mbox_start < 15,
            mbox_addr + 64 <= usize::MAX,
        ensures
            forall|i: int| 0 <= i < 36 ==> final(self).mbox@[old(self).mbox_start + i] == msg@[i],
            final(self).mbox_start == old(self).mbox_start,
            final(self).mmio_base == old(self).mmio_base,
            cmd == ((mbox_addr + 4 * old(self).mbox_start) as u32) | (ch as u32 & 0xF),
    {
        let start = self.mbox_start;
        let mut i: usize = 0;
        while i < MBOX_MSG_WORDS
            invariant
                i <= 36,
                start < 15,
                self.mbox_start == start,
                self.mmio_base == old(self).mmio_base,
                msg@.len() >= 36,
                forall|k: int| 0 <= k < i ==> self.mbox@[start + k] == msg@[k],
            decreases 36 - i,
        {
            self.mbox[start + i] = msg[i];
            i = i + 1;
        }
        ((mbox_addr + 4 * start) as u32) | (ch as u32 & 0xF)
    }

    /// Handles a word read from the mailbox: the answer to `cmd` when it is
    /// a successful response, copied back into `msg`.
    pub fn response(&self, read: u32, cmd: u32, msg: &mut [u32]) -> (done: bool)
        requires
            old(msg)@.len() >= MBOX_MSG_WORDS,
            self.mbox_start < 15,
        ensures
            done == (read == cmd && self.mbox@[self.mbox_start + 1] == MBOX_TAG_RESPONSE),
            done ==> final(msg)@.len() == old(msg)@.len() && forall|i: int|
                0 <= i < 36 ==> final(msg)@[i] == self.mbox@[self.mbox_start + i],
            !done ==> final(msg)@ == old(msg)@,
    {
        if read != cmd || self.mbox[self.mbox_start + 1] != MBOX_TAG_RESPONSE {
            return false;
        }
        let mut i: usize = 0;
        while i < MBOX_MSG_WORDS
            invariant
                i <= 36,
                self.mbox_start < 15,
                msg@.len() == old(msg)@.len(),
                old(msg)@.len() >= 36,
                forall|k: int| 0 <= k < i ==> msg@[k] == self.mbox@[self.mbox_start + k],
            decreases 36 - i,
        {
            msg[i] = self.mbox[self.mbox_start + i];
            i = i + 1;
        }
        true
    }
}

/// The VideoCore, reached through a mailbox.
pub struct BCM2835VideoCore {
    pub mmio_base: usize,
    pub mbox: BCM2835MailBox,
    pub enabled: bool,
}

/// "bcm2835-mbox"
pub open spec fn compat_mbox() -> Seq<u8> {
    seq![0x62u8, 0x63, 0x6d, 0x32, 0x38, 0x33, 0x35, 0x2d, 0x6d, 0x62, 0x6f, 0x78]
}

/// The first mailbox device compatible with the BCM2835's.
pub open spec fn first_mailbox(s: Seq<u8>, devs: Seq<FdtPeripheral>, k: int) -> bool {
    &&& 0 <= k < devs.len()
    &&& devs[k].dev_type == FdtDeviceType::MailBox && str_contains(s, devs[k].compat, compat_mbox())
    &&& forall|j: int|
        0 <= j < k ==> !(devs[j].dev_type == FdtDeviceType::MailBox && str_contains(
            s,
            devs[j].compat,
            compat_mbox(),
        ))
}

/// The property message that asks for a 1920x1080, 32-bit frame buffer
/// and its pitch.
pub open spec fn fb_request_msg() -> Seq<u32> {
    seq![
        140u32, 0, 0x48003, 8, 8, 1920, 1080, 0x48004, 8, 8, 1920, 1080, 0x48009, 8, 8, 0, 0,
        0x48005, 4, 4, 32, 0x48006, 4, 4, 0, 0x40001, 8, 8, 4096, 0, 0x40008, 4, 4, 0, 0, 0,
    ]
}

/// The property channel.
pub const MBOX_CH_PROP: u8 = 8;

impl BCM2835VideoCore {
    pub fn new() -> (v: Self)
        ensures
            v.mmio_base == 0 && !v.enabled && v.mbox.mmio_base == 0 && v.mbox.mbox_start == 0,
    {
        BCM2835VideoCore { mmio_base: 0, mbox: BCM2835MailBox::new(), enabled: false }
    }

    /// Sets the register window and takes the first compatible mailbox of
    /// the device tree (`s` is the tree's blob, `mbox_addr` where the
    /// message buffer lies); without one the VideoCore stays disabled.
    pub fn init(&mut self, mmio_addr: usize, dt: &FdtMachineResources, s: &[u8], mbox_addr: usize)
        requires
            mbox_addr + 64 <= usize::MAX,
        ensures
            final(self).mmio_base == mmio_addr,
            (exists|k: int| first_mailbox(s@, dt.devices@, k)) ==> {
                let k = choose|k: int| first_mailbox(s@, dt.devices@, k);
                &&& final(self).enabled
                &&& final(self).mbox.mmio_base == dt.devices@[k].mmio_base
                &&& final(self).mbox.mbox_start == aligned_start(mbox_addr, 0)
            },
            !(exists|k: int| first_mailbox(s@, dt.devices@, k)) ==> final(self).enabled == old(self).enabled
                && final(self).mbox.mmio_base == old(self).mbox.mmio_base,
    {
        self.mmio_base = mmio_addr;
        let pat: [u8; 12] = [0x62, 0x63, 0x6d, 0x32, 0x38, 0x33, 0x35, 0x2d, 0x6d, 0x62, 0x6f, 0x78];
        assert(pat@ =~= compat_mbox());
        let mut i: usize = 0;
        while i < dt.devices.len()
            invariant
                i <= dt.devices@.len(),
                mbox_addr + 64 <= usize::MAX,
                pat@ == compat_mbox(),
                self.mmio_base == mmio_addr,
                self.enabled == old(self).enabled,
                self.mbox.mmio_base == old(self).mbox.mmio_base,
                forall|j: int|
                    0 <= j < i ==> !(dt.devices@[j].dev_type == FdtDeviceType::MailBox && str_contains(
                        s@,
                        dt.devices@[j].compat,
                        compat_mbox(),
                    )),
            decreases dt.devices@.len() - i,
        {
            let d = dt.devices[i];
            if d.dev_type == FdtDeviceType::MailBox && contains(s, d.compat, &pat) {
                self.mbox.init(d.mmio_base, mbox_addr);
                self.enabled = true;
                proof {
                    assert(first_mailbox(s@, dt.devices@, i as int));
                    let k = choose|k: int| first_mailbox(s@, dt.devices@, k);
                    if k < i {
                    } else if k > i {
                        assert(!(dt.devices@[i as int].dev_type == FdtDeviceType::MailBox && str_contains(
                            s@,
                            dt.devices@[i as int].compat,
                            compat_mbox(),
                        )));
                    }
                }
                return;
            }
            i = i + 1;
        }
    }

    /// The frame buffer request sent on the property channel.
    pub fn fb_request() -> (msg: [u32; 36])
        ensures
            msg@ == fb_request_msg(),
    {
        let msg: [u32; 36] = [
            140, 0, 0x48003, 8, 8, 1920, 1080, 0x48004, 8, 8, 1920, 1080, 0x48009, 8, 8, 0, 0,
            0x48005, 4, 4, 32, 0x48006, 4, 4, 0, 0x40001, 8, 8, 4096, 0, 0x40008, 4, 4, 0, 0, 0,
        ];
        assert(msg@ =~= fb_request_msg());
        msg
    }

    /// The frame buffer the firmware granted, from its answer: it must have
    /// kept the 32-bit depth and given an address (a bus address, whose top
    /// bits are dropped); grey background and blue text.
    pub fn fb_from_response(msg: &[u32]) -> (fb: Option<FrameBufferInfo>)
        requires
            msg@.len() >= MBOX_MSG_WORDS,
        ensures
            !(msg@[20] == 32 && msg@[28] != 0) ==> fb is None,
            msg@[20] == 32 && msg@[28] != 0 ==> (fb matches Some(f) && f.width == msg@[5]
                && f.height == msg@[6] && f.pitch == msg@[33] && f.bpp == 32
                && f.base_address == (msg@[28] & 0x3FFFFFFF) as usize
                && f.background_rgb == (200u8, 200u8, 200u8) && f.foreground_rgb == (0u8, 0u8, 220u8)),
    {
        if !(msg[20] == 32 && msg[28] != 0) {
            return None;
        }
        Some(FrameBufferInfo {
            base_address: (msg[28] & 0x3FFFFFFF) as usize,
            pitch: msg[33],
            width: msg[5],
            height: msg[6],
            bpp: 32,
            red_field_position: 0,
            red_mask_size: 0,
            green_field_position: 0,
            green_mask_size: 0,
            blue_field_position: 0,
            blue_mask_size: 0,
            background_rgb: (200, 200, 200),
            foreground_rgb: (0, 0, 220),
        })
    }
}

// ---------------------------------------------------------------------------
// Interrupt controllers
// ---------------------------------------------------------------------------

pub const L1_REG_CORE_TIMER_INT_CTL: usize = 0x40;
pub const L1_REG_CORE_IRQ_SRC: usize = 0x60;

/// The per-core controller of the timer, PMU and IPI interrupts.
pub struct BCM2836L1IntCtl {
    pub mmio_base: usize,
}

impl BCM2836L1IntCtl {
    pub fn new() -> (c: Self)
        ensures
            c.mmio_base == 0,
    {
        BCM2836L1IntCtl { mmio_base: 0 }
    }

    pub fn init(&mut self, mmio_addr: usize)
        ensures
            final(self).mmio_base == mmio_addr,
    {
        self.mmio_base = mmio_addr;
    }

    /// The write that masks (0) or routes as FIQ (2) the timer interrupt of
    /// core `cpu`; nothing before `init`.
    pub fn mask_core_timer_irq(&self, cpu: usize, irq_masked: bool) -> (w: Option<(usize, u32)>)
        requires
            cpu < 4,
        ensures
            self.mmio_base == 0 ==> w is None,
            self.mmio_base > 0 ==> w == Some(
                ((L1_REG_CORE_TIMER_INT_CTL + cpu * 4) as usize, if irq_masked { 0u32 } else { 2u32 }),
            ),
    {
        if self.mmio_base == 0 {
            return None;
        }
        Some((L1_REG_CORE_TIMER_INT_CTL + cpu * 4, if irq_masked { 0 } else { 2 }))
    }

    /// The interrupt source register of core `cpu`.
    pub fn core_irq_src_reg(cpu: usize) -> (r: usize)
        requires
            cpu < 4,
        ensures
            r == L1_REG_CORE_IRQ_SRC + cpu * 4,
    {
        L1_REG_CORE_IRQ_SRC + cpu * 4
    }

    /// Whether the timer interrupt is pending, from the source register
    /// (which reads as 0 before `init`).
    pub fn core_timer_irq_status(&self, src: u32) -> (b: bool)
        ensures
            b == (self.mmio_base > 0 && src & 2 > 0),
    {
        self.mmio_base > 0 && src & 2 > 0
    }
}

/// The peripherals' interrupt controller.
pub struct BCM2836IntCtl {
    pub mmio_base: usize,
}

impl BCM2836IntCtl {
    pub fn new() -> (c: Self)
        ensures
            c.mmio_base == 0,
    {
        BCM2836IntCtl { mmio_base: 0 }
    }

    pub fn init(&mut self, base_addr: usize)
        ensures
            final(self).mmio_base == base_addr,
    {
        self.mmio_base = base_addr;
    }

    /// The pending interrupts from the three pending registers (0x60,
    /// 0x04, 0x08) as read; all zero before `init`.
    pub fn pending_irqs(&self, basic: u32, pend1: u32, pend2: u32) -> (p: (u32, u32, u32))
        ensures
            self.mmio_base == 0 ==> p == (0u32, 0u32, 0u32),
            self.mmio_base > 0 ==> p == (basic, pend1, pend2),
    {
        if self.mmio_base == 0 {
            (0, 0, 0)
        } else {
            (basic, pend1, pend2)
        }
    }
}

// ---------------------------------------------------------------------------
// Processor state
// ---------------------------------------------------------------------------

/// The exception level, from CurrentEL.
pub fn aarch64_cur_exc_lvl(current_el: usize) -> (l: usize)
    ensures
        l == current_el >> 2usize,
{
    current_el >> 2usize
}

/// The core number, from MPIDR_EL1.
pub fn cpu_id(mpidr_el1: usize) -> (id: usize)
    ensures
        id == mpidr_el1 & 0xFF,
{
    mpidr_el1 & 0xFF
}

/// Whether interrupts are enabled: no DAIF mask bit set.
pub fn cpu_ints_enabled(daif: usize) -> (b: bool)
    ensures
        b == (daif & 0x3c0 == 0),
{
    daif & 0x3c0 == 0
}

/// SPSR_EL1 with the interrupt mask bits cleared.
pub fn aarch64_spsr_el1_unmask_ints(spsr: usize) -> (v: usize)
    ensures
        v == spsr & !0x3c0usize,
{
    spsr & !0x3c0usize
}

/// What an exception taken from EL0 calls for.
#[derive(Clone, Copy, Debug, PartialEq, Eq, Structural)]
pub enum LowerElAction {
    /// A system call (SVC #1000)
    Syscall,
    /// SVC #1001 from EL0, which only the kernel may issue: a kernel error
    TimerFromUser,
    /// Another SVC: logged
    OtherSvc,
    /// A data abort: a kernel error
    DataAbort,
    /// Execution outside the user range: the page-fault handler decides
    PageFault { addr: usize },
    /// An unknown exception inside the user range: a kernel error
    UnknownException,
    /// Anything else: a kernel error
    Unhandled { class: usize },
}

/// The exception class of a syndrome.
pub open spec fn exc_class(syndrome: usize) -> usize {
    (syndrome & 0xFC000000) >> 26usize
}

/// Classifies an exception from EL0 by its syndrome and the address of
/// the faulting instruction.
pub fn classify_lower_el_exception(syndrome: usize, inst_addr: usize, min_virtual: usize, max_virtual: usize) -> (a: LowerElAction)
    ensures
        a == if exc_class(syndrome) == 0x15 {
            if syndrome & 0x1FFFFFF == 1000 {
                LowerElAction::Syscall
            } else if syndrome & 0x1FFFFFF == 1001 {
                LowerElAction::TimerFromUser
            } else {
                LowerElAction::OtherSvc
            }
        } else if exc_class(syndrome) == 0x24 {
            LowerElAction::DataAbort
        } else if exc_class(syndrome) == 0 {
            if inst_addr < min_virtual || inst_addr >= max_virtual {
                LowerElAction::PageFault { addr: inst_addr }
            } else {
                LowerElAction::UnknownException
            }
        } else {
            LowerElAction::Unhandled { class: exc_class(syndrome) }
        },
{
    let class = (syndrome & 0xFC000000) >> 26usize;
    let iss = syndrome & 0x1FFFFFF;
    if class == 0x15 {
        if iss == 1000 {
            LowerElAction::Syscall
        } else if iss == 1001 {
            LowerElAction::TimerFromUser
        } else {
            LowerElAction::OtherSvc
        }
    } else if class == 0x24 {
        LowerElAction::DataAbort
    } else if class == 0 {
        if inst_addr < min_virtual || inst_addr >= max_virtual {
            LowerElAction::PageFault { addr: inst_addr }
        } else {
            LowerElAction::UnknownException
        }
    } else {
        LowerElAction::Unhandled { class }
    }
}

// ---------------------------------------------------------------------------
// Tasks
// ---------------------------------------------------------------------------

/// Where a task starts and its saved stack pointer.
#[derive(Clone, Copy, Debug)]
pub struct TaskContext {
    pub ep: u64,
    pub sp: u64,
    pub tid: usize,
}

/// Words of the initial frame.
pub const TASK_FRAME_WORDS: usize = 100;

impl TaskContext {
    pub fn new() -> (t: Self)
        ensures
            t.ep == 0 && t.sp == 0 && t.tid == 0,
    {
        TaskContext { ep: 0, sp: 0, tid: 0 }
    }

    /// Prepares `stack` (whose first word is at `stack_addr`) so that the
    /// first switch runs `launch` with this context (x0) and `func_arg`
    /// (x1): `launch` in x30 and in ELR_EL1, SPSR for EL1h with interrupts
    /// on, two watermarks at the bottom of the frame; the other words of the
    /// last 100 are left as they were.
    pub fn init(&mut self, id: usize, func: u64, func_arg: u64, stack: &mut [u64], stack_addr: u64, ctx_addr: u64, launch: u64)
        requires
            old(stack)@.len() >= TASK_FRAME_WORDS,
            stack_addr + 8 * old(stack)@.len() <= u64::MAX,
        ensures
            ({
                let n = old(stack)@.len() as int;
                final(stack)@ == old(stack)@.update(n - 1, func_arg).update(n - 2, ctx_addr).update(
                    n - 32,
                    launch,
                ).update(n - 97, launch).update(n - 98, 5u64).update(n - 99, 0x1234u64).update(
                    n - 100,
                    0x1234u64,
                )
            }),
            final(self).ep == func,
            final(self).tid == id,
            final(self).sp == stack_addr + 8 * (old(stack)@.len() - 100),
    {
        let n = stack.len();
        stack[n - 1] = func_arg;
        stack[n - 2] = ctx_addr;
        stack[n - 32] = launch;
        stack[n - 97] = launch;
        stack[n - 98] = 0x5;
        stack[n - 99] = 0x1234;
        stack[n - 100] = 0x1234;
        self.ep = func;
        self.sp = stack_addr + 8 * (n as u64 - 100);
        self.tid = id;
    }
}

} // verus!
