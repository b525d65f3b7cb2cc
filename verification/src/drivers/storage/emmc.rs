//! The BCM2835 SD host controller (eMMC): the clock divider, how command
//! responses and interrupt states are read, the card's reset sequence and
//! the reads of blocks. The register accesses and waits stay with the
//! caller, which performs each step's action and reports what came of it.
use vstd::prelude::*;
use crate::drivers::storage::{BusType, Disk, IOCompletion, IOOperation, IORequest};

verus! {

pub const REG_ARG2: usize = 0x00;
pub const REG_BLKSIZECNT: usize = 0x04;
pub const REG_ARG1: usize = 0x08;
pub const REG_CMDTM: usize = 0x0C;
pub const REG_RESP0: usize = 0x10;
pub const REG_RESP1: usize = 0x14;
pub const REG_RESP2: usize = 0x18;
pub const REG_RESP3: usize = 0x1C;
pub const REG_DATA: usize = 0x20;
pub const REG_STATUS: usize = 0x24;
pub const REG_CONTROL0: usize = 0x28;
pub const REG_CONTROL1: usize = 0x2C;
pub const REG_INTERRUPT: usize = 0x30;
pub const REG_INT_MASK: usize = 0x34;
pub const REG_INT_EN: usize = 0x38;
pub const REG_CONTROL2: usize = 0x3C;
pub const REG_SLOTISR_VER: usize = 0xFC;

pub const CMD_GO_IDLE: u32 = 0x00000000;
pub const CMD_ALL_SEND_CID: u32 = 0x02010000;
pub const CMD_SEND_REL_ADDR: u32 = 0x03020000;
pub const CMD_CARD_SELECT: u32 = 0x07030000;
pub const CMD_SEND_IF_COND: u32 = 0x08020000;
pub const CMD_STOP_TRANS: u32 = 0x0C030000;
pub const CMD_READ_SINGLE: u32 = 0x11220010;
pub const CMD_READ_MULTI: u32 = 0x12220032;
pub const CMD_SET_BLOCKCNT: u32 = 0x17020000;
pub const CMD_APP_CMD: u32 = 0x37000000;
pub const CMD_SET_BUS_WIDTH: u32 = 0x86020000;
pub const CMD_SEND_OP_COND: u32 = 0xA9020000;
pub const CMD_SEND_SCR: u32 = 0xB3220010;
/// The command is an application command (sent after CMD_APP_CMD)
pub const CMD_NEED_APP: u32 = 0x80000000;
pub const CMD_RSPNS_48: u32 = 0x00020000;
pub const CMD_ERRORS_MASK: u32 = 0xfff9c004;
pub const CMD_RCA_MASK: u32 = 0xffff0000;

pub const SR_READ_AVAILABLE: u32 = 0x00000800;
pub const SR_DAT_INHIBIT: u32 = 0x00000002;
pub const SR_CMD_INHIBIT: u32 = 0x00000001;
pub const SR_APP_CMD: u32 = 0x00000020;

pub const INT_DATA_TIMEOUT: u32 = 0x00100000;
pub const INT_CMD_TIMEOUT: u32 = 0x00010000;
pub const INT_READ_RDY: u32 = 0x00000020;
pub const INT_CMD_DONE: u32 = 0x00000001;
pub const INT_ERROR_MASK: u32 = 0x017E8000;

pub const C0_HCTL_DWITDH: u32 = 0x00000002;
pub const C1_SRST_HC: u32 = 0x01000000;
pub const C1_TOUNIT_MAX: u32 = 0x000e0000;
pub const C1_CLK_EN: u32 = 0x00000004;
pub const C1_CLK_STABLE: u32 = 0x00000002;
pub const C1_CLK_INTLEN: u32 = 0x00000001;

pub const HOST_SPEC_NUM: u32 = 0x00ff0000;
pub const HOST_SPEC_V2: u32 = 1;

pub const SCR_SD_BUS_WIDTH_4: u32 = 0x00000400;
pub const SCR_SUPP_SET_BLKCNT: u32 = 0x02000000;
/// The card addresses blocks (not bytes); kept in the SCR's low bit by the
/// driver
pub const SCR_SUPP_CCS: u32 = 0x00000001;

pub const ACMD41_VOLTAGE: u32 = 0x00ff8000;
pub const ACMD41_CMD_COMPLETE: u32 = 0x80000000;
pub const ACMD41_CMD_CCS: u32 = 0x40000000;
pub const ACMD41_ARG_HC: u32 = 0x51ff8000;

pub const SD_OK: u32 = 0;
pub const SD_ERROR: u32 = 1;
pub const SD_TIMEOUT: u32 = 2;

/// The base clock (Hz) the divider divides.
pub const SD_BASE_CLOCK: u32 = 41666666;
/// The SD card's sector count (not read from the card).
pub const SD_SECTOR_COUNT: u64 = 2097152;

// ---------------------------------------------------------------------------
// The clock
// ---------------------------------------------------------------------------

/// The position of the highest set bit of `x` (0 for 0 and 1).
pub open spec fn floor_log2(x: nat) -> nat
    decreases x,
{
    if x <= 1 {
        0
    } else {
        1 + floor_log2(x / 2)
    }
}

proof fn lemma_floor_log2_le(x: nat)
    ensures
        floor_log2(x) <= x,
    decreases x,
{
    if x > 1 {
        lemma_floor_log2_le(x / 2);
    }
}

/// The clock divider bits of CONTROL1 for frequency `f` on a host of
/// specification version `hv`: the divisor is the base clock over `f`
/// (version 3 and later), or the power of two below it, at most 128 (older
/// versions); at least 2. Its low 8 bits go to bits 8..15, and on version 3
/// its bits 8 and 9 to bits 6 and 7.
pub open spec fn spec_clock_divider(f: u32, hv: u32) -> u32 {
    let c = SD_BASE_CLOCK / f;
    let x = (c - 1) as nat;
    let s = if x == 0 { 0 } else if floor_log2(x) > 7 { 7 } else { floor_log2(x) };
    let d0: u32 = if hv > HOST_SPEC_V2 { c } else { (1u32 << (s as u32)) };
    let d: u32 = if d0 <= 2 { 2 } else { d0 };
    let h: u32 = if hv > HOST_SPEC_V2 { (d & 0x300) >> 2u32 } else { 0 };
    ((d & 0x0ff) << 8u32) | h
}

/// The clock divider bits of CONTROL1 for frequency `f`.
pub fn clock_divider(f: u32, hv: u32) -> (v: u32)
    requires
        0 < f <= SD_BASE_CLOCK,
    ensures
        v == spec_clock_divider(f, hv),
{
    let c = SD_BASE_CLOCK / f;
    assert(c >= 1) by (nonlinear_arith)
        requires
            0 < f <= SD_BASE_CLOCK,
            c == SD_BASE_CLOCK / f,
    ;
    let x = c - 1;
    proof {
        lemma_floor_log2_le(x as nat);
    }
    let mut s: u32 = 0;
    let mut y: u32 = x;
    while y > 1
        invariant
            x as nat >= 1 ==> floor_log2(x as nat) == s + floor_log2(y as nat),
            x == 0 ==> y == 0 && s == 0,
            y <= x,
            s + floor_log2(y as nat) <= x,
        decreases y,
    {
        y = y / 2;
        s = s + 1;
    }
    assert(y <= 1 ==> floor_log2(y as nat) == 0);
    if s > 7 {
        s = 7;
    }
    let mut d: u32 = if HOST_SPEC_V2 < hv {
        c
    } else {
        1u32 << s
    };
    if d <= 2 {
        d = 2;
    }
    let h: u32 = if HOST_SPEC_V2 < hv {
        (d & 0x300) >> 2u32
    } else {
        0
    };
    ((d & 0x0ff) << 8u32) | h
}

/// CONTROL1 with the clock divider bits set (and the rest of the low word
/// cleared, but for bits 0..5).
pub fn control1_with_divider(ctrl1: u32, divider: u32) -> (v: u32)
    ensures
        v == divider | (ctrl1 & 0xffff003f),
{
    divider | (ctrl1 & 0xffff003f)
}

// ---------------------------------------------------------------------------
// Commands, status and interrupts
// ---------------------------------------------------------------------------

/// The CMD_APP_CMD that goes before an application command: with a 48-bit
/// response once the card has a relative address.
pub fn app_cmd_code(rca: u32) -> (c: u32)
    ensures
        c == if rca != 0 { CMD_APP_CMD | CMD_RSPNS_48 } else { CMD_APP_CMD },
{
    if rca != 0 {
        CMD_APP_CMD | CMD_RSPNS_48
    } else {
        CMD_APP_CMD
    }
}

/// How the command `code` is sent to the card at `rca`: an application
/// command goes after its CMD_APP_CMD prefix, without its marker bit.
/// Gives the prefix to send first, if any, and the code to send then.
pub fn sd_cmd_plan(code: u32, rca: u32) -> (p: (Option<u32>, u32))
    ensures
        code & CMD_NEED_APP != 0 ==> p == (Some(if rca != 0 {
            CMD_APP_CMD | CMD_RSPNS_48
        } else {
            CMD_APP_CMD
        }), code & !CMD_NEED_APP),
        code & CMD_NEED_APP == 0 ==> p == (None::<u32>, code),
{
    if code & CMD_NEED_APP != 0 {
        (Some(app_cmd_code(rca)), code & !CMD_NEED_APP)
    } else {
        (None, code)
    }
}

/// Whether an application command goes on after its prefix answered `r`
/// (0 when the prefix was not sent): a card that has an address must
/// acknowledge it; before that the answer does not matter.
pub fn app_prefix_accepted(rca: u32, r: u32) -> (ok: bool)
    ensures
        ok == !(rca != 0 && r == 0),
{
    !(rca != 0 && r == 0)
}

/// How long (ms) to wait after sending a command before looking for its
/// completion.
pub fn cmd_delay_ms(code: u32) -> (ms: u64)
    ensures
        ms == if code == (CMD_SEND_OP_COND & !CMD_NEED_APP) || code == CMD_SEND_OP_COND {
            1000u64
        } else if code == CMD_SEND_IF_COND || code == CMD_APP_CMD {
            100u64
        } else {
            0u64
        },
{
    if code == (CMD_SEND_OP_COND & !CMD_NEED_APP) || code == CMD_SEND_OP_COND {
        1000
    } else if code == CMD_SEND_IF_COND || code == CMD_APP_CMD {
        100
    } else {
        0
    }
}

/// What a completed command gives back, from its code (the application
/// bit cleared), its argument and the response registers; and the error
/// state it sets (only CMD_SEND_REL_ADDR sets one, from its response's
/// status bits).
pub open spec fn spec_cmd_response(code: u32, arg: u32, resp: (u32, u32, u32, u32)) -> (u32, Option<u32>) {
    let r = resp.0;
    if code == CMD_GO_IDLE | CMD_APP_CMD {
        (0, None)
    } else if code == CMD_APP_CMD | CMD_RSPNS_48 {
        (r & SR_APP_CMD, None)
    } else if code == CMD_SEND_OP_COND & !CMD_NEED_APP {
        (r, None)
    } else if code == CMD_SEND_IF_COND {
        (if r == arg { SD_OK } else { SD_ERROR }, None)
    } else if code == CMD_ALL_SEND_CID {
        (r | resp.3 | resp.2 | resp.1, None)
    } else if code == CMD_SEND_REL_ADDR {
        (
            r & CMD_RCA_MASK,
            Some(((r & 0x1fff) | ((r & 0x2000) << 6u32) | ((r & 0x4000) << 8u32) | ((r & 0x8000) << 8u32)) & CMD_ERRORS_MASK),
        )
    } else {
        (r & CMD_ERRORS_MASK, None)
    }
}

/// Reads a completed command's response.
pub fn cmd_response(code: u32, arg: u32, resp: (u32, u32, u32, u32)) -> (r: (u32, Option<u32>))
    ensures
        r == spec_cmd_response(code, arg, resp),
{
    let r = resp.0;
    if code == CMD_GO_IDLE | CMD_APP_CMD {
        (0, None)
    } else if code == CMD_APP_CMD | CMD_RSPNS_48 {
        (r & SR_APP_CMD, None)
    } else if code == CMD_SEND_OP_COND & !CMD_NEED_APP {
        (r, None)
    } else if code == CMD_SEND_IF_COND {
        (if r == arg { SD_OK } else { SD_ERROR }, None)
    } else if code == CMD_ALL_SEND_CID {
        (r | resp.3 | resp.2 | resp.1, None)
    } else if code == CMD_SEND_REL_ADDR {
        (
            r & CMD_RCA_MASK,
            Some(((r & 0x1fff) | ((r & 0x2000) << 6u32) | ((r & 0x4000) << 8u32) | ((r & 0x8000) << 8u32)) & CMD_ERRORS_MASK),
        )
    } else {
        (r & CMD_ERRORS_MASK, None)
    }
}

/// The controller is ready for `mask` (command or data): the status bits
/// are clear, or an error interrupt is pending.
pub fn status_ready(status: u32, interrupt: u32, mask: u32) -> (b: bool)
    ensures
        b == !(status & mask != 0 && interrupt & INT_ERROR_MASK == 0),
{
    !(status & mask != 0 && interrupt & INT_ERROR_MASK == 0)
}

/// The end of a wait for the interrupt bits `mask`, given whether one of
/// them or an error came (`hit`) and the interrupt register: success when
/// it came without timeout or error; and the value to write back to the
/// interrupt register (the register itself on failure, `mask` on success).
pub fn int_outcome(hit: bool, v: u32, mask: u32) -> (r: (bool, u32))
    ensures
        r == if !hit || v & INT_CMD_TIMEOUT != 0 || v & INT_DATA_TIMEOUT != 0 || v & INT_ERROR_MASK != 0 {
            (false, v)
        } else {
            (true, mask)
        },
{
    if !hit || v & INT_CMD_TIMEOUT != 0 || v & INT_DATA_TIMEOUT != 0 {
        return (false, v);
    } else if v & INT_ERROR_MASK != 0 {
        return (false, v);
    }
    (true, mask)
}

// ---------------------------------------------------------------------------
// Reading blocks
// ---------------------------------------------------------------------------

/// How a read of blocks goes, as the card's SCR allows: the block count
/// (at least one); whether CMD_SET_BLOCKCNT goes first; the BLKSIZECNT
/// value; the command that starts the read (for block-addressed cards);
/// whether each block is read with its own command (byte-addressed cards);
/// whether CMD_STOP_TRANS ends it.
#[derive(Clone, Copy, Debug)]
pub struct ReadPlan {
    pub num: u32,
    pub set_block_count: bool,
    pub blksizecnt: u32,
    pub start_cmd: Option<(u32, u32)>,
    pub cmd_per_block: bool,
    pub stop_after: bool,
}

pub open spec fn spec_read_plan(scr0: u32, lba: u32, cnt: u32) -> ReadPlan {
    let num: u32 = if cnt < 1 { 1 } else { cnt };
    let ccs = scr0 & SCR_SUPP_CCS != 0;
    let blkcnt = scr0 & SCR_SUPP_SET_BLKCNT != 0;
    ReadPlan {
        num,
        set_block_count: ccs && num > 1 && blkcnt,
        blksizecnt: if ccs { (num << 16u32) | 512 } else { (1u32 << 16u32) | 512 },
        start_cmd: if ccs {
            Some((if num == 1 { CMD_READ_SINGLE } else { CMD_READ_MULTI }, lba))
        } else {
            None
        },
        cmd_per_block: !ccs,
        stop_after: num > 1 && !blkcnt && ccs,
    }
}

/// Plans a read of `cnt` blocks from `lba`.
pub fn read_plan(scr0: u32, lba: u32, cnt: u32) -> (p: ReadPlan)
    ensures
        p == spec_read_plan(scr0, lba, cnt),
{
    let num: u32 = if cnt < 1 {
        1
    } else {
        cnt
    };
    let ccs = scr0 & SCR_SUPP_CCS != 0;
    let blkcnt = scr0 & SCR_SUPP_SET_BLKCNT != 0;
    ReadPlan {
        num,
        set_block_count: ccs && num > 1 && blkcnt,
        blksizecnt: if ccs {
            (num << 16u32) | 512
        } else {
            (1u32 << 16u32) | 512
        },
        start_cmd: if ccs {
            Some((if num == 1 { CMD_READ_SINGLE } else { CMD_READ_MULTI }, lba))
        } else {
            None
        },
        cmd_per_block: !ccs,
        stop_after: num > 1 && !blkcnt && ccs,
    }
}

/// The byte address a byte-addressed card reads block `blk` of a read from
/// `lba` at.
pub fn block_byte_address(lba: u32, blk: u32) -> (a: u32)
    requires
        (lba + blk) * 512 <= u32::MAX,
    ensures
        a == (lba + blk) * 512,
{
    (lba + blk) * 512
}

/// The bytes a read gives back: all its blocks when every step went well,
/// else nothing.
pub fn read_result(plan: &ReadPlan, blocks_read: u32, sd_err: u32) -> (n: u32)
    requires
        plan.num * 512 <= u32::MAX,
    ensures
        n == if sd_err != SD_OK || blocks_read != plan.num { 0 } else { plan.num * 512 },
{
    if sd_err != SD_OK || blocks_read != plan.num {
        return 0;
    }
    plan.num * 512
}

// ---------------------------------------------------------------------------
// Resetting the card
// ---------------------------------------------------------------------------

/// Where the reset of the card is.
#[derive(Clone, Copy, Debug, PartialEq, Eq, Structural)]
pub enum SdResetStage {
    Begin,
    SlowClock,
    SlowClockDone,
    GoIdle,
    GoIdleDone,
    IfCondDone,
    OpCondWait(u8),
    OpCondDone(u8),
    CidDone,
    RelAddrDone,
    FastClockDone,
    SelectDone,
    StatusDone,
    SendScr,
    ScrCmdDone,
    ScrIntDone,
    ScrRead,
    BusWidthDone,
    WidthSet,
    Finished(bool),
}

/// What the reset asks for next.
#[derive(Clone, Copy, Debug, PartialEq, Eq, Structural)]
pub enum SdAction {
    /// Reset the host controller and set its timeouts
    ResetHost,
    /// Set the card clock to this frequency (Hz); reports whether it is
    /// stable
    SetClock(u32),
    /// Mask no interrupt
    UnmaskInterrupts,
    /// Send a command with its argument; reports its response and error
    Cmd(u32, u32),
    /// Wait this many microseconds
    WaitUs(u64),
    /// Wait until the controller is ready for the status bits; reports
    /// whether it became so
    WaitStatus(u32),
    /// Write BLKSIZECNT
    SetBlockSizeCount(u32),
    /// Wait for the interrupt bits; reports whether they came
    WaitInt(u32),
    /// Read the SCR's two words; reports whether both came and them
    ReadScr,
    /// Switch the host to the 4-bit data bus
    SetDataWidth4,
    /// Nothing more: the reset succeeded or failed
    Done(bool),
}

/// What came of the last action: whether it went well, the command's
/// response and error, the SCR words.
#[derive(Clone, Copy, Debug)]
pub struct SdEvent {
    pub ok: bool,
    pub ret: u32,
    pub err: u32,
    pub scr: (u32, u32),
}

/// The reset of the card: its stage, the card's relative address, whether
/// it addresses blocks (as the SCR flag), and its SCR.
#[derive(Clone, Copy, Debug)]
pub struct SdReset {
    pub stage: SdResetStage,
    pub rca: u32,
    pub ccs: u32,
    pub scr: (u32, u32),
}

/// A reset step: the next reset state and the action, from the state and
/// what came of the last action.
pub open spec fn spec_reset_step(s: SdReset, ev: SdEvent) -> (SdReset, SdAction) {
    let fail = (SdReset { stage: SdResetStage::Finished(false), ..s }, SdAction::Done(false));
    match s.stage {
        SdResetStage::Begin => (SdReset { stage: SdResetStage::SlowClock, ..s }, SdAction::ResetHost),
        SdResetStage::SlowClock => (SdReset { stage: SdResetStage::SlowClockDone, ..s }, SdAction::SetClock(400000)),
        SdResetStage::SlowClockDone => if !ev.ok {
            fail
        } else {
            (SdReset { stage: SdResetStage::GoIdle, ..s }, SdAction::UnmaskInterrupts)
        },
        SdResetStage::GoIdle => (SdReset { stage: SdResetStage::GoIdleDone, ..s }, SdAction::Cmd(CMD_GO_IDLE, 0)),
        SdResetStage::GoIdleDone => if ev.err != 0 {
            fail
        } else {
            (SdReset { stage: SdResetStage::IfCondDone, ..s }, SdAction::Cmd(CMD_SEND_IF_COND, 0x1AA))
        },
        SdResetStage::IfCondDone => if ev.err != 0 {
            fail
        } else {
            (SdReset { stage: SdResetStage::OpCondWait(0), ..s }, SdAction::WaitUs(4))
        },
        SdResetStage::OpCondWait(n) => (SdReset { stage: SdResetStage::OpCondDone(n), ..s }, SdAction::Cmd(CMD_SEND_OP_COND, ACMD41_ARG_HC)),
        SdResetStage::OpCondDone(n) => if ev.ret & ACMD41_CMD_COMPLETE == 0 {
            if n < 5 {
                (SdReset { stage: SdResetStage::OpCondWait((n + 1) as u8), ..s }, SdAction::WaitUs(4))
            } else {
                fail
            }
        } else if ev.ret & ACMD41_VOLTAGE == 0 {
            fail
        } else {
            (
                SdReset {
                    stage: SdResetStage::CidDone,
                    ccs: if ev.ret & ACMD41_CMD_CCS != 0 { SCR_SUPP_CCS } else { 0 },
                    ..s
                },
                SdAction::Cmd(CMD_ALL_SEND_CID, 0),
            )
        },
        SdResetStage::CidDone => (SdReset { stage: SdResetStage::RelAddrDone, ..s }, SdAction::Cmd(CMD_SEND_REL_ADDR, 0)),
        SdResetStage::RelAddrDone => if ev.err != 0 {
            (SdReset { stage: SdResetStage::Finished(false), rca: ev.ret, ..s }, SdAction::Done(false))
        } else {
            (SdReset { stage: SdResetStage::FastClockDone, rca: ev.ret, ..s }, SdAction::SetClock(25000000))
        },
        SdResetStage::FastClockDone => if !ev.ok {
            fail
        } else {
            (SdReset { stage: SdResetStage::SelectDone, ..s }, SdAction::Cmd(CMD_CARD_SELECT, s.rca))
        },
        SdResetStage::SelectDone => if ev.err != 0 {
            fail
        } else {
            (SdReset { stage: SdResetStage::StatusDone, ..s }, SdAction::WaitStatus(SR_DAT_INHIBIT))
        },
        SdResetStage::StatusDone => if !ev.ok {
            fail
        } else {
            (SdReset { stage: SdResetStage::SendScr, ..s }, SdAction::SetBlockSizeCount((1u32 << 16u32) | 8))
        },
        SdResetStage::SendScr => (SdReset { stage: SdResetStage::ScrCmdDone, ..s }, SdAction::Cmd(CMD_SEND_SCR, 0)),
        SdResetStage::ScrCmdDone => (SdReset { stage: SdResetStage::ScrIntDone, ..s }, SdAction::WaitInt(INT_READ_RDY)),
        SdResetStage::ScrIntDone => if !ev.ok {
            fail
        } else {
            (SdReset { stage: SdResetStage::ScrRead, ..s }, SdAction::ReadScr)
        },
        SdResetStage::ScrRead => if !ev.ok {
            fail
        } else if ev.scr.0 & SCR_SD_BUS_WIDTH_4 != 0 {
            (SdReset { stage: SdResetStage::BusWidthDone, scr: ev.scr, ..s }, SdAction::Cmd(CMD_SET_BUS_WIDTH, s.rca | 2))
        } else {
            (
                SdReset {
                    stage: SdResetStage::Finished(true),
                    scr: (((ev.scr.0 & !SCR_SUPP_CCS) | s.ccs), ev.scr.1),
                    ..s
                },
                SdAction::Done(true),
            )
        },
        SdResetStage::BusWidthDone => if ev.err != 0 {
            fail
        } else {
            (SdReset { stage: SdResetStage::WidthSet, ..s }, SdAction::SetDataWidth4)
        },
        SdResetStage::WidthSet => (
            SdReset {
                stage: SdResetStage::Finished(true),
                scr: (((s.scr.0 & !SCR_SUPP_CCS) | s.ccs), s.scr.1),
                ..s
            },
            SdAction::Done(true),
        ),
        SdResetStage::Finished(b) => (s, SdAction::Done(b)),
    }
}

impl SdReset {
    /// A reset about to begin, for a card with relative address `rca` and
    /// SCR `scr` so far.
    pub fn new(rca: u32, scr: (u32, u32)) -> (r: Self)
        ensures
            r.stage == SdResetStage::Begin && r.rca == rca && r.ccs == 0 && r.scr == scr,
    {
        SdReset { stage: SdResetStage::Begin, rca, ccs: 0, scr }
    }

    /// Takes one step of the reset: host reset, 400 kHz clock, GO_IDLE,
    /// SEND_IF_COND, up to six SEND_OP_CONDs until the card is ready (with
    /// the voltage window and its addressing), ALL_SEND_CID, SEND_REL_ADDR
    /// (its relative address), 25 MHz clock, CARD_SELECT, the data lines,
    /// SEND_SCR and its two words, and the 4-bit bus when the card has
    /// one. Any failure ends it.
    pub fn step(&mut self, ev: &SdEvent) -> (a: SdAction)
        ensures
            (*final(self), a) == spec_reset_step(*old(self), *ev),
    {
        let s = *self;
        let (n, a) = match s.stage {
            SdResetStage::Begin => (SdReset { stage: SdResetStage::SlowClock, ..s }, SdAction::ResetHost),
            SdResetStage::SlowClock => (SdReset { stage: SdResetStage::SlowClockDone, ..s }, SdAction::SetClock(400000)),
            SdResetStage::SlowClockDone => if !ev.ok {
                (SdReset { stage: SdResetStage::Finished(false), ..s }, SdAction::Done(false))
            } else {
                (SdReset { stage: SdResetStage::GoIdle, ..s }, SdAction::UnmaskInterrupts)
            },
            SdResetStage::GoIdle => (SdReset { stage: SdResetStage::GoIdleDone, ..s }, SdAction::Cmd(CMD_GO_IDLE, 0)),
            SdResetStage::GoIdleDone => if ev.err != 0 {
                (SdReset { stage: SdResetStage::Finished(false), ..s }, SdAction::Done(false))
            } else {
                (SdReset { stage: SdResetStage::IfCondDone, ..s }, SdAction::Cmd(CMD_SEND_IF_COND, 0x1AA))
            },
            SdResetStage::IfCondDone => if ev.err != 0 {
                (SdReset { stage: SdResetStage::Finished(false), ..s }, SdAction::Done(false))
            } else {
                (SdReset { stage: SdResetStage::OpCondWait(0), ..s }, SdAction::WaitUs(4))
            },
            SdResetStage::OpCondWait(k) => (SdReset { stage: SdResetStage::OpCondDone(k), ..s }, SdAction::Cmd(CMD_SEND_OP_COND, ACMD41_ARG_HC)),
            SdResetStage::OpCondDone(k) => if ev.ret & ACMD41_CMD_COMPLETE == 0 {
                if k < 5 {
                    (SdReset { stage: SdResetStage::OpCondWait(k + 1), ..s }, SdAction::WaitUs(4))
                } else {
                    (SdReset { stage: SdResetStage::Finished(false), ..s }, SdAction::Done(false))
                }
            } else if ev.ret & ACMD41_VOLTAGE == 0 {
                (SdReset { stage: SdResetStage::Finished(false), ..s }, SdAction::Done(false))
            } else {
                (
                    SdReset {
                        stage: SdResetStage::CidDone,
                        ccs: if ev.ret & ACMD41_CMD_CCS != 0 { SCR_SUPP_CCS } else { 0 },
                        ..s
                    },
                    SdAction::Cmd(CMD_ALL_SEND_CID, 0),
                )
            },
            SdResetStage::CidDone => (SdReset { stage: SdResetStage::RelAddrDone, ..s }, SdAction::Cmd(CMD_SEND_REL_ADDR, 0)),
            SdResetStage::RelAddrDone => if ev.err != 0 {
                (SdReset { stage: SdResetStage::Finished(false), rca: ev.ret, ..s }, SdAction::Done(false))
            } else {
                (SdReset { stage: SdResetStage::FastClockDone, rca: ev.ret, ..s }, SdAction::SetClock(25000000))
            },
            SdResetStage::FastClockDone => if !ev.ok {
                (SdReset { stage: SdResetStage::Finished(false), ..s }, SdAction::Done(false))
            } else {
                (SdReset { stage: SdResetStage::SelectDone, ..s }, SdAction::Cmd(CMD_CARD_SELECT, s.rca))
            },
            SdResetStage::SelectDone => if ev.err != 0 {
                (SdReset { stage: SdResetStage::Finished(false), ..s }, SdAction::Done(false))
            } else {
                (SdReset { stage: SdResetStage::StatusDone, ..s }, SdAction::WaitStatus(SR_DAT_INHIBIT))
            },
            SdResetStage::StatusDone => if !ev.ok {
                (SdReset { stage: SdResetStage::Finished(false), ..s }, SdAction::Done(false))
            } else {
                (SdReset { stage: SdResetStage::SendScr, ..s }, SdAction::SetBlockSizeCount((1u32 << 16u32) | 8))
            },
            SdResetStage::SendScr => (SdReset { stage: SdResetStage::ScrCmdDone, ..s }, SdAction::Cmd(CMD_SEND_SCR, 0)),
            SdResetStage::ScrCmdDone => (SdReset { stage: SdResetStage::ScrIntDone, ..s }, SdAction::WaitInt(INT_READ_RDY)),
            SdResetStage::ScrIntDone => if !ev.ok {
                (SdReset { stage: SdResetStage::Finished(false), ..s }, SdAction::Done(false))
            } else {
                (SdReset { stage: SdResetStage::ScrRead, ..s }, SdAction::ReadScr)
            },
            SdResetStage::ScrRead => if !ev.ok {
                (SdReset { stage: SdResetStage::Finished(false), ..s }, SdAction::Done(false))
            } else if ev.scr.0 & SCR_SD_BUS_WIDTH_4 != 0 {
                (SdReset { stage: SdResetStage::BusWidthDone, scr: ev.scr, ..s }, SdAction::Cmd(CMD_SET_BUS_WIDTH, s.rca | 2))
            } else {
                (
                    SdReset {
                        stage: SdResetStage::Finished(true),
                        scr: (((ev.scr.0 & !SCR_SUPP_CCS) | s.ccs), ev.scr.1),
                        ..s
                    },
                    SdAction::Done(true),
                )
            },
            SdResetStage::BusWidthDone => if ev.err != 0 {
                (SdReset { stage: SdResetStage::Finished(false), ..s }, SdAction::Done(false))
            } else {
                (SdReset { stage: SdResetStage::WidthSet, ..s }, SdAction::SetDataWidth4)
            },
            SdResetStage::WidthSet => (
                SdReset {
                    stage: SdResetStage::Finished(true),
                    scr: (((s.scr.0 & !SCR_SUPP_CCS) | s.ccs), s.scr.1),
                    ..s
                },
                SdAction::Done(true),
            ),
            SdResetStage::Finished(b) => (s, SdAction::Done(b)),
        };
        *self = n;
        a
    }
}

// ---------------------------------------------------------------------------
// The host controller
// ---------------------------------------------------------------------------

/// Why a request to `dsk` fails before it reaches the card: a disk of
/// another bus, sectors past the disk's end, a drive other than the one
/// card.
pub open spec fn spec_sd_issue_error(dsk: Disk, iorq: IORequest) -> Option<IOCompletion> {
    if dsk.bus != BusType::EMMC || dsk.bus_id != 0 {
        Some(IOCompletion::InvalidBus)
    } else if iorq.lba + iorq.sectors > dsk.sector_count {
        Some(IOCompletion::OutOfBoundIO)
    } else if dsk.drive_id >= 1 {
        Some(IOCompletion::InvalidDrive)
    } else {
        None
    }
}

/// The SD host controller: its register and GPIO bases, its specification
/// version, the card's SCR and relative address, and the last error.
pub struct BCM2835SDHost {
    pub mmio_base: usize,
    pub gpio_base: usize,
    pub sd_hv: u32,
    pub sd_scr: (u32, u32),
    pub sd_rca: u32,
    pub sd_err: u32,
}

/// The registers of the controller and of the GPIO on the board.
pub const SDHC_MMIO_BASE: usize = 0x3F300000;
pub const SDHC_GPIO_BASE: usize = 0x3F200000;

impl BCM2835SDHost {
    pub fn new() -> (h: Self)
        ensures
            h.mmio_base == 0 && h.gpio_base == 0 && h.sd_hv == 0 && h.sd_scr == (0u32, 0u32)
                && h.sd_rca == 0 && h.sd_err == 0,
    {
        BCM2835SDHost { mmio_base: 0, gpio_base: 0, sd_hv: 0, sd_scr: (0, 0), sd_rca: 0, sd_err: 0 }
    }

    /// One controller, at its fixed place on the board.
    pub fn enumerate(&mut self, slotisr_ver: u32, driver: usize) -> (r: (usize, Disk))
        ensures
            r.0 == 1,
            final(self).mmio_base == SDHC_MMIO_BASE && final(self).gpio_base == SDHC_GPIO_BASE,
            final(self).sd_hv == (slotisr_ver & HOST_SPEC_NUM) >> 16u32,
            r.1 == final(self).sd_disk(driver),
    {
        let d = self.init(SDHC_MMIO_BASE, SDHC_GPIO_BASE, slotisr_ver, driver);
        (1, d)
    }

    pub fn post_enum() {
    }

    pub fn release(_device: usize) {
    }

    /// The disk of the SD card: 512-byte sectors, a fixed count.
    pub open spec fn sd_disk(&self, driver: usize) -> Disk {
        Disk {
            bus: BusType::EMMC,
            bus_id: 0,
            drive_id: 0,
            part_id: 0,
            sector_size: 512,
            sector_count: SD_SECTOR_COUNT,
            driver,
        }
    }

    /// Takes the controller at `mmio_addr` (its GPIO at `gpio_base`), its
    /// specification version from SLOTISR_VER, and returns the card's disk
    /// to register (the card is reset by `SdReset`).
    pub fn init(&mut self, mmio_addr: usize, gpio_base: usize, slotisr_ver: u32, driver: usize) -> (d: Disk)
        ensures
            final(self).mmio_base == mmio_addr && final(self).gpio_base == gpio_base,
            final(self).sd_hv == (slotisr_ver & HOST_SPEC_NUM) >> 16u32,
            final(self).sd_scr == old(self).sd_scr && final(self).sd_rca == old(self).sd_rca,
            final(self).sd_err == old(self).sd_err,
            d == final(self).sd_disk(driver),
    {
        self.mmio_base = mmio_addr;
        self.gpio_base = gpio_base;
        self.sd_hv = (slotisr_ver & HOST_SPEC_NUM) >> 16u32;
        Disk {
            bus: BusType::EMMC,
            bus_id: 0,
            drive_id: 0,
            part_id: 0,
            sector_size: 512,
            sector_count: SD_SECTOR_COUNT,
            driver,
        }
    }

    /// Keeps what a finished reset learned of the card.
    pub fn reset_done(&mut self, r: &SdReset)
        ensures
            final(self).sd_rca == r.rca && final(self).sd_scr == r.scr,
            final(self).mmio_base == old(self).mmio_base && final(self).gpio_base == old(self).gpio_base,
            final(self).sd_hv == old(self).sd_hv && final(self).sd_err == old(self).sd_err,
    {
        self.sd_rca = r.rca;
        self.sd_scr = r.scr;
    }

    /// How a request at time `ts` ends: an error found before the card is
    /// asked, else (for a read) the bytes the card gave (`read_bytes`, 0
    /// being an I/O error), or an invalid operation for a write.
    pub fn issue_io(dsk: &Disk, iorq: &IORequest, ts: u64, read_bytes: u32) -> (r: IORequest)
        requires
            iorq.lba + iorq.sectors <= u64::MAX,
        ensures
            r.ts_issued == ts,
            match spec_sd_issue_error(*dsk, *iorq) {
                Some(code) => r == IORequest { completion_code: code, ts_issued: ts, ..*iorq },
                None => if iorq.op == IOOperation::Read {
                    r == IORequest {
                        completion_code: if read_bytes > 0 {
                            IOCompletion::Successful(read_bytes as usize)
                        } else {
                            IOCompletion::IOError
                        },
                        ts_issued: ts,
                        ts_submitted: ts,
                        ts_completed: ts,
                        ..*iorq
                    }
                } else {
                    r == IORequest { completion_code: IOCompletion::InvalidOp, ts_issued: ts, ..*iorq }
                },
            },
    {
        let mut cpyrq = *iorq;
        cpyrq.ts_issued = ts;
        if dsk.bus != BusType::EMMC || dsk.bus_id != 0 {
            cpyrq.completion_code = IOCompletion::InvalidBus;
            return cpyrq;
        }
        if iorq.lba + iorq.sectors as u64 > dsk.sector_count {
            cpyrq.completion_code = IOCompletion::OutOfBoundIO;
            return cpyrq;
        }
        if dsk.drive_id as usize >= 1 {
            cpyrq.completion_code = IOCompletion::InvalidDrive;
            return cpyrq;
        }
        if iorq.op == IOOperation::Read {
            cpyrq.ts_submitted = ts;
            cpyrq.ts_completed = ts;
            if read_bytes > 0 {
                cpyrq.completion_code = IOCompletion::Successful(read_bytes as usize);
            } else {
                cpyrq.completion_code = IOCompletion::IOError;
            }
        } else {
            cpyrq.completion_code = IOCompletion::InvalidOp;
        }
        cpyrq
    }
}

} // verus!
