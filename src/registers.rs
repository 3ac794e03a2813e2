//! The register interface of the peripheral: which registers the driver
//! touches, the fields it programs in them, and the record of accesses that
//! the driver's contracts speak of.
use vstd::prelude::*;

verus! {

/// A register of the uSDHC block that the driver reads or writes.
#[derive(Clone, Copy, Debug, PartialEq, Eq, Structural)]
pub enum Reg {
    /// Block attributes.
    BlkAtt,
    /// Command argument.
    CmdArg,
    /// Command transfer type.
    CmdXfrTyp,
    /// Command response, word 0.
    CmdRsp0,
    /// Command response, word 1.
    CmdRsp1,
    /// Command response, word 2.
    CmdRsp2,
    /// Command response, word 3.
    CmdRsp3,
    /// Data buffer access port.
    DataBuffAccPort,
    /// Present state (read only).
    PresState,
    /// Protocol control.
    ProtCtrl,
    /// System control.
    SysCtrl,
    /// Interrupt status (write one to clear).
    IntStatus,
    /// Interrupt status enable.
    IntStatusEn,
    /// Interrupt signal enable.
    IntSignalEn,
    /// Watermark level.
    WtmkLvl,
    /// Mixer control.
    MixCtrl,
}

/// Access to the registers of one uSDHC block.
///
/// Reads may return anything: they are the hardware's live state. The driver
/// assumes that it is the only user of the block.
pub trait Registers {
    /// Read the whole 32-bit register.
    fn load(&mut self, reg: Reg) -> u32;

    /// Write the whole 32-bit register.
    fn store(&mut self, reg: Reg, value: u32);
}

/// One thing that the driver did to the hardware, in order.
#[derive(Clone, Copy, Debug, PartialEq, Eq, Structural)]
pub enum Event {
    /// A read of the register that returned the value.
    Read(Reg, u32),
    /// A write of the value to the register.
    Write(Reg, u32),
    /// A call of the caller's delay function with the duration.
    Delay(u32),
}

// System control fields.
/// Divisor of the SD clock, less one.
pub const SYS_CTRL_DVS: u32 = 0xF0;
/// Prescaler of the SD clock.
pub const SYS_CTRL_SDCLKFS: u32 = 0xFF00;
/// Data timeout counter value.
pub const SYS_CTRL_DTOCV: u32 = 0xF0000;
/// Level of the hardware reset line (high releases the card).
pub const SYS_CTRL_IPP_RST_N: u32 = 0x800000;
/// Software reset for all.
pub const SYS_CTRL_RSTA: u32 = 0x1000000;
/// Software reset for the command line.
pub const SYS_CTRL_RSTC: u32 = 0x2000000;
/// Software reset for the data line.
pub const SYS_CTRL_RSTD: u32 = 0x4000000;
/// Initialization active: send the card its idle clocks.
pub const SYS_CTRL_INITA: u32 = 0x8000000;

// Mixer control fields.
/// DMA enable.
pub const MIX_CTRL_DMAEN: u32 = 0x1;
/// Dual data rate enable.
pub const MIX_CTRL_DDR_EN: u32 = 0x8;
/// Data transfer direction (set for a read).
pub const MIX_CTRL_DTDSEL: u32 = 0x10;

// Protocol control fields.
/// Data transfer width.
pub const PROT_CTRL_DTW: u32 = 0x6;
/// Endian mode.
pub const PROT_CTRL_EMODE: u32 = 0x30;
/// DMA select.
pub const PROT_CTRL_DMASEL: u32 = 0x300;

// Watermark level fields.
/// Read watermark level.
pub const WTMK_LVL_RD_WML: u32 = 0xFF;
/// Write watermark level.
pub const WTMK_LVL_WR_WML: u32 = 0xFF0000;

// Block attribute fields.
/// Block size in bytes.
pub const BLK_ATT_BLKSIZE: u32 = 0x1FFF;

// Command transfer type fields.
/// Response type.
pub const CMD_XFR_TYP_RSPTYP: u32 = 0x30000;
/// Command CRC check enable.
pub const CMD_XFR_TYP_CCCEN: u32 = 0x80000;
/// Command index check enable.
pub const CMD_XFR_TYP_CICEN: u32 = 0x100000;
/// Data present select.
pub const CMD_XFR_TYP_DPSEL: u32 = 0x200000;
/// Command type.
pub const CMD_XFR_TYP_CMDTYP: u32 = 0xC00000;
/// Command index.
pub const CMD_XFR_TYP_CMDINX: u32 = 0x3F000000;

/// `value` with the bits under `mask` replaced by those of `bits`.
pub open spec fn modified(value: u32, mask: u32, bits: u32) -> u32 {
    (value & !mask) | (bits & mask)
}

/// `t` is one read-modify-write of `reg`: a read, then a write of the value
/// read with the bits under `mask` replaced by those of `bits`.
pub open spec fn is_modify(t: Seq<Event>, reg: Reg, mask: u32, bits: u32) -> bool {
    &&& t.len() == 2
    &&& match t[0] {
        Event::Read(r, v) => r == reg && t[1] == Event::Write(reg, modified(v, mask, bits)),
        _ => false,
    }
}

/// Whether the history `after` continues the history `before`.
pub open spec fn extends(before: Seq<Event>, after: Seq<Event>) -> bool {
    before.is_prefix_of(after)
}

/// What `after` holds beyond `before`.
pub open spec fn added(before: Seq<Event>, after: Seq<Event>) -> Seq<Event> {
    after.skip(before.len() as int)
}

/// Histories that follow one another add up.
pub proof fn lemma_added_chain(a: Seq<Event>, b: Seq<Event>, c: Seq<Event>)
    requires
        extends(a, b),
        extends(b, c),
    ensures
        extends(a, c),
        added(a, c) == added(a, b) + added(b, c),
{
    assert(added(a, c) =~= added(a, b) + added(b, c));
    assert(c.subrange(0, a.len() as int) =~= a) by {
        assert forall|i: int| 0 <= i < a.len() implies c[i] == a[i] by {
            assert(b[i] == a[i]);
            assert(c[i] == b[i]);
        }
    }
}

} // verus!
