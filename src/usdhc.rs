//! The uSDHC driver: register-level operations on one peripheral block.
use vstd::prelude::*;

use crate::config::{
    DataRate, DataTransferDirection, DataTransferWidth, DmaSelect, EndianMode, Timing, Watermark,
};
use crate::registers::{
    added, extends, is_modify, lemma_added_chain, modified, Event, Reg, Registers,
    MIX_CTRL_DDR_EN, MIX_CTRL_DMAEN, MIX_CTRL_DTDSEL, PROT_CTRL_DMASEL, PROT_CTRL_DTW,
    PROT_CTRL_EMODE, SYS_CTRL_DTOCV, SYS_CTRL_DVS, SYS_CTRL_INITA, SYS_CTRL_IPP_RST_N,
    SYS_CTRL_RSTA, SYS_CTRL_RSTC, SYS_CTRL_RSTD, SYS_CTRL_SDCLKFS, WTMK_LVL_RD_WML,
    WTMK_LVL_WR_WML,
};
use crate::status::{PresentState, Status, TransportError, PRESENT_STATE_ALL, STATUS_ALL};

verus! {

/// Whether `e` is a read of `reg`.
pub open spec fn is_read_of(e: Event, reg: Reg) -> bool {
    match e {
        Event::Read(r, _) => r == reg,
        _ => false,
    }
}

/// The value that `e` read or wrote, or the duration it waited.
pub open spec fn value_of(e: Event) -> u32 {
    match e {
        Event::Read(_, v) => v,
        Event::Write(_, v) => v,
        Event::Delay(d) => d,
    }
}

/// `t` is a busy-wait on `reg` until `value & mask == want`, with at most
/// `limit` reads: reads of `reg` only, none but the last showing the wanted
/// value; if `done`, the last one shows it, else there were `limit` of them.
pub open spec fn is_poll(t: Seq<Event>, reg: Reg, mask: u32, want: u32, limit: u64, done: bool) -> bool {
    &&& forall|i: int| 0 <= i < t.len() ==> is_read_of(#[trigger] t[i], reg)
    &&& forall|i: int| 0 <= i < t.len() - 1 ==> value_of(#[trigger] t[i]) & mask != want
    &&& if done {
        1 <= t.len() <= limit && value_of(t.last()) & mask == want
    } else {
        t.len() == limit && (t.len() > 0 ==> value_of(t.last()) & mask != want)
    }
}

/// The field `mask` of `value`, moved down by `shift`.
pub open spec fn field(value: u32, mask: u32, shift: u32) -> u32 {
    (value & mask) >> shift
}

/// `after` is `before` followed by one read of `reg`.
pub open spec fn one_read(before: Seq<Event>, after: Seq<Event>, reg: Reg) -> bool {
    &&& after.len() == before.len() + 1
    &&& after.drop_last() == before
    &&& is_read_of(after.last(), reg)
}

/// The value of the last event of `h`.
pub open spec fn last_value(h: Seq<Event>) -> u32 {
    value_of(h.last())
}

/// The endian mode that an encoding of the protocol control register names.
pub open spec fn endian_mode_of(code: u32) -> Option<EndianMode> {
    if code == 0 {
        Some(EndianMode::BigEndian)
    } else if code == 1 {
        Some(EndianMode::HalwordBigEndian)
    } else if code == 2 {
        Some(EndianMode::LittleEndian)
    } else {
        None
    }
}

/// The data transfer width that an encoding of the protocol control register
/// names.
pub open spec fn width_of(code: u32) -> Option<DataTransferWidth> {
    if code == 0 {
        Some(DataTransferWidth::Bit1)
    } else if code == 1 {
        Some(DataTransferWidth::Bit4)
    } else if code == 2 {
        Some(DataTransferWidth::Bit8)
    } else {
        None
    }
}

/// A watermark level as the register takes it: at most 128.
pub open spec fn level_bits(level: u8) -> u32 {
    if level > 128 {
        128
    } else {
        level as u32
    }
}

/// The divisor field for a requested divisor: clamped between 1 and 16,
/// less one.
pub open spec fn divisor_bits(divisor: u8) -> u32 {
    if divisor < 1 {
        0
    } else if divisor > 16 {
        15
    } else {
        (divisor - 1) as u32
    }
}

/// The system control bits that `timing` programs: divisor, prescaler, and a
/// data timeout counter of zero.
pub open spec fn timing_bits(timing: Timing) -> u32 {
    (divisor_bits(timing.divisor) << 4u32) | (timing.data_rate.spec_prescaler() << 8u32)
}

/// The software reset requests of the system control register.
pub const SYS_CTRL_RESETS: u32 = SYS_CTRL_RSTA | SYS_CTRL_RSTC | SYS_CTRL_RSTD;

/// A uSDHC driver.
///
/// This is a lower-level driver on which you can build more advanced, safer
/// functions. It owns the register interface `R` of one peripheral block.
/// Every wait reads its register at most the driver's poll limit times.
pub struct Usdhc<R: Registers> {
    regs: R,
    max_polls: u64,
    history: Ghost<Seq<Event>>,
}

impl<R: Registers> Usdhc<R> {
    /// What the driver did to the hardware so far, in order.
    pub closed spec fn history(&self) -> Seq<Event> {
        self.history@
    }

    /// How many reads a wait makes at most before it gives up.
    pub closed spec fn poll_limit(&self) -> u64 {
        self.max_polls
    }

    /// Create a driver over `regs` whose waits poll as long as a `u64` counts.
    ///
    /// This call performs no reset or other access to the peripheral.
    pub fn new(regs: R) -> (r: Self)
        ensures
            r.history() == Seq::<Event>::empty(),
            r.poll_limit() == u64::MAX,
    {
        Usdhc { regs, max_polls: u64::MAX, history: Ghost(Seq::empty()) }
    }

    /// Create a driver over `regs` whose waits give up after `max_polls` reads.
    pub fn with_poll_limit(regs: R, max_polls: u64) -> (r: Self)
        ensures
            r.history() == Seq::<Event>::empty(),
            r.poll_limit() == max_polls,
    {
        Usdhc { regs, max_polls, history: Ghost(Seq::empty()) }
    }

    /// How many reads a wait makes at most before it gives up.
    pub fn max_polls(&self) -> (r: u64)
        ensures
            r == self.poll_limit(),
    {
        self.max_polls
    }

    /// The register interface.
    pub fn registers(&self) -> &R {
        &self.regs
    }

    /// Give up the driver and return its register interface.
    pub fn release(self) -> R {
        self.regs
    }

    pub(crate) fn reg_read(&mut self, reg: Reg) -> (v: u32)
        ensures
            final(self).history() == old(self).history().push(Event::Read(reg, v)),
            final(self).history().drop_last() == old(self).history(),
            final(self).poll_limit() == old(self).poll_limit(),
    {
        let v = self.regs.load(reg);
        proof {
            self.history = Ghost(self.history@.push(Event::Read(reg, v)));
            assert(self.history@.drop_last() =~= old(self).history());
        }
        v
    }

    pub(crate) fn reg_write(&mut self, reg: Reg, value: u32)
        ensures
            final(self).history() == old(self).history().push(Event::Write(reg, value)),
            final(self).poll_limit() == old(self).poll_limit(),
    {
        self.regs.store(reg, value);
        proof {
            self.history = Ghost(self.history@.push(Event::Write(reg, value)));
        }
    }

    /// Call the caller's delay function for `units`.
    pub(crate) fn pause<F: FnMut(u32)>(&mut self, delay: &mut F, units: u32)
        requires
            forall|f: F, u: u32| call_requires(f, (u,)),
        ensures
            final(self).history() == old(self).history().push(Event::Delay(units)),
            final(self).poll_limit() == old(self).poll_limit(),
    {
        delay(units);
        proof {
            self.history = Ghost(self.history@.push(Event::Delay(units)));
        }
    }

    pub(crate) fn reg_modify(&mut self, reg: Reg, mask: u32, bits: u32)
        ensures
            extends(old(self).history(), final(self).history()),
            is_modify(added(old(self).history(), final(self).history()), reg, mask, bits),
            final(self).poll_limit() == old(self).poll_limit(),
    {
        let v = self.reg_read(reg);
        self.reg_write(reg, (v & !mask) | (bits & mask));
        proof {
            let t = added(old(self).history(), self.history());
            assert(t =~= seq![Event::Read(reg, v), Event::Write(reg, modified(v, mask, bits))]);
        }
    }

    /// Issue a full software reset.
    ///
    /// Requests the reset of all system control, command, and data states,
    /// then waits until the peripheral reports all three done.
    pub fn software_reset(&mut self) -> (r: Result<(), TransportError>)
        ensures
            extends(old(self).history(), final(self).history()),
            added(old(self).history(), final(self).history()).len() >= 2,
            is_modify(added(old(self).history(), final(self).history()).take(2), Reg::SysCtrl,
                SYS_CTRL_RESETS, SYS_CTRL_RESETS),
            is_poll(added(old(self).history(), final(self).history()).skip(2), Reg::SysCtrl,
                SYS_CTRL_RESETS, 0, old(self).poll_limit(), r is Ok),
            r is Err ==> r == Err::<(), TransportError>(TransportError::TimedOut),
            final(self).poll_limit() == old(self).poll_limit(),
    {
        self.reg_modify(Reg::SysCtrl, SYS_CTRL_RESETS, SYS_CTRL_RESETS);
        let ghost mid = self.history();
        let r = self.poll(Reg::SysCtrl, SYS_CTRL_RESETS, 0);
        proof {
            lemma_added_chain(old(self).history(), mid, self.history());
            let t = added(old(self).history(), self.history());
            assert(t.take(2) =~= added(old(self).history(), mid));
            assert(t.skip(2) =~= added(mid, self.history()));
        }
        r
    }

    /// Reset the command path and line.
    ///
    /// Requests the command reset, then waits until the peripheral reports it
    /// done.
    pub fn command_reset(&mut self) -> (r: Result<(), TransportError>)
        ensures
            extends(old(self).history(), final(self).history()),
            added(old(self).history(), final(self).history()).len() >= 2,
            is_modify(added(old(self).history(), final(self).history()).take(2), Reg::SysCtrl,
                SYS_CTRL_RSTC, SYS_CTRL_RSTC),
            is_poll(added(old(self).history(), final(self).history()).skip(2), Reg::SysCtrl,
                SYS_CTRL_RSTC, 0, old(self).poll_limit(), r is Ok),
            r is Err ==> r == Err::<(), TransportError>(TransportError::TimedOut),
            final(self).poll_limit() == old(self).poll_limit(),
    {
        self.reg_modify(Reg::SysCtrl, SYS_CTRL_RSTC, SYS_CTRL_RSTC);
        let ghost mid = self.history();
        let r = self.poll(Reg::SysCtrl, SYS_CTRL_RSTC, 0);
        proof {
            lemma_added_chain(old(self).history(), mid, self.history());
            let t = added(old(self).history(), self.history());
            assert(t.take(2) =~= added(old(self).history(), mid));
            assert(t.skip(2) =~= added(mid, self.history()));
        }
        r
    }

    /// Control the hardware reset line.
    ///
    /// When `true`, the reset line signals "on" to the device (the line is
    /// driven low); when `false`, it signals "off".
    pub fn set_hardware_reset(&mut self, enable: bool)
        ensures
            extends(old(self).history(), final(self).history()),
            is_modify(added(old(self).history(), final(self).history()), Reg::SysCtrl,
                SYS_CTRL_IPP_RST_N, if enable { 0 } else { SYS_CTRL_IPP_RST_N }),
            final(self).poll_limit() == old(self).poll_limit(),
    {
        let bits: u32 = if enable { 0 } else { SYS_CTRL_IPP_RST_N };
        self.reg_modify(Reg::SysCtrl, SYS_CTRL_IPP_RST_N, bits);
    }

    /// Set timing parameters.
    ///
    /// Waits until the internal SD clock is stable, then programs the data
    /// rate, and the divisor and prescaler of the clock.
    pub fn set_timing(&mut self, timing: Timing) -> (r: Result<(), TransportError>)
        ensures
            extends(old(self).history(), final(self).history()),
            r is Ok ==> {
                let t = added(old(self).history(), final(self).history());
                &&& t.len() >= 4
                &&& is_poll(t.take(t.len() - 4), Reg::PresState, PresentState::SDSTB,
                    PresentState::SDSTB, old(self).poll_limit(), true)
                &&& is_modify(t.subrange(t.len() - 4, t.len() - 2), Reg::MixCtrl,
                    MIX_CTRL_DDR_EN, if timing.data_rate.spec_is_dual() { MIX_CTRL_DDR_EN } else { 0 })
                &&& is_modify(t.skip(t.len() - 2), Reg::SysCtrl,
                    SYS_CTRL_DVS | SYS_CTRL_SDCLKFS | SYS_CTRL_DTOCV, timing_bits(timing))
            },
            r is Err ==> r == Err::<(), TransportError>(TransportError::TimedOut) && is_poll(
                added(old(self).history(), final(self).history()), Reg::PresState,
                PresentState::SDSTB, PresentState::SDSTB, old(self).poll_limit(), false),
            final(self).poll_limit() == old(self).poll_limit(),
    {
        let ghost h0 = self.history();
        let r = self.poll(Reg::PresState, PresentState::SDSTB, PresentState::SDSTB);
        if r.is_err() {
            return r;
        }
        let ghost h1 = self.history();
        let (prescaler, ddr_en): (u32, u32) = match timing.data_rate {
            DataRate::DualDataRate(_) => (0, MIX_CTRL_DDR_EN),
            DataRate::SingleDataRate(_) => (0, 0),
        };
        self.reg_modify(Reg::MixCtrl, MIX_CTRL_DDR_EN, ddr_en);
        let ghost h2 = self.history();
        let divisor: u32 = if timing.divisor < 1 {
            0
        } else if timing.divisor > 16 {
            15
        } else {
            (timing.divisor - 1) as u32
        };
        self.reg_modify(Reg::SysCtrl, SYS_CTRL_DVS | SYS_CTRL_SDCLKFS | SYS_CTRL_DTOCV,
            (divisor << 4u32) | (prescaler << 8u32));
        proof {
            lemma_added_chain(h0, h1, h2);
            lemma_added_chain(h0, h2, self.history());
            let t = added(h0, self.history());
            assert(t.take(t.len() - 4) =~= added(h0, h1));
            assert(t.subrange(t.len() - 4, t.len() - 2) =~= added(h1, h2));
            assert(t.skip(t.len() - 2) =~= added(h2, self.history()));
        }
        Ok(())
    }

    /// Read the status flags.
    pub fn status(&mut self) -> (r: Status)
        ensures
            one_read(old(self).history(), final(self).history(), Reg::IntStatus),
            r@ == last_value(final(self).history()) & STATUS_ALL,
            final(self).poll_limit() == old(self).poll_limit(),
    {
        let v = self.reg_read(Reg::IntStatus);
        Status::from_bits_truncate(v)
    }

    /// Clear the status bits that are set high in `status` (write one to
    /// clear).
    pub fn clear_status(&mut self, status: Status)
        ensures
            final(self).history() == old(self).history().push(Event::Write(Reg::IntStatus, status@)),
            final(self).poll_limit() == old(self).poll_limit(),
    {
        self.reg_write(Reg::IntStatus, status.bits());
    }

    /// Set the conditions that are signaled through status flags.
    pub fn set_status_enable(&mut self, status: Status)
        ensures
            final(self).history() == old(self).history().push(Event::Write(Reg::IntStatusEn, status@)),
            final(self).poll_limit() == old(self).poll_limit(),
    {
        self.reg_write(Reg::IntStatusEn, status.bits());
    }

    /// Set the status conditions that trigger an interrupt.
    pub fn set_status_interrupt(&mut self, status: Status)
        ensures
            final(self).history() == old(self).history().push(Event::Write(Reg::IntSignalEn, status@)),
            final(self).poll_limit() == old(self).poll_limit(),
    {
        self.reg_write(Reg::IntSignalEn, status.bits());
    }

    /// Enable or disable DMA support.
    ///
    /// `None` clears the DMA enable bit, then the DMA selection. `Some` sets
    /// the selection, then the enable bit.
    pub fn set_dma_enable(&mut self, dma_enable: Option<DmaSelect>)
        ensures
            extends(old(self).history(), final(self).history()),
            ({
                let t = added(old(self).history(), final(self).history());
                match dma_enable {
                    None => {
                        &&& t.len() == 4
                        &&& is_modify(t.take(2), Reg::MixCtrl, MIX_CTRL_DMAEN, 0)
                        &&& is_modify(t.skip(2), Reg::ProtCtrl, PROT_CTRL_DMASEL, 0)
                    },
                    Some(sel) => {
                        &&& t.len() == 4
                        &&& is_modify(t.take(2), Reg::ProtCtrl, PROT_CTRL_DMASEL,
                            sel.spec_code() << 8u32)
                        &&& is_modify(t.skip(2), Reg::MixCtrl, MIX_CTRL_DMAEN, MIX_CTRL_DMAEN)
                    },
                }
            }),
            final(self).poll_limit() == old(self).poll_limit(),
    {
        let ghost h0 = self.history();
        match dma_enable {
            None => {
                self.reg_modify(Reg::MixCtrl, MIX_CTRL_DMAEN, 0);
            },
            Some(selection) => {
                self.reg_modify(Reg::ProtCtrl, PROT_CTRL_DMASEL, selection.code() << 8u32);
            },
        }
        let ghost h1 = self.history();
        match dma_enable {
            None => {
                self.reg_modify(Reg::ProtCtrl, PROT_CTRL_DMASEL, 0);
            },
            Some(_) => {
                self.reg_modify(Reg::MixCtrl, MIX_CTRL_DMAEN, MIX_CTRL_DMAEN);
            },
        }
        proof {
            lemma_added_chain(h0, h1, self.history());
            let t = added(h0, self.history());
            assert(t.take(2) =~= added(h0, h1));
            assert(t.skip(2) =~= added(h1, self.history()));
        }
    }

    /// Returns the endian mode, or `None` where the register holds the
    /// encoding that names no mode.
    pub fn endian_mode(&mut self) -> (r: Option<EndianMode>)
        ensures
            one_read(old(self).history(), final(self).history(), Reg::ProtCtrl),
            r == endian_mode_of(field(last_value(final(self).history()), PROT_CTRL_EMODE, 4)),
            final(self).poll_limit() == old(self).poll_limit(),
    {
        let v = self.reg_read(Reg::ProtCtrl);
        let code = (v & PROT_CTRL_EMODE) >> 4u32;
        if code == 0 {
            Some(EndianMode::BigEndian)
        } else if code == 1 {
            Some(EndianMode::HalwordBigEndian)
        } else if code == 2 {
            Some(EndianMode::LittleEndian)
        } else {
            None
        }
    }

    /// Set the endian mode.
    pub fn set_endian_mode(&mut self, mode: EndianMode)
        ensures
            extends(old(self).history(), final(self).history()),
            is_modify(added(old(self).history(), final(self).history()), Reg::ProtCtrl,
                PROT_CTRL_EMODE, mode.spec_code() << 4u32),
            final(self).poll_limit() == old(self).poll_limit(),
    {
        self.reg_modify(Reg::ProtCtrl, PROT_CTRL_EMODE, mode.code() << 4u32);
    }

    /// Returns the watermark levels for the FIFO thresholds.
    pub fn watermark(&mut self) -> (r: Watermark)
        ensures
            one_read(old(self).history(), final(self).history(), Reg::WtmkLvl),
            r.write_level as u32 == field(last_value(final(self).history()), WTMK_LVL_WR_WML, 16),
            r.read_level as u32 == field(last_value(final(self).history()), WTMK_LVL_RD_WML, 0),
            final(self).poll_limit() == old(self).poll_limit(),
    {
        let v = self.reg_read(Reg::WtmkLvl);
        let w = (v & WTMK_LVL_WR_WML) >> 16u32;
        let rd = (v & WTMK_LVL_RD_WML) >> 0u32;
        assert(w < 256) by (bit_vector)
            requires
                w == (v & 0xFF0000) >> 16u32,
        ;
        assert(rd < 256) by (bit_vector)
            requires
                rd == (v & 0xFF) >> 0u32,
        ;
        Watermark { write_level: w as u8, read_level: rd as u8 }
    }

    /// Set the watermark levels; each is clamped to at most 128.
    pub fn set_watermark(&mut self, watermark: Watermark)
        ensures
            extends(old(self).history(), final(self).history()),
            is_modify(added(old(self).history(), final(self).history()), Reg::WtmkLvl,
                WTMK_LVL_WR_WML | WTMK_LVL_RD_WML,
                (level_bits(watermark.write_level) << 16u32) | level_bits(watermark.read_level)),
            final(self).poll_limit() == old(self).poll_limit(),
    {
        let w: u32 = if watermark.write_level > 128 { 128 } else { watermark.write_level as u32 };
        let rd: u32 = if watermark.read_level > 128 { 128 } else { watermark.read_level as u32 };
        self.reg_modify(Reg::WtmkLvl, WTMK_LVL_WR_WML | WTMK_LVL_RD_WML, (w << 16u32) | rd);
    }

    /// Returns the data transfer width, or `None` where the register holds
    /// the encoding that names no width.
    pub fn data_transfer_width(&mut self) -> (r: Option<DataTransferWidth>)
        ensures
            one_read(old(self).history(), final(self).history(), Reg::ProtCtrl),
            r == width_of(field(last_value(final(self).history()), PROT_CTRL_DTW, 1)),
            final(self).poll_limit() == old(self).poll_limit(),
    {
        let v = self.reg_read(Reg::ProtCtrl);
        let code = (v & PROT_CTRL_DTW) >> 1u32;
        if code == 0 {
            Some(DataTransferWidth::Bit1)
        } else if code == 1 {
            Some(DataTransferWidth::Bit4)
        } else if code == 2 {
            Some(DataTransferWidth::Bit8)
        } else {
            None
        }
    }

    /// Set the data transfer width.
    pub fn set_data_transfer_width(&mut self, dtw: DataTransferWidth)
        ensures
            extends(old(self).history(), final(self).history()),
            is_modify(added(old(self).history(), final(self).history()), Reg::ProtCtrl,
                PROT_CTRL_DTW, dtw.spec_code() << 1u32),
            final(self).poll_limit() == old(self).poll_limit(),
    {
        self.reg_modify(Reg::ProtCtrl, PROT_CTRL_DTW, dtw.code() << 1u32);
    }

    /// Instruct the peripheral to initialize the card: it sends the card its
    /// 80 idle clock cycles. This call returns without waiting for them, and
    /// does not check the command or data inhibit states.
    pub fn initialize_card(&mut self)
        ensures
            extends(old(self).history(), final(self).history()),
            is_modify(added(old(self).history(), final(self).history()), Reg::SysCtrl,
                SYS_CTRL_INITA, SYS_CTRL_INITA),
            final(self).poll_limit() == old(self).poll_limit(),
    {
        self.reg_modify(Reg::SysCtrl, SYS_CTRL_INITA, SYS_CTRL_INITA);
    }

    /// Read the status flags for card presence.
    pub fn present_state(&mut self) -> (r: PresentState)
        ensures
            one_read(old(self).history(), final(self).history(), Reg::PresState),
            r@ == last_value(final(self).history()) & PRESENT_STATE_ALL,
            final(self).poll_limit() == old(self).poll_limit(),
    {
        let v = self.reg_read(Reg::PresState);
        PresentState::from_bits_truncate(v)
    }

    /// Write to the data buffer, with no check for space in it.
    pub fn write_data_buffer(&mut self, word: u32)
        ensures
            final(self).history() == old(self).history().push(Event::Write(Reg::DataBuffAccPort, word)),
            final(self).poll_limit() == old(self).poll_limit(),
    {
        self.reg_write(Reg::DataBuffAccPort, word);
    }

    /// Read from the data buffer, with no check for data in it.
    pub fn read_data_buffer(&mut self) -> (r: u32)
        ensures
            final(self).history() == old(self).history().push(Event::Read(Reg::DataBuffAccPort, r)),
            final(self).poll_limit() == old(self).poll_limit(),
    {
        self.reg_read(Reg::DataBuffAccPort)
    }

    /// Set the direction for the next data transfer.
    pub fn set_data_transfer_direction(&mut self, dir: DataTransferDirection)
        ensures
            extends(old(self).history(), final(self).history()),
            is_modify(added(old(self).history(), final(self).history()), Reg::MixCtrl,
                MIX_CTRL_DTDSEL, dir.spec_code() << 4u32),
            final(self).poll_limit() == old(self).poll_limit(),
    {
        self.reg_modify(Reg::MixCtrl, MIX_CTRL_DTDSEL, dir.code() << 4u32);
    }

    /// Read `reg` until `value & mask == want`, at most the poll limit times.
    pub(crate) fn poll(&mut self, reg: Reg, mask: u32, want: u32) -> (r: Result<(), TransportError>)
        ensures
            extends(old(self).history(), final(self).history()),
            is_poll(added(old(self).history(), final(self).history()), reg, mask, want,
                old(self).poll_limit(), r is Ok),
            r is Err ==> r == Err::<(), TransportError>(TransportError::TimedOut),
            final(self).poll_limit() == old(self).poll_limit(),
    {
        let ghost start = self.history();
        let mut n: u64 = 0;
        while n < self.max_polls
            invariant
                n <= self.max_polls,
                self.max_polls == old(self).poll_limit(),
                start == old(self).history(),
                extends(start, self.history()),
                added(start, self.history()).len() == n,
                forall|i: int| 0 <= i < n ==> is_read_of(#[trigger] added(start, self.history())[i], reg),
                forall|i: int| 0 <= i < n ==> value_of(#[trigger] added(start, self.history())[i]) & mask != want,
            decreases self.max_polls - n,
        {
            let ghost before = self.history();
            let v = self.reg_read(reg);
            n = n + 1;
            proof {
                let t = added(start, self.history());
                assert(t =~= added(start, before).push(Event::Read(reg, v)));
            }
            if v & mask == want {
                return Ok(());
            }
        }
        Err(TransportError::TimedOut)
    }
}

} // verus!
