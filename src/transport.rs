//! The blocking transport: command issue and response capture around the
//! data phase, the power-cycle sequence, and the bus width.
use vstd::prelude::*;

use crate::config::{DataTransferDirection, DataTransferWidth};
use crate::registers::{
    added, extends, is_modify, lemma_added_chain, Event, Reg, Registers, BLK_ATT_BLKSIZE,
    CMD_XFR_TYP_CCCEN, CMD_XFR_TYP_CICEN, CMD_XFR_TYP_CMDINX, CMD_XFR_TYP_DPSEL, MIX_CTRL_DMAEN,
    MIX_CTRL_DTDSEL, PROT_CTRL_DMASEL, PROT_CTRL_DTW, SYS_CTRL_INITA, SYS_CTRL_IPP_RST_N,
    WTMK_LVL_RD_WML, WTMK_LVL_WR_WML,
};
use crate::data::{is_read_data, is_write_data};
use crate::status::{status_is_error, PresentState, Status, TransportError, STATUS_ALL, STATUS_ERRORS};
use crate::usdhc::{is_poll, is_read_of, value_of, Usdhc, SYS_CTRL_RESETS};
use crate::wait::is_wait;

verus! {

/// The length class of a command's response.
#[derive(Clone, Copy, Debug, PartialEq, Eq, Structural)]
pub enum ResponseLen {
    /// No response expected.
    Zero,
    /// Short (48 bit) response.
    R48,
    /// Long (136 bit) response.
    R136,
}

impl ResponseLen {
    /// The response type encoding of the command transfer type register:
    /// none is 0, long is 1, short is 2.
    pub open spec fn spec_code(self) -> u32 {
        match self {
            ResponseLen::Zero => 0,
            ResponseLen::R136 => 1,
            ResponseLen::R48 => 2,
        }
    }

    /// The response type encoding of the command transfer type register.
    pub fn code(self) -> (r: u32)
        ensures
            r == self.spec_code(),
    {
        match self {
            ResponseLen::Zero => 0,
            ResponseLen::R136 => 1,
            ResponseLen::R48 => 2,
        }
    }
}

/// A command for the card.
#[derive(Clone, Copy, Debug, PartialEq, Eq, Structural)]
pub struct Command {
    /// The command index (six bits).
    pub cmd: u8,
    /// The command argument.
    pub arg: u32,
    /// The length class of the expected response.
    pub response_len: ResponseLen,
    /// Whether the host checks the command index of the response.
    pub check_index: bool,
    /// Whether the host checks the CRC of the response.
    pub check_crc: bool,
}

/// The command transfer type word for `c`: its index, command type zero,
/// whether data is present, the two checks, and the response type.
pub open spec fn command_bits(c: Command, data_present: bool) -> u32 {
    (((c.cmd as u32) << 24u32) & CMD_XFR_TYP_CMDINX) | (if data_present {
        CMD_XFR_TYP_DPSEL
    } else {
        0
    }) | (if c.check_index {
        CMD_XFR_TYP_CICEN
    } else {
        0
    }) | (if c.check_crc {
        CMD_XFR_TYP_CCCEN
    } else {
        0
    }) | (c.response_len.spec_code() << 16u32)
}

/// The block size that a transfer programs: the data length where there is
/// data, else zero.
pub open spec fn block_size(direction: Option<DataTransferDirection>, len: int) -> u32 {
    if direction is Some {
        (len as u32) & BLK_ATT_BLKSIZE
    } else {
        0
    }
}

/// The watermark bits of a transfer: write level 128, read level 1.
pub const TRANSFER_WATERMARK: u32 = 0x0080_0001;

/// The long response rebuilt from the four response registers: each word
/// moves up one byte and takes the top byte of the word below; the lowest
/// byte, where the CRC and end bit would be, is zero.
pub open spec fn long_response(raw: Seq<u32>) -> Seq<u32> {
    seq![
        raw[0] << 8u32,
        (raw[1] << 8u32) | (raw[0] >> 24u32),
        (raw[2] << 8u32) | (raw[1] >> 24u32),
        (raw[3] << 8u32) | (raw[2] >> 24u32),
    ]
}

/// Rebuild a long (136 bit) response from the four response registers, as
/// the card sent it, with the CRC and end bit byte as zero.
pub fn rebuild_long_response(raw: [u32; 4]) -> (r: [u32; 4])
    ensures
        r@ == long_response(raw@),
{
    let r = [
        raw[0] << 8u32,
        (raw[1] << 8u32) | (raw[0] >> 24u32),
        (raw[2] << 8u32) | (raw[1] >> 24u32),
        (raw[3] << 8u32) | (raw[2] >> 24u32),
    ];
    assert(r@ =~= long_response(raw@));
    r
}

/// `t` checks the status and prepares for a command: a read of the status, a
/// clear of the error flags if it showed one, a wait until neither command
/// inhibit flag is set, and a clear of every flag. A wait that times out
/// ends it.
pub open spec fn is_prepare(t: Seq<Event>, limit: u64, r: Result<(), TransportError>) -> bool {
    let c: int = if status_is_error(value_of(t[0]) & STATUS_ALL) { 1 } else { 0 };
    &&& t.len() >= 1 + c
    &&& is_read_of(t[0], Reg::IntStatus)
    &&& c == 1 ==> t[1] == Event::Write(Reg::IntStatus, STATUS_ERRORS)
    &&& if r is Ok {
        &&& t.len() >= 2 + c
        &&& is_poll(t.subrange(1 + c, t.len() - 1), Reg::PresState,
            PresentState::CIHB | PresentState::CDIHB, 0, limit, true)
        &&& t.last() == Event::Write(Reg::IntStatus, STATUS_ALL)
    } else {
        &&& r == Err::<(), TransportError>(TransportError::TimedOut)
        &&& is_poll(t.skip(1 + c), Reg::PresState, PresentState::CIHB | PresentState::CDIHB, 0,
            limit, false)
    }
}

/// `t` issues `c`: with data, it sets the watermark levels; then it sets the
/// transfer direction, the block size, the argument, and last the command
/// transfer type, which starts the command.
pub open spec fn is_issue(t: Seq<Event>, c: Command, direction: Option<DataTransferDirection>, len: int) -> bool {
    let w: int = if direction is Some { 2 } else { 0 };
    &&& t.len() == w + 5
    &&& direction is Some ==> is_modify(t.take(2), Reg::WtmkLvl, WTMK_LVL_WR_WML | WTMK_LVL_RD_WML,
        TRANSFER_WATERMARK)
    &&& is_modify(t.subrange(w, w + 2), Reg::MixCtrl, MIX_CTRL_DTDSEL,
        if direction == Some(DataTransferDirection::Read) { MIX_CTRL_DTDSEL } else { 0 })
    &&& t[w + 2] == Event::Write(Reg::BlkAtt, block_size(direction, len))
    &&& t[w + 3] == Event::Write(Reg::CmdArg, c.arg)
    &&& t[w + 4] == Event::Write(Reg::CmdXfrTyp, command_bits(c, direction is Some))
}

/// `t` captures a response of class `len` into a buffer from `before` to
/// `after`: nothing for none; the first response register into word 0 for
/// a short one; the four registers in order, rebuilt, for a long one.
pub open spec fn is_response(t: Seq<Event>, len: ResponseLen, before: Seq<u32>, after: Seq<u32>) -> bool {
    match len {
        ResponseLen::Zero => t.len() == 0 && after == before,
        ResponseLen::R48 => {
            &&& t.len() == 1
            &&& is_read_of(t[0], Reg::CmdRsp0)
            &&& after == before.update(0, value_of(t[0]))
        },
        ResponseLen::R136 => {
            &&& t.len() == 4
            &&& is_read_of(t[0], Reg::CmdRsp0)
            &&& is_read_of(t[1], Reg::CmdRsp1)
            &&& is_read_of(t[2], Reg::CmdRsp2)
            &&& is_read_of(t[3], Reg::CmdRsp3)
            &&& after == long_response(
                seq![value_of(t[0]), value_of(t[1]), value_of(t[2]), value_of(t[3])],
            )
        },
    }
}

/// `t` is a transfer of `command` in its stages `pre`, `issue`, `wait`,
/// `resp` and `data`, where the preparation ended with `rp` and the wait for
/// command complete with `rw`; a failed stage ends the transfer with its
/// error and leaves the response and the buffer as they were.
pub open spec fn transfer_steps(
    t: Seq<Event>,
    pre: Seq<Event>,
    issue: Seq<Event>,
    wait: Seq<Event>,
    resp: Seq<Event>,
    data: Seq<Event>,
    rp: Result<(), TransportError>,
    rw: Result<(), TransportError>,
    command: Command,
    direction: Option<DataTransferDirection>,
    buf_before: Seq<u8>,
    buf_after: Seq<u8>,
    resp_before: Seq<u32>,
    resp_after: Seq<u32>,
    limit: u64,
    r: Result<(), TransportError>,
) -> bool {
    &&& t == pre + issue + wait + resp + data
    &&& is_prepare(pre, limit, rp)
    &&& if rp is Err {
        &&& r == rp
        &&& issue.len() == 0 && wait.len() == 0 && resp.len() == 0 && data.len() == 0
        &&& resp_after == resp_before && buf_after == buf_before
    } else {
        &&& is_issue(issue, command, direction, buf_before.len() as int)
        &&& is_wait(wait, Status::CC, limit, rw)
        &&& if rw is Err {
            &&& r == rw
            &&& resp.len() == 0 && data.len() == 0
            &&& resp_after == resp_before && buf_after == buf_before
        } else {
            &&& is_response(resp, command.response_len, resp_before, resp_after)
            &&& match direction {
                None => data.len() == 0 && r is Ok && buf_after == buf_before,
                Some(DataTransferDirection::Read) => is_read_data(data, limit, buf_before, buf_after, r),
                Some(DataTransferDirection::Write) => is_write_data(data, limit, buf_before, r)
                    && buf_after == buf_before,
            }
        }
    }
}

/// `t` is a power cycle: the reset line driven to reset the card, a delay
/// of 100, the line released, a software reset, every status flag enabled
/// and cleared, no interrupt enabled, DMA disabled, a delay of 5, the card
/// initialization, and a delay of 5. A software reset that times out ends
/// it.
pub open spec fn is_power_cycle(t: Seq<Event>, limit: u64, r: Result<(), TransportError>) -> bool {
    &&& t.len() >= 7
    &&& is_modify(t.take(2), Reg::SysCtrl, SYS_CTRL_IPP_RST_N, SYS_CTRL_IPP_RST_N)
    &&& t[2] == Event::Delay(100)
    &&& is_modify(t.subrange(3, 5), Reg::SysCtrl, SYS_CTRL_IPP_RST_N, 0)
    &&& is_modify(t.subrange(5, 7), Reg::SysCtrl, SYS_CTRL_RESETS, SYS_CTRL_RESETS)
    &&& if r is Ok {
        let n = t.len() - 11;
        &&& t.len() >= 18
        &&& is_poll(t.subrange(7, n), Reg::SysCtrl, SYS_CTRL_RESETS, 0, limit, true)
        &&& t[n] == Event::Write(Reg::IntStatusEn, STATUS_ALL)
        &&& t[n + 1] == Event::Write(Reg::IntStatus, STATUS_ALL)
        &&& t[n + 2] == Event::Write(Reg::IntSignalEn, 0)
        &&& is_modify(t.subrange(n + 3, n + 5), Reg::MixCtrl, MIX_CTRL_DMAEN, 0)
        &&& is_modify(t.subrange(n + 5, n + 7), Reg::ProtCtrl, PROT_CTRL_DMASEL, 0)
        &&& t[n + 7] == Event::Delay(5)
        &&& is_modify(t.subrange(n + 8, n + 10), Reg::SysCtrl, SYS_CTRL_INITA, SYS_CTRL_INITA)
        &&& t[n + 10] == Event::Delay(5)
    } else {
        &&& r == Err::<(), TransportError>(TransportError::TimedOut)
        &&& is_poll(t.skip(7), Reg::SysCtrl, SYS_CTRL_RESETS, 0, limit, false)
    }
}

/// The data transfer width for a bus of `lines` data lines, where the host
/// supports that many.
pub open spec fn width_for_lines(lines: u8) -> Option<DataTransferWidth> {
    if lines == 1 {
        Some(DataTransferWidth::Bit1)
    } else if lines == 4 {
        Some(DataTransferWidth::Bit4)
    } else if lines == 8 {
        Some(DataTransferWidth::Bit8)
    } else {
        None
    }
}

impl<R: Registers> Usdhc<R> {
    /// Check the status and wait until a command may be issued.
    fn prepare_command(&mut self) -> (r: Result<(), TransportError>)
        ensures
            extends(old(self).history(), final(self).history()),
            is_prepare(added(old(self).history(), final(self).history()), old(self).poll_limit(), r),
            final(self).poll_limit() == old(self).poll_limit(),
    {
        let ghost h0 = self.history();
        let status = self.status();
        if status.is_error() {
            self.clear_status(Status::errors());
        }
        let ghost h1 = self.history();
        let r = self.poll(Reg::PresState, PresentState::CIHB | PresentState::CDIHB, 0);
        let ghost h2 = self.history();
        proof {
            assert(extends(h0, h1)) by {
                assert(h1.subrange(0, h0.len() as int) =~= h0);
            }
            lemma_added_chain(h0, h1, h2);
            let c: int = if status_is_error(value_of(added(h0, h1)[0]) & STATUS_ALL) { 1 } else { 0 };
            assert(added(h0, h1).len() == 1 + c);
            assert(added(h0, h2).skip(1 + c) =~= added(h1, h2));
        }
        if r.is_err() {
            return r;
        }
        self.clear_status(Status::all());
        proof {
            let c: int = if status_is_error(value_of(added(h0, h1)[0]) & STATUS_ALL) { 1 } else { 0 };
            let t = added(h0, self.history());
            assert(extends(h2, self.history())) by {
                assert(self.history().subrange(0, h2.len() as int) =~= h2);
            }
            lemma_added_chain(h0, h2, self.history());
            assert(t.subrange(1 + c, t.len() - 1) =~= added(h1, h2));
        }
        Ok(())
    }

    /// Program the watermark (with data), direction, block size, argument
    /// and command transfer type of `command`.
    fn issue_command(&mut self, command: Command, direction: Option<DataTransferDirection>, len: usize)
        ensures
            extends(old(self).history(), final(self).history()),
            is_issue(added(old(self).history(), final(self).history()), command, direction, len as int),
            final(self).poll_limit() == old(self).poll_limit(),
    {
        let ghost h0 = self.history();
        if direction.is_some() {
            self.reg_modify(Reg::WtmkLvl, WTMK_LVL_WR_WML | WTMK_LVL_RD_WML, TRANSFER_WATERMARK);
        }
        let ghost h1 = self.history();
        let is_read = match direction {
            Some(DataTransferDirection::Read) => true,
            _ => false,
        };
        self.reg_modify(Reg::MixCtrl, MIX_CTRL_DTDSEL, if is_read { MIX_CTRL_DTDSEL } else { 0 });
        let ghost h2 = self.history();
        let size: u32 = if direction.is_some() { (len as u32) & BLK_ATT_BLKSIZE } else { 0 };
        self.reg_write(Reg::BlkAtt, size);
        self.reg_write(Reg::CmdArg, command.arg);
        let xfr: u32 = (((command.cmd as u32) << 24u32) & CMD_XFR_TYP_CMDINX) | (if direction.is_some() {
            CMD_XFR_TYP_DPSEL
        } else {
            0
        }) | (if command.check_index {
            CMD_XFR_TYP_CICEN
        } else {
            0
        }) | (if command.check_crc {
            CMD_XFR_TYP_CCCEN
        } else {
            0
        }) | (command.response_len.code() << 16u32);
        self.reg_write(Reg::CmdXfrTyp, xfr);
        proof {
            assert(extends(h0, h1)) by {
                assert(h1.subrange(0, h0.len() as int) =~= h0);
            }
            lemma_added_chain(h0, h1, h2);
            assert(extends(h2, self.history())) by {
                assert(self.history().subrange(0, h2.len() as int) =~= h2);
            }
            lemma_added_chain(h0, h2, self.history());
            let t = added(h0, self.history());
            let w: int = if direction is Some { 2 } else { 0 };
            assert(added(h0, h1).len() == w);
            assert(t.take(w) =~= added(h0, h1));
            assert(t.subrange(w, w + 2) =~= added(h1, h2));
        }
    }

    /// Capture the response of class `len` into `response`.
    fn read_response(&mut self, len: ResponseLen, response: &mut [u32; 4])
        ensures
            extends(old(self).history(), final(self).history()),
            is_response(added(old(self).history(), final(self).history()), len, old(response)@,
                final(response)@),
            final(self).poll_limit() == old(self).poll_limit(),
    {
        let ghost h0 = self.history();
        match len {
            ResponseLen::Zero => {
                proof {
                    assert(added(h0, self.history()) =~= Seq::<Event>::empty());
                }
            },
            ResponseLen::R48 => {
                let v = self.reg_read(Reg::CmdRsp0);
                response[0] = v;
                proof {
                    assert(added(h0, self.history()) =~= seq![Event::Read(Reg::CmdRsp0, v)]);
                    assert(response@ =~= old(response)@.update(0, v));
                }
            },
            ResponseLen::R136 => {
                let a = self.reg_read(Reg::CmdRsp0);
                let b = self.reg_read(Reg::CmdRsp1);
                let c = self.reg_read(Reg::CmdRsp2);
                let d = self.reg_read(Reg::CmdRsp3);
                *response = rebuild_long_response([a, b, c, d]);
                proof {
                    assert(added(h0, self.history()) =~= seq![
                        Event::Read(Reg::CmdRsp0, a),
                        Event::Read(Reg::CmdRsp1, b),
                        Event::Read(Reg::CmdRsp2, c),
                        Event::Read(Reg::CmdRsp3, d),
                    ]);
                    assert([a, b, c, d]@ =~= seq![a, b, c, d]);
                }
            },
        }
        proof {
            assert(extends(h0, self.history())) by {
                assert(self.history().subrange(0, h0.len() as int) =~= h0);
            }
        }
    }

    /// Execute `command`, capture its response into `response`, and, where
    /// `direction` is given, transfer `buffer` in that direction.
    ///
    /// A data length that is not a multiple of four is refused with
    /// [`TransportError::NotSupported`] before any register access. Else the
    /// transfer clears stale errors, waits until a command may be issued,
    /// clears every status flag, programs and starts the command, waits for
    /// command complete, captures the response words its class calls for, and
    /// moves the data one word at a time. An error ends it at once.
    pub fn transfer(
        &mut self,
        command: Command,
        response: &mut [u32; 4],
        direction: Option<DataTransferDirection>,
        buffer: &mut Vec<u8>,
    ) -> (r: Result<(), TransportError>)
        ensures
            direction is Some && old(buffer)@.len() % 4 != 0 ==> {
                &&& r == Err::<(), TransportError>(TransportError::NotSupported)
                &&& final(self).history() == old(self).history()
                &&& final(response)@ == old(response)@
                &&& final(buffer)@ == old(buffer)@
            },
            direction is None || old(buffer)@.len() % 4 == 0 ==> {
                &&& extends(old(self).history(), final(self).history())
                &&& exists|
                    pre: Seq<Event>,
                    issue: Seq<Event>,
                    wait: Seq<Event>,
                    resp: Seq<Event>,
                    data: Seq<Event>,
                    rp: Result<(), TransportError>,
                    rw: Result<(), TransportError>,
                |
                    #[trigger] transfer_steps(
                        added(old(self).history(), final(self).history()),
                        pre,
                        issue,
                        wait,
                        resp,
                        data,
                        rp,
                        rw,
                        command,
                        direction,
                        old(buffer)@,
                        final(buffer)@,
                        old(response)@,
                        final(response)@,
                        old(self).poll_limit(),
                        r,
                    )
            },
            final(self).poll_limit() == old(self).poll_limit(),
    {
        let ghost h0 = self.history();
        let ghost limit = self.poll_limit();
        let len = buffer.len();
        if direction.is_some() && len % 4 != 0 {
            return Err(TransportError::NotSupported);
        }
        let rp = self.prepare_command();
        let ghost h1 = self.history();
        if rp.is_err() {
            proof {
                let e = Seq::<Event>::empty();
                assert(added(h0, h1) =~= added(h0, h1) + e + e + e + e);
                assert(transfer_steps(added(h0, h1), added(h0, h1), e, e, e, e, rp, rp, command,
                    direction, old(buffer)@, buffer@, old(response)@, response@, limit, rp));
            }
            return rp;
        }
        self.issue_command(command, direction, len);
        let ghost h2 = self.history();
        let cc = Status::from_bits_truncate(Status::CC);
        proof {
            assert(Status::CC & STATUS_ALL == Status::CC) by (bit_vector);
            lemma_added_chain(h0, h1, h2);
        }
        let rw = self.wait_for(cc);
        let ghost h3 = self.history();
        proof {
            lemma_added_chain(h0, h2, h3);
        }
        if rw.is_err() {
            proof {
                let e = Seq::<Event>::empty();
                assert(added(h0, h3) =~= added(h0, h1) + added(h1, h2) + added(h2, h3) + e + e);
                assert(transfer_steps(added(h0, h3), added(h0, h1), added(h1, h2), added(h2, h3),
                    e, e, rp, rw, command, direction, old(buffer)@, buffer@, old(response)@,
                    response@, limit, rw));
            }
            return rw;
        }
        self.read_response(command.response_len, response);
        let ghost h4 = self.history();
        proof {
            lemma_added_chain(h0, h3, h4);
        }
        let rd = match direction {
            None => Ok(()),
            Some(DataTransferDirection::Read) => self.read_into(buffer),
            Some(DataTransferDirection::Write) => self.write_from(buffer),
        };
        proof {
            if direction is None {
                assert(self.history().subrange(0, h4.len() as int) =~= h4);
            }
            lemma_added_chain(h0, h4, self.history());
            let t = added(h0, self.history());
            assert(t =~= added(h0, h1) + added(h1, h2) + added(h2, h3) + added(h3, h4) + added(h4, self.history()));
            assert(transfer_steps(t, added(h0, h1), added(h1, h2), added(h2, h3), added(h3, h4),
                added(h4, self.history()), rp, rw, command, direction, old(buffer)@, buffer@,
                old(response)@, response@, limit, rd));
        }
        rd
    }

    /// Power cycle the card and bring the peripheral to a known state.
    ///
    /// Drives the hardware reset line, resets the peripheral, enables and
    /// clears every status flag with no interrupt and no DMA, and starts the
    /// card's initialization clocks, calling `delay` with 100, 5 and 5 time
    /// units between the steps. Nothing in the sequence can fail but a
    /// software reset that does not finish within the poll limit.
    pub fn power_cycle<F: FnMut(u32)>(&mut self, delay: &mut F) -> (r: Result<(), TransportError>)
        requires
            forall|f: F, u: u32| call_requires(f, (u,)),
        ensures
            extends(old(self).history(), final(self).history()),
            is_power_cycle(added(old(self).history(), final(self).history()), old(self).poll_limit(), r),
            final(self).poll_limit() == old(self).poll_limit(),
    {
        let ghost h0 = self.history();
        self.set_hardware_reset(false);
        let ghost h1 = self.history();
        self.pause(delay, 100);
        let ghost h2 = self.history();
        self.set_hardware_reset(true);
        let ghost h3 = self.history();
        let rs = self.software_reset();
        let ghost h4 = self.history();
        proof {
            assert(extends(h1, h2)) by {
                assert(h2.subrange(0, h1.len() as int) =~= h1);
            }
            lemma_added_chain(h0, h1, h2);
            lemma_added_chain(h0, h2, h3);
            lemma_added_chain(h0, h3, h4);
            let t = added(h0, h4);
            assert(added(h0, h3).len() == 5);
            assert(t.take(2) =~= added(h0, h1));
            assert(added(h1, h2) =~= seq![Event::Delay(100)]);
            assert(t.subrange(3, 5) =~= added(h2, h3));
            assert(t.subrange(5, 7) =~= added(h3, h4).take(2));
            assert(t.skip(7) =~= added(h3, h4).skip(2));
        }
        if rs.is_err() {
            return rs;
        }
        self.set_status_enable(Status::all());
        self.clear_status(Status::all());
        self.set_status_interrupt(Status::empty());
        let ghost h5 = self.history();
        self.set_dma_enable(None);
        let ghost h6 = self.history();
        self.pause(delay, 5);
        let ghost h7 = self.history();
        self.initialize_card();
        let ghost h8 = self.history();
        self.pause(delay, 5);
        proof {
            assert(extends(h4, h5)) by {
                assert(h5.subrange(0, h4.len() as int) =~= h4);
            }
            assert(extends(h6, h7)) by {
                assert(h7.subrange(0, h6.len() as int) =~= h6);
            }
            assert(extends(h8, self.history())) by {
                assert(self.history().subrange(0, h8.len() as int) =~= h8);
            }
            lemma_added_chain(h0, h4, h5);
            lemma_added_chain(h0, h5, h6);
            lemma_added_chain(h0, h6, h7);
            lemma_added_chain(h0, h7, h8);
            lemma_added_chain(h0, h8, self.history());
            let t = added(h0, self.history());
            let n = t.len() - 11;
            assert(added(h0, h3).len() == 5);
            assert(n == added(h0, h4).len());
            assert(added(h4, h5) =~= seq![
                Event::Write(Reg::IntStatusEn, STATUS_ALL),
                Event::Write(Reg::IntStatus, STATUS_ALL),
                Event::Write(Reg::IntSignalEn, 0),
            ]);
            assert(added(h6, h7) =~= seq![Event::Delay(5)]);
            assert(added(h8, self.history()) =~= seq![Event::Delay(5)]);
            assert(t.subrange(7, n) =~= added(h3, h4).skip(2));
            assert(t.subrange(n + 3, n + 5) =~= added(h5, h6).take(2));
            assert(t.subrange(n + 5, n + 7) =~= added(h5, h6).skip(2));
            assert(t.subrange(n + 8, n + 10) =~= added(h7, h8));
            assert(t.take(2) =~= added(h0, h1));
            assert(t.subrange(3, 5) =~= added(h2, h3));
            assert(t.subrange(5, 7) =~= added(h3, h4).take(2));
        }
        Ok(())
    }

    /// Set the bus to `lines` data lines: 1, 4 or 8. Any other count fails
    /// with [`TransportError::NotSupported`] and touches no register.
    pub fn set_bus_width(&mut self, lines: u8) -> (r: Result<(), TransportError>)
        ensures
            width_for_lines(lines) is None ==> {
                &&& r == Err::<(), TransportError>(TransportError::NotSupported)
                &&& final(self).history() == old(self).history()
            },
            width_for_lines(lines) is Some ==> {
                &&& r is Ok
                &&& extends(old(self).history(), final(self).history())
                &&& is_modify(added(old(self).history(), final(self).history()), Reg::ProtCtrl,
                    PROT_CTRL_DTW, width_for_lines(lines).unwrap().spec_code() << 1u32)
            },
            final(self).poll_limit() == old(self).poll_limit(),
    {
        let width = if lines == 1 {
            DataTransferWidth::Bit1
        } else if lines == 4 {
            DataTransferWidth::Bit4
        } else if lines == 8 {
            DataTransferWidth::Bit8
        } else {
            return Err(TransportError::NotSupported);
        };
        self.set_data_transfer_width(width);
        Ok(())
    }

    /// Set the transport (signaling) mode. This host makes no clock or
    /// voltage change for it: the call touches no register and succeeds.
    pub fn set_mode<M>(&mut self, mode: M) -> (r: Result<(), TransportError>)
        ensures
            r is Ok,
            final(self).history() == old(self).history(),
            final(self).poll_limit() == old(self).poll_limit(),
    {
        Ok(())
    }
}

} // verus!
