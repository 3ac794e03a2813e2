//! The register interface over the memory-mapped registers of a uSDHC block,
//! accessed with volatile reads and writes.
use vstd::prelude::*;

use ral_registers::{RORegister, RWRegister};

use crate::registers::{Reg, Registers};

verus! {

#[verifier::external_type_specification]
#[verifier::external_body]
#[verifier::reject_recursive_types(T)]
pub struct ExRWRegister<T>(RWRegister<T>);

#[verifier::external_type_specification]
#[verifier::external_body]
#[verifier::reject_recursive_types(T)]
pub struct ExRORegister<T>(RORegister<T>);

/// Relies on ral_registers' `RWRegister::read`: one volatile load of the
/// register. The value is the hardware's, so nothing is promised of it.
pub assume_specification<T: Copy>[ RWRegister::<T>::read ](r: &RWRegister<T>) -> T;

/// Relies on ral_registers' `RWRegister::write`: one volatile store of
/// `val` to the register.
pub assume_specification<T: Copy>[ RWRegister::<T>::write ](r: &RWRegister<T>, val: T);

/// Relies on ral_registers' `RORegister::read`: one volatile load of the
/// register. The value is the hardware's, so nothing is promised of it.
pub assume_specification<T: Copy>[ RORegister::<T>::read ](r: &RORegister<T>) -> T;

/// The registers of one uSDHC block that the driver uses, each a reference
/// into the memory-mapped block.
pub struct Mmio<'a> {
    /// Block attributes.
    pub blk_att: &'a RWRegister<u32>,
    /// Command argument.
    pub cmd_arg: &'a RWRegister<u32>,
    /// Command transfer type.
    pub cmd_xfr_typ: &'a RWRegister<u32>,
    /// Command response, word 0.
    pub cmd_rsp0: &'a RORegister<u32>,
    /// Command response, word 1.
    pub cmd_rsp1: &'a RORegister<u32>,
    /// Command response, word 2.
    pub cmd_rsp2: &'a RORegister<u32>,
    /// Command response, word 3.
    pub cmd_rsp3: &'a RORegister<u32>,
    /// Data buffer access port.
    pub data_buff_acc_port: &'a RWRegister<u32>,
    /// Present state.
    pub pres_state: &'a RORegister<u32>,
    /// Protocol control.
    pub prot_ctrl: &'a RWRegister<u32>,
    /// System control.
    pub sys_ctrl: &'a RWRegister<u32>,
    /// Interrupt status.
    pub int_status: &'a RWRegister<u32>,
    /// Interrupt status enable.
    pub int_status_en: &'a RWRegister<u32>,
    /// Interrupt signal enable.
    pub int_signal_en: &'a RWRegister<u32>,
    /// Watermark level.
    pub wtmk_lvl: &'a RWRegister<u32>,
    /// Mixer control.
    pub mix_ctrl: &'a RWRegister<u32>,
}

impl<'a> Registers for Mmio<'a> {
    fn load(&mut self, reg: Reg) -> u32 {
        match reg {
            Reg::BlkAtt => self.blk_att.read(),
            Reg::CmdArg => self.cmd_arg.read(),
            Reg::CmdXfrTyp => self.cmd_xfr_typ.read(),
            Reg::CmdRsp0 => self.cmd_rsp0.read(),
            Reg::CmdRsp1 => self.cmd_rsp1.read(),
            Reg::CmdRsp2 => self.cmd_rsp2.read(),
            Reg::CmdRsp3 => self.cmd_rsp3.read(),
            Reg::DataBuffAccPort => self.data_buff_acc_port.read(),
            Reg::PresState => self.pres_state.read(),
            Reg::ProtCtrl => self.prot_ctrl.read(),
            Reg::SysCtrl => self.sys_ctrl.read(),
            Reg::IntStatus => self.int_status.read(),
            Reg::IntStatusEn => self.int_status_en.read(),
            Reg::IntSignalEn => self.int_signal_en.read(),
            Reg::WtmkLvl => self.wtmk_lvl.read(),
            Reg::MixCtrl => self.mix_ctrl.read(),
        }
    }

    /// A write to a read-only register has no effect.
    fn store(&mut self, reg: Reg, value: u32) {
        match reg {
            Reg::BlkAtt => self.blk_att.write(value),
            Reg::CmdArg => self.cmd_arg.write(value),
            Reg::CmdXfrTyp => self.cmd_xfr_typ.write(value),
            Reg::DataBuffAccPort => self.data_buff_acc_port.write(value),
            Reg::ProtCtrl => self.prot_ctrl.write(value),
            Reg::SysCtrl => self.sys_ctrl.write(value),
            Reg::IntStatus => self.int_status.write(value),
            Reg::IntStatusEn => self.int_status_en.write(value),
            Reg::IntSignalEn => self.int_signal_en.write(value),
            Reg::WtmkLvl => self.wtmk_lvl.write(value),
            Reg::MixCtrl => self.mix_ctrl.write(value),
            Reg::CmdRsp0 | Reg::CmdRsp1 | Reg::CmdRsp2 | Reg::CmdRsp3 | Reg::PresState => {},
        }
    }
}

} // verus!
