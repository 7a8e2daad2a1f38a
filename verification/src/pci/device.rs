//! What a device model declares of itself as a PCI function: its identity,
//! where its MSI-X capability lives, and the stretch of configuration space
//! it handles itself.

use super::bits::RegCmd;
use vstd::prelude::*;

verus! {

/// The identity of a function, as its header shows it.
#[derive(Copy, Clone, Debug, PartialEq, Eq, Structural)]
pub struct Ident {
    pub vendor_id: u16,
    pub device_id: u16,
    pub class: u8,
    pub subclass: u8,
    pub prog_if: u8,
    pub revision_id: u8,
    pub sub_vendor_id: u16,
    pub sub_device_id: u16,
}

impl Default for Ident {
    /// The identity with every number zero.
    fn default() -> (ident: Ident)
        ensures
            ident == (Ident {
                vendor_id: 0,
                device_id: 0,
                class: 0,
                subclass: 0,
                prog_if: 0,
                revision_id: 0,
                sub_vendor_id: 0,
                sub_device_id: 0,
            }),
    {
        Ident {
            vendor_id: 0,
            device_id: 0,
            class: 0,
            subclass: 0,
            prog_if: 0,
            revision_id: 0,
            sub_vendor_id: 0,
            sub_device_id: 0,
        }
    }
}

/// One of the six base address registers of a function.
#[derive(Copy, Clone, Debug, PartialEq, Eq, Structural)]
pub enum BarN {
    BAR0,
    BAR1,
    BAR2,
    BAR3,
    BAR4,
    BAR5,
}

/// Where the MSI-X capability of a function lives and how many vectors it
/// has.
#[derive(Copy, Clone, Debug, PartialEq, Eq, Structural)]
pub struct MsixCfg {
    pub bar: BarN,
    pub count: u16,
}

/// A stretch of configuration space that the device model handles itself.
#[derive(Copy, Clone, Debug, PartialEq, Eq, Structural)]
pub struct CustomCfg {
    pub offset: u8,
    pub len: u8,
}

/// What a [`DeviceState`] is, as plain values.
pub struct DeviceView {
    pub ident: Ident,
    pub msix: Option<MsixCfg>,
    pub custom_cfg: Option<CustomCfg>,
    pub command: u16,
}

/// Collects what a device model declares, step by step.
pub struct Builder {
    ident: Ident,
    msix: Option<MsixCfg>,
    custom_cfg: Option<CustomCfg>,
}

impl View for Builder {
    type V = DeviceView;

    closed spec fn view(&self) -> DeviceView {
        DeviceView {
            ident: self.ident,
            msix: self.msix,
            custom_cfg: self.custom_cfg,
            command: RegCmd::INTX_DIS,
        }
    }
}

impl Builder {
    /// Starts the declaration of a function with the identity `ident`.
    pub fn new(ident: Ident) -> (b: Builder)
        ensures
            b@ == (DeviceView {
                ident,
                msix: None,
                custom_cfg: None,
                command: RegCmd::INTX_DIS,
            }),
    {
        Builder { ident, msix: None, custom_cfg: None }
    }

    /// Declares an MSI-X capability of `count` vectors whose table lives in
    /// `bar`.
    pub fn add_cap_msix(self, bar: BarN, count: u16) -> (b: Builder)
        ensures
            b@ == (DeviceView { msix: Some(MsixCfg { bar, count }), ..self@ }),
    {
        Builder { ident: self.ident, msix: Some(MsixCfg { bar, count }), custom_cfg: self.custom_cfg }
    }

    /// Declares that the device model handles the `len` bytes of
    /// configuration space at `offset` itself.
    pub fn add_custom_cfg(self, offset: u8, len: u8) -> (b: Builder)
        ensures
            b@ == (DeviceView { custom_cfg: Some(CustomCfg { offset, len }), ..self@ }),
    {
        Builder { ident: self.ident, msix: self.msix, custom_cfg: Some(CustomCfg { offset, len }) }
    }

    /// Ends the declaration. The command register starts at its value
    /// after reset.
    pub fn finish(self) -> (state: DeviceState)
        ensures
            state@ == self@,
    {
        DeviceState {
            ident: self.ident,
            msix: self.msix,
            custom_cfg: self.custom_cfg,
            reg_command: RegCmd::default(),
        }
    }
}

/// The PCI side of a device model: what it declared, and its command
/// register.
pub struct DeviceState {
    ident: Ident,
    msix: Option<MsixCfg>,
    custom_cfg: Option<CustomCfg>,
    reg_command: RegCmd,
}

impl View for DeviceState {
    type V = DeviceView;

    closed spec fn view(&self) -> DeviceView {
        DeviceView {
            ident: self.ident,
            msix: self.msix,
            custom_cfg: self.custom_cfg,
            command: self.reg_command.value(),
        }
    }
}

impl DeviceState {
    /// The identity of the function.
    pub fn ident(&self) -> (r: &Ident)
        ensures
            *r == self@.ident,
    {
        &self.ident
    }

    /// The MSI-X capability declared, if any.
    pub fn msix(&self) -> (r: Option<MsixCfg>)
        ensures
            r == self@.msix,
    {
        self.msix
    }

    /// The stretch of configuration space that the device model handles
    /// itself, if any.
    pub fn custom_cfg(&self) -> (r: Option<CustomCfg>)
        ensures
            r == self@.custom_cfg,
    {
        self.custom_cfg
    }

    /// The command register.
    pub fn command(&self) -> (r: &RegCmd)
        ensures
            r.value() == self@.command,
    {
        &self.reg_command
    }

    /// Puts the function back to its state after reset: the command
    /// register takes its reset value, what was declared stays.
    pub fn reset(&mut self)
        ensures
            final(self)@ == (DeviceView { command: RegCmd::INTX_DIS, ..old(self)@ }),
    {
        self.reg_command.reset();
    }
}

} // verus!
