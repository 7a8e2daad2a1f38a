//! Constants and flag registers of PCI configuration space.

use vstd::prelude::*;

verus! {

/// The length of a function's configuration space in bytes.
pub const LEN_CFG: usize = 0x100;

/// The length of the standard header at the start of configuration space.
pub const LEN_CFG_STD: usize = 0x40;

pub const BAR_TYPE_IO: u32 = 0b01;

pub const BAR_TYPE_MEM: u32 = 0b000;

pub const BAR_TYPE_MEM64: u32 = 0b100;

pub const CAP_ID_MSI: u8 = 0x05;

pub const CAP_ID_VENDOR: u8 = 0x09;

pub const CAP_ID_MSIX: u8 = 0x11;

pub const CLASS_UNCLASSIFIED: u8 = 0;

pub const CLASS_STORAGE: u8 = 1;

pub const CLASS_NETWORK: u8 = 2;

pub const CLASS_DISPLAY: u8 = 3;

pub const CLASS_MULTIMEDIA: u8 = 4;

pub const CLASS_MEMORY: u8 = 5;

pub const CLASS_BRIDGE: u8 = 6;

pub const CLASS_SERIAL_BUS: u8 = 0x0c;

pub const SUBCLASS_NVM: u8 = 8;

pub const SUBCLASS_USB: u8 = 3;

pub const PROGIF_ENTERPRISE_NVME: u8 = 2;

pub const PROGIF_USB3: u8 = 0x30;

/// The command register of the standard header, as a set of flags.
#[derive(Copy, Clone, Debug, PartialEq, Eq, Structural)]
pub struct RegCmd {
    bits: u16,
}

impl RegCmd {
    /// I/O space decoding is enabled.
    pub const IO_EN: u16 = 0x0001;

    /// Memory space decoding is enabled.
    pub const MMIO_EN: u16 = 0x0002;

    /// The function may act as a bus master.
    pub const BUSMSTR_EN: u16 = 0x0004;

    /// Legacy interrupts are disabled.
    pub const INTX_DIS: u16 = 0x0400;

    /// Every flag that the register defines.
    pub const ALL: u16 = 0x0407;

    /// The raw value of the register.
    pub closed spec fn value(self) -> u16 {
        self.bits
    }

    /// The register with no flag set.
    pub fn empty() -> (r: RegCmd)
        ensures
            r.value() == 0,
    {
        RegCmd { bits: 0 }
    }

    /// The register with the flags of `bits` set that it defines; the other
    /// bits of `bits` are dropped.
    pub fn from_bits_truncate(bits: u16) -> (r: RegCmd)
        ensures
            r.value() == bits & RegCmd::ALL,
    {
        RegCmd { bits: bits & RegCmd::ALL }
    }

    /// The raw value of the register.
    pub fn bits(&self) -> (r: u16)
        ensures
            r == self.value(),
    {
        self.bits
    }

    /// Whether every flag of `flags` is set.
    pub fn contains(&self, flags: u16) -> (r: bool)
        ensures
            r == (self.value() & flags == flags),
    {
        self.bits & flags == flags
    }

    /// Sets the flags of `flags` that the register defines.
    pub fn insert(&mut self, flags: u16)
        ensures
            final(self).value() == old(self).value() | (flags & RegCmd::ALL),
    {
        self.bits = self.bits | (flags & RegCmd::ALL);
    }

    /// Clears the flags of `flags`.
    pub fn remove(&mut self, flags: u16)
        ensures
            final(self).value() == old(self).value() & !flags,
    {
        self.bits = self.bits & !flags;
    }

    /// Puts the register back to its value after reset: legacy interrupts
    /// disabled, nothing else set.
    pub fn reset(&mut self)
        ensures
            final(self).value() == RegCmd::INTX_DIS,
    {
        *self = RegCmd::default();
    }
}

impl Default for RegCmd {
    /// The value after reset: legacy interrupts disabled, nothing else set.
    fn default() -> (r: RegCmd)
        ensures
            r.value() == RegCmd::INTX_DIS,
    {
        RegCmd { bits: RegCmd::INTX_DIS }
    }
}

/// The status register of the standard header, as a set of flags.
#[derive(Copy, Clone, Debug, PartialEq, Eq, Structural)]
pub struct RegStatus {
    bits: u16,
}

impl RegStatus {
    /// An interrupt is pending.
    pub const INTR_STATUS: u16 = 0x0008;

    /// The function has a capability list.
    pub const CAP_LIST: u16 = 0x0010;

    /// Every flag that the register defines.
    pub const ALL: u16 = 0x0018;

    /// The raw value of the register.
    pub closed spec fn value(self) -> u16 {
        self.bits
    }

    /// The register with the flags of `bits` set that it defines; the other
    /// bits of `bits` are dropped.
    pub fn from_bits_truncate(bits: u16) -> (r: RegStatus)
        ensures
            r.value() == bits & RegStatus::ALL,
    {
        RegStatus { bits: bits & RegStatus::ALL }
    }

    /// The raw value of the register.
    pub fn bits(&self) -> (r: u16)
        ensures
            r == self.value(),
    {
        self.bits
    }

    /// Whether every flag of `flags` is set.
    pub fn contains(&self, flags: u16) -> (r: bool)
        ensures
            r == (self.value() & flags == flags),
    {
        self.bits & flags == flags
    }
}

impl Default for RegStatus {
    /// The register with no flag set.
    fn default() -> (r: RegStatus)
        ensures
            r.value() == 0,
    {
        RegStatus { bits: 0 }
    }
}

} // verus!
