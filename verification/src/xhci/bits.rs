//! Constants and register values of the xHCI host controller.
//!
//! Each register value is a thin wrapper round its raw integer with one
//! reader, one `with_` builder and one `set_` writer per field. A builder
//! returns a new value and leaves the receiver alone; builder and writer cut
//! a value that is too wide down to the field. The contracts state each
//! accessor over [`field_of`] and [`field_put`] with the field's bit range,
//! so that the laws of [`crate::bitfield`] apply to every one of them.

use crate::bitfield::{
    field_of, field_put, flag_of, flag_put, get_field, get_flag, with_field, with_flag,
};
use vstd::prelude::*;

verus! {

/// Size of the USB-specific PCI configuration space
/// (xHCI 1.2 section 5.2).
pub const USB_PCI_CFG_REG_SZ: u8 = 3;

/// Offset of the USB-specific PCI configuration space
/// (xHCI 1.2 section 5.2).
pub const USB_PCI_CFG_OFFSET: u8 = 0x60;

/// Size of the host controller capability registers, without extended
/// capabilities.
pub const XHC_CAP_BASE_REG_SZ: usize = 0x20;

/// The USB Command register (USBCMD), xHCI 1.2 section 5.4.1, as a raw value.
#[derive(Clone, Copy, Debug, Default)]
pub struct UsbCommand(pub u32);

/// The Frame Length Adjustment register (FLADJ), xHCI 1.2 section 5.2.4.
#[derive(Clone, Copy, Debug, Default)]
pub struct FrameLengthAdjustment(pub u8);

impl FrameLengthAdjustment {
    /// Frame length timing value: the SOF cycle time is 59488 plus this value.
    /// Ignored while `nfc` is set.
    pub fn fladj(&self) -> (r: u8)
        ensures
            r == field_of(self.0 as u64, 0, 6),
    {
        get_field(self.0 as u64, 0, 6) as u8
    }

    /// This value with `fladj` replaced by the low 6 bits of `value`.
    #[must_use]
    pub fn with_fladj(self, value: u8) -> (r: Self)
        ensures
            r.0 == field_put(self.0 as u64, 0, 6, value as u64),
    {
        Self(with_field(self.0 as u64, 0, 6, value as u64) as u8)
    }

    /// Replaces `fladj` by the low 6 bits of `value`, in place.
    pub fn set_fladj(&mut self, value: u8)
        ensures
            final(self).0 == field_put(
                old(self).0 as u64,
                0,
                6,
                value as u64,
            ),
    {
        self.0 = with_field(self.0 as u64, 0, 6, value as u64) as u8;
    }

    /// No frame length timing capability: set where the controller does not
    /// support a frame length timing value.
    pub fn nfc(&self) -> (r: bool)
        ensures
            r == flag_of(self.0 as u64, 6),
    {
        get_flag(self.0 as u64, 6)
    }

    /// This value with `nfc` set to `value`.
    #[must_use]
    pub fn with_nfc(self, value: bool) -> (r: Self)
        ensures
            r.0 == flag_put(self.0 as u64, 6, value),
    {
        Self(with_flag(self.0 as u64, 6, value) as u8)
    }

    /// Sets `nfc` to `value` in place.
    pub fn set_nfc(&mut self, value: bool)
        ensures
            final(self).0 == flag_put(old(self).0 as u64, 6, value),
    {
        self.0 = with_flag(self.0 as u64, 6, value) as u8;
    }
}

/// The Default Best Effort Service Latency registers (DBESL and DBESLD), xHCI
/// 1.2 sections 5.2.5 and 5.2.6.
#[derive(Clone, Copy, Debug, Default)]
pub struct DefaultBestEffortServiceLatencies(pub u8);

impl DefaultBestEffortServiceLatencies {
    /// Default best effort service latency.
    pub fn dbesl(&self) -> (r: u8)
        ensures
            r == field_of(self.0 as u64, 0, 4),
    {
        get_field(self.0 as u64, 0, 4) as u8
    }

    /// This value with `dbesl` replaced by the low 4 bits of `value`.
    #[must_use]
    pub fn with_dbesl(self, value: u8) -> (r: Self)
        ensures
            r.0 == field_put(self.0 as u64, 0, 4, value as u64),
    {
        Self(with_field(self.0 as u64, 0, 4, value as u64) as u8)
    }

    /// Replaces `dbesl` by the low 4 bits of `value`, in place.
    pub fn set_dbesl(&mut self, value: u8)
        ensures
            final(self).0 == field_put(
                old(self).0 as u64,
                0,
                4,
                value as u64,
            ),
    {
        self.0 = with_field(self.0 as u64, 0, 4, value as u64) as u8;
    }

    /// Default best effort service latency, deep.
    pub fn dbesld(&self) -> (r: u8)
        ensures
            r == field_of(self.0 as u64, 4, 8),
    {
        get_field(self.0 as u64, 4, 8) as u8
    }

    /// This value with `dbesld` replaced by the low 4 bits of `value`.
    #[must_use]
    pub fn with_dbesld(self, value: u8) -> (r: Self)
        ensures
            r.0 == field_put(self.0 as u64, 4, 8, value as u64),
    {
        Self(with_field(self.0 as u64, 4, 8, value as u64) as u8)
    }

    /// Replaces `dbesld` by the low 4 bits of `value`, in place.
    pub fn set_dbesld(&mut self, value: u8)
        ensures
            final(self).0 == field_put(
                old(self).0 as u64,
                4,
                8,
                value as u64,
            ),
    {
        self.0 = with_field(self.0 as u64, 4, 8, value as u64) as u8;
    }
}

/// The Structural Parameters 1 register (HCSPARAMS1), xHCI 1.2 section 5.3.3.
#[derive(Clone, Copy, Debug, Default)]
pub struct HcStructuralParameters1(pub u32);

impl HcStructuralParameters1 {
    /// Number of device slots the controller supports. Valid values are 1 to 255.
    pub fn max_slots(&self) -> (r: u8)
        ensures
            r == field_of(self.0 as u64, 0, 8),
    {
        get_field(self.0 as u64, 0, 8) as u8
    }

    /// This value with `max_slots` replaced by the low 8 bits of `value`.
    #[must_use]
    pub fn with_max_slots(self, value: u8) -> (r: Self)
        ensures
            r.0 == field_put(self.0 as u64, 0, 8, value as u64),
    {
        Self(with_field(self.0 as u64, 0, 8, value as u64) as u32)
    }

    /// Replaces `max_slots` by the low 8 bits of `value`, in place.
    pub fn set_max_slots(&mut self, value: u8)
        ensures
            final(self).0 == field_put(
                old(self).0 as u64,
                0,
                8,
                value as u64,
            ),
    {
        self.0 = with_field(self.0 as u64, 0, 8, value as u64) as u32;
    }

    /// Number of interrupters the controller supports. Valid values are 1 to
    /// 1024.
    pub fn max_intrs(&self) -> (r: u16)
        ensures
            r == field_of(self.0 as u64, 8, 19),
    {
        get_field(self.0 as u64, 8, 19) as u16
    }

    /// This value with `max_intrs` replaced by the low 11 bits of `value`.
    #[must_use]
    pub fn with_max_intrs(self, value: u16) -> (r: Self)
        ensures
            r.0 == field_put(self.0 as u64, 8, 19, value as u64),
    {
        Self(with_field(self.0 as u64, 8, 19, value as u64) as u32)
    }

    /// Replaces `max_intrs` by the low 11 bits of `value`, in place.
    pub fn set_max_intrs(&mut self, value: u16)
        ensures
            final(self).0 == field_put(
                old(self).0 as u64,
                8,
                19,
                value as u64,
            ),
    {
        self.0 = with_field(self.0 as u64, 8, 19, value as u64) as u32;
    }

    /// The highest port number. Valid values are 1 to 255.
    pub fn max_ports(&self) -> (r: u8)
        ensures
            r == field_of(self.0 as u64, 24, 32),
    {
        get_field(self.0 as u64, 24, 32) as u8
    }

    /// This value with `max_ports` replaced by the low 8 bits of `value`.
    #[must_use]
    pub fn with_max_ports(self, value: u8) -> (r: Self)
        ensures
            r.0 == field_put(self.0 as u64, 24, 32, value as u64),
    {
        Self(with_field(self.0 as u64, 24, 32, value as u64) as u32)
    }

    /// Replaces `max_ports` by the low 8 bits of `value`, in place.
    pub fn set_max_ports(&mut self, value: u8)
        ensures
            final(self).0 == field_put(
                old(self).0 as u64,
                24,
                32,
                value as u64,
            ),
    {
        self.0 = with_field(self.0 as u64, 24, 32, value as u64) as u32;
    }
}

/// The Structural Parameters 2 register (HCSPARAMS2), xHCI 1.2 section 5.3.4.
#[derive(Clone, Copy, Debug, Default)]
pub struct HcStructuralParameters2(pub u32);

impl HcStructuralParameters2 {
    /// Isochronous scheduling threshold: how far ahead of the controller software
    /// must stay when it adds TRBs.
    pub fn iso_sched_threshold(&self) -> (r: u8)
        ensures
            r == field_of(self.0 as u64, 0, 3),
    {
        get_field(self.0 as u64, 0, 3) as u8
    }

    /// This value with `iso_sched_threshold` replaced by the low 3 bits of `value`.
    #[must_use]
    pub fn with_iso_sched_threshold(self, value: u8) -> (r: Self)
        ensures
            r.0 == field_put(self.0 as u64, 0, 3, value as u64),
    {
        Self(with_field(self.0 as u64, 0, 3, value as u64) as u32)
    }

    /// Replaces `iso_sched_threshold` by the low 3 bits of `value`, in place.
    pub fn set_iso_sched_threshold(&mut self, value: u8)
        ensures
            final(self).0 == field_put(
                old(self).0 as u64,
                0,
                3,
                value as u64,
            ),
    {
        self.0 = with_field(self.0 as u64, 0, 3, value as u64) as u32;
    }

    /// Whether the scheduling threshold counts frames (set) or microframes
    /// (clear).
    pub fn ist_as_frame(&self) -> (r: bool)
        ensures
            r == flag_of(self.0 as u64, 3),
    {
        get_flag(self.0 as u64, 3)
    }

    /// This value with `ist_as_frame` set to `value`.
    #[must_use]
    pub fn with_ist_as_frame(self, value: bool) -> (r: Self)
        ensures
            r.0 == flag_put(self.0 as u64, 3, value),
    {
        Self(with_flag(self.0 as u64, 3, value) as u32)
    }

    /// Sets `ist_as_frame` to `value` in place.
    pub fn set_ist_as_frame(&mut self, value: bool)
        ensures
            final(self).0 == flag_put(old(self).0 as u64, 3, value),
    {
        self.0 = with_flag(self.0 as u64, 3, value) as u32;
    }

    /// Event ring segment table maximum: the table holds up to 2 to the power of
    /// this value entries.
    pub fn erst_max(&self) -> (r: u8)
        ensures
            r == field_of(self.0 as u64, 4, 8),
    {
        get_field(self.0 as u64, 4, 8) as u8
    }

    /// This value with `erst_max` replaced by the low 4 bits of `value`.
    #[must_use]
    pub fn with_erst_max(self, value: u8) -> (r: Self)
        ensures
            r.0 == field_put(self.0 as u64, 4, 8, value as u64),
    {
        Self(with_field(self.0 as u64, 4, 8, value as u64) as u32)
    }

    /// Replaces `erst_max` by the low 4 bits of `value`, in place.
    pub fn set_erst_max(&mut self, value: u8)
        ensures
            final(self).0 == field_put(
                old(self).0 as u64,
                4,
                8,
                value as u64,
            ),
    {
        self.0 = with_field(self.0 as u64, 4, 8, value as u64) as u32;
    }

    /// The high five bits of the number of scratchpad buffers.
    fn max_scratchpad_bufs_hi(&self) -> (r: u8)
        ensures
            r == field_of(self.0 as u64, 21, 26),
    {
        get_field(self.0 as u64, 21, 26) as u8
    }

    /// This value with `max_scratchpad_bufs_hi` replaced by the low 5 bits of `value`.
    #[must_use]
    fn with_max_scratchpad_bufs_hi(self, value: u8) -> (r: Self)
        ensures
            r.0 == field_put(self.0 as u64, 21, 26, value as u64),
    {
        Self(with_field(self.0 as u64, 21, 26, value as u64) as u32)
    }

    /// Replaces `max_scratchpad_bufs_hi` by the low 5 bits of `value`, in place.
    fn set_max_scratchpad_bufs_hi(&mut self, value: u8)
        ensures
            final(self).0 == field_put(
                old(self).0 as u64,
                21,
                26,
                value as u64,
            ),
    {
        self.0 = with_field(self.0 as u64, 21, 26, value as u64) as u32;
    }

    /// Whether scratchpad buffers are kept across power events.
    pub fn scratchpad_restore(&self) -> (r: bool)
        ensures
            r == flag_of(self.0 as u64, 26),
    {
        get_flag(self.0 as u64, 26)
    }

    /// This value with `scratchpad_restore` set to `value`.
    #[must_use]
    pub fn with_scratchpad_restore(self, value: bool) -> (r: Self)
        ensures
            r.0 == flag_put(self.0 as u64, 26, value),
    {
        Self(with_flag(self.0 as u64, 26, value) as u32)
    }

    /// Sets `scratchpad_restore` to `value` in place.
    pub fn set_scratchpad_restore(&mut self, value: bool)
        ensures
            final(self).0 == flag_put(old(self).0 as u64, 26, value),
    {
        self.0 = with_flag(self.0 as u64, 26, value) as u32;
    }

    /// The low five bits of the number of scratchpad buffers.
    fn max_scratchpad_bufs_lo(&self) -> (r: u8)
        ensures
            r == field_of(self.0 as u64, 27, 32),
    {
        get_field(self.0 as u64, 27, 32) as u8
    }

    /// This value with `max_scratchpad_bufs_lo` replaced by the low 5 bits of `value`.
    #[must_use]
    fn with_max_scratchpad_bufs_lo(self, value: u8) -> (r: Self)
        ensures
            r.0 == field_put(self.0 as u64, 27, 32, value as u64),
    {
        Self(with_field(self.0 as u64, 27, 32, value as u64) as u32)
    }

    /// Replaces `max_scratchpad_bufs_lo` by the low 5 bits of `value`, in place.
    fn set_max_scratchpad_bufs_lo(&mut self, value: u8)
        ensures
            final(self).0 == field_put(
                old(self).0 as u64,
                27,
                32,
                value as u64,
            ),
    {
        self.0 = with_field(self.0 as u64, 27, 32, value as u64) as u32;
    }
}

/// The Structural Parameters 3 register (HCSPARAMS3), xHCI 1.2 section 5.3.5.
#[derive(Clone, Copy, Debug, Default)]
pub struct HcStructuralParameters3(pub u32);

impl HcStructuralParameters3 {
    /// Worst-case latency of the transition from U1 to U0, in microseconds.
    pub fn u1_dev_exit_latency(&self) -> (r: u8)
        ensures
            r == field_of(self.0 as u64, 0, 8),
    {
        get_field(self.0 as u64, 0, 8) as u8
    }

    /// This value with `u1_dev_exit_latency` replaced by the low 8 bits of `value`.
    #[must_use]
    pub fn with_u1_dev_exit_latency(self, value: u8) -> (r: Self)
        ensures
            r.0 == field_put(self.0 as u64, 0, 8, value as u64),
    {
        Self(with_field(self.0 as u64, 0, 8, value as u64) as u32)
    }

    /// Replaces `u1_dev_exit_latency` by the low 8 bits of `value`, in place.
    pub fn set_u1_dev_exit_latency(&mut self, value: u8)
        ensures
            final(self).0 == field_put(
                old(self).0 as u64,
                0,
                8,
                value as u64,
            ),
    {
        self.0 = with_field(self.0 as u64, 0, 8, value as u64) as u32;
    }

    /// Worst-case latency of the transition from U2 to U0, in microseconds.
    pub fn u2_dev_exit_latency(&self) -> (r: u16)
        ensures
            r == field_of(self.0 as u64, 16, 32),
    {
        get_field(self.0 as u64, 16, 32) as u16
    }

    /// This value with `u2_dev_exit_latency` replaced by the low 16 bits of `value`.
    #[must_use]
    pub fn with_u2_dev_exit_latency(self, value: u16) -> (r: Self)
        ensures
            r.0 == field_put(self.0 as u64, 16, 32, value as u64),
    {
        Self(with_field(self.0 as u64, 16, 32, value as u64) as u32)
    }

    /// Replaces `u2_dev_exit_latency` by the low 16 bits of `value`, in place.
    pub fn set_u2_dev_exit_latency(&mut self, value: u16)
        ensures
            final(self).0 == field_put(
                old(self).0 as u64,
                16,
                32,
                value as u64,
            ),
    {
        self.0 = with_field(self.0 as u64, 16, 32, value as u64) as u32;
    }
}

/// The Capability Parameters 1 register (HCCPARAMS1), xHCI 1.2 section 5.3.6.
#[derive(Clone, Copy, Debug, Default)]
pub struct HcCapabilityParameters1(pub u32);

impl HcCapabilityParameters1 {
    /// Whether the controller addresses 64 bits.
    pub fn ac64(&self) -> (r: bool)
        ensures
            r == flag_of(self.0 as u64, 0),
    {
        get_flag(self.0 as u64, 0)
    }

    /// This value with `ac64` set to `value`.
    #[must_use]
    pub fn with_ac64(self, value: bool) -> (r: Self)
        ensures
            r.0 == flag_put(self.0 as u64, 0, value),
    {
        Self(with_flag(self.0 as u64, 0, value) as u32)
    }

    /// Sets `ac64` to `value` in place.
    pub fn set_ac64(&mut self, value: bool)
        ensures
            final(self).0 == flag_put(old(self).0 as u64, 0, value),
    {
        self.0 = with_flag(self.0 as u64, 0, value) as u32;
    }

    /// Whether the controller supports bandwidth negotiation.
    pub fn bnc(&self) -> (r: bool)
        ensures
            r == flag_of(self.0 as u64, 1),
    {
        get_flag(self.0 as u64, 1)
    }

    /// This value with `bnc` set to `value`.
    #[must_use]
    pub fn with_bnc(self, value: bool) -> (r: Self)
        ensures
            r.0 == flag_put(self.0 as u64, 1, value),
    {
        Self(with_flag(self.0 as u64, 1, value) as u32)
    }

    /// Sets `bnc` to `value` in place.
    pub fn set_bnc(&mut self, value: bool)
        ensures
            final(self).0 == flag_put(old(self).0 as u64, 1, value),
    {
        self.0 = with_flag(self.0 as u64, 1, value) as u32;
    }

    /// Whether the controller uses 64-byte context structures.
    pub fn csz(&self) -> (r: bool)
        ensures
            r == flag_of(self.0 as u64, 2),
    {
        get_flag(self.0 as u64, 2)
    }

    /// This value with `csz` set to `value`.
    #[must_use]
    pub fn with_csz(self, value: bool) -> (r: Self)
        ensures
            r.0 == flag_put(self.0 as u64, 2, value),
    {
        Self(with_flag(self.0 as u64, 2, value) as u32)
    }

    /// Sets `csz` to `value` in place.
    pub fn set_csz(&mut self, value: bool)
        ensures
            final(self).0 == flag_put(old(self).0 as u64, 2, value),
    {
        self.0 = with_flag(self.0 as u64, 2, value) as u32;
    }

    /// Whether the controller supports port power control.
    pub fn ppc(&self) -> (r: bool)
        ensures
            r == flag_of(self.0 as u64, 3),
    {
        get_flag(self.0 as u64, 3)
    }

    /// This value with `ppc` set to `value`.
    #[must_use]
    pub fn with_ppc(self, value: bool) -> (r: Self)
        ensures
            r.0 == flag_put(self.0 as u64, 3, value),
    {
        Self(with_flag(self.0 as u64, 3, value) as u32)
    }

    /// Sets `ppc` to `value` in place.
    pub fn set_ppc(&mut self, value: bool)
        ensures
            final(self).0 == flag_put(old(self).0 as u64, 3, value),
    {
        self.0 = with_flag(self.0 as u64, 3, value) as u32;
    }

    /// Whether the root hub supports port indicator control.
    pub fn pind(&self) -> (r: bool)
        ensures
            r == flag_of(self.0 as u64, 4),
    {
        get_flag(self.0 as u64, 4)
    }

    /// This value with `pind` set to `value`.
    #[must_use]
    pub fn with_pind(self, value: bool) -> (r: Self)
        ensures
            r.0 == flag_put(self.0 as u64, 4, value),
    {
        Self(with_flag(self.0 as u64, 4, value) as u32)
    }

    /// Sets `pind` to `value` in place.
    pub fn set_pind(&mut self, value: bool)
        ensures
            final(self).0 == flag_put(old(self).0 as u64, 4, value),
    {
        self.0 = with_flag(self.0 as u64, 4, value) as u32;
    }

    /// Whether the controller supports a light host controller reset.
    pub fn lhrc(&self) -> (r: bool)
        ensures
            r == flag_of(self.0 as u64, 5),
    {
        get_flag(self.0 as u64, 5)
    }

    /// This value with `lhrc` set to `value`.
    #[must_use]
    pub fn with_lhrc(self, value: bool) -> (r: Self)
        ensures
            r.0 == flag_put(self.0 as u64, 5, value),
    {
        Self(with_flag(self.0 as u64, 5, value) as u32)
    }

    /// Sets `lhrc` to `value` in place.
    pub fn set_lhrc(&mut self, value: bool)
        ensures
            final(self).0 == flag_put(old(self).0 as u64, 5, value),
    {
        self.0 = with_flag(self.0 as u64, 5, value) as u32;
    }

    /// Whether the controller supports latency tolerance messaging.
    pub fn ltc(&self) -> (r: bool)
        ensures
            r == flag_of(self.0 as u64, 6),
    {
        get_flag(self.0 as u64, 6)
    }

    /// This value with `ltc` set to `value`.
    #[must_use]
    pub fn with_ltc(self, value: bool) -> (r: Self)
        ensures
            r.0 == flag_put(self.0 as u64, 6, value),
    {
        Self(with_flag(self.0 as u64, 6, value) as u32)
    }

    /// Sets `ltc` to `value` in place.
    pub fn set_ltc(&mut self, value: bool)
        ensures
            final(self).0 == flag_put(old(self).0 as u64, 6, value),
    {
        self.0 = with_flag(self.0 as u64, 6, value) as u32;
    }

    /// No secondary stream id support.
    pub fn nss(&self) -> (r: bool)
        ensures
            r == flag_of(self.0 as u64, 7),
    {
        get_flag(self.0 as u64, 7)
    }

    /// This value with `nss` set to `value`.
    #[must_use]
    pub fn with_nss(self, value: bool) -> (r: Self)
        ensures
            r.0 == flag_put(self.0 as u64, 7, value),
    {
        Self(with_flag(self.0 as u64, 7, value) as u32)
    }

    /// Sets `nss` to `value` in place.
    pub fn set_nss(&mut self, value: bool)
        ensures
            final(self).0 == flag_put(old(self).0 as u64, 7, value),
    {
        self.0 = with_flag(self.0 as u64, 7, value) as u32;
    }

    /// Whether the controller parses all event data TRBs when it advances to the
    /// next TD after a short packet.
    pub fn pae(&self) -> (r: bool)
        ensures
            r == flag_of(self.0 as u64, 8),
    {
        get_flag(self.0 as u64, 8)
    }

    /// This value with `pae` set to `value`.
    #[must_use]
    pub fn with_pae(self, value: bool) -> (r: Self)
        ensures
            r.0 == flag_put(self.0 as u64, 8, value),
    {
        Self(with_flag(self.0 as u64, 8, value) as u32)
    }

    /// Sets `pae` to `value` in place.
    pub fn set_pae(&mut self, value: bool)
        ensures
            final(self).0 == flag_put(old(self).0 as u64, 8, value),
    {
        self.0 = with_flag(self.0 as u64, 8, value) as u32;
    }

    /// Whether the controller can generate a stopped, short packet completion
    /// code.
    pub fn spc(&self) -> (r: bool)
        ensures
            r == flag_of(self.0 as u64, 9),
    {
        get_flag(self.0 as u64, 9)
    }

    /// This value with `spc` set to `value`.
    #[must_use]
    pub fn with_spc(self, value: bool) -> (r: Self)
        ensures
            r.0 == flag_put(self.0 as u64, 9, value),
    {
        Self(with_flag(self.0 as u64, 9, value) as u32)
    }

    /// Sets `spc` to `value` in place.
    pub fn set_spc(&mut self, value: bool)
        ensures
            final(self).0 == flag_put(old(self).0 as u64, 9, value),
    {
        self.0 = with_flag(self.0 as u64, 9, value) as u32;
    }

    /// Whether the stream context has a stopped EDTLA field.
    pub fn sec(&self) -> (r: bool)
        ensures
            r == flag_of(self.0 as u64, 10),
    {
        get_flag(self.0 as u64, 10)
    }

    /// This value with `sec` set to `value`.
    #[must_use]
    pub fn with_sec(self, value: bool) -> (r: Self)
        ensures
            r.0 == flag_put(self.0 as u64, 10, value),
    {
        Self(with_flag(self.0 as u64, 10, value) as u32)
    }

    /// Sets `sec` to `value` in place.
    pub fn set_sec(&mut self, value: bool)
        ensures
            final(self).0 == flag_put(old(self).0 as u64, 10, value),
    {
        self.0 = with_flag(self.0 as u64, 10, value) as u32;
    }

    /// Whether the controller can match the frame id of consecutive isochronous
    /// TDs.
    pub fn cfc(&self) -> (r: bool)
        ensures
            r == flag_of(self.0 as u64, 11),
    {
        get_flag(self.0 as u64, 11)
    }

    /// This value with `cfc` set to `value`.
    #[must_use]
    pub fn with_cfc(self, value: bool) -> (r: Self)
        ensures
            r.0 == flag_put(self.0 as u64, 11, value),
    {
        Self(with_flag(self.0 as u64, 11, value) as u32)
    }

    /// Sets `cfc` to `value` in place.
    pub fn set_cfc(&mut self, value: bool)
        ensures
            final(self).0 == flag_put(old(self).0 as u64, 11, value),
    {
        self.0 = with_flag(self.0 as u64, 11, value) as u32;
    }

    /// Maximum primary stream array size: the array holds 2 to the power of this
    /// value plus one entries; 0 where streams are not supported.
    pub fn max_primary_streams(&self) -> (r: u8)
        ensures
            r == field_of(self.0 as u64, 12, 16),
    {
        get_field(self.0 as u64, 12, 16) as u8
    }

    /// This value with `max_primary_streams` replaced by the low 4 bits of `value`.
    #[must_use]
    pub fn with_max_primary_streams(self, value: u8) -> (r: Self)
        ensures
            r.0 == field_put(self.0 as u64, 12, 16, value as u64),
    {
        Self(with_field(self.0 as u64, 12, 16, value as u64) as u32)
    }

    /// Replaces `max_primary_streams` by the low 4 bits of `value`, in place.
    pub fn set_max_primary_streams(&mut self, value: u8)
        ensures
            final(self).0 == field_put(
                old(self).0 as u64,
                12,
                16,
                value as u64,
            ),
    {
        self.0 = with_field(self.0 as u64, 12, 16, value as u64) as u32;
    }

    /// Offset of the first extended capability, in 32-bit words.
    pub fn xecp(&self) -> (r: u16)
        ensures
            r == field_of(self.0 as u64, 16, 32),
    {
        get_field(self.0 as u64, 16, 32) as u16
    }

    /// This value with `xecp` replaced by the low 16 bits of `value`.
    #[must_use]
    pub fn with_xecp(self, value: u16) -> (r: Self)
        ensures
            r.0 == field_put(self.0 as u64, 16, 32, value as u64),
    {
        Self(with_field(self.0 as u64, 16, 32, value as u64) as u32)
    }

    /// Replaces `xecp` by the low 16 bits of `value`, in place.
    pub fn set_xecp(&mut self, value: u16)
        ensures
            final(self).0 == field_put(
                old(self).0 as u64,
                16,
                32,
                value as u64,
            ),
    {
        self.0 = with_field(self.0 as u64, 16, 32, value as u64) as u32;
    }
}

/// The Capability Parameters 2 register (HCCPARAMS2), xHCI 1.2 section 5.3.9.
#[derive(Clone, Copy, Debug, Default)]
pub struct HcCapabilityParameters2(pub u32);

impl HcCapabilityParameters2 {
    /// Whether root hub ports support suspend complete notification.
    pub fn u3c(&self) -> (r: bool)
        ensures
            r == flag_of(self.0 as u64, 0),
    {
        get_flag(self.0 as u64, 0)
    }

    /// This value with `u3c` set to `value`.
    #[must_use]
    pub fn with_u3c(self, value: bool) -> (r: Self)
        ensures
            r.0 == flag_put(self.0 as u64, 0, value),
    {
        Self(with_flag(self.0 as u64, 0, value) as u32)
    }

    /// Sets `u3c` to `value` in place.
    pub fn set_u3c(&mut self, value: bool)
        ensures
            final(self).0 == flag_put(old(self).0 as u64, 0, value),
    {
        self.0 = with_flag(self.0 as u64, 0, value) as u32;
    }

    /// Whether a configure endpoint command can fail with a max exit latency too
    /// large error.
    pub fn cmc(&self) -> (r: bool)
        ensures
            r == flag_of(self.0 as u64, 1),
    {
        get_flag(self.0 as u64, 1)
    }

    /// This value with `cmc` set to `value`.
    #[must_use]
    pub fn with_cmc(self, value: bool) -> (r: Self)
        ensures
            r.0 == flag_put(self.0 as u64, 1, value),
    {
        Self(with_flag(self.0 as u64, 1, value) as u32)
    }

    /// Sets `cmc` to `value` in place.
    pub fn set_cmc(&mut self, value: bool)
        ensures
            final(self).0 == flag_put(old(self).0 as u64, 1, value),
    {
        self.0 = with_flag(self.0 as u64, 1, value) as u32;
    }

    /// Whether the controller supports force save context.
    pub fn fsc(&self) -> (r: bool)
        ensures
            r == flag_of(self.0 as u64, 2),
    {
        get_flag(self.0 as u64, 2)
    }

    /// This value with `fsc` set to `value`.
    #[must_use]
    pub fn with_fsc(self, value: bool) -> (r: Self)
        ensures
            r.0 == flag_put(self.0 as u64, 2, value),
    {
        Self(with_flag(self.0 as u64, 2, value) as u32)
    }

    /// Sets `fsc` to `value` in place.
    pub fn set_fsc(&mut self, value: bool)
        ensures
            final(self).0 == flag_put(old(self).0 as u64, 2, value),
    {
        self.0 = with_flag(self.0 as u64, 2, value) as u32;
    }

    /// Whether USB3 root hub ports support the compliance transition enabled
    /// flag.
    pub fn ctc(&self) -> (r: bool)
        ensures
            r == flag_of(self.0 as u64, 3),
    {
        get_flag(self.0 as u64, 3)
    }

    /// This value with `ctc` set to `value`.
    #[must_use]
    pub fn with_ctc(self, value: bool) -> (r: Self)
        ensures
            r.0 == flag_put(self.0 as u64, 3, value),
    {
        Self(with_flag(self.0 as u64, 3, value) as u32)
    }

    /// Sets `ctc` to `value` in place.
    pub fn set_ctc(&mut self, value: bool)
        ensures
            final(self).0 == flag_put(old(self).0 as u64, 3, value),
    {
        self.0 = with_flag(self.0 as u64, 3, value) as u32;
    }

    /// Whether the controller supports ESIT payloads above 48K bytes.
    pub fn lec(&self) -> (r: bool)
        ensures
            r == flag_of(self.0 as u64, 4),
    {
        get_flag(self.0 as u64, 4)
    }

    /// This value with `lec` set to `value`.
    #[must_use]
    pub fn with_lec(self, value: bool) -> (r: Self)
        ensures
            r.0 == flag_put(self.0 as u64, 4, value),
    {
        Self(with_flag(self.0 as u64, 4, value) as u32)
    }

    /// Sets `lec` to `value` in place.
    pub fn set_lec(&mut self, value: bool)
        ensures
            final(self).0 == flag_put(old(self).0 as u64, 4, value),
    {
        self.0 = with_flag(self.0 as u64, 4, value) as u32;
    }

    /// Whether the controller supports extended configuration information.
    pub fn cic(&self) -> (r: bool)
        ensures
            r == flag_of(self.0 as u64, 5),
    {
        get_flag(self.0 as u64, 5)
    }

    /// This value with `cic` set to `value`.
    #[must_use]
    pub fn with_cic(self, value: bool) -> (r: Self)
        ensures
            r.0 == flag_put(self.0 as u64, 5, value),
    {
        Self(with_flag(self.0 as u64, 5, value) as u32)
    }

    /// Sets `cic` to `value` in place.
    pub fn set_cic(&mut self, value: bool)
        ensures
            final(self).0 == flag_put(old(self).0 as u64, 5, value),
    {
        self.0 = with_flag(self.0 as u64, 5, value) as u32;
    }

    /// Whether the TBC field of an isochronous TRB can hold burst counts above
    /// 65535 bytes.
    pub fn etc(&self) -> (r: bool)
        ensures
            r == flag_of(self.0 as u64, 6),
    {
        get_flag(self.0 as u64, 6)
    }

    /// This value with `etc` set to `value`.
    #[must_use]
    pub fn with_etc(self, value: bool) -> (r: Self)
        ensures
            r.0 == flag_put(self.0 as u64, 6, value),
    {
        Self(with_flag(self.0 as u64, 6, value) as u32)
    }

    /// Sets `etc` to `value` in place.
    pub fn set_etc(&mut self, value: bool)
        ensures
            final(self).0 == flag_put(old(self).0 as u64, 6, value),
    {
        self.0 = with_flag(self.0 as u64, 6, value) as u32;
    }

    /// Whether the TBC/TRBSts field of an isochronous TRB carries more
    /// information on the TRB.
    pub fn etc_tsc(&self) -> (r: bool)
        ensures
            r == flag_of(self.0 as u64, 7),
    {
        get_flag(self.0 as u64, 7)
    }

    /// This value with `etc_tsc` set to `value`.
    #[must_use]
    pub fn with_etc_tsc(self, value: bool) -> (r: Self)
        ensures
            r.0 == flag_put(self.0 as u64, 7, value),
    {
        Self(with_flag(self.0 as u64, 7, value) as u32)
    }

    /// Sets `etc_tsc` to `value` in place.
    pub fn set_etc_tsc(&mut self, value: bool)
        ensures
            final(self).0 == flag_put(old(self).0 as u64, 7, value),
    {
        self.0 = with_flag(self.0 as u64, 7, value) as u32;
    }

    /// Whether the controller supports the get and set extended property
    /// commands.
    pub fn gsc(&self) -> (r: bool)
        ensures
            r == flag_of(self.0 as u64, 8),
    {
        get_flag(self.0 as u64, 8)
    }

    /// This value with `gsc` set to `value`.
    #[must_use]
    pub fn with_gsc(self, value: bool) -> (r: Self)
        ensures
            r.0 == flag_put(self.0 as u64, 8, value),
    {
        Self(with_flag(self.0 as u64, 8, value) as u32)
    }

    /// Sets `gsc` to `value` in place.
    pub fn set_gsc(&mut self, value: bool)
        ensures
            final(self).0 == flag_put(old(self).0 as u64, 8, value),
    {
        self.0 = with_flag(self.0 as u64, 8, value) as u32;
    }

    /// Whether the controller supports virtualization-based trusted I/O.
    pub fn vtc(&self) -> (r: bool)
        ensures
            r == flag_of(self.0 as u64, 9),
    {
        get_flag(self.0 as u64, 9)
    }

    /// This value with `vtc` set to `value`.
    #[must_use]
    pub fn with_vtc(self, value: bool) -> (r: Self)
        ensures
            r.0 == flag_put(self.0 as u64, 9, value),
    {
        Self(with_flag(self.0 as u64, 9, value) as u32)
    }

    /// Sets `vtc` to `value` in place.
    pub fn set_vtc(&mut self, value: bool)
        ensures
            final(self).0 == flag_put(old(self).0 as u64, 9, value),
    {
        self.0 = with_flag(self.0 as u64, 9, value) as u32;
    }
}

/// The number of scratchpad buffers held in the raw HCSPARAMS2 value `raw`:
/// a 10-bit quantity whose high five bits sit in bits 21 to 25 and whose low
/// five bits sit in bits 27 to 31.
pub open spec fn scratchpad_bufs_of(raw: u32) -> u16 {
    ((field_of(raw as u64, 21, 26) << 5) | field_of(raw as u64, 27, 32)) as u16
}

/// The raw HCSPARAMS2 value `raw` with the number of scratchpad buffers
/// replaced by the low ten bits of `max`.
pub open spec fn scratchpad_bufs_put(raw: u32, max: u16) -> u32 {
    field_put(
        field_put(raw as u64, 27, 32, (max & 0x1f) as u64),
        21,
        26,
        ((max >> 5) & 0x1f) as u64,
    ) as u32
}

impl HcStructuralParameters2 {
    /// Number of scratchpad buffers that software must reserve for the
    /// controller, put together from its two halves.
    pub fn max_scratchpad_bufs(&self) -> (r: u16)
        ensures
            r == scratchpad_bufs_of(self.0),
            r < 1024,
    {
        let lo = self.max_scratchpad_bufs_lo() as u16 & 0b11111;
        let hi = self.max_scratchpad_bufs_hi() as u16 & 0b11111;
        let r = (hi << 5) | lo;
        proof {
            let raw = self.0;
            assert(((((field_of(raw as u64, 21, 26) as u8) as u16 & 0b11111) << 5) | ((field_of(
                raw as u64,
                27,
                32,
            ) as u8) as u16 & 0b11111)) == scratchpad_bufs_of(raw) && scratchpad_bufs_of(raw)
                < 1024) by (bit_vector);
        }
        r
    }

    /// This value with the number of scratchpad buffers replaced by the low
    /// ten bits of `max`, split into its two halves.
    #[must_use]
    pub fn with_max_scratchpad_bufs(self, max: u16) -> (r: Self)
        ensures
            r.0 == scratchpad_bufs_put(self.0, max),
    {
        let lo = max & 0b11111;
        let hi = (max >> 5) & 0b11111;
        proof {
            assert(max & 0b11111 <= 0xff && (max >> 5) & 0b11111 <= 0xff) by (bit_vector);
        }
        self.with_max_scratchpad_bufs_lo(lo as u8).with_max_scratchpad_bufs_hi(hi as u8)
    }
}

/// Writing a number of scratchpad buffers and reading it back gives the
/// number written, cut down to ten bits; a number below 1024 comes back as
/// it is.
pub proof fn lemma_scratchpad_bufs_round_trip(raw: u32, max: u16)
    ensures
        scratchpad_bufs_of(scratchpad_bufs_put(raw, max)) == max & 0x3ff,
        max < 1024 ==> scratchpad_bufs_of(scratchpad_bufs_put(raw, max)) == max,
{
    assert(scratchpad_bufs_of(scratchpad_bufs_put(raw, max)) == max & 0x3ff) by (bit_vector);
    assert(max < 1024 ==> max & 0x3ff == max) by (bit_vector);
}

/// Writing a number of scratchpad buffers changes no bit outside its two
/// halves: bits 0 to 20 and bit 26 stay as they were.
pub proof fn lemma_scratchpad_bufs_frame(raw: u32, max: u16)
    ensures
        scratchpad_bufs_put(raw, max) & 0x041f_ffffu32 == raw & 0x041f_ffffu32,
{
    assert(scratchpad_bufs_put(raw, max) & 0x041f_ffffu32 == raw & 0x041f_ffffu32)
        by (bit_vector);
}

} // verus!
