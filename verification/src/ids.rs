//! Identifiers under which the emulated devices show themselves.

use vstd::prelude::*;

verus! {

/// The PCI vendor id of the emulated devices.
pub const VENDOR_OXIDE: u16 = 0x1de;

/// The PCI device id of the emulated xHCI host controller.
pub const PROPOLIS_XHCI_DEV_ID: u16 = 0x1;

} // verus!
