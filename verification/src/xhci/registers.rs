//! The registers of the xHCI host controller and where they lie.

use super::bits;
use crate::regmap::{laid_out, offset_of, RegLayout, RegMap};
use vstd::prelude::*;

verus! {

/// The number of USB2 ports the controller has.
pub const NUM_USB2_PORTS: u8 = 4;

/// The number of USB3 ports the controller has.
pub const NUM_USB3_PORTS: u8 = 4;

/// The USB-specific registers in PCI configuration space
/// (xHCI 1.2 section 5.2).
#[derive(Copy, Clone, Debug, Eq, PartialEq, Structural)]
pub enum UsbPciCfgReg {
    /// Serial Bus Release Number (SBRN): the release of the USB
    /// specification that the controller implements.
    SerialBusReleaseNumber,
    /// Frame Length Adjustment (FLADJ).
    FrameLengthAdjustment,
    /// Default Best Effort Service Latency (DBESL and DBESLD).
    DefaultBestEffortServiceLatencies,
}

/// The registers in the memory space that BAR0 points to.
#[derive(Copy, Clone, Debug, Eq, PartialEq, Structural)]
pub enum Registers {
    /// A stretch without a register.
    Reserved,
    /// A capability register.
    Cap(CapabilityRegisters),
    /// An operational register.
    Op(OperationalRegisters),
}

/// The host controller capability registers (xHCI 1.2 section 5.3).
#[derive(Copy, Clone, Debug, Eq, PartialEq, Structural)]
pub enum CapabilityRegisters {
    CapabilityLength,
    HciVersion,
    HcStructuralParameters1,
    HcStructuralParameters2,
    HcStructuralParameters3,
    HcCapabilityParameters1,
    HcCapabilityParameters2,
    DoorbellOffset,
    RuntimeRegisterSpaceOffset,
}

/// The registers of one port (xHCI 1.2 sections 5.4.8 to 5.4.11).
#[derive(Copy, Clone, Debug, Eq, PartialEq, Structural)]
pub enum PortRegisters {
    PortStatusControl,
    PortPowerManagementStatusControl,
    PortLinkInfo,
    PortHardwareLpmControl,
}

/// The host controller operational registers (xHCI 1.2 section 5.4).
#[derive(Copy, Clone, Debug, Eq, PartialEq, Structural)]
pub enum OperationalRegisters {
    UsbCommand,
    UsbStatus,
    PageSize,
    DeviceNotificationControl,
    CommandRingControlRegister,
    DeviceContextBaseAddressArrayPointerRegister,
    Configure,
    /// A register of the port with the given number, counted from 0.
    Port(u8, PortRegisters),
}

/// The registers of one interrupter (xHCI 1.2 section 5.5.2).
#[derive(Copy, Clone, Debug, Eq, PartialEq, Structural)]
pub enum InterrupterRegisters {
    Management,
    Moderation,
    EventRingSegmentTableSize,
    EventRingSegmentTableBaseAddress,
    EventRingDequeuePointer,
}

/// The host controller runtime registers (xHCI 1.2 section 5.5).
#[derive(Copy, Clone, Debug, Eq, PartialEq, Structural)]
pub enum RuntimeRegisters {
    MicroframeIndex,
    /// A register of the interrupter with the given number, counted from 0.
    Interrupter(u16, InterrupterRegisters),
}

/// The layout of the USB-specific PCI configuration registers: three
/// registers of one byte each.
pub open spec fn usb_pci_cfg_layout() -> Seq<(UsbPciCfgReg, usize)> {
    seq![
        (UsbPciCfgReg::SerialBusReleaseNumber, 1usize),
        (UsbPciCfgReg::FrameLengthAdjustment, 1usize),
        (UsbPciCfgReg::DefaultBestEffortServiceLatencies, 1usize),
    ]
}

/// Builds the map of the USB-specific PCI configuration registers.
pub fn usb_pci_cfg_regs() -> (map: RegMap<UsbPciCfgReg>)
    ensures
        map.wf(),
        map.size() == bits::USB_PCI_CFG_REG_SZ,
        map.entries() == laid_out(usb_pci_cfg_layout()),
        map.reserved() == None::<UsbPciCfgReg>,
{
    let layout = [
        (UsbPciCfgReg::SerialBusReleaseNumber, 1usize),
        (UsbPciCfgReg::FrameLengthAdjustment, 1usize),
        (UsbPciCfgReg::DefaultBestEffortServiceLatencies, 1usize),
    ];
    proof {
        assert(layout@ =~= usb_pci_cfg_layout());
        reveal_with_fuel(offset_of, 4);
    }
    RegMap::create_packed(bits::USB_PCI_CFG_REG_SZ as usize, layout.as_slice(), None)
}

/// The map of the memory-mapped registers, with the lengths of its two parts.
pub struct XhcRegMap {
    /// The capability registers followed by the operational registers.
    pub map: RegMap<Registers>,
    /// The length of the capability registers in bytes.
    pub cap_len: usize,
    /// The length of the operational registers in bytes.
    pub op_len: usize,
}

/// The layout of the capability registers: 32 bytes.
pub open spec fn cap_layout() -> Seq<(Registers, usize)> {
    seq![
        (Registers::Cap(CapabilityRegisters::CapabilityLength), 1usize),
        (Registers::Reserved, 1usize),
        (Registers::Cap(CapabilityRegisters::HciVersion), 2usize),
        (Registers::Cap(CapabilityRegisters::HcStructuralParameters1), 4usize),
        (Registers::Cap(CapabilityRegisters::HcStructuralParameters2), 4usize),
        (Registers::Cap(CapabilityRegisters::HcStructuralParameters3), 4usize),
        (Registers::Cap(CapabilityRegisters::HcCapabilityParameters1), 4usize),
        (Registers::Cap(CapabilityRegisters::DoorbellOffset), 4usize),
        (Registers::Cap(CapabilityRegisters::RuntimeRegisterSpaceOffset), 4usize),
        (Registers::Cap(CapabilityRegisters::HcCapabilityParameters2), 4usize),
    ]
}

/// The layout of the operational registers before the port registers:
/// 1024 bytes.
pub open spec fn op_base_layout() -> Seq<(Registers, usize)> {
    seq![
        (Registers::Op(OperationalRegisters::UsbCommand), 4usize),
        (Registers::Op(OperationalRegisters::UsbStatus), 4usize),
        (Registers::Op(OperationalRegisters::PageSize), 4usize),
        (Registers::Reserved, 8usize),
        (Registers::Op(OperationalRegisters::DeviceNotificationControl), 4usize),
        (Registers::Op(OperationalRegisters::CommandRingControlRegister), 8usize),
        (Registers::Reserved, 16usize),
        (Registers::Op(OperationalRegisters::DeviceContextBaseAddressArrayPointerRegister), 8usize),
        (Registers::Op(OperationalRegisters::Configure), 4usize),
        (Registers::Reserved, 964usize),
    ]
}

/// The layout of the registers of port `port`: four registers of four bytes.
pub open spec fn port_layout(port: u8) -> Seq<(Registers, usize)> {
    seq![
        (Registers::Op(OperationalRegisters::Port(port, PortRegisters::PortStatusControl)), 4usize),
        (
            Registers::Op(
                OperationalRegisters::Port(port, PortRegisters::PortPowerManagementStatusControl),
            ),
            4usize,
        ),
        (Registers::Op(OperationalRegisters::Port(port, PortRegisters::PortLinkInfo)), 4usize),
        (
            Registers::Op(OperationalRegisters::Port(port, PortRegisters::PortHardwareLpmControl)),
            4usize,
        ),
    ]
}

/// The layout of the registers of the ports `0..count`, port by port.
pub open spec fn ports_layout(count: nat) -> Seq<(Registers, usize)>
    decreases count,
{
    if count == 0 {
        Seq::empty()
    } else {
        ports_layout((count - 1) as nat) + port_layout((count - 1) as u8)
    }
}

/// The layout of the whole memory space: capability registers, operational
/// registers, then the registers of every port.
pub open spec fn xhc_layout() -> Seq<(Registers, usize)> {
    cap_layout() + op_base_layout() + ports_layout((NUM_USB2_PORTS + NUM_USB3_PORTS) as nat)
}

/// Builds the map of the memory-mapped registers. The space is as long as
/// the registers laid out in it: 32 bytes of capability registers and 1152
/// bytes of operational registers.
pub fn xhc_regs() -> (regs: XhcRegMap)
    ensures
        regs.map.wf(),
        regs.map.entries() == laid_out(xhc_layout()),
        regs.map.reserved() == Some(Registers::Reserved),
        regs.cap_len == bits::XHC_CAP_BASE_REG_SZ,
        regs.op_len == 1152,
        regs.map.size() == regs.cap_len + regs.op_len,
{
    let mut layout: RegLayout<Registers> = RegLayout::new();
    layout.push(Registers::Cap(CapabilityRegisters::CapabilityLength), 1);
    layout.push(Registers::Reserved, 1);
    layout.push(Registers::Cap(CapabilityRegisters::HciVersion), 2);
    layout.push(Registers::Cap(CapabilityRegisters::HcStructuralParameters1), 4);
    layout.push(Registers::Cap(CapabilityRegisters::HcStructuralParameters2), 4);
    layout.push(Registers::Cap(CapabilityRegisters::HcStructuralParameters3), 4);
    layout.push(Registers::Cap(CapabilityRegisters::HcCapabilityParameters1), 4);
    layout.push(Registers::Cap(CapabilityRegisters::DoorbellOffset), 4);
    layout.push(Registers::Cap(CapabilityRegisters::RuntimeRegisterSpaceOffset), 4);
    layout.push(Registers::Cap(CapabilityRegisters::HcCapabilityParameters2), 4);
    assert(layout@ =~= cap_layout());
    let cap_len = layout.total_len();

    layout.push(Registers::Op(OperationalRegisters::UsbCommand), 4);
    layout.push(Registers::Op(OperationalRegisters::UsbStatus), 4);
    layout.push(Registers::Op(OperationalRegisters::PageSize), 4);
    layout.push(Registers::Reserved, 8);
    layout.push(Registers::Op(OperationalRegisters::DeviceNotificationControl), 4);
    layout.push(Registers::Op(OperationalRegisters::CommandRingControlRegister), 8);
    layout.push(Registers::Reserved, 16);
    layout.push(Registers::Op(OperationalRegisters::DeviceContextBaseAddressArrayPointerRegister), 8);
    layout.push(Registers::Op(OperationalRegisters::Configure), 4);
    layout.push(Registers::Reserved, 964);
    assert(layout@ =~= cap_layout() + op_base_layout());

    let num_ports = NUM_USB2_PORTS + NUM_USB3_PORTS;
    let mut i: u8 = 0;
    assert(layout@ =~= cap_layout() + op_base_layout() + ports_layout(0));
    while i < num_ports
        invariant
            i <= num_ports == 8,
            layout.wf(),
            layout.total() == 1056 + 16 * i,
            layout@ == cap_layout() + op_base_layout() + ports_layout(i as nat),
        decreases num_ports - i,
    {
        layout.push(Registers::Op(OperationalRegisters::Port(i, PortRegisters::PortStatusControl)), 4);
        layout.push(
            Registers::Op(
                OperationalRegisters::Port(i, PortRegisters::PortPowerManagementStatusControl),
            ),
            4,
        );
        layout.push(Registers::Op(OperationalRegisters::Port(i, PortRegisters::PortLinkInfo)), 4);
        layout.push(
            Registers::Op(OperationalRegisters::Port(i, PortRegisters::PortHardwareLpmControl)),
            4,
        );
        assert(layout@ =~= cap_layout() + op_base_layout() + (ports_layout(i as nat) + port_layout(
            i,
        )));
        i += 1;
    }
    let op_len = layout.total_len() - cap_len;
    XhcRegMap { map: layout.pack(Some(Registers::Reserved)), cap_len, op_len }
}

} // verus!
