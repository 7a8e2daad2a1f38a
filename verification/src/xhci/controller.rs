//! The emulated USB host controller.

use super::bits;
use super::registers::{
    ports_layout, usb_pci_cfg_layout, usb_pci_cfg_regs, xhc_layout, xhc_regs, CapabilityRegisters,
    OperationalRegisters, Registers, UsbPciCfgReg, XhcRegMap, NUM_USB2_PORTS, NUM_USB3_PORTS,
};
use crate::common::{le_byte, le_bytes, le_window, RWOp, ReadOp, WriteOp};
use crate::ids::{PROPOLIS_XHCI_DEV_ID, VENDOR_OXIDE};
use crate::pci::bits::{RegCmd, CLASS_SERIAL_BUS, PROGIF_USB3, SUBCLASS_USB};
use crate::pci::device::{BarN, Builder, CustomCfg, DeviceState, DeviceView, Ident, MsixCfg};
use crate::regmap::{laid_out, lemma_writes_run_keeps, offset_of, RegHandler, RegMap};
use vstd::prelude::*;

verus! {

/// The number of device slots the controller supports.
pub const MAX_DEVICE_SLOTS: u8 = 64;

/// The number of interrupters the controller supports.
pub const NUM_INTRS: u16 = 1024;

/// The register maps of the controller. They are built once, never change,
/// and are shared by every controller.
pub struct XhciRegMaps {
    /// The USB-specific registers in PCI configuration space.
    pub cfg: RegMap<UsbPciCfgReg>,
    /// The registers in the memory space that BAR0 points to.
    pub xhc: XhcRegMap,
}

impl XhciRegMaps {
    /// Both maps are laid out as the register layouts say.
    pub open spec fn wf(&self) -> bool {
        &&& self.cfg.wf()
        &&& self.cfg.size() == bits::USB_PCI_CFG_REG_SZ
        &&& self.cfg.entries() == laid_out(usb_pci_cfg_layout())
        &&& self.xhc.map.wf()
        &&& self.xhc.map.size() == self.xhc.cap_len + self.xhc.op_len
        &&& self.xhc.map.entries() == laid_out(xhc_layout())
    }

    /// Builds the two maps.
    pub fn new() -> (maps: XhciRegMaps)
        ensures
            maps.wf(),
    {
        XhciRegMaps { cfg: usb_pci_cfg_regs(), xhc: xhc_regs() }
    }
}

/// The state of the controller itself.
struct XhciState {
    /// The USB Command register.
    usb_cmd: bits::UsbCommand,
}

/// An emulated USB host controller attached over PCI.
pub struct PciXhci<'a> {
    /// The register maps.
    maps: &'a XhciRegMaps,
    /// The PCI side of the device.
    pci_state: DeviceState,
    /// The controller itself.
    state: XhciState,
}

/// The value of the HCSPARAMS1 register: 64 device slots, 1024 interrupters,
/// 8 ports.
pub const HCSPARAMS1: u32 = 0x0804_0040;

/// The value of the HCSPARAMS2 register: a scheduling threshold of 7,
/// counted in frames.
pub const HCSPARAMS2: u32 = 0x0000_000f;

/// The value of the HCCPARAMS1 register: 64-bit addressing, no extended
/// capabilities.
pub const HCCPARAMS1: u32 = 0x0000_0001;

/// The value of the FLADJ register: no frame length timing capability.
pub const FLADJ: u8 = 0x40;

/// The release of the USB specification that the controller implements, as
/// the SBRN register gives it: USB 3.0.
pub const SBRN: u8 = 0x30;

/// The version of the xHCI specification that the controller implements, as
/// the HCIVERSION register gives it: 1.2.0.
pub const HCIVERSION: u16 = 0x0120;

/// The value of a USB-specific PCI configuration register.
pub open spec fn usb_cfg_value(id: UsbPciCfgReg) -> u64 {
    match id {
        UsbPciCfgReg::SerialBusReleaseNumber => SBRN as u64,
        UsbPciCfgReg::FrameLengthAdjustment => FLADJ as u64,
        UsbPciCfgReg::DefaultBestEffortServiceLatencies => 0,
    }
}

/// The value of a memory-mapped register while the USB Command register
/// holds `usb_cmd`. A reserved stretch and a register that the controller
/// does not implement hold zero.
pub open spec fn reg_value(usb_cmd: u32, id: Registers) -> u64 {
    match id {
        Registers::Reserved => 0,
        Registers::Cap(CapabilityRegisters::CapabilityLength) => 0,
        Registers::Cap(CapabilityRegisters::HciVersion) => HCIVERSION as u64,
        Registers::Cap(CapabilityRegisters::HcStructuralParameters1) => HCSPARAMS1 as u64,
        Registers::Cap(CapabilityRegisters::HcStructuralParameters2) => HCSPARAMS2 as u64,
        Registers::Cap(CapabilityRegisters::HcStructuralParameters3) => 0,
        Registers::Cap(CapabilityRegisters::HcCapabilityParameters1) => HCCPARAMS1 as u64,
        Registers::Cap(CapabilityRegisters::HcCapabilityParameters2) => 0,
        Registers::Cap(CapabilityRegisters::DoorbellOffset) => 0,
        Registers::Cap(CapabilityRegisters::RuntimeRegisterSpaceOffset) => 0,
        Registers::Op(OperationalRegisters::UsbCommand) => usb_cmd as u64,
        Registers::Op(_) => 0,
    }
}

impl<'a> PciXhci<'a> {
    /// The register maps.
    pub closed spec fn maps(&self) -> XhciRegMaps {
        *self.maps
    }

    /// The PCI side of the device.
    pub closed spec fn pci_state(&self) -> DeviceView {
        self.pci_state@
    }

    /// The value of the USB Command register.
    pub closed spec fn usb_cmd(&self) -> u32 {
        self.state.usb_cmd.0
    }

    /// The register maps are well formed.
    pub open spec fn wf(&self) -> bool {
        self.maps().wf()
    }

    /// The USB-specific PCI configuration registers as one flat run of
    /// bytes: the release number of USB 3.0, a frame length adjustment
    /// without timing capability, and zero latencies.
    pub open spec fn usb_cfg_image(&self) -> Seq<u8> {
        seq![SBRN, FLADJ, 0u8]
    }

    /// The memory-mapped registers as one flat run of bytes: the capability
    /// registers with the version and the three parameter registers that
    /// are not zero, the USB Command register, and zero in every register
    /// that the controller does not implement.
    pub open spec fn reg_image(&self) -> Seq<u8> {
        seq![0u8, 0u8] + le_bytes(HCIVERSION as u64, 2) + le_bytes(HCSPARAMS1 as u64, 4) + le_bytes(
            HCSPARAMS2 as u64,
            4,
        ) + Seq::new(4, |i: int| 0u8) + le_bytes(HCCPARAMS1 as u64, 4) + Seq::new(
            12,
            |i: int| 0u8,
        ) + le_bytes(self.usb_cmd() as u64, 4) + Seq::new(1148, |i: int| 0u8)
    }

    /// The USB-specific PCI configuration registers as their map shows
    /// them.
    spec fn usb_cfg_map_image(&self) -> Seq<u8> {
        self.maps().cfg.image(|id: UsbPciCfgReg, i: int| le_byte(usb_cfg_value(id), i as nat))
    }

    /// The memory-mapped registers as their map shows them.
    spec fn reg_map_image(&self) -> Seq<u8> {
        self.maps().xhc.map.image(
            |id: Registers, i: int| le_byte(reg_value(self.usb_cmd(), id), i as nat),
        )
    }

    /// Creates a controller over the register maps `maps`: a serial bus
    /// controller of the USB subclass with the xHCI programming interface,
    /// with an MSI-X capability of 1024 vectors in BAR4 and the USB-specific
    /// stretch of configuration space declared as its own, and with the USB
    /// Command register zero.
    pub fn create(maps: &'a XhciRegMaps) -> (dev: PciXhci<'a>)
        requires
            maps.wf(),
        ensures
            dev.wf(),
            dev.maps() == *maps,
            dev.usb_cmd() == 0,
            dev.pci_state() == (DeviceView {
                ident: Ident {
                    vendor_id: VENDOR_OXIDE,
                    device_id: PROPOLIS_XHCI_DEV_ID,
                    sub_vendor_id: VENDOR_OXIDE,
                    sub_device_id: PROPOLIS_XHCI_DEV_ID,
                    class: CLASS_SERIAL_BUS,
                    subclass: SUBCLASS_USB,
                    prog_if: PROGIF_USB3,
                    revision_id: 0,
                },
                msix: Some(MsixCfg { bar: BarN::BAR4, count: NUM_INTRS }),
                custom_cfg: Some(
                    CustomCfg { offset: bits::USB_PCI_CFG_OFFSET, len: bits::USB_PCI_CFG_REG_SZ },
                ),
                command: RegCmd::INTX_DIS,
            }),
    {
        let pci_builder = Builder::new(
            Ident {
                vendor_id: VENDOR_OXIDE,
                device_id: PROPOLIS_XHCI_DEV_ID,
                sub_vendor_id: VENDOR_OXIDE,
                sub_device_id: PROPOLIS_XHCI_DEV_ID,
                class: CLASS_SERIAL_BUS,
                subclass: SUBCLASS_USB,
                prog_if: PROGIF_USB3,
                revision_id: 0,
            },
        );
        let pci_state = pci_builder.add_cap_msix(BarN::BAR4, NUM_INTRS).add_custom_cfg(
            bits::USB_PCI_CFG_OFFSET,
            bits::USB_PCI_CFG_REG_SZ,
        ).finish();
        let state = XhciState { usb_cmd: bits::UsbCommand(0) };
        PciXhci { maps, pci_state, state }
    }

    /// The name of the device type.
    pub fn entity_name(&self) -> (name: &'static str)
        ensures
            name@ == "pci-xhci"@,
    {
        "pci-xhci"
    }

    /// Puts the PCI side of the device back to its state after reset.
    pub fn reset(&mut self)
        ensures
            final(self).maps() == old(self).maps(),
            final(self).usb_cmd() == old(self).usb_cmd(),
            final(self).pci_state() == (DeviceView {
                command: RegCmd::INTX_DIS,
                ..old(self).pci_state()
            }),
    {
        self.pci_state.reset();
    }

    /// The PCI side of the device.
    pub fn device_state(&self) -> (r: &DeviceState)
        ensures
            r@ == self.pci_state(),
    {
        &self.pci_state
    }

    /// Answers a read of the USB-specific PCI configuration register `id`
    /// with the bytes of the register's value that the access covers.
    pub fn usb_cfg_read(&self, id: UsbPciCfgReg, ro: &mut ReadOp)
        requires
            old(ro).wf(),
            old(ro)@.fresh(),
        ensures
            final(ro).wf(),
            final(ro)@.complete(),
            final(ro)@ == old(ro)@.put(
                le_window(usb_cfg_value(id), old(ro)@.offset, old(ro)@.len()),
            ),
    {
        match id {
            UsbPciCfgReg::SerialBusReleaseNumber => {
                ro.write_value(SBRN as u64);
            },
            UsbPciCfgReg::FrameLengthAdjustment => {
                // The SOF cycle cannot be adjusted.
                let fladj = bits::FrameLengthAdjustment(0).with_nfc(true);
                assert(crate::bitfield::flag_put(0, 6, true) == 0x40) by (bit_vector);
                ro.write_value(fladj.0 as u64);
            },
            UsbPciCfgReg::DefaultBestEffortServiceLatencies => {
                // Without link power management both latencies are zero.
                ro.write_value(bits::DefaultBestEffortServiceLatencies(0).0 as u64);
            },
        }
    }

    /// Takes a write to the USB-specific PCI configuration register `id`.
    /// All three registers are read-only: the write changes nothing.
    pub fn usb_cfg_write(&self, id: UsbPciCfgReg, wo: &mut WriteOp)
        ensures
            final(wo)@ == old(wo)@,
    {
        match id {
            UsbPciCfgReg::SerialBusReleaseNumber => {},
            UsbPciCfgReg::FrameLengthAdjustment => {},
            UsbPciCfgReg::DefaultBestEffortServiceLatencies => {},
        }
    }

    /// Answers a read of the memory-mapped register `id` with the bytes of
    /// the register's value that the access covers.
    pub fn reg_read(&self, id: Registers, ro: &mut ReadOp)
        requires
            old(ro).wf(),
            old(ro)@.fresh(),
        ensures
            final(ro).wf(),
            final(ro)@.complete(),
            final(ro)@ == old(ro)@.put(
                le_window(reg_value(self.usb_cmd(), id), old(ro)@.offset, old(ro)@.len()),
            ),
    {
        match id {
            Registers::Reserved => {
                ro.write_value(0);
            },
            Registers::Cap(CapabilityRegisters::CapabilityLength) => {
                ro.write_value(0);
            },
            Registers::Cap(CapabilityRegisters::HciVersion) => {
                ro.write_value(HCIVERSION as u64);
            },
            Registers::Cap(CapabilityRegisters::HcStructuralParameters1) => {
                let hcs_params1 = bits::HcStructuralParameters1(0).with_max_slots(
                    MAX_DEVICE_SLOTS,
                ).with_max_intrs(NUM_INTRS).with_max_ports(NUM_USB2_PORTS + NUM_USB3_PORTS);
                assert(crate::bitfield::field_put(
                    crate::bitfield::field_put(crate::bitfield::field_put(0, 0, 8, 64), 8, 19, 1024),
                    24,
                    32,
                    8,
                ) == 0x0804_0040) by (bit_vector);
                ro.write_value(hcs_params1.0 as u64);
            },
            Registers::Cap(CapabilityRegisters::HcStructuralParameters2) => {
                let hcs_params2 = bits::HcStructuralParameters2(0).with_ist_as_frame(
                    true,
                ).with_iso_sched_threshold(0b111);
                assert(crate::bitfield::field_put(
                    crate::bitfield::flag_put(0, 3, true),
                    0,
                    3,
                    0b111,
                ) == 0xf) by (bit_vector);
                ro.write_value(hcs_params2.0 as u64);
            },
            Registers::Cap(CapabilityRegisters::HcStructuralParameters3) => {
                let hcs_params3 = bits::HcStructuralParameters3(0);
                ro.write_value(hcs_params3.0 as u64);
            },
            Registers::Cap(CapabilityRegisters::HcCapabilityParameters1) => {
                let hcc_params1 = bits::HcCapabilityParameters1(0).with_ac64(true).with_xecp(0);
                assert(crate::bitfield::field_put(
                    crate::bitfield::flag_put(0, 0, true),
                    16,
                    32,
                    0,
                ) == 1) by (bit_vector);
                ro.write_value(hcc_params1.0 as u64);
            },
            Registers::Cap(CapabilityRegisters::HcCapabilityParameters2) => {
                let hcc_params2 = bits::HcCapabilityParameters2(0);
                ro.write_value(hcc_params2.0 as u64);
            },
            Registers::Cap(CapabilityRegisters::DoorbellOffset) => {
                ro.write_value(0);
            },
            Registers::Cap(CapabilityRegisters::RuntimeRegisterSpaceOffset) => {
                ro.write_value(0);
            },
            Registers::Op(OperationalRegisters::UsbCommand) => {
                ro.write_value(self.state.usb_cmd.0 as u64);
            },
            Registers::Op(_) => {
                ro.write_value(0);
            },
        }
    }

    /// Takes a write to the memory-mapped register `id`. Reserved stretches
    /// and the capability registers are read-only, and the controller
    /// implements no operational register for writing: the write changes
    /// nothing.
    pub fn reg_write(&self, id: Registers, wo: &mut WriteOp)
        ensures
            final(wo)@ == old(wo)@,
    {
        match id {
            Registers::Reserved => {},
            Registers::Cap(_) => {},
            Registers::Op(_) => {},
        }
    }
}

/// In configuration space the controller answers a read with the bytes of
/// the USB-specific register asked for, and no access changes it.
impl<'a> RegHandler<UsbPciCfgReg> for PciXhci<'a> {
    open spec fn inv(&self) -> bool {
        true
    }

    open spec fn reads(
        pre: Self,
        id: UsbPciCfgReg,
        offset: nat,
        len: nat,
        post: Self,
        bytes: Seq<u8>,
    ) -> bool {
        post == pre && bytes == le_window(usb_cfg_value(id), offset, len)
    }

    open spec fn writes(
        pre: Self,
        id: UsbPciCfgReg,
        offset: nat,
        data: Seq<u8>,
        post: Self,
    ) -> bool {
        post == pre
    }

    fn handle(&mut self, id: &UsbPciCfgReg, rwo: RWOp<'_, '_>) {
        match rwo {
            RWOp::Read(ro) => {
                let ghost before = ro@;
                self.usb_cfg_read(*id, ro);
                assert(ro@.bytes =~= le_window(usb_cfg_value(*id), before.offset, before.len()));
            },
            RWOp::Write(wo) => self.usb_cfg_write(*id, wo),
        }
    }
}

/// In memory space the controller answers a read with the bytes of the
/// register asked for, and no access changes it.
impl<'a> RegHandler<Registers> for PciXhci<'a> {
    open spec fn inv(&self) -> bool {
        true
    }

    open spec fn reads(
        pre: Self,
        id: Registers,
        offset: nat,
        len: nat,
        post: Self,
        bytes: Seq<u8>,
    ) -> bool {
        post == pre && bytes == le_window(reg_value(pre.usb_cmd(), id), offset, len)
    }

    open spec fn writes(pre: Self, id: Registers, offset: nat, data: Seq<u8>, post: Self) -> bool {
        post == pre
    }

    fn handle(&mut self, id: &Registers, rwo: RWOp<'_, '_>) {
        match rwo {
            RWOp::Read(ro) => {
                let ghost before = ro@;
                self.reg_read(*id, ro);
                assert(ro@.bytes =~= le_window(
                    reg_value(self.usb_cmd(), *id),
                    before.offset,
                    before.len(),
                ));
            },
            RWOp::Write(wo) => self.reg_write(*id, wo),
        }
    }
}

impl<'a> PciXhci<'a> {
    /// Handles an access to the stretch of configuration space at `region`
    /// that the controller declared its own, which must be the USB-specific
    /// one. The access is resolved through the map of that stretch: a read
    /// gets the bytes of the flat image that it covers, a write changes
    /// nothing.
    ///
    /// The access must lie within the stretch.
    pub fn cfg_rw(&mut self, region: u8, rwo: RWOp<'_, '_>)
        requires
            old(self).wf(),
            region == bits::USB_PCI_CFG_OFFSET,
            rwo matches RWOp::Read(ro) ==> ro.wf() && ro@.fresh() && ro@.offset + ro@.len()
                <= bits::USB_PCI_CFG_REG_SZ,
            rwo matches RWOp::Write(wo) ==> wo.wf() && wo@.fresh() && wo@.offset + wo@.len()
                <= bits::USB_PCI_CFG_REG_SZ,
        ensures
            *final(self) == *old(self),
            rwo matches RWOp::Read(ro) ==> {
                &&& final(ro).wf()
                &&& final(ro)@.complete()
                &&& final(ro)@.offset == ro@.offset
                &&& final(ro)@.bytes == old(self).usb_cfg_image().subrange(
                    ro@.offset as int,
                    (ro@.offset + ro@.len()) as int,
                )
            },
            rwo matches RWOp::Write(wo) ==> final(wo).wf() && final(wo)@ == wo@.advanced(
                wo@.len(),
            ),
    {
        let maps = self.maps;
        let ghost before = *self;
        match rwo {
            RWOp::Read(ro) => {
                let ghost offset = ro@.offset as int;
                let ghost len = ro@.len() as int;
                maps.cfg.process(RWOp::Read(ro), self);
                proof {
                    let content = |id: UsbPciCfgReg, i: int| le_byte(usb_cfg_value(id), i as nat);
                    assert forall|
                        id: UsbPciCfgReg,
                        at: nat,
                        n: nat,
                        next: PciXhci<'a>,
                        bytes: Seq<u8>,
                    | #[trigger]
                        <PciXhci<'a> as RegHandler<UsbPciCfgReg>>::reads(
                            before,
                            id,
                            at,
                            n,
                            next,
                            bytes,
                        ) implies next == before && bytes == Seq::new(
                        n,
                        |i: int| content(id, at + i),
                    ) by {
                        assert(bytes =~= Seq::new(n, |i: int| content(id, at + i)));
                    }
                    maps.cfg.lemma_image_read(before, content, offset, len, *self, ro@.bytes);
                    before.lemma_usb_cfg_image();
                }
            },
            RWOp::Write(wo) => {
                let ghost offset = wo@.offset as int;
                let ghost len = wo@.len() as int;
                let ghost data = wo@.bytes;
                maps.cfg.process(RWOp::Write(wo), self);
                proof {
                    lemma_writes_run_keeps::<UsbPciCfgReg, PciXhci<'a>>(
                        before,
                        maps.cfg.plan(offset, len),
                        data,
                        *self,
                    );
                }
            },
        }
    }

    /// Handles an access to the memory space behind `bar`, which must be
    /// BAR0. The access is resolved through the map of the memory-mapped
    /// registers: a read gets the bytes of the flat image that it covers,
    /// a write changes nothing.
    ///
    /// The access must lie within the space.
    pub fn bar_rw(&mut self, bar: BarN, rwo: RWOp<'_, '_>)
        requires
            old(self).wf(),
            bar == BarN::BAR0,
            rwo matches RWOp::Read(ro) ==> ro.wf() && ro@.fresh() && ro@.offset + ro@.len() <= old(
                self,
            ).maps().xhc.map.size(),
            rwo matches RWOp::Write(wo) ==> wo.wf() && wo@.fresh() && wo@.offset + wo@.len()
                <= old(self).maps().xhc.map.size(),
        ensures
            *final(self) == *old(self),
            rwo matches RWOp::Read(ro) ==> {
                &&& final(ro).wf()
                &&& final(ro)@.complete()
                &&& final(ro)@.offset == ro@.offset
                &&& final(ro)@.bytes == old(self).reg_image().subrange(
                    ro@.offset as int,
                    (ro@.offset + ro@.len()) as int,
                )
            },
            rwo matches RWOp::Write(wo) ==> final(wo).wf() && final(wo)@ == wo@.advanced(
                wo@.len(),
            ),
    {
        let maps = self.maps;
        let ghost before = *self;
        match rwo {
            RWOp::Read(ro) => {
                let ghost offset = ro@.offset as int;
                let ghost len = ro@.len() as int;
                maps.xhc.map.process(RWOp::Read(ro), self);
                proof {
                    let content = |id: Registers, i: int|
                        le_byte(reg_value(before.usb_cmd(), id), i as nat);
                    assert forall|
                        id: Registers,
                        at: nat,
                        n: nat,
                        next: PciXhci<'a>,
                        bytes: Seq<u8>,
                    | #[trigger]
                        <PciXhci<'a> as RegHandler<Registers>>::reads(
                            before,
                            id,
                            at,
                            n,
                            next,
                            bytes,
                        ) implies next == before && bytes == Seq::new(
                        n,
                        |i: int| content(id, at + i),
                    ) by {
                        assert(bytes =~= Seq::new(n, |i: int| content(id, at + i)));
                    }
                    maps.xhc.map.lemma_image_read(before, content, offset, len, *self, ro@.bytes);
                    before.lemma_reg_image();
                }
            },
            RWOp::Write(wo) => {
                let ghost offset = wo@.offset as int;
                let ghost len = wo@.len() as int;
                let ghost data = wo@.bytes;
                maps.xhc.map.process(RWOp::Write(wo), self);
                proof {
                    lemma_writes_run_keeps::<Registers, PciXhci<'a>>(
                        before,
                        maps.xhc.map.plan(offset, len),
                        data,
                        *self,
                    );
                }
            },
        }
    }
}

/// Where each memory-mapped register starts.
proof fn lemma_xhc_starts()
    ensures
        xhc_layout().len() == 52,
        forall|k: int|
            20 <= k < 52 ==> (#[trigger] xhc_layout()[k]).0 matches Registers::Op(
                OperationalRegisters::Port(_, _),
            ),
        offset_of(xhc_layout(), 0) == 0,
        offset_of(xhc_layout(), 1) == 1,
        offset_of(xhc_layout(), 2) == 2,
        offset_of(xhc_layout(), 3) == 4,
        offset_of(xhc_layout(), 4) == 8,
        offset_of(xhc_layout(), 5) == 12,
        offset_of(xhc_layout(), 6) == 16,
        offset_of(xhc_layout(), 7) == 20,
        offset_of(xhc_layout(), 8) == 24,
        offset_of(xhc_layout(), 9) == 28,
        offset_of(xhc_layout(), 10) == 32,
        offset_of(xhc_layout(), 11) == 36,
        offset_of(xhc_layout(), 12) == 40,
        offset_of(xhc_layout(), 13) == 44,
        offset_of(xhc_layout(), 14) == 52,
        offset_of(xhc_layout(), 15) == 56,
        offset_of(xhc_layout(), 16) == 64,
        offset_of(xhc_layout(), 17) == 80,
        offset_of(xhc_layout(), 18) == 88,
        offset_of(xhc_layout(), 19) == 92,
        offset_of(xhc_layout(), 20) == 1056,
        offset_of(xhc_layout(), 21) == 1060,
        offset_of(xhc_layout(), 22) == 1064,
        offset_of(xhc_layout(), 23) == 1068,
        offset_of(xhc_layout(), 24) == 1072,
        offset_of(xhc_layout(), 25) == 1076,
        offset_of(xhc_layout(), 26) == 1080,
        offset_of(xhc_layout(), 27) == 1084,
        offset_of(xhc_layout(), 28) == 1088,
        offset_of(xhc_layout(), 29) == 1092,
        offset_of(xhc_layout(), 30) == 1096,
        offset_of(xhc_layout(), 31) == 1100,
        offset_of(xhc_layout(), 32) == 1104,
        offset_of(xhc_layout(), 33) == 1108,
        offset_of(xhc_layout(), 34) == 1112,
        offset_of(xhc_layout(), 35) == 1116,
        offset_of(xhc_layout(), 36) == 1120,
        offset_of(xhc_layout(), 37) == 1124,
        offset_of(xhc_layout(), 38) == 1128,
        offset_of(xhc_layout(), 39) == 1132,
        offset_of(xhc_layout(), 40) == 1136,
        offset_of(xhc_layout(), 41) == 1140,
        offset_of(xhc_layout(), 42) == 1144,
        offset_of(xhc_layout(), 43) == 1148,
        offset_of(xhc_layout(), 44) == 1152,
        offset_of(xhc_layout(), 45) == 1156,
        offset_of(xhc_layout(), 46) == 1160,
        offset_of(xhc_layout(), 47) == 1164,
        offset_of(xhc_layout(), 48) == 1168,
        offset_of(xhc_layout(), 49) == 1172,
        offset_of(xhc_layout(), 50) == 1176,
        offset_of(xhc_layout(), 51) == 1180,
{
    reveal_with_fuel(ports_layout, 9);
    let l = xhc_layout();
    assert(l.len() == 52);
    assert forall|k: int| 20 <= k < 52 implies (#[trigger] l[k]).0 matches Registers::Op(
        OperationalRegisters::Port(_, _),
    ) by {
        let ports = ports_layout(8);
        assert(ports.len() == 32);
        assert(l[k] == ports[k - 20]);
    }
    assert(offset_of(l, 0) == 0);
    assert(offset_of(l, 1) == 1);
    assert(offset_of(l, 2) == 2);
    assert(offset_of(l, 3) == 4);
    assert(offset_of(l, 4) == 8);
    assert(offset_of(l, 5) == 12);
    assert(offset_of(l, 6) == 16);
    assert(offset_of(l, 7) == 20);
    assert(offset_of(l, 8) == 24);
    assert(offset_of(l, 9) == 28);
    assert(offset_of(l, 10) == 32);
    assert(offset_of(l, 11) == 36);
    assert(offset_of(l, 12) == 40);
    assert(offset_of(l, 13) == 44);
    assert(offset_of(l, 14) == 52);
    assert(offset_of(l, 15) == 56);
    assert(offset_of(l, 16) == 64);
    assert(offset_of(l, 17) == 80);
    assert(offset_of(l, 18) == 88);
    assert(offset_of(l, 19) == 92);
    assert(offset_of(l, 20) == 1056);
    assert(offset_of(l, 21) == 1060);
    assert(offset_of(l, 22) == 1064);
    assert(offset_of(l, 23) == 1068);
    assert(offset_of(l, 24) == 1072);
    assert(offset_of(l, 25) == 1076);
    assert(offset_of(l, 26) == 1080);
    assert(offset_of(l, 27) == 1084);
    assert(offset_of(l, 28) == 1088);
    assert(offset_of(l, 29) == 1092);
    assert(offset_of(l, 30) == 1096);
    assert(offset_of(l, 31) == 1100);
    assert(offset_of(l, 32) == 1104);
    assert(offset_of(l, 33) == 1108);
    assert(offset_of(l, 34) == 1112);
    assert(offset_of(l, 35) == 1116);
    assert(offset_of(l, 36) == 1120);
    assert(offset_of(l, 37) == 1124);
    assert(offset_of(l, 38) == 1128);
    assert(offset_of(l, 39) == 1132);
    assert(offset_of(l, 40) == 1136);
    assert(offset_of(l, 41) == 1140);
    assert(offset_of(l, 42) == 1144);
    assert(offset_of(l, 43) == 1148);
    assert(offset_of(l, 44) == 1152);
    assert(offset_of(l, 45) == 1156);
    assert(offset_of(l, 46) == 1160);
    assert(offset_of(l, 47) == 1164);
    assert(offset_of(l, 48) == 1168);
    assert(offset_of(l, 49) == 1172);
    assert(offset_of(l, 50) == 1176);
    assert(offset_of(l, 51) == 1180);
}

/// The lowest bytes of zero are zero.
proof fn lemma_le_byte_zero()
    ensures
        forall|i: nat| #[trigger] le_byte(0, i) == 0,
{
    assert forall|i: nat| #[trigger] le_byte(0, i) == 0 by {
        if i < 8 {
            let sh = (8 * i) as u64;
            assert((0u64 >> sh) & 0xff == 0) by (bit_vector);
        }
    }
}

/// A run of bytes whose front is known grows by the piece that follows.
proof fn lemma_extend(image: Seq<u8>, done: Seq<u8>, piece: Seq<u8>)
    requires
        done.len() + piece.len() <= image.len(),
        image.take(done.len() as int) == done,
        forall|i: int| 0 <= i < piece.len() ==> image[done.len() + i] == #[trigger] piece[i],
    ensures
        image.take((done.len() + piece.len()) as int) == done + piece,
{
    assert(image.take((done.len() + piece.len()) as int) =~= done + piece);
}

impl<'a> PciXhci<'a> {
    /// What the map of the USB-specific configuration registers shows is
    /// their image.
    proof fn lemma_usb_cfg_image(&self)
        requires
            self.wf(),
        ensures
            self.usb_cfg_map_image() == self.usb_cfg_image(),
    {
        let map = self.maps().cfg;
        let content = |id: UsbPciCfgReg, i: int| le_byte(usb_cfg_value(id), i as nat);
        reveal_with_fuel(offset_of, 4);
        let entries = map.entries();
        assert(entries.len() == 3);
        assert(entries[0].start == 0 && entries[1].start == 1 && entries[2].start == 2);
        map.lemma_image_at(content, 0, 0);
        map.lemma_image_at(content, 1, 0);
        map.lemma_image_at(content, 2, 0);
        assert(le_byte(SBRN as u64, 0) == SBRN && le_byte(FLADJ as u64, 0) == FLADJ && le_byte(0, 0)
            == 0) by {
            assert((0x30u64 >> 0u64) & 0xff == 0x30 && (0x40u64 >> 0u64) & 0xff == 0x40 && (0u64
                >> 0u64) & 0xff == 0) by (bit_vector);
        }
        assert(self.usb_cfg_map_image() =~= seq![SBRN, FLADJ, 0u8]);
    }

    /// The bytes of register `k` stand in the image where the register lies.
    proof fn lemma_reg_bytes(&self, k: int)
        requires
            self.wf(),
            0 <= k < self.maps().xhc.map.entries().len(),
        ensures
            forall|a: int|
                self.maps().xhc.map.entries()[k].start <= a < self.maps().xhc.map.entries()[k].end()
                    ==> #[trigger] self.reg_map_image()[a] == le_byte(
                    reg_value(self.usb_cmd(), self.maps().xhc.map.entries()[k].id),
                    (a - self.maps().xhc.map.entries()[k].start) as nat,
                ),
    {
        let map = self.maps().xhc.map;
        let e = map.entries()[k];
        let content = |id: Registers, i: int| le_byte(reg_value(self.usb_cmd(), id), i as nat);
        assert forall|a: int| e.start <= a < e.end() implies #[trigger] self.reg_map_image()[a]
            == le_byte(reg_value(self.usb_cmd(), e.id), (a - e.start) as nat) by {
            map.lemma_image_at(content, k, a - e.start);
        }
    }

    /// The operational registers behind the USB Command register read as zero.
    proof fn lemma_reg_zero_op(&self)
        requires
            self.wf(),
        ensures
            forall|a: int| 36 <= a < 1056 ==> #[trigger] self.reg_map_image()[a] == 0,
    {
        lemma_xhc_starts();
        lemma_le_byte_zero();
        let image = self.reg_map_image();
        assert(self.maps().xhc.map.entries().len() == 52);
        assert forall|a: int| 36 <= a < 40 implies #[trigger] image[a] == 0 by {
            self.lemma_reg_bytes(11);
        }
        assert forall|a: int| 40 <= a < 44 implies #[trigger] image[a] == 0 by {
            self.lemma_reg_bytes(12);
        }
        assert forall|a: int| 44 <= a < 52 implies #[trigger] image[a] == 0 by {
            self.lemma_reg_bytes(13);
        }
        assert forall|a: int| 52 <= a < 56 implies #[trigger] image[a] == 0 by {
            self.lemma_reg_bytes(14);
        }
        assert forall|a: int| 56 <= a < 64 implies #[trigger] image[a] == 0 by {
            self.lemma_reg_bytes(15);
        }
        assert forall|a: int| 64 <= a < 80 implies #[trigger] image[a] == 0 by {
            self.lemma_reg_bytes(16);
        }
        assert forall|a: int| 80 <= a < 88 implies #[trigger] image[a] == 0 by {
            self.lemma_reg_bytes(17);
        }
        assert forall|a: int| 88 <= a < 92 implies #[trigger] image[a] == 0 by {
            self.lemma_reg_bytes(18);
        }
        assert forall|a: int| 92 <= a < 1056 implies #[trigger] image[a] == 0 by {
            self.lemma_reg_bytes(19);
        }
    }

    /// The registers of the first four ports read as zero.
    proof fn lemma_reg_zero_ports_low(&self)
        requires
            self.wf(),
        ensures
            forall|a: int| 1056 <= a < 1120 ==> #[trigger] self.reg_map_image()[a] == 0,
    {
        lemma_xhc_starts();
        lemma_le_byte_zero();
        let image = self.reg_map_image();
        assert(self.maps().xhc.map.entries().len() == 52);
        assert forall|a: int| 1056 <= a < 1060 implies #[trigger] image[a] == 0 by {
            self.lemma_reg_bytes(20);
        }
        assert forall|a: int| 1060 <= a < 1064 implies #[trigger] image[a] == 0 by {
            self.lemma_reg_bytes(21);
        }
        assert forall|a: int| 1064 <= a < 1068 implies #[trigger] image[a] == 0 by {
            self.lemma_reg_bytes(22);
        }
        assert forall|a: int| 1068 <= a < 1072 implies #[trigger] image[a] == 0 by {
            self.lemma_reg_bytes(23);
        }
        assert forall|a: int| 1072 <= a < 1076 implies #[trigger] image[a] == 0 by {
            self.lemma_reg_bytes(24);
        }
        assert forall|a: int| 1076 <= a < 1080 implies #[trigger] image[a] == 0 by {
            self.lemma_reg_bytes(25);
        }
        assert forall|a: int| 1080 <= a < 1084 implies #[trigger] image[a] == 0 by {
            self.lemma_reg_bytes(26);
        }
        assert forall|a: int| 1084 <= a < 1088 implies #[trigger] image[a] == 0 by {
            self.lemma_reg_bytes(27);
        }
        assert forall|a: int| 1088 <= a < 1092 implies #[trigger] image[a] == 0 by {
            self.lemma_reg_bytes(28);
        }
        assert forall|a: int| 1092 <= a < 1096 implies #[trigger] image[a] == 0 by {
            self.lemma_reg_bytes(29);
        }
        assert forall|a: int| 1096 <= a < 1100 implies #[trigger] image[a] == 0 by {
            self.lemma_reg_bytes(30);
        }
        assert forall|a: int| 1100 <= a < 1104 implies #[trigger] image[a] == 0 by {
            self.lemma_reg_bytes(31);
        }
        assert forall|a: int| 1104 <= a < 1108 implies #[trigger] image[a] == 0 by {
            self.lemma_reg_bytes(32);
        }
        assert forall|a: int| 1108 <= a < 1112 implies #[trigger] image[a] == 0 by {
            self.lemma_reg_bytes(33);
        }
        assert forall|a: int| 1112 <= a < 1116 implies #[trigger] image[a] == 0 by {
            self.lemma_reg_bytes(34);
        }
        assert forall|a: int| 1116 <= a < 1120 implies #[trigger] image[a] == 0 by {
            self.lemma_reg_bytes(35);
        }
    }

    /// The registers of the last four ports read as zero.
    proof fn lemma_reg_zero_ports_high(&self)
        requires
            self.wf(),
        ensures
            forall|a: int| 1120 <= a < 1184 ==> #[trigger] self.reg_map_image()[a] == 0,
    {
        lemma_xhc_starts();
        lemma_le_byte_zero();
        let image = self.reg_map_image();
        assert(self.maps().xhc.map.entries().len() == 52);
        assert forall|a: int| 1120 <= a < 1124 implies #[trigger] image[a] == 0 by {
            self.lemma_reg_bytes(36);
        }
        assert forall|a: int| 1124 <= a < 1128 implies #[trigger] image[a] == 0 by {
            self.lemma_reg_bytes(37);
        }
        assert forall|a: int| 1128 <= a < 1132 implies #[trigger] image[a] == 0 by {
            self.lemma_reg_bytes(38);
        }
        assert forall|a: int| 1132 <= a < 1136 implies #[trigger] image[a] == 0 by {
            self.lemma_reg_bytes(39);
        }
        assert forall|a: int| 1136 <= a < 1140 implies #[trigger] image[a] == 0 by {
            self.lemma_reg_bytes(40);
        }
        assert forall|a: int| 1140 <= a < 1144 implies #[trigger] image[a] == 0 by {
            self.lemma_reg_bytes(41);
        }
        assert forall|a: int| 1144 <= a < 1148 implies #[trigger] image[a] == 0 by {
            self.lemma_reg_bytes(42);
        }
        assert forall|a: int| 1148 <= a < 1152 implies #[trigger] image[a] == 0 by {
            self.lemma_reg_bytes(43);
        }
        assert forall|a: int| 1152 <= a < 1156 implies #[trigger] image[a] == 0 by {
            self.lemma_reg_bytes(44);
        }
        assert forall|a: int| 1156 <= a < 1160 implies #[trigger] image[a] == 0 by {
            self.lemma_reg_bytes(45);
        }
        assert forall|a: int| 1160 <= a < 1164 implies #[trigger] image[a] == 0 by {
            self.lemma_reg_bytes(46);
        }
        assert forall|a: int| 1164 <= a < 1168 implies #[trigger] image[a] == 0 by {
            self.lemma_reg_bytes(47);
        }
        assert forall|a: int| 1168 <= a < 1172 implies #[trigger] image[a] == 0 by {
            self.lemma_reg_bytes(48);
        }
        assert forall|a: int| 1172 <= a < 1176 implies #[trigger] image[a] == 0 by {
            self.lemma_reg_bytes(49);
        }
        assert forall|a: int| 1176 <= a < 1180 implies #[trigger] image[a] == 0 by {
            self.lemma_reg_bytes(50);
        }
        assert forall|a: int| 1180 <= a < 1184 implies #[trigger] image[a] == 0 by {
            self.lemma_reg_bytes(51);
        }
    }

    /// The registers of the ports read as zero.
    proof fn lemma_reg_zero_ports(&self)
        requires
            self.wf(),
        ensures
            forall|a: int| 1056 <= a < 1184 ==> #[trigger] self.reg_map_image()[a] == 0,
    {
        self.lemma_reg_zero_ports_low();
        self.lemma_reg_zero_ports_high();
    }

    /// What the map of the memory-mapped registers shows is their image.
    proof fn lemma_reg_image(&self)
        requires
            self.wf(),
        ensures
            self.reg_map_image() == self.reg_image(),
    {
        lemma_xhc_starts();
        lemma_le_byte_zero();
        let image = self.reg_map_image();
        let cmd = self.usb_cmd();
        assert(self.maps().xhc.map.entries().len() == 52);
        assert(image.len() == 1184);
        let run0 = Seq::<u8>::empty();
        assert(image.take(0) =~= run0);
        let seg0 = seq![0u8, 0u8];
        let run1 = run0 + seg0;
        assert(image.take(2) == run1) by {
            self.lemma_reg_bytes(0);
            self.lemma_reg_bytes(1);
            assert forall|i: int| 0 <= i < 2 implies image[0 + i] == #[trigger] seg0[i] by {}
            lemma_extend(image, run0, seg0);
        }
        let seg1 = le_bytes(HCIVERSION as u64, 2);
        let run2 = run1 + seg1;
        assert(image.take(4) == run2) by {
            self.lemma_reg_bytes(2);
            assert forall|i: int| 0 <= i < 2 implies image[2 + i] == #[trigger] seg1[i] by {}
            lemma_extend(image, run1, seg1);
        }
        let seg2 = le_bytes(HCSPARAMS1 as u64, 4);
        let run3 = run2 + seg2;
        assert(image.take(8) == run3) by {
            self.lemma_reg_bytes(3);
            assert forall|i: int| 0 <= i < 4 implies image[4 + i] == #[trigger] seg2[i] by {}
            lemma_extend(image, run2, seg2);
        }
        let seg3 = le_bytes(HCSPARAMS2 as u64, 4);
        let run4 = run3 + seg3;
        assert(image.take(12) == run4) by {
            self.lemma_reg_bytes(4);
            assert forall|i: int| 0 <= i < 4 implies image[8 + i] == #[trigger] seg3[i] by {}
            lemma_extend(image, run3, seg3);
        }
        let seg4 = Seq::new(4, |i: int| 0u8);
        let run5 = run4 + seg4;
        assert(image.take(16) == run5) by {
            self.lemma_reg_bytes(5);
            assert forall|i: int| 0 <= i < 4 implies image[12 + i] == #[trigger] seg4[i] by {}
            lemma_extend(image, run4, seg4);
        }
        let seg5 = le_bytes(HCCPARAMS1 as u64, 4);
        let run6 = run5 + seg5;
        assert(image.take(20) == run6) by {
            self.lemma_reg_bytes(6);
            assert forall|i: int| 0 <= i < 4 implies image[16 + i] == #[trigger] seg5[i] by {}
            lemma_extend(image, run5, seg5);
        }
        let seg6 = Seq::new(12, |i: int| 0u8);
        let run7 = run6 + seg6;
        assert(image.take(32) == run7) by {
            self.lemma_reg_bytes(7);
            self.lemma_reg_bytes(8);
            self.lemma_reg_bytes(9);
            assert forall|i: int| 0 <= i < 12 implies image[20 + i] == #[trigger] seg6[i] by {}
            lemma_extend(image, run6, seg6);
        }
        let seg7 = le_bytes(cmd as u64, 4);
        let run8 = run7 + seg7;
        assert(image.take(36) == run8) by {
            self.lemma_reg_bytes(10);
            assert forall|i: int| 0 <= i < 4 implies image[32 + i] == #[trigger] seg7[i] by {}
            lemma_extend(image, run7, seg7);
        }
        let seg8 = Seq::new(1148, |i: int| 0u8);
        let run9 = run8 + seg8;
        assert(image.take(1184) == run9) by {
            self.lemma_reg_zero_op();
            self.lemma_reg_zero_ports();
            assert forall|i: int| 0 <= i < 1148 implies image[36 + i] == #[trigger] seg8[i] by {
                let a = 36 + i;
                assert(image[a] == 0);
            }
            lemma_extend(image, run8, seg8);
        }
        assert(image.take(1184) =~= image);
        assert(run0 + seg0 =~= seg0);
    }
}

} // verus!
