use regspace::common::{RWOp, ReadOp, WriteOp};
use regspace::ids::{PROPOLIS_XHCI_DEV_ID, VENDOR_OXIDE};
use regspace::pci::bits::{RegCmd, CLASS_SERIAL_BUS, PROGIF_USB3, SUBCLASS_USB};
use regspace::pci::device::{BarN, Builder, CustomCfg, Ident, MsixCfg};
use regspace::xhci::bits::{USB_PCI_CFG_OFFSET, USB_PCI_CFG_REG_SZ, XHC_CAP_BASE_REG_SZ};
use regspace::xhci::controller::{PciXhci, XhciRegMaps};
use regspace::xhci::registers::{
    usb_pci_cfg_regs, xhc_regs, CapabilityRegisters, OperationalRegisters, PortRegisters,
    Registers, UsbPciCfgReg,
};

fn bar_read(dev: &mut PciXhci, offset: usize, len: usize) -> Vec<u8> {
    let mut ro = ReadOp::new(offset, len);
    dev.bar_rw(BarN::BAR0, RWOp::Read(&mut ro));
    assert_eq!(ro.avail(), 0);
    ro.into_bytes()
}

fn cfg_read(dev: &mut PciXhci, offset: usize, len: usize) -> Vec<u8> {
    let mut ro = ReadOp::new(offset, len);
    dev.cfg_rw(USB_PCI_CFG_OFFSET, RWOp::Read(&mut ro));
    assert_eq!(ro.avail(), 0);
    ro.into_bytes()
}

#[test]
fn usb_cfg_map_layout() {
    let map = usb_pci_cfg_regs();
    assert_eq!(map.len(), USB_PCI_CFG_REG_SZ as usize);
    assert_eq!(map.count(), 3);
    assert!(map.reserved_id().is_none());
    let ids: Vec<(UsbPciCfgReg, usize, usize)> =
        (0..3).map(|i| (map.entry(i).id, map.entry(i).start, map.entry(i).len)).collect();
    assert_eq!(
        ids,
        vec![
            (UsbPciCfgReg::SerialBusReleaseNumber, 0, 1),
            (UsbPciCfgReg::FrameLengthAdjustment, 1, 1),
            (UsbPciCfgReg::DefaultBestEffortServiceLatencies, 2, 1),
        ]
    );
}

#[test]
fn xhc_map_layout() {
    let regs = xhc_regs();
    assert_eq!(regs.cap_len, XHC_CAP_BASE_REG_SZ);
    assert_eq!(regs.cap_len, 0x20);
    assert_eq!(regs.op_len, 1152);
    assert_eq!(regs.map.len(), 1184);
    assert_eq!(regs.map.count(), 52);
    assert!(*regs.map.reserved_id() == Some(Registers::Reserved));
    let at = |offset: usize| {
        let e = regs.map.entry(regs.map.find(offset));
        (e.id, e.start, e.len)
    };
    assert_eq!(at(0), (Registers::Cap(CapabilityRegisters::CapabilityLength), 0, 1));
    assert_eq!(at(1), (Registers::Reserved, 1, 1));
    assert_eq!(at(3), (Registers::Cap(CapabilityRegisters::HciVersion), 2, 2));
    assert_eq!(at(4), (Registers::Cap(CapabilityRegisters::HcStructuralParameters1), 4, 4));
    assert_eq!(at(0x1c), (Registers::Cap(CapabilityRegisters::HcCapabilityParameters2), 0x1c, 4));
    assert_eq!(at(0x20), (Registers::Op(OperationalRegisters::UsbCommand), 0x20, 4));
    assert_eq!(at(0x2c), (Registers::Reserved, 0x2c, 8));
    assert_eq!(at(0x58), (Registers::Op(OperationalRegisters::Configure), 0x58, 4));
    assert_eq!(at(0x5c), (Registers::Reserved, 0x5c, 964));
    assert_eq!(at(0x41f), (Registers::Reserved, 0x5c, 964));
    assert_eq!(
        at(0x420),
        (Registers::Op(OperationalRegisters::Port(0, PortRegisters::PortStatusControl)), 0x420, 4)
    );
    assert_eq!(
        at(0x49f),
        (
            Registers::Op(OperationalRegisters::Port(7, PortRegisters::PortHardwareLpmControl)),
            0x49c,
            4
        )
    );
}

#[test]
fn create_declares_the_controller() {
    let maps = XhciRegMaps::new();
    let dev = PciXhci::create(&maps);
    assert_eq!(dev.entity_name(), "pci-xhci");
    let pci = dev.device_state();
    assert!(
        *pci.ident()
            == Ident {
                vendor_id: VENDOR_OXIDE,
                device_id: PROPOLIS_XHCI_DEV_ID,
                sub_vendor_id: VENDOR_OXIDE,
                sub_device_id: PROPOLIS_XHCI_DEV_ID,
                class: CLASS_SERIAL_BUS,
                subclass: SUBCLASS_USB,
                prog_if: PROGIF_USB3,
                revision_id: 0,
            }
    );
    assert!(pci.msix() == Some(MsixCfg { bar: BarN::BAR4, count: 1024 }));
    assert!(pci.custom_cfg() == Some(CustomCfg { offset: 0x60, len: 3 }));
    assert_eq!(pci.command().bits(), RegCmd::INTX_DIS);
}

#[test]
fn reset_restores_the_command_register() {
    let maps = XhciRegMaps::new();
    let mut dev = PciXhci::create(&maps);
    dev.reset();
    assert_eq!(dev.device_state().command().bits(), 0x0400);
    assert!(dev.device_state().msix() == Some(MsixCfg { bar: BarN::BAR4, count: 1024 }));
}

#[test]
fn builder_collects_declarations() {
    let state = Builder::new(Ident::default()).finish();
    assert!(state.msix().is_none() && state.custom_cfg().is_none());
    assert!(*state.ident() == Ident::default());
    let state = Builder::new(Ident { vendor_id: 7, ..Ident::default() })
        .add_custom_cfg(0x40, 8)
        .add_cap_msix(BarN::BAR1, 4)
        .finish();
    assert_eq!(state.ident().vendor_id, 7);
    assert!(state.msix() == Some(MsixCfg { bar: BarN::BAR1, count: 4 }));
    assert!(state.custom_cfg() == Some(CustomCfg { offset: 0x40, len: 8 }));
}

#[test]
fn usb_cfg_registers_read() {
    let maps = XhciRegMaps::new();
    let mut dev = PciXhci::create(&maps);
    assert_eq!(cfg_read(&mut dev, 0, 1), vec![0x30]);
    assert_eq!(cfg_read(&mut dev, 1, 1), vec![0x40]);
    assert_eq!(cfg_read(&mut dev, 2, 1), vec![0x00]);
    assert_eq!(cfg_read(&mut dev, 0, 3), vec![0x30, 0x40, 0x00]);
    assert_eq!(cfg_read(&mut dev, 1, 2), vec![0x40, 0x00]);
    assert_eq!(cfg_read(&mut dev, 3, 0), Vec::<u8>::new());
}

#[test]
fn usb_cfg_registers_ignore_writes() {
    let maps = XhciRegMaps::new();
    let mut dev = PciXhci::create(&maps);
    let data = [0xffu8, 0xff, 0xff];
    let mut wo = WriteOp::from_buf(0, &data);
    dev.cfg_rw(USB_PCI_CFG_OFFSET, RWOp::Write(&mut wo));
    assert_eq!(wo.avail(), 0);
    assert_eq!(cfg_read(&mut dev, 0, 3), vec![0x30, 0x40, 0x00]);
}

#[test]
fn capability_registers_read() {
    let maps = XhciRegMaps::new();
    let mut dev = PciXhci::create(&maps);
    assert_eq!(bar_read(&mut dev, 0, 1), vec![0]);
    assert_eq!(bar_read(&mut dev, 2, 2), vec![0x20, 0x01]);
    assert_eq!(bar_read(&mut dev, 4, 4), vec![0x40, 0x00, 0x04, 0x08]);
    assert_eq!(bar_read(&mut dev, 8, 4), vec![0x0f, 0, 0, 0]);
    assert_eq!(bar_read(&mut dev, 12, 4), vec![0, 0, 0, 0]);
    assert_eq!(bar_read(&mut dev, 16, 4), vec![1, 0, 0, 0]);
    assert_eq!(bar_read(&mut dev, 20, 4), vec![0, 0, 0, 0]);
    assert_eq!(bar_read(&mut dev, 24, 4), vec![0, 0, 0, 0]);
    assert_eq!(bar_read(&mut dev, 28, 4), vec![0, 0, 0, 0]);
}

#[test]
fn reads_across_registers_give_the_flat_image() {
    let maps = XhciRegMaps::new();
    let mut dev = PciXhci::create(&maps);
    let mut image = vec![0u8; 1184];
    image[2] = 0x20;
    image[3] = 0x01;
    image[4..8].copy_from_slice(&[0x40, 0x00, 0x04, 0x08]);
    image[8] = 0x0f;
    image[16] = 0x01;
    assert_eq!(bar_read(&mut dev, 0, 1184), image);
    assert_eq!(bar_read(&mut dev, 0, 8), image[0..8].to_vec());
    assert_eq!(bar_read(&mut dev, 3, 3), vec![0x01, 0x40, 0x00]);
    assert_eq!(bar_read(&mut dev, 5, 2), vec![0x00, 0x04]);
    assert_eq!(bar_read(&mut dev, 7, 10), image[7..17].to_vec());
    for offset in 0..40 {
        for len in 0..9 {
            assert_eq!(bar_read(&mut dev, offset, len), image[offset..offset + len].to_vec());
        }
    }
    assert_eq!(bar_read(&mut dev, 0x420, 16), vec![0; 16]);
    assert_eq!(bar_read(&mut dev, 1180, 4), vec![0; 4]);
}

#[test]
fn memory_registers_ignore_writes() {
    let maps = XhciRegMaps::new();
    let mut dev = PciXhci::create(&maps);
    let data = [0xffu8; 64];
    let mut wo = WriteOp::from_buf(0, &data);
    dev.bar_rw(BarN::BAR0, RWOp::Write(&mut wo));
    assert_eq!(wo.avail(), 0);
    assert_eq!(bar_read(&mut dev, 0x20, 4), vec![0; 4]);
    assert_eq!(bar_read(&mut dev, 4, 4), vec![0x40, 0x00, 0x04, 0x08]);
}

#[test]
fn register_handlers_answer_partial_accesses() {
    let maps = XhciRegMaps::new();
    let dev = PciXhci::create(&maps);
    let mut ro = ReadOp::new(1, 1);
    dev.reg_read(Registers::Cap(CapabilityRegisters::HciVersion), &mut ro);
    assert_eq!(ro.bytes(), &[0x01]);
    let mut ro = ReadOp::new(2, 2);
    dev.reg_read(Registers::Cap(CapabilityRegisters::HcStructuralParameters1), &mut ro);
    assert_eq!(ro.bytes(), &[0x04, 0x08]);
    let mut ro = ReadOp::new(100, 5);
    dev.reg_read(Registers::Reserved, &mut ro);
    assert_eq!(ro.bytes(), &[0; 5]);
    let mut ro = ReadOp::new(0, 4);
    dev.reg_read(Registers::Op(OperationalRegisters::UsbStatus), &mut ro);
    assert_eq!(ro.bytes(), &[0; 4]);
    let mut ro = ReadOp::new(0, 1);
    dev.usb_cfg_read(UsbPciCfgReg::FrameLengthAdjustment, &mut ro);
    assert_eq!(ro.bytes(), &[0x40]);
    let data = [1u8, 2];
    let mut wo = WriteOp::from_buf(0, &data);
    dev.reg_write(Registers::Op(OperationalRegisters::UsbCommand), &mut wo);
    dev.usb_cfg_write(UsbPciCfgReg::SerialBusReleaseNumber, &mut wo);
    assert_eq!(wo.avail(), 2);
}
