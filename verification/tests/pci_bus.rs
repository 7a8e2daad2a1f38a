use regspace::pci::bits::{RegCmd, RegStatus, LEN_CFG, LEN_CFG_STD};
use regspace::pci::header::{cfg_regs, CfgReg, PciDev, PciHeader};
use regspace::pci::{
    cfg_addr_parse, read_inval, PciBDF, PciBus, PORT_PCI_CONFIG_ADDR, PORT_PCI_CONFIG_DATA,
};

fn bus_with_one_function() -> PciBus {
    let mut bus = PciBus::new();
    bus.register(PciBDF::new(0, 2, 2), PciDev::new(0x1de, 0x0001, 0x0c, 0x03));
    bus
}

fn latch(bus: &mut PciBus, addr: u32) {
    bus.pio_out(PORT_PCI_CONFIG_ADDR, 0, &addr.to_le_bytes());
}

fn read_addr(bus: &PciBus) -> u32 {
    let mut buf = [0u8; 4];
    bus.pio_in(PORT_PCI_CONFIG_ADDR, 0, &mut buf);
    u32::from_le_bytes(buf)
}

fn read_data(bus: &PciBus) -> [u8; 4] {
    let mut buf = [0u8; 4];
    bus.pio_in(PORT_PCI_CONFIG_DATA, 0, &mut buf);
    buf
}

#[test]
fn address_decode() {
    let (bdf, offset) = cfg_addr_parse(0x8000_1234).unwrap();
    assert_eq!(bdf.bus(), 0x00);
    assert_eq!(bdf.dev(), 2);
    assert_eq!(bdf.func(), 2);
    assert_eq!(offset, 0x34);
    assert!(bdf == PciBDF::new(0, 2, 2));

    let (bdf, offset) = cfg_addr_parse(0x80ab_7fff).unwrap();
    assert_eq!(bdf.bus(), 0xab);
    assert_eq!(bdf.dev(), 0xf);
    assert_eq!(bdf.func(), 7);
    assert_eq!(offset, 0xff);
}

#[test]
fn address_decode_disabled() {
    assert!(cfg_addr_parse(0x0000_1234).is_none());
    assert!(cfg_addr_parse(0x7fff_ffff).is_none());
    assert!(cfg_addr_parse(0).is_none());
}

#[test]
fn address_decode_keeps_four_bits_of_the_device_field() {
    // Bit 15 is the fifth bit of the device field of the address register.
    let (bdf, _) = cfg_addr_parse(0x8000_8000).unwrap();
    assert_eq!(bdf.dev(), 0);
    let (bdf, _) = cfg_addr_parse(0x8000_f800).unwrap();
    assert_eq!(bdf.dev(), 0xf);
    // Bits 24 to 30 belong to no field.
    let (bdf, offset) = cfg_addr_parse(0xff00_0000).unwrap();
    assert!(bdf == PciBDF::new(0, 0, 0));
    assert_eq!(offset, 0);
}

#[test]
fn read_inval_is_all_ones() {
    let mut buf = [0u8, 1, 2, 3, 4];
    read_inval(&mut buf);
    assert_eq!(buf, [0xff; 5]);
    let mut none: [u8; 0] = [];
    read_inval(&mut none);
}

#[test]
fn address_register_latches_and_reads_back() {
    let mut bus = PciBus::new();
    assert_eq!(read_addr(&bus), 0);
    latch(&mut bus, 0x8000_1234);
    assert_eq!(read_addr(&bus), 0x8000_1234);
    let mut buf = [0u8; 4];
    bus.pio_in(PORT_PCI_CONFIG_ADDR, 0, &mut buf);
    assert_eq!(buf, [0x34, 0x12, 0x00, 0x80]);
    latch(&mut bus, 0x1234_5678);
    assert_eq!(read_addr(&bus), 0x1234_5678);
}

#[test]
fn misaligned_address_write_is_dropped() {
    let mut bus = PciBus::new();
    latch(&mut bus, 0x8000_1234);
    bus.pio_out(PORT_PCI_CONFIG_ADDR, 0, &[0xaa]);
    assert_eq!(read_addr(&bus), 0x8000_1234);
    bus.pio_out(PORT_PCI_CONFIG_ADDR, 0, &[0xaa, 0xbb]);
    assert_eq!(read_addr(&bus), 0x8000_1234);
    bus.pio_out(PORT_PCI_CONFIG_ADDR, 1, &[0xaa, 0xbb, 0xcc, 0xdd]);
    assert_eq!(read_addr(&bus), 0x8000_1234);
    bus.pio_out(PORT_PCI_CONFIG_ADDR, 0, &[1, 2, 3, 4, 5, 6, 7, 8]);
    assert_eq!(read_addr(&bus), 0x8000_1234);
    bus.pio_out(PORT_PCI_CONFIG_ADDR, 0, &[]);
    assert_eq!(read_addr(&bus), 0x8000_1234);
}

#[test]
fn data_write_does_not_touch_the_address() {
    let mut bus = bus_with_one_function();
    latch(&mut bus, 0x8000_1200);
    bus.pio_out(PORT_PCI_CONFIG_DATA, 0, &[1, 2, 3, 4]);
    assert_eq!(read_addr(&bus), 0x8000_1200);
    assert_eq!(read_data(&bus), [0xde, 0x01, 0x01, 0x00]);
}

#[test]
fn misaligned_reads_are_all_ones() {
    let mut bus = bus_with_one_function();
    latch(&mut bus, 0x8000_1200);
    let mut two = [0u8; 2];
    bus.pio_in(PORT_PCI_CONFIG_DATA, 0, &mut two);
    assert_eq!(two, [0xff, 0xff]);
    let mut four = [0u8; 4];
    bus.pio_in(PORT_PCI_CONFIG_DATA, 2, &mut four);
    assert_eq!(four, [0xff; 4]);
    bus.pio_in(PORT_PCI_CONFIG_ADDR, 1, &mut four);
    assert_eq!(four, [0xff; 4]);
    let mut one = [0u8; 1];
    bus.pio_in(PORT_PCI_CONFIG_ADDR, 0, &mut one);
    assert_eq!(one, [0xff]);
}

#[test]
fn unmapped_function_reads_all_ones() {
    let mut bus = bus_with_one_function();
    // bus 0, device 3, function 0: nothing there
    latch(&mut bus, 0x8000_1800);
    assert_eq!(read_data(&bus), [0xff; 4]);
    // bus 1, device 2, function 2
    latch(&mut bus, 0x8001_1200);
    assert_eq!(read_data(&bus), [0xff; 4]);
    let mut empty = PciBus::new();
    latch(&mut empty, 0x8000_0000);
    assert_eq!(read_data(&empty), [0xff; 4]);
}

#[test]
fn disabled_address_reads_all_ones() {
    let mut bus = bus_with_one_function();
    latch(&mut bus, 0x0000_1200);
    assert_eq!(read_data(&bus), [0xff; 4]);
}

#[test]
fn mapped_function_reads_its_header() {
    let mut bus = bus_with_one_function();
    latch(&mut bus, 0x8000_1200);
    assert_eq!(read_data(&bus), [0xde, 0x01, 0x01, 0x00]);
    // revision, class, subclass, programming interface
    latch(&mut bus, 0x8000_1208);
    assert_eq!(read_data(&bus), [0x00, 0x0c, 0x03, 0x00]);
    // an access that is not aligned to a register runs across registers
    latch(&mut bus, 0x8000_1201);
    assert_eq!(read_data(&bus), [0x01, 0x01, 0x00, 0x00]);
    latch(&mut bus, 0x8000_1207);
    assert_eq!(read_data(&bus), [0x00, 0x00, 0x0c, 0x03]);
    // behind the header the space is reserved
    latch(&mut bus, 0x8000_1240);
    assert_eq!(read_data(&bus), [0; 4]);
    latch(&mut bus, 0x8000_12fc);
    assert_eq!(read_data(&bus), [0; 4]);
    // an access that runs past the end of the space reaches nothing
    latch(&mut bus, 0x8000_12fd);
    assert_eq!(read_data(&bus), [0xff; 4]);
}

#[test]
fn duplicate_registration_fails_and_keeps_the_first() {
    let mut bus = bus_with_one_function();
    let bdf = PciBDF::new(0, 2, 2);
    assert!(bus.is_registered(&bdf));
    let second = PciDev::new(0xbeef, 0xcafe, 1, 8);
    let back = bus.try_register(bdf, second);
    let back = back.expect_err("the address is taken");
    assert_eq!(back.get_header().vendor_id, 0xbeef);
    assert!(bus.is_registered(&bdf));
    latch(&mut bus, 0x8000_1200);
    assert_eq!(read_data(&bus), [0xde, 0x01, 0x01, 0x00]);
}

#[test]
fn registration_at_free_addresses() {
    let mut bus = PciBus::new();
    let a = PciBDF::new(0, 0, 0);
    let b = PciBDF::new(0, 0, 1);
    assert!(!bus.is_registered(&a));
    assert!(bus.try_register(a, PciDev::new(1, 2, 3, 4)).is_ok());
    assert!(bus.try_register(b, PciDev::new(5, 6, 7, 8)).is_ok());
    assert!(bus.is_registered(&a) && bus.is_registered(&b));
    assert!(!bus.is_registered(&PciBDF::new(1, 0, 0)));
    latch(&mut bus, 0x8000_0000);
    assert_eq!(read_data(&bus), [1, 0, 2, 0]);
    latch(&mut bus, 0x8000_0100);
    assert_eq!(read_data(&bus), [5, 0, 6, 0]);
}

#[test]
fn function_config_space() {
    let mut dev = PciDev::new(0x8086, 0x1237, 6, 0);
    let h = *dev.get_header();
    assert_eq!((h.vendor_id, h.device_id, h.class, h.subclass), (0x8086, 0x1237, 6, 0));
    assert_eq!(h.command, 0);
    assert_eq!(h.bars, [0; 6]);
    let mut all = [0u8; LEN_CFG];
    dev.cfg_read(0, &mut all);
    let mut want = [0u8; LEN_CFG];
    want[0] = 0x86;
    want[1] = 0x80;
    want[2] = 0x37;
    want[3] = 0x12;
    want[9] = 6;
    assert_eq!(all, want);
    let mut head = [0xaau8; LEN_CFG_STD];
    dev.cfg_read(0, &mut head);
    assert_eq!(&head[..], &want[..LEN_CFG_STD]);
    let mut past = [0u8; 2];
    dev.cfg_read(255, &mut past);
    assert_eq!(past, [0xff, 0xff]);
    let mut last = [0xaau8; 1];
    dev.cfg_read(255, &mut last);
    assert_eq!(last, [0]);
    let mut none: [u8; 0] = [];
    dev.cfg_read(10, &mut none);
    dev.cfg_write(0, &[0xff, 0xff, 0xff, 0xff]);
    assert_eq!(dev.get_header().vendor_id, 0x8086);
}

#[test]
fn config_space_layout() {
    let map = cfg_regs();
    assert_eq!(map.len(), LEN_CFG);
    assert_eq!(map.count(), 30);
    assert!(*map.reserved_id() == Some(CfgReg::Reserved));
    let at = |offset: usize| {
        let e = map.entry(map.find(offset));
        (e.id, e.start, e.len)
    };
    assert!(at(0) == (CfgReg::VendorId, 0, 2));
    assert!(at(3) == (CfgReg::DeviceId, 2, 2));
    assert!(at(0x09) == (CfgReg::Class, 9, 1));
    assert!(at(0x10) == (CfgReg::Bar(0), 0x10, 4));
    assert!(at(0x27) == (CfgReg::Bar(5), 0x24, 4));
    assert!(at(0x28) == (CfgReg::CardbusPtr, 0x28, 4));
    assert!(at(0x34) == (CfgReg::CapPtr, 0x34, 1));
    assert!(at(0x35) == (CfgReg::Reserved, 0x35, 3));
    assert!(at(0x38) == (CfgReg::Reserved, 0x38, 4));
    assert!(at(0x3c) == (CfgReg::IntrLine, 0x3c, 1));
    assert!(at(0x3f) == (CfgReg::MaxLatency, 0x3f, 1));
    assert!(at(0x40) == (CfgReg::Reserved, 0x40, 192));
    assert!(at(0xff) == (CfgReg::Reserved, 0x40, 192));
}

#[test]
fn command_register_flags() {
    let mut cmd = RegCmd::default();
    assert_eq!(cmd.bits(), 0x0400);
    assert!(cmd.contains(RegCmd::INTX_DIS));
    assert!(!cmd.contains(RegCmd::IO_EN));
    cmd.insert(RegCmd::IO_EN | RegCmd::BUSMSTR_EN);
    assert_eq!(cmd.bits(), 0x0405);
    cmd.remove(RegCmd::INTX_DIS);
    assert_eq!(cmd.bits(), 0x0005);
    cmd.insert(0xf000);
    assert_eq!(cmd.bits(), 0x0005);
    cmd.reset();
    assert!(cmd == RegCmd::default());
    assert_eq!(RegCmd::empty().bits(), 0);
    assert_eq!(RegCmd::from_bits_truncate(0xffff).bits(), 0x0407);
    assert_eq!(RegStatus::default().bits(), 0);
    assert_eq!(RegStatus::from_bits_truncate(0xffff).bits(), 0x0018);
    assert!(RegStatus::from_bits_truncate(0x10).contains(RegStatus::CAP_LIST));
}

#[test]
fn header_bytes_in_register_order() {
    let mut h = PciHeader::default();
    assert_eq!(h.as_bytes(), vec![0u8; LEN_CFG_STD]);
    h.vendor_id = 0x1de;
    h.device_id = 0x0001;
    h.command = 0x0400;
    h.status = 0x0010;
    h.revision_id = 1;
    h.class = 0x0c;
    h.subclass = 0x03;
    h.prog_if = 0x30;
    h.cache_line_size = 4;
    h.latency_timer = 5;
    h.header_type = 6;
    h.bist = 7;
    h.bars = [0x1000_0000, 0x2000_0001, 0x3000_0002, 0x4000_0003, 0x5000_0004, 0x6000_0005];
    h.cardbus_ptr = 0xa1a2_a3a4;
    h.sub_vendor_id = 0xb1b2;
    h.sub_device_id = 0xc1c2;
    h.expansion_rom_addr = 0xd1d2_d3d4;
    h.cap_ptr = 0x40;
    h.intr_line = 0x0b;
    h.intr_pin = 0x01;
    h.min_grant = 0x02;
    h.max_latency = 0x03;
    let want: Vec<u8> = vec![
        0xde, 0x01, 0x01, 0x00, 0x00, 0x04, 0x10, 0x00, // ids, command, status
        0x01, 0x0c, 0x03, 0x30, 0x04, 0x05, 0x06, 0x07, // revision .. bist
        0x00, 0x00, 0x00, 0x10, 0x01, 0x00, 0x00, 0x20, // bars
        0x02, 0x00, 0x00, 0x30, 0x03, 0x00, 0x00, 0x40, //
        0x04, 0x00, 0x00, 0x50, 0x05, 0x00, 0x00, 0x60, //
        0xa4, 0xa3, 0xa2, 0xa1, 0xb2, 0xb1, 0xc2, 0xc1, // cardbus, subsystem ids
        0xd4, 0xd3, 0xd2, 0xd1, 0x40, 0x00, 0x00, 0x00, // expansion rom, capabilities
        0x00, 0x00, 0x00, 0x00, 0x0b, 0x01, 0x02, 0x03, // reserved, interrupt, grant, latency
    ];
    assert_eq!(h.as_bytes(), want);
}

#[test]
fn config_space_shows_the_header_bytes() {
    let dev = PciDev::new(0xabcd, 0x1234, 2, 0);
    let head = dev.get_header().as_bytes();
    for offset in 0..=255u8 {
        for len in 0..6usize {
            let mut buf = vec![0x55u8; len];
            dev.cfg_read(offset, &mut buf);
            let end = offset as usize + len;
            let want: Vec<u8> = if end > LEN_CFG {
                vec![0xff; len]
            } else {
                (offset as usize..end).map(|a| if a < LEN_CFG_STD { head[a] } else { 0 }).collect()
            };
            assert_eq!(buf, want);
        }
    }
}

#[test]
fn function_address_range() {
    assert!(PciBDF::try_new(255, 15, 7).is_some());
    assert!(PciBDF::try_new(0, 16, 0).is_none());
    assert!(PciBDF::try_new(0, 0, 8).is_none());
    assert!(PciBDF::try_new(0, 0x1f, 0).is_none());
    let bdf = PciBDF::try_new(3, 4, 5).unwrap();
    assert_eq!((bdf.bus(), bdf.dev(), bdf.func()), (3, 4, 5));
    assert!(bdf == PciBDF::new(3, 4, 5));
    assert!(bdf != PciBDF::new(3, 4, 6));
}
