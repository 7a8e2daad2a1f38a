use regspace::common::{RWOp, ReadOp, WriteOp};
use regspace::uart::lpc::{
    LpcUart, Notify, PinAction, PortClaim, UartAccess, UartStatus, REGISTER_LEN,
};

fn status(intr: bool, readable: bool, writable: bool) -> UartStatus {
    UartStatus { intr, readable, writable }
}

#[test]
fn new_uart_discards() {
    let mut uart = LpcUart::new();
    assert!(uart.auto_discard());
    uart.set_autodiscard(false);
    assert!(!uart.auto_discard());
    uart.set_autodiscard(true);
    assert!(uart.auto_discard());
}

#[test]
fn attach_claims_eight_ports() {
    let uart = LpcUart::new();
    assert_eq!(REGISTER_LEN, 8);
    assert_eq!(uart.attach(0x3f8), PortClaim { port: 0x3f8, len: 8, ident: 0 });
    assert_eq!(uart.attach(0x2f8), PortClaim { port: 0x2f8, len: 8, ident: 0 });
}

#[test]
fn pin_follows_the_core() {
    let mut uart = LpcUart::new();
    assert_eq!(uart.sync_intr_pin(true), PinAction::Assert);
    assert_eq!(uart.sync_intr_pin(true), PinAction::Assert);
    assert_eq!(uart.sync_intr_pin(false), PinAction::Deassert);
    assert_eq!(uart.reset(false), PinAction::Deassert);
    assert_eq!(uart.reset(true), PinAction::Assert);
}

#[test]
fn access_decode() {
    let uart = LpcUart::new();
    let mut ro = ReadOp::new(5, 1);
    assert_eq!(uart.pio_rw(RWOp::Read(&mut ro)), UartAccess::Read { reg: 5 });
    assert_eq!(ro.avail(), 1);
    uart.pio_read_done(&mut ro, 0x60);
    assert_eq!(ro.bytes(), &[0x60]);
    let data = [0x41u8, 0x42];
    let mut wo = WriteOp::from_buf(0, &data);
    assert_eq!(uart.pio_rw(RWOp::Write(&mut wo)), UartAccess::Write { reg: 0, value: 0x41 });
    assert_eq!(wo.avail(), 1);
    let data = [0x03u8];
    let mut wo = WriteOp::from_buf(7, &data);
    assert_eq!(uart.pio_rw(RWOp::Write(&mut wo)), UartAccess::Write { reg: 7, value: 0x03 });
}

#[test]
fn notifications_on_rising_edges_only() {
    let mut uart = LpcUart::new();
    let (pin, notify) = uart.pio_done(status(false, false, false), status(true, true, true));
    assert_eq!(pin, PinAction::Assert);
    assert_eq!(notify, Notify { readable: true, writable: true });
    let (pin, notify) = uart.pio_done(status(true, true, true), status(false, true, true));
    assert_eq!(pin, PinAction::Deassert);
    assert_eq!(notify, Notify { readable: false, writable: false });
    let (_, notify) = uart.pio_done(status(false, true, false), status(false, false, true));
    assert_eq!(notify, Notify { readable: false, writable: true });
    let (_, notify) = uart.pio_done(status(false, false, true), status(false, true, false));
    assert_eq!(notify, Notify { readable: true, writable: false });
    let (_, notify) = uart.pio_done(status(false, false, false), status(false, false, false));
    assert_eq!(notify, Notify { readable: false, writable: false });
}
