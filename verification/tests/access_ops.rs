use regspace::common::{copy_bytes, u16_to_le, u32_to_le, RWOp, ReadOp, WriteOp};

#[test]
fn read_op_starts_blank() {
    let ro = ReadOp::new(7, 4);
    assert_eq!(ro.offset(), 7);
    assert_eq!(ro.len(), 4);
    assert_eq!(ro.avail(), 4);
    assert_eq!(ro.bytes(), &[0, 0, 0, 0]);
}

#[test]
fn read_op_values_are_little_endian() {
    let mut ro = ReadOp::new(0, 7);
    ro.write_u8(0x11);
    ro.write_u16(0x3322);
    ro.write_u32(0x7766_5544);
    assert_eq!(ro.avail(), 0);
    assert_eq!(ro.into_bytes(), vec![0x11, 0x22, 0x33, 0x44, 0x55, 0x66, 0x77]);
}

#[test]
fn read_op_fill_covers_the_rest() {
    let mut ro = ReadOp::new(0, 5);
    ro.write_u8(1);
    ro.fill(0xff);
    assert_eq!(ro.avail(), 0);
    assert_eq!(ro.bytes(), &[1, 0xff, 0xff, 0xff, 0xff]);
    let mut ro = ReadOp::new(0, 3);
    ro.fill(0);
    assert_eq!(ro.bytes(), &[0, 0, 0]);
}

#[test]
fn read_op_write_bytes_in_order() {
    let mut ro = ReadOp::new(0, 4);
    ro.write_bytes(&[9, 8]);
    ro.write_bytes(&[]);
    ro.write_bytes(&[7]);
    assert_eq!(ro.avail(), 1);
    assert_eq!(ro.bytes(), &[9, 8, 7, 0]);
}

#[test]
fn write_value_gives_the_window_of_the_register() {
    let mut ro = ReadOp::new(0, 4);
    ro.write_value(0x1234_5678);
    assert_eq!(ro.bytes(), &[0x78, 0x56, 0x34, 0x12]);
    let mut ro = ReadOp::new(1, 2);
    ro.write_value(0x1234_5678);
    assert_eq!(ro.bytes(), &[0x56, 0x34]);
    let mut ro = ReadOp::new(6, 4);
    ro.write_value(0x8877_6655_4433_2211);
    assert_eq!(ro.bytes(), &[0x77, 0x88, 0, 0]);
    let mut ro = ReadOp::new(900, 3);
    ro.write_value(u64::MAX);
    assert_eq!(ro.bytes(), &[0, 0, 0]);
    assert_eq!(ro.avail(), 0);
}

#[test]
fn le_helpers() {
    assert_eq!(u16_to_le(0x0120), [0x20, 0x01]);
    assert_eq!(u32_to_le(0x8000_1234), [0x34, 0x12, 0x00, 0x80]);
}

#[test]
fn write_op_values_are_little_endian() {
    let data = [0x11u8, 0x22, 0x33, 0x44, 0x55, 0x66, 0x77];
    let mut wo = WriteOp::from_buf(3, &data);
    assert_eq!(wo.offset(), 3);
    assert_eq!(wo.len(), 7);
    assert_eq!(wo.read_u8(), 0x11);
    assert_eq!(wo.read_u16(), 0x3322);
    assert_eq!(wo.avail(), 4);
    assert_eq!(wo.read_u32(), 0x7766_5544);
    assert_eq!(wo.avail(), 0);
}

#[test]
fn write_op_child_takes_its_stretch() {
    let data = [1u8, 2, 3, 4, 5];
    let mut wo = WriteOp::from_buf(0, &data);
    assert_eq!(wo.read_u8(), 1);
    let mut child = wo.take_child(9, 3);
    assert_eq!(child.offset(), 9);
    assert_eq!(child.len(), 3);
    assert_eq!(child.read_u8(), 2);
    assert_eq!(child.read_u16(), 0x0403);
    assert_eq!(wo.avail(), 1);
    assert_eq!(wo.read_u8(), 5);
}

#[test]
fn rwop_reports_direction_and_offset() {
    let mut ro = ReadOp::new(5, 1);
    let op = RWOp::Read(&mut ro);
    assert!(op.is_read());
    assert_eq!(op.offset(), 5);
    assert_eq!(op.len(), 1);
    let data = [0u8; 2];
    let mut wo = WriteOp::from_buf(6, &data);
    let op = RWOp::Write(&mut wo);
    assert!(!op.is_read());
    assert_eq!(op.offset(), 6);
    assert_eq!(op.len(), 2);
}

#[test]
fn copy_bytes_copies_all() {
    let mut dst = [0u8; 4];
    copy_bytes(&mut dst, &[4, 3, 2, 1]);
    assert_eq!(dst, [4, 3, 2, 1]);
    let mut none: [u8; 0] = [];
    copy_bytes(&mut none, &[]);
}
