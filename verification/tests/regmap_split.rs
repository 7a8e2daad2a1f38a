use regspace::common::{RWOp, ReadOp, WriteOp};
use regspace::regmap::{Piece, RegHandler, RegMap};

#[derive(Copy, Clone, Debug, PartialEq, Eq)]
enum Reg {
    A,
    B,
    C,
}

/// Answers reads from a flat buffer laid out as A, B, C and keeps a log of
/// every callback.
struct Recorder {
    flat: Vec<u8>,
    calls: Vec<(Reg, usize, usize)>,
    written: Vec<(Reg, usize, Vec<u8>)>,
}

impl Recorder {
    fn new() -> Self {
        Recorder { flat: (0u8..12).map(|i| 0x10 + i).collect(), calls: Vec::new(), written: Vec::new() }
    }

    fn base(id: Reg) -> usize {
        match id {
            Reg::A => 0,
            Reg::B => 4,
            Reg::C => 8,
        }
    }
}

impl RegHandler<Reg> for Recorder {
    fn handle(&mut self, id: &Reg, rwo: RWOp<'_, '_>) {
        match rwo {
            RWOp::Read(ro) => {
                self.calls.push((*id, ro.offset(), ro.len()));
                let start = Self::base(*id) + ro.offset();
                let bytes: Vec<u8> = self.flat[start..start + ro.len()].to_vec();
                ro.write_bytes(&bytes);
            }
            RWOp::Write(wo) => {
                self.calls.push((*id, wo.offset(), wo.len()));
                let mut bytes = Vec::new();
                while wo.avail() > 0 {
                    bytes.push(wo.read_u8());
                }
                self.written.push((*id, wo.offset(), bytes));
            }
        }
    }
}

fn abc() -> RegMap<Reg> {
    let layout = [(Reg::A, 4usize), (Reg::B, 4usize), (Reg::C, 4usize)];
    assert!(RegMap::check_layout(12, &layout));
    RegMap::create_packed(12, &layout, None)
}

#[test]
fn split_read_across_three_registers() {
    let map = abc();
    let mut handler = Recorder::new();
    let mut ro = ReadOp::new(2, 8);
    map.process(RWOp::Read(&mut ro), &mut handler);
    assert_eq!(handler.calls, vec![(Reg::A, 2, 2), (Reg::B, 0, 4), (Reg::C, 0, 2)]);
    assert_eq!(ro.bytes(), &handler.flat[2..10]);
    assert_eq!(ro.avail(), 0);
}

#[test]
fn split_plan_matches_callbacks() {
    let map = abc();
    let parts = map.split(2, 8);
    let got: Vec<(Reg, usize, usize, usize)> =
        parts.iter().map(|p: &Piece<Reg>| (p.id, p.index, p.offset, p.len)).collect();
    assert_eq!(got, vec![(Reg::A, 0, 2, 2), (Reg::B, 1, 0, 4), (Reg::C, 2, 0, 2)]);
}

#[test]
fn access_within_one_register_is_one_callback() {
    let map = abc();
    let mut handler = Recorder::new();
    let mut ro = ReadOp::new(5, 2);
    map.process(RWOp::Read(&mut ro), &mut handler);
    assert_eq!(handler.calls, vec![(Reg::B, 1, 2)]);
    assert_eq!(ro.bytes(), &[0x15, 0x16]);
}

#[test]
fn split_write_hands_each_register_its_bytes() {
    let map = abc();
    let mut handler = Recorder::new();
    let data = [1u8, 2, 3, 4, 5, 6];
    let mut wo = WriteOp::from_buf(3, &data);
    map.process(RWOp::Write(&mut wo), &mut handler);
    assert_eq!(
        handler.written,
        vec![(Reg::A, 3, vec![1]), (Reg::B, 0, vec![2, 3, 4, 5]), (Reg::C, 0, vec![6])]
    );
    assert_eq!(wo.avail(), 0);
}

#[test]
fn empty_access_reaches_no_register() {
    let map = abc();
    let mut handler = Recorder::new();
    let mut ro = ReadOp::new(4, 0);
    map.process(RWOp::Read(&mut ro), &mut handler);
    assert!(handler.calls.is_empty());
    assert!(map.split(12, 0).is_empty());
}

#[test]
fn every_offset_lies_in_exactly_one_register() {
    let map = abc();
    for offset in 0..map.len() {
        let holders: Vec<usize> = (0..map.count())
            .filter(|&i| {
                let e = map.entry(i);
                e.start <= offset && offset < e.start + e.len
            })
            .collect();
        assert_eq!(holders, vec![map.find(offset)]);
    }
}

#[test]
fn layout_check_rejects_misfits() {
    let layout = [(Reg::A, 4usize), (Reg::B, 4usize)];
    assert!(RegMap::check_layout(8, &layout));
    assert!(!RegMap::check_layout(7, &layout));
    assert!(!RegMap::check_layout(9, &layout));
    assert!(!RegMap::check_layout(4, &[(Reg::A, 4usize), (Reg::B, 0usize)]));
    assert!(RegMap::<Reg>::check_layout(0, &[]));
}
