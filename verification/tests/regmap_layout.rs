use regspace::regmap::{RegLayout, RegMap};

#[derive(Copy, Clone, Debug, PartialEq, Eq)]
enum Reg {
    Ctrl,
    Data(u8),
    Resv,
}

#[test]
fn layout_is_packed_from_offset_zero() {
    let layout = [(Reg::Ctrl, 2usize), (Reg::Resv, 6), (Reg::Data(0), 8), (Reg::Data(1), 8)];
    let map = RegMap::create_packed(24, &layout, Some(Reg::Resv));
    assert_eq!(map.len(), 24);
    assert_eq!(map.count(), 4);
    assert_eq!(*map.reserved_id(), Some(Reg::Resv));
    let got: Vec<(Reg, usize, usize)> =
        (0..4).map(|i| (map.entry(i).id, map.entry(i).start, map.entry(i).len)).collect();
    assert_eq!(
        got,
        vec![(Reg::Ctrl, 0, 2), (Reg::Resv, 2, 6), (Reg::Data(0), 8, 8), (Reg::Data(1), 16, 8)]
    );
}

#[test]
fn find_names_the_register_of_every_offset() {
    let layout = [(Reg::Ctrl, 2usize), (Reg::Resv, 6), (Reg::Data(0), 8), (Reg::Data(1), 8)];
    let map = RegMap::create_packed(24, &layout, Some(Reg::Resv));
    let want = [0usize, 0, 1, 1, 1, 1, 1, 1, 2, 2, 2, 2, 2, 2, 2, 2, 3, 3, 3, 3, 3, 3, 3, 3];
    for (offset, &index) in want.iter().enumerate() {
        assert_eq!(map.find(offset), index);
    }
}

#[test]
fn layout_built_register_by_register() {
    let mut layout: RegLayout<Reg> = RegLayout::new();
    assert_eq!(layout.total_len(), 0);
    layout.push(Reg::Ctrl, 4);
    for n in 0..3u8 {
        layout.push(Reg::Data(n), 2);
    }
    layout.push(Reg::Resv, 6);
    assert_eq!(layout.total_len(), 16);
    let map = layout.pack(Some(Reg::Resv));
    assert_eq!(map.len(), 16);
    assert_eq!(map.count(), 5);
    assert_eq!(map.entry(map.find(7)).id, Reg::Data(1));
    assert_eq!(map.entry(map.find(7)).start, 6);
    assert_eq!(map.entry(map.find(15)).id, Reg::Resv);
}

#[test]
fn empty_layout() {
    let map: RegMap<Reg> = RegLayout::new().pack(None);
    assert_eq!(map.len(), 0);
    assert_eq!(map.count(), 0);
    assert!(map.split(0, 0).is_empty());
}

#[test]
fn split_covers_the_access_in_address_order() {
    let layout = [(Reg::Ctrl, 1usize), (Reg::Resv, 3), (Reg::Data(0), 2), (Reg::Data(1), 5)];
    let map = RegMap::create_packed(11, &layout, Some(Reg::Resv));
    for offset in 0..=11usize {
        for len in 0..=(11 - offset) {
            let parts = map.split(offset, len);
            let mut at = offset;
            let mut last_index = None;
            for p in parts.iter() {
                let e = map.entry(p.index);
                assert!(p.id == e.id);
                assert!(p.len >= 1);
                assert!(p.offset + p.len <= e.len);
                assert_eq!(e.start + p.offset, at);
                assert!(last_index.map_or(true, |i| i < p.index));
                last_index = Some(p.index);
                at += p.len;
            }
            assert_eq!(at, offset + len);
        }
    }
}

#[test]
fn checked_construction() {
    let layout = [(Reg::Ctrl, 2usize), (Reg::Resv, 6)];
    let map = RegMap::try_create_packed(8, &layout, None).expect("the layout fits");
    assert_eq!(map.len(), 8);
    assert_eq!(map.count(), 2);
    assert!(RegMap::try_create_packed(9, &layout, None).is_none());
    assert!(RegMap::try_create_packed(7, &layout, None).is_none());
    assert!(RegMap::try_create_packed(2, &[(Reg::Ctrl, 2usize), (Reg::Resv, 0)], None).is_none());
}

#[test]
fn covers_accesses_within_the_space() {
    let map = RegMap::create_packed(8, &[(Reg::Ctrl, 2usize), (Reg::Resv, 6)], None);
    assert!(map.covers(0, 8));
    assert!(map.covers(8, 0));
    assert!(map.covers(3, 5));
    assert!(!map.covers(3, 6));
    assert!(!map.covers(9, 0));
    assert!(!map.covers(1, usize::MAX));
}
