use regspace::bitfield::{get_field, get_flag, with_field, with_flag};
use regspace::xhci::bits::{
    DefaultBestEffortServiceLatencies, FrameLengthAdjustment, HcCapabilityParameters1,
    HcCapabilityParameters2, HcStructuralParameters1, HcStructuralParameters2,
    HcStructuralParameters3,
};

fn mask(width: u32) -> u64 {
    if width >= 64 {
        u64::MAX
    } else {
        (1u64 << width) - 1
    }
}

#[test]
fn get_field_shifts_and_masks() {
    assert_eq!(get_field(0xdead_beef, 8, 16), 0xbe);
    assert_eq!(get_field(0xdead_beef, 0, 32), 0xdead_beef);
    assert_eq!(get_field(u64::MAX, 0, 64), u64::MAX);
    assert_eq!(get_field(u64::MAX, 63, 64), 1);
    assert_eq!(get_field(0x8000_0000_0000_0000, 60, 64), 0x8);
}

#[test]
fn with_field_replaces_only_its_bits() {
    assert_eq!(with_field(0xffff_ffff, 8, 16, 0), 0xffff_00ff);
    assert_eq!(with_field(0, 8, 19, 1024), 1024 << 8);
    assert_eq!(with_field(0x1234_5678, 0, 64, 0x9abc), 0x9abc);
}

#[test]
fn field_round_trip_for_every_value_of_small_fields() {
    let raws = [0u64, u64::MAX, 0x0123_4567_89ab_cdef, 0xa5a5_5a5a_a5a5_5a5a];
    for &raw in raws.iter() {
        for lo in [0u32, 1, 7, 31, 58] {
            for width in 1u32..=6 {
                let hi = lo + width;
                for v in 0..=mask(width) {
                    let put = with_field(raw, lo, hi, v);
                    assert_eq!(get_field(put, lo, hi), v);
                    let outside = !(mask(width) << lo);
                    assert_eq!(put & outside, raw & outside);
                }
            }
        }
    }
}

#[test]
fn field_write_truncates_wide_values() {
    assert_eq!(get_field(with_field(0, 4, 8, 0x1f), 4, 8), 0xf);
    assert_eq!(with_field(0, 4, 8, 0x1f), 0xf0);
    assert_eq!(with_field(0xff00, 0, 3, 0xffff_ffff_ffff_ffff), 0xff07);
    for v in [0x100u64, 0xabc, u64::MAX] {
        assert_eq!(get_field(with_field(0x55aa, 3, 11, v), 3, 11), v & 0xff);
    }
}

#[test]
fn flags_set_and_clear_one_bit() {
    assert!(get_flag(0x40, 6));
    assert!(!get_flag(0x40, 5));
    assert_eq!(with_flag(0, 6, true), 0x40);
    assert_eq!(with_flag(0xff, 6, false), 0xbf);
    assert_eq!(with_flag(0, 63, true), 0x8000_0000_0000_0000);
}

#[test]
fn fladj_fields() {
    let v = FrameLengthAdjustment(0).with_nfc(true);
    assert_eq!(v.0, 0x40);
    assert!(v.nfc());
    assert_eq!(v.fladj(), 0);
    let v = v.with_fladj(0x3f);
    assert_eq!(v.0, 0x7f);
    assert_eq!(v.fladj(), 0x3f);
    assert_eq!(FrameLengthAdjustment(0).with_fladj(0xff).0, 0x3f);
    assert_eq!(FrameLengthAdjustment(0x80).with_fladj(0).0, 0x80);
}

#[test]
fn dbesl_fields() {
    let v = DefaultBestEffortServiceLatencies(0).with_dbesl(0x3).with_dbesld(0xa);
    assert_eq!(v.0, 0xa3);
    assert_eq!(v.dbesl(), 3);
    assert_eq!(v.dbesld(), 0xa);
}

#[test]
fn hcsparams1_fields() {
    let v = HcStructuralParameters1(0).with_max_slots(64).with_max_intrs(1024).with_max_ports(8);
    assert_eq!(v.0, 0x0804_0040);
    assert_eq!(v.max_slots(), 64);
    assert_eq!(v.max_intrs(), 1024);
    assert_eq!(v.max_ports(), 8);
    assert_eq!(HcStructuralParameters1(0).with_max_intrs(0xffff).0, 0x0007_ff00);
    assert_eq!(HcStructuralParameters1(0xffff_ffff).max_intrs(), 0x7ff);
}

#[test]
fn hcsparams2_fields() {
    let v = HcStructuralParameters2(0).with_ist_as_frame(true).with_iso_sched_threshold(0b111);
    assert_eq!(v.0, 0xf);
    assert!(v.ist_as_frame());
    assert_eq!(v.iso_sched_threshold(), 7);
    let v = HcStructuralParameters2(0).with_erst_max(0xf).with_scratchpad_restore(true);
    assert_eq!(v.0, 0x0400_00f0);
    assert_eq!(v.erst_max(), 15);
    assert!(v.scratchpad_restore());
}

#[test]
fn scratchpad_bufs_round_trip() {
    for raw in [0u32, 0xffff_ffff, 0x0400_00ff] {
        for max in 0u16..1024 {
            let v = HcStructuralParameters2(raw).with_max_scratchpad_bufs(max);
            assert_eq!(v.max_scratchpad_bufs(), max);
            assert_eq!(v.0 & 0x041f_ffff, raw & 0x041f_ffff);
        }
    }
}

#[test]
fn scratchpad_bufs_split_and_truncation() {
    let v = HcStructuralParameters2(0).with_max_scratchpad_bufs(0b10101_01010);
    assert_eq!(v.0, (0b01010 << 27) | (0b10101 << 21));
    assert_eq!(HcStructuralParameters2(0).with_max_scratchpad_bufs(0xffff).max_scratchpad_bufs(), 0x3ff);
    assert_eq!(HcStructuralParameters2(0).with_max_scratchpad_bufs(1024).max_scratchpad_bufs(), 0);
    assert_eq!(HcStructuralParameters2(0).max_scratchpad_bufs(), 0);
}

#[test]
fn hcsparams3_fields() {
    let v = HcStructuralParameters3(0).with_u1_dev_exit_latency(10).with_u2_dev_exit_latency(2047);
    assert_eq!(v.0, 0x07ff_000a);
    assert_eq!(v.u1_dev_exit_latency(), 10);
    assert_eq!(v.u2_dev_exit_latency(), 2047);
}

#[test]
fn hccparams1_fields() {
    let v = HcCapabilityParameters1(0).with_ac64(true).with_xecp(0);
    assert_eq!(v.0, 1);
    assert!(v.ac64());
    let v = HcCapabilityParameters1(0).with_cfc(true).with_max_primary_streams(0xf).with_xecp(0x1234);
    assert_eq!(v.0, 0x1234_f800);
    assert!(v.cfc());
    assert!(!v.sec());
    assert_eq!(v.max_primary_streams(), 15);
    assert_eq!(v.xecp(), 0x1234);
    let all = HcCapabilityParameters1(0)
        .with_ac64(true)
        .with_bnc(true)
        .with_csz(true)
        .with_ppc(true)
        .with_pind(true)
        .with_lhrc(true)
        .with_ltc(true)
        .with_nss(true)
        .with_pae(true)
        .with_spc(true)
        .with_sec(true)
        .with_cfc(true);
    assert_eq!(all.0, 0xfff);
}

#[test]
fn hccparams2_fields() {
    let v = HcCapabilityParameters2(0).with_u3c(true).with_vtc(true);
    assert_eq!(v.0, 0x201);
    assert!(v.u3c() && v.vtc() && !v.gsc());
    let all = HcCapabilityParameters2(0)
        .with_u3c(true)
        .with_cmc(true)
        .with_fsc(true)
        .with_ctc(true)
        .with_lec(true)
        .with_cic(true)
        .with_etc(true)
        .with_etc_tsc(true)
        .with_gsc(true)
        .with_vtc(true);
    assert_eq!(all.0, 0x3ff);
}

#[test]
fn setters_change_in_place() {
    let mut v = HcStructuralParameters1(0);
    v.set_max_slots(64);
    v.set_max_intrs(1024);
    v.set_max_ports(8);
    assert_eq!(v.0, 0x0804_0040);
    let mut f = FrameLengthAdjustment(0xff);
    f.set_nfc(false);
    assert_eq!(f.0, 0xbf);
}

#[test]
fn builders_leave_the_receiver_alone() {
    let v = HcStructuralParameters1(0x1111_1111);
    let w = v.with_max_slots(0xff);
    assert_eq!(v.0, 0x1111_1111);
    assert_eq!(w.0, 0x1111_11ff);
}
