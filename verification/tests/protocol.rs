use maono::device::libc_o_nonblock;
use maono::protocol::{
    build, checksum, level_units, parse, query_step, QueryStep, BATTERY, GAIN, GET, LEVEL, MUTE, REPORT_LEN,
    SET,
};

#[test]
fn build_matches_the_documented_layout() {
    let f = build(SET, 0x207D, 1);
    assert_eq!(f.len(), REPORT_LEN);
    assert_eq!(&f[..9], &[0xC4, 0x0B, 0x00, 0x00, 0x03, 0x7D, 0x20, 0x01, 0x00]);
    // two's complement of 0xc4 + 0x0b + 3 + 0x7d + 0x20 + 1 = 0x170
    assert_eq!(f[9], 0x90);
    assert_eq!(f[10], 0xFE);
    assert!(f[11..].iter().all(|&b| b == 0));
}

#[test]
fn build_write_checksum_matches_vendor_formula() {
    // the vendor app computes -(0xd2 + id_hi + id_lo + val_hi + val_lo)
    let f = build(SET, 0x208E, 0);
    let expect = (0x1_0000u32 - (0xd2 + 0x20 + 0x8e)) & 0xFFFF;
    assert_eq!(u16::from_le_bytes([f[9], f[10]]) as u32, expect);
}

#[test]
fn built_frame_sums_to_zero() {
    for &(t, id, val) in &[(SET, 0x207Eu16, 12u16), (GET, 0xFFFF, 0xFFFF), (GET, 0, 0)] {
        let f = build(t, id, val);
        let sum: u32 = f[..9].iter().map(|&b| b as u32).sum::<u32>()
            + u16::from_le_bytes([f[9], f[10]]) as u32;
        assert_eq!(sum % 0x10000, 0);
    }
}

#[test]
fn parse_of_build_round_trips() {
    for &(t, id, val) in &[(SET, MUTE, 1u16), (GET, GAIN, 20), (SET, 0x1234, 0xBEEF), (GET, 0, 0)] {
        let f = build(t, id, val);
        assert_eq!(parse(&f), Some((t, vec![(id, val)])));
    }
}

#[test]
fn parse_ignores_bytes_past_the_frame() {
    let f = build(SET, LEVEL, 0x2020);
    let mut long = f.to_vec();
    long.extend_from_slice(&[0xAA; 100]);
    assert_eq!(parse(&long), parse(&f));
    assert_eq!(parse(&f[..11]), Some((SET, vec![(LEVEL, 0x2020)])));
}

#[test]
fn parse_rejects_short_or_foreign_frames() {
    assert_eq!(parse(&[]), None);
    assert_eq!(parse(&[0xC4, 0x07, 0, 0, 3, 0]), None);
    let mut f = build(SET, MUTE, 1);
    f[0] = 0xC5;
    assert_eq!(parse(&f), None);
}

#[test]
fn parse_rejects_bad_length() {
    let mut f = build(SET, MUTE, 1);
    f[1] = 6;
    assert_eq!(parse(&f), None);
    let g = build(SET, MUTE, 1);
    // declared length longer than the buffer
    assert_eq!(parse(&g[..10]), None);
}

#[test]
fn parse_rejects_bad_checksum() {
    let mut f = build(SET, MUTE, 1);
    f[9] ^= 1;
    assert_eq!(parse(&f), None);
}

#[test]
fn parse_rejects_partial_field() {
    // a body of 2 bytes is not a whole number of fields
    let mut f = [0u8; 11];
    f[..9].copy_from_slice(&[0xC4, 0x09, 0, 0, 3, 1, 2, 0, 0]);
    let sum: u32 = f[..7].iter().map(|&b| b as u32).sum();
    let ck = ((0x10000 - sum) & 0xFFFF) as u16;
    f[7] = ck as u8;
    f[8] = (ck >> 8) as u8;
    assert_eq!(parse(&f[..9]), None);
}

#[test]
fn parse_reads_several_fields_and_empty_bodies() {
    let mut f = vec![0xC4, 0x0F, 0, 0, 0x03, 0x44, 0x00, 0x20, 0x20, 0x7D, 0x20, 0x01, 0x00];
    let sum: u32 = f.iter().map(|&b| b as u32).sum();
    let ck = ((0x10000 - sum % 0x10000) % 0x10000) as u16;
    f.extend_from_slice(&ck.to_le_bytes());
    assert_eq!(parse(&f), Some((SET, vec![(LEVEL, 0x2020), (MUTE, 1)])));

    let mut e = vec![0xC4, 0x07, 0, 0, 0x04];
    let sum: u32 = e.iter().map(|&b| b as u32).sum();
    let ck = ((0x10000 - sum % 0x10000) % 0x10000) as u16;
    e.extend_from_slice(&ck.to_le_bytes());
    assert_eq!(parse(&e), Some((GET, vec![])));
}

#[test]
fn query_answers_only_from_get_reports() {
    assert_eq!(query_step(GAIN, &None), QueryStep::Wait);
    assert_eq!(query_step(GAIN, &Some((SET, vec![(GAIN, 5)]))), QueryStep::Again);
    assert_eq!(query_step(GAIN, &Some((GET, vec![(LEVEL, 9)]))), QueryStep::Again);
    assert_eq!(
        query_step(GAIN, &Some((GET, vec![(LEVEL, 9), (GAIN, 7), (GAIN, 8)]))),
        QueryStep::Answer(7)
    );
    assert_eq!(query_step(BATTERY, &Some((GET, vec![]))), QueryStep::Again);
}

#[test]
fn level_units_take_the_low_byte_capped() {
    assert_eq!(level_units(0x2020), 0x20);
    assert_eq!(level_units(0x003F), 63);
    assert_eq!(level_units(0x00FF), 63);
    assert_eq!(level_units(0xFF00), 0);
}

#[test]
fn checksum_is_twos_complement_of_sum() {
    assert_eq!(checksum(&[]), 0);
    assert_eq!(checksum(&[0xC4, 0x0B, 0x00, 0x00, 0x03]), 0xFF2E);
    assert_eq!(checksum(&[0x00, 0x00]), 0);
    assert_eq!(checksum(&[0x01]), 0xFFFF);
    // a sum past 16 bits wraps
    let many = vec![0xFFu8; 300];
    let sum: u32 = many.iter().map(|&b| b as u32).sum();
    assert_eq!(checksum(&many), (0x1_0000u32.wrapping_sub(sum) & 0xFFFF) as u16);
}

#[test]
fn open_flag_is_nonblocking() {
    assert_eq!(libc_o_nonblock(), 0o4000);
}
