use cdrom::{amsf_to_asec, bcd, lba_to_msf, sector_length};

fn decode_bcd(byte: u8) -> i64 {
    ((byte >> 4) as i64) * 10 + (byte & 0x0F) as i64
}

#[test]
fn bcd_packs_two_decimal_digits() {
    assert_eq!(bcd(0), 0x00);
    assert_eq!(bcd(1), 0x01);
    assert_eq!(bcd(9), 0x09);
    assert_eq!(bcd(10), 0x10);
    assert_eq!(bcd(59), 0x59);
    assert_eq!(bcd(74), 0x74);
    assert_eq!(bcd(99), 0x99);
}

#[test]
fn bcd_round_trips_every_two_digit_number() {
    for n in 0..=99i64 {
        let byte = bcd(n);
        assert_eq!(decode_bcd(byte), n);
        assert_eq!(bcd(decode_bcd(byte)), byte);
    }
}

#[test]
fn bcd_keeps_the_low_byte_outside_two_digits() {
    assert_eq!(bcd(100), 0xA0);
    assert_eq!(bcd(159), 0xF9);
    assert_eq!(bcd(160), 0x00);
    assert_eq!(bcd(255), 0x95);
    assert_eq!(bcd(-1), 0xFF);
    assert_eq!(bcd(-9), 0xF7);
    assert_eq!(bcd(-10), 0xF0);
    assert_eq!(bcd(-160), 0x00);
    for n in [-4501i64, -75, -11, 101, 4499, 1_000_000, i64::MAX, i64::MIN] {
        assert_eq!(bcd(n), (((n / 10) << 4) | (n % 10)) as u8);
    }
}

#[test]
fn lba_to_msf_splits_a_sector_number() {
    assert_eq!(lba_to_msf(0), (0, 0, 0));
    assert_eq!(lba_to_msf(74), (0, 0, 74));
    assert_eq!(lba_to_msf(75), (0, 1, 0));
    assert_eq!(lba_to_msf(150), (0, 2, 0));
    assert_eq!(lba_to_msf(4499), (0, 59, 74));
    assert_eq!(lba_to_msf(4500), (1, 0, 0));
    assert_eq!(lba_to_msf(4500 * 79 + 75 * 59 + 74), (79, 59, 74));
}

#[test]
fn lba_to_msf_rounds_toward_zero_below_zero() {
    assert_eq!(lba_to_msf(-1), (0, 0, -1));
    assert_eq!(lba_to_msf(-50), (0, 0, -50));
    assert_eq!(lba_to_msf(-75), (0, -1, 0));
    assert_eq!(lba_to_msf(-4501), (-1, 0, -1));
}

#[test]
fn frames_stay_below_75_and_seconds_below_60() {
    for lba in 0..10_000i64 {
        let (m, s, f) = lba_to_msf(lba);
        assert!(0 <= s && s < 60);
        assert!(0 <= f && f < 75);
        assert_eq!(amsf_to_asec(m, s, f), lba);
    }
}

#[test]
fn amsf_to_asec_names_the_sector() {
    assert_eq!(amsf_to_asec(0, 0, 0), 0);
    assert_eq!(amsf_to_asec(0, 2, 0), 150);
    assert_eq!(amsf_to_asec(3, 8, 70), 14170);
    assert_eq!(amsf_to_asec(255, 255, 255), 1_166_880);
}

#[test]
fn sector_length_counts_whole_sectors() {
    assert_eq!(sector_length(2352 * 150), 150);
    assert_eq!(sector_length(2352 * 150 + 2351), 150);
    assert_eq!(sector_length(2352), 1);
    assert_eq!(sector_length(2351), 0);
    assert_eq!(sector_length(0), 0);
    assert_eq!(sector_length(u64::MAX), 7_843_003_432_699_639);
}
