//! Sector arithmetic: minute/second/frame timecodes and binary-coded decimal.

use vstd::prelude::*;

verus! {

/// Bytes in one raw sector.
pub const SECTOR_SIZE: usize = 2352;

/// Bytes in one raw sector, as a file length.
pub const SECTOR_BYTES: u64 = 2352;

/// Sectors of lead-in that precede the first sector of an image.
pub const LEAD_IN_SECTORS: i64 = 150;

/// No file holds more sectors than this: a byte length below 2^64 divided by
/// the sector size stays under 2^53.
pub const MAX_FILE_SECTORS: i64 = 0x20_0000_0000_0000;

/// Quotient of `a` by a positive `b`, rounded toward zero.
pub open spec fn div_toward_zero(a: int, b: int) -> int {
    if a >= 0 {
        a / b
    } else {
        -((-a) / b)
    }
}

/// Remainder of `a` by a positive `b` that goes with `div_toward_zero`:
/// it has the sign of `a`.
pub open spec fn rem_toward_zero(a: int, b: int) -> int {
    if a >= 0 {
        a % b
    } else {
        -((-a) % b)
    }
}

/// Minutes of the timecode of sector `lba`: 4500 sectors make a minute.
pub open spec fn msf_min(lba: int) -> int {
    div_toward_zero(lba, 4500)
}

/// Seconds of the timecode of sector `lba`: 75 sectors make a second.
pub open spec fn msf_sec(lba: int) -> int {
    rem_toward_zero(div_toward_zero(lba, 75), 60)
}

/// Frames of the timecode of sector `lba`: the sectors left over after the
/// whole seconds.
pub open spec fn msf_frac(lba: int) -> int {
    rem_toward_zero(lba, 75)
}

/// The sector that a minute/second/frame triple names.
pub open spec fn asec_of(m: int, s: int, f: int) -> int {
    m * 4500 + s * 75 + f
}

/// The byte that packs the decimal digits of `n`, tens in the high nibble and
/// ones in the low nibble. This is the binary-coded decimal of every `n` from
/// 0 to 99. Above 99 the tens overflow the nibble and only their low four bits
/// stay. Of a negative `n` the byte is what two's-complement arithmetic leaves
/// of the tens and ones, both taken with the sign of `n`: the ones alone,
/// counted down from 256, unless they are zero.
pub open spec fn bcd_of(n: int) -> int {
    if n >= 0 {
        ((n / 10) % 16) * 16 + n % 10
    } else if (-n) % 10 != 0 {
        256 - (-n) % 10
    } else {
        ((16 - ((-n) / 10) % 16) % 16) * 16
    }
}

/// The number whose decimal digits are the two nibbles of `b`.
pub open spec fn bcd_decode(b: int) -> int {
    (b / 16) * 10 + b % 16
}

/// Splits a sector number into minutes, seconds and frames.
pub fn lba_to_msf(lba: i64) -> (msf: (i64, i64, i64))
    ensures
        msf.0 == msf_min(lba as int),
        msf.1 == msf_sec(lba as int),
        msf.2 == msf_frac(lba as int),
        lba >= 0 ==> 0 <= msf.0 && 0 <= msf.1 < 60 && 0 <= msf.2 < 75,
{
    (lba / 4500, (lba / 75) % 60, lba % 75)
}

/// The sector number of a minute/second/frame triple.
pub fn amsf_to_asec(m: i64, s: i64, f: i64) -> (sector: i64)
    requires
        i64::MIN <= asec_of(m as int, s as int, f as int) <= i64::MAX,
    ensures
        sector == asec_of(m as int, s as int, f as int),
{
    let wide: i128 = (m as i128) * 4500 + (s as i128) * 75 + (f as i128);
    wide as i64
}

/// Number of whole sectors in a file of `byte_len` bytes.
pub fn sector_length(byte_len: u64) -> (sectors: i64)
    ensures
        sectors == byte_len as int / SECTOR_BYTES as int,
        0 <= sectors < MAX_FILE_SECTORS,
{
    (byte_len / SECTOR_BYTES) as i64
}

/// Binary-coded decimal: the tens of `dec` in the high nibble, the ones in the
/// low nibble. Outside 0 to 99 the byte is what is left of that in eight bits.
pub fn bcd(dec: i64) -> (b: u8)
    ensures
        b == bcd_of(dec as int),
        0 <= dec <= 99 ==> b == (dec / 10) * 16 + dec % 10,
{
    let tens: i64 = dec / 10;
    let ones: i64 = dec % 10;
    assert(((tens << 4) | ones) as u8 == (if ones < 0 {
        256 + ones
    } else if tens >= 0 {
        (tens % 16) * 16 + ones
    } else {
        ((16 - (-tens) % 16) % 16) * 16 + ones
    })) by (bit_vector)
        requires
            -9 <= ones <= 9,
            tens < 0 ==> ones <= 0,
            tens > 0 ==> ones >= 0,
            -0x0CCC_CCCC_CCCC_CCCC <= tens <= 0x0CCC_CCCC_CCCC_CCCC,
    ;
    #[verifier::truncate]
    (((tens << 4) | ones) as u8)
}

/// Encoding a two-digit number and decoding it gives the number back, so
/// encoding the decoded byte gives the same byte again.
pub proof fn lemma_bcd_round_trip(n: int)
    requires
        0 <= n <= 99,
    ensures
        0 <= bcd_of(n) <= 0x99,
        bcd_decode(bcd_of(n)) == n,
        bcd_of(bcd_decode(bcd_of(n))) == bcd_of(n),
{
}

/// The timecode of a sector at or after the start of the disc has seconds
/// below 60 and frames below 75, and names that sector again.
pub proof fn lemma_msf_round_trip(lba: int)
    requires
        0 <= lba,
    ensures
        0 <= msf_min(lba),
        0 <= msf_sec(lba) < 60,
        0 <= msf_frac(lba) < 75,
        asec_of(msf_min(lba), msf_sec(lba), msf_frac(lba)) == lba,
{
}

} // verus!
