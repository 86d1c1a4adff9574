//! Sidecar files that record the Q channel bytes read from a real disc at
//! the sectors where a copy protection scheme depends on them.

use std::collections::HashMap;
use vstd::prelude::*;
use vstd::std_specs::hash::*;
use crate::error::Cue2CCDError;
use crate::timecode::{amsf_to_asec, asec_of};

verus! {

/// A copy protection scheme that keeps information in the subchannel.
#[derive(Clone, Copy, Debug, PartialEq, Eq, Structural)]
pub enum DiscProtection {
    /// DiscGuard, either of its two schemes
    DiscGuard,
    /// DiscGuard with 600 altered sectors
    DiscGuardScheme1,
    /// DiscGuard with 76 altered sectors
    DiscGuardScheme2,
    /// Subchannel-error-based PC protection
    SecuROM,
    /// Subchannel-error-based PS1 protection
    LibCrypt,
}

/// The format of a sidecar file.
#[derive(Clone, Copy, Debug, PartialEq, Eq, Structural)]
pub enum SidecarFormat {
    /// Four bytes of magic, then records of a timecode, a filler byte and
    /// the first ten bytes of a Q channel
    Sbi,
    /// Records of a timecode and all twelve bytes of a Q channel
    Lsd,
}

/// Entries in the sidecar of a disc protected by the first DiscGuard scheme.
pub const DISCGUARD_SCHEME1_ENTRIES: usize = 600;

/// Entries in the sidecar of a disc protected by the second DiscGuard scheme.
pub const DISCGUARD_SCHEME2_ENTRIES: usize = 76;

impl SidecarFormat {
    /// Bytes in one record.
    pub open spec fn record_len(self) -> int {
        match self {
            SidecarFormat::Sbi => 14,
            SidecarFormat::Lsd => 15,
        }
    }

    /// Bytes of a record that come before the Q channel bytes.
    pub open spec fn lead_len(self) -> int {
        match self {
            SidecarFormat::Sbi => 4,
            SidecarFormat::Lsd => 3,
        }
    }

    /// Q channel bytes in one record.
    pub open spec fn payload_len(self) -> int {
        match self {
            SidecarFormat::Sbi => 10,
            SidecarFormat::Lsd => 12,
        }
    }

    /// Bytes of the file that come before the first record.
    pub open spec fn header_len(self) -> int {
        match self {
            SidecarFormat::Sbi => 4,
            SidecarFormat::Lsd => 0,
        }
    }
}

/// The byte at `pos`, or zero past the end of the data.
pub open spec fn byte_or_zero(data: Seq<u8>, pos: int) -> u8 {
    if 0 <= pos < data.len() {
        data[pos]
    } else {
        0
    }
}

/// Number of records in `len` bytes; bytes left over after the last whole
/// record make one more.
pub open spec fn record_count(len: int, record_len: int) -> int {
    (len + record_len - 1) / record_len
}

/// The sector that the record at `base` speaks of: its first three bytes are
/// minute, second and frame, as plain binary numbers.
pub open spec fn record_key(data: Seq<u8>, base: int) -> i64 {
    asec_of(
        byte_or_zero(data, base) as int,
        byte_or_zero(data, base + 1) as int,
        byte_or_zero(data, base + 2) as int,
    ) as i64
}

/// The Q channel bytes of the record at `base`.
pub open spec fn record_payload(data: Seq<u8>, base: int, format: SidecarFormat) -> Seq<u8> {
    Seq::new(
        format.payload_len() as nat,
        |j: int| byte_or_zero(data, base + format.lead_len() + j),
    )
}

/// The overrides that the first `n` records after the header hold. A later
/// record for a sector takes the place of an earlier one.
pub open spec fn records_map(data: Seq<u8>, format: SidecarFormat, n: int) -> Map<i64, Seq<u8>>
    decreases n,
{
    if n <= 0 {
        Map::empty()
    } else {
        let base = format.header_len() + (n - 1) * format.record_len();
        records_map(data, format, n - 1).insert(
            record_key(data, base),
            record_payload(data, base, format),
        )
    }
}

/// The overrides that the records of a sidecar hold.
pub open spec fn sidecar_map(data: Seq<u8>, format: SidecarFormat) -> Map<i64, Seq<u8>> {
    records_map(
        data,
        format,
        record_count(data.len() - format.header_len(), format.record_len()),
    )
}

/// Whether `data` starts with the four bytes of the SBI magic.
pub open spec fn has_sbi_magic(data: Seq<u8>) -> bool {
    &&& data.len() >= 4
    &&& data[0] == 0x53
    &&& data[1] == 0x42
    &&& data[2] == 0x49
    &&& data[3] == 0x00
}

/// What a map of overrides holds: for each sector that has an entry, the
/// bytes recorded for it.
pub open spec fn entries_of(overrides: HashMap<i64, Vec<u8>>) -> Map<i64, Seq<u8>> {
    Map::new(|k: i64| overrides@.contains_key(k), |k: i64| overrides@[k]@)
}

/// The scheme that a sidecar of `entries` entries gives away, if any.
pub open spec fn scheme_of_count(entries: int) -> Option<DiscProtection> {
    if entries == 76 {
        Some(DiscProtection::DiscGuardScheme2)
    } else if entries == 600 {
        Some(DiscProtection::DiscGuardScheme1)
    } else {
        None
    }
}

/// Whether a sidecar of `entries` entries can belong to a disc protected by
/// `requested`. The DiscGuard schemes are known by their entry counts; of the
/// other schemes no count is known, and none is refused.
pub open spec fn count_fits(requested: DiscProtection, entries: int) -> bool {
    match requested {
        DiscProtection::DiscGuard => entries == 76 || entries == 600,
        DiscProtection::DiscGuardScheme1 => entries == 600,
        DiscProtection::DiscGuardScheme2 => entries == 76,
        DiscProtection::SecuROM | DiscProtection::LibCrypt => true,
    }
}

/// The error that tells of a sidecar that does not fit the requested scheme.
pub open spec fn mismatch_error(format: SidecarFormat) -> Cue2CCDError {
    match format {
        SidecarFormat::Sbi => Cue2CCDError::InvalidProtectionSBIError,
        SidecarFormat::Lsd => Cue2CCDError::InvalidProtectionLSDError,
    }
}

/// The byte `offset` places after `base`, or zero past the end of the data.
fn byte_at(data: &Vec<u8>, base: usize, offset: usize) -> (byte: u8)
    requires
        base <= data@.len(),
    ensures
        byte == byte_or_zero(data@, base + offset),
{
    if offset < data.len() - base {
        data[base + offset]
    } else {
        0
    }
}

/// Reads the records of a sidecar into a map from sector to Q channel bytes.
/// `data` is the whole file; the records start after the header of `format`.
fn read_records(data: &Vec<u8>, format: SidecarFormat) -> (overrides: HashMap<i64, Vec<u8>>)
    requires
        data@.len() >= format.header_len(),
    ensures
        entries_of(overrides) == sidecar_map(data@, format),
{
    broadcast use group_hash_axioms;

    let (header, record_len, lead, payload_len): (usize, usize, usize, usize) = match format {
        SidecarFormat::Sbi => (4, 14, 4, 10),
        SidecarFormat::Lsd => (0, 15, 3, 12),
    };
    let body: usize = data.len() - header;
    let mut overrides: HashMap<i64, Vec<u8>> = HashMap::new();
    let ghost mut n: int = 0;
    let mut base: usize = header;
    while base < data.len()
        invariant
            header == format.header_len(),
            record_len == format.record_len(),
            lead == format.lead_len(),
            payload_len == format.payload_len(),
            header <= data@.len(),
            body == data@.len() - header,
            header <= base <= data@.len(),
            base < data@.len() ==> base == header + n * record_len,
            base == data@.len() ==> n == record_count(body as int, record_len as int),
            0 <= n,
            entries_of(overrides) == records_map(data@, format, n),
        decreases data@.len() - base,
    {
        let m: i64 = byte_at(data, base, 0) as i64;
        let s: i64 = byte_at(data, base, 1) as i64;
        let f: i64 = byte_at(data, base, 2) as i64;
        let key: i64 = amsf_to_asec(m, s, f);
        let mut q: Vec<u8> = Vec::new();
        let mut j: usize = 0;
        while j < payload_len
            invariant
                j <= payload_len,
                payload_len <= 12,
                lead <= 4,
                base < data@.len(),
                q@.len() == j,
                forall|t: int| 0 <= t < j ==> q@[t] == byte_or_zero(data@, base + lead + t),
            decreases payload_len - j,
        {
            q.push(byte_at(data, base, lead + j));
            j += 1;
        }
        assert(q@ =~= record_payload(data@, base as int, format));
        overrides.insert(key, q);
        proof {
            let count = record_count(body as int, record_len as int);
            assert((n + 1) * record_len == n * record_len + record_len) by (nonlinear_arith);
            if record_len >= data@.len() - base {
                assert(count == n + 1) by (nonlinear_arith)
                    requires
                        count == (body + record_len - 1) / (record_len as int),
                        n * record_len < body,
                        body <= (n + 1) * record_len,
                        record_len > 0,
                ;
            }
            n = n + 1;
        }
        base = if record_len <= data.len() - base {
            base + record_len
        } else {
            data.len()
        };
    }
    overrides
}

/// Reads a sidecar in the LSD format: records of fifteen bytes, each a
/// timecode of three bytes and the twelve bytes of the Q channel read at that
/// position. Bytes that an incomplete last record lacks count as zero.
pub fn generate_lsd_data(raw_lsd_data: Vec<u8>) -> (parsed: Result<
    HashMap<i64, Vec<u8>>,
    Cue2CCDError,
>)
    ensures
        parsed matches Ok(overrides) && entries_of(overrides) == sidecar_map(
            raw_lsd_data@,
            SidecarFormat::Lsd,
        ),
{
    Ok(read_records(&raw_lsd_data, SidecarFormat::Lsd))
}

/// Reads a sidecar in the SBI format: the magic `SBI\0`, then records of
/// fourteen bytes, each a timecode of three bytes, a filler byte and the
/// first ten bytes of the Q channel read at that position. A file without the
/// magic is refused. Bytes that an incomplete last record lacks count as zero.
pub fn generate_sbi_data(raw_sbi_data: Vec<u8>) -> (parsed: Result<
    HashMap<i64, Vec<u8>>,
    Cue2CCDError,
>)
    ensures
        match parsed {
            Ok(overrides) => {
                &&& has_sbi_magic(raw_sbi_data@)
                &&& entries_of(overrides) == sidecar_map(raw_sbi_data@, SidecarFormat::Sbi)
            },
            Err(e) => !has_sbi_magic(raw_sbi_data@) && e == Cue2CCDError::InvalidSBIError,
        },
{
    if raw_sbi_data.len() < 4 || raw_sbi_data[0] != 0x53 || raw_sbi_data[1] != 0x42
        || raw_sbi_data[2] != 0x49 || raw_sbi_data[3] != 0x00 {
        return Err(Cue2CCDError::InvalidSBIError);
    }
    Ok(read_records(&raw_sbi_data, SidecarFormat::Sbi))
}

/// The sidecar to read, given which of the two lie next to the cuesheet: an
/// LSD file goes before an SBI file, since it holds the checksums too.
pub fn choose_sidecar(lsd_present: bool, sbi_present: bool) -> (chosen: Option<SidecarFormat>)
    ensures
        chosen == (if lsd_present {
            Some(SidecarFormat::Lsd)
        } else if sbi_present {
            Some(SidecarFormat::Sbi)
        } else {
            None
        }),
{
    if lsd_present {
        Some(SidecarFormat::Lsd)
    } else if sbi_present {
        Some(SidecarFormat::Sbi)
    } else {
        None
    }
}

/// The scheme that the number of entries of a sidecar gives away: 76 entries
/// and 600 entries are the marks of the two DiscGuard schemes.
pub fn detect_protection(entries: usize) -> (detected: Option<DiscProtection>)
    ensures
        detected == scheme_of_count(entries as int),
{
    if entries == DISCGUARD_SCHEME2_ENTRIES {
        Some(DiscProtection::DiscGuardScheme2)
    } else if entries == DISCGUARD_SCHEME1_ENTRIES {
        Some(DiscProtection::DiscGuardScheme1)
    } else {
        None
    }
}

/// Holds the number of entries of a sidecar against the scheme that was
/// asked for. Where they fit, or no scheme was asked for, the result is the
/// scheme that the number gives away; where they do not, the error that goes
/// with the sidecar's format.
pub fn check_protection(
    requested: Option<DiscProtection>,
    entries: usize,
    format: SidecarFormat,
) -> (checked: Result<Option<DiscProtection>, Cue2CCDError>)
    ensures
        checked == (match requested {
            Some(scheme) if !count_fits(scheme, entries as int) => Err(mismatch_error(format)),
            _ => Ok(scheme_of_count(entries as int)),
        }),
{
    let fits: bool = match requested {
        None => true,
        Some(DiscProtection::DiscGuard) => entries == DISCGUARD_SCHEME2_ENTRIES || entries
            == DISCGUARD_SCHEME1_ENTRIES,
        Some(DiscProtection::DiscGuardScheme1) => entries == DISCGUARD_SCHEME1_ENTRIES,
        Some(DiscProtection::DiscGuardScheme2) => entries == DISCGUARD_SCHEME2_ENTRIES,
        Some(DiscProtection::SecuROM) => true,
        Some(DiscProtection::LibCrypt) => true,
    };
    if fits {
        Ok(detect_protection(entries))
    } else {
        match format {
            SidecarFormat::Sbi => Err(Cue2CCDError::InvalidProtectionSBIError),
            SidecarFormat::Lsd => Err(Cue2CCDError::InvalidProtectionLSDError),
        }
    }
}

} // verus!
