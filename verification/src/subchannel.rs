//! The 96 bytes of subchannel data that go with each sector: twelve of the
//! P channel, twelve of the Q channel, and 72 zero bytes for the channels
//! R to W.

use std::collections::HashMap;
use vstd::prelude::*;
use vstd::std_specs::hash::*;
use crate::geometry::TrackMode;
use crate::locator::Sector;
use crate::protection::entries_of;
use crate::timecode::{bcd, bcd_of, lba_to_msf, msf_frac, msf_min, msf_sec};

verus! {

/// Bytes of subchannel data per sector.
pub const SUBCHANNEL_SIZE: usize = 96;

/// The value that the checksum of a Q channel starts from.
pub const CRC16_INITIAL_CRC: u16 = 0xFFFF;

/// The 16-bit checksum that `cdrom_crc::crc16` computes over `data`, starting
/// from `initial_crc`.
pub uninterp spec fn crc16_checksum(data: Seq<u8>, initial_crc: u16) -> u16;

/// Calls `cdrom_crc::crc16`. That function reads nothing but its two
/// arguments and returns for every slice, the empty one too; its result is
/// what `crc16_checksum` stands for.
#[verifier::external_body]
fn crc16(data: &Vec<u8>, initial_crc: u16) -> (crc: u16)
    ensures
        crc == crc16_checksum(data@, initial_crc),
{
    cdrom_crc::crc16(data.as_slice(), initial_crc)
}

/// The distance of `n` from zero.
pub open spec fn magnitude(n: int) -> int {
    if n < 0 {
        -n
    } else {
        n
    }
}

/// First byte of a Q channel: the data flag in the control nibble unless the
/// track is audio, and Q mode 1 in the low nibble.
pub open spec fn control_mode_byte(mode: TrackMode) -> u8 {
    if mode is Audio {
        0x01
    } else {
        0x41
    }
}

/// The ten bytes of a Q channel that its checksum covers: control and mode,
/// track and index number, the timecode of the position within the track
/// taken without its sign, a zero byte, and the timecode of the position on
/// the disc. Numbers and timecode fields are binary-coded decimals.
pub open spec fn q_payload_bytes(
    absolute_sector: int,
    relative_sector: int,
    track: u8,
    index: u8,
    mode: TrackMode,
) -> Seq<u8> {
    let position = magnitude(relative_sector);
    seq![
        control_mode_byte(mode),
        bcd_of(track as int) as u8,
        bcd_of(index as int) as u8,
        bcd_of(msf_min(position)) as u8,
        bcd_of(msf_sec(position)) as u8,
        bcd_of(msf_frac(position)) as u8,
        0u8,
        bcd_of(msf_min(absolute_sector)) as u8,
        bcd_of(msf_sec(absolute_sector)) as u8,
        bcd_of(msf_frac(absolute_sector)) as u8,
    ]
}

/// A checksum as two bytes, the high one first.
pub open spec fn crc_bytes(crc: u16) -> Seq<u8> {
    seq![(crc / 256) as u8, (crc % 256) as u8]
}

/// The twelve bytes of a synthesized Q channel: the payload and its checksum.
pub open spec fn q_channel_bytes(
    absolute_sector: int,
    relative_sector: int,
    track: u8,
    index: u8,
    mode: TrackMode,
) -> Seq<u8> {
    let payload = q_payload_bytes(absolute_sector, relative_sector, track, index, mode);
    payload + crc_bytes(crc16_checksum(payload, CRC16_INITIAL_CRC))
}

/// `q` with its first bytes replaced by the bytes of `captured`.
pub open spec fn overlay(q: Seq<u8>, captured: Seq<u8>) -> Seq<u8> {
    Seq::new(
        q.len(),
        |i: int|
            if i < captured.len() {
                captured[i]
            } else {
                q[i]
            },
    )
}

/// The twelve bytes of the P channel: all ones in the first sector of the
/// image and in a pregap, all zeros elsewhere.
pub open spec fn p_channel_bytes(start: int, index: u8) -> Seq<u8> {
    Seq::new(
        12,
        |i: int|
            if start == 0 || index == 0 {
                0xFFu8
            } else {
                0u8
            },
    )
}

/// What the overrides handed to a function hold, if there are any.
pub open spec fn active_entries(overrides: Option<&HashMap<i64, Vec<u8>>>) -> Option<
    Map<i64, Seq<u8>>,
> {
    match overrides {
        Some(map) => Some(entries_of(*map)),
        None => None,
    }
}

/// The bytes recorded for `sector`, if overrides are active and have an entry
/// for the sector.
pub open spec fn captured_bytes(entries: Option<Map<i64, Seq<u8>>>, sector: int) -> Option<
    Seq<u8>,
> {
    match entries {
        Some(map) => if map.contains_key(sector as i64) {
            Some(map[sector as i64])
        } else {
            None
        },
        None => None,
    }
}

/// The subchannel data of one sector: P channel, Q channel with the captured
/// bytes laid over it where there are any, and 72 zero bytes.
pub open spec fn subchannel_bytes(
    start: int,
    absolute_sector: int,
    relative_sector: int,
    track: u8,
    index: u8,
    mode: TrackMode,
    captured: Option<Seq<u8>>,
) -> Seq<u8> {
    let q = q_channel_bytes(absolute_sector, relative_sector, track, index, mode);
    p_channel_bytes(start, index) + match captured {
        Some(bytes) => overlay(q, bytes),
        None => q,
    } + Seq::new(72, |i: int| 0u8)
}

/// The subchannel data of a sector is 96 bytes long, whatever the sector,
/// the mode of its track and the bytes captured for it.
pub proof fn lemma_subchannel_len(
    start: int,
    absolute_sector: int,
    relative_sector: int,
    track: u8,
    index: u8,
    mode: TrackMode,
    captured: Option<Seq<u8>>,
)
    ensures
        subchannel_bytes(
            start,
            absolute_sector,
            relative_sector,
            track,
            index,
            mode,
            captured,
        ).len() == 96,
{
}

/// In the subchannel data of a sector for which no bytes were captured, the
/// last two bytes of the Q channel are the checksum of its first ten.
pub proof fn lemma_synthesized_q_checksum(
    start: int,
    absolute_sector: int,
    relative_sector: int,
    track: u8,
    index: u8,
    mode: TrackMode,
)
    ensures
        ({
            let sub = subchannel_bytes(
                start,
                absolute_sector,
                relative_sector,
                track,
                index,
                mode,
                None,
            );
            sub.subrange(22, 24) == crc_bytes(
                crc16_checksum(sub.subrange(12, 22), CRC16_INITIAL_CRC),
            )
        }),
{
    let payload = q_payload_bytes(absolute_sector, relative_sector, track, index, mode);
    let sub = subchannel_bytes(start, absolute_sector, relative_sector, track, index, mode, None);
    assert(sub.subrange(12, 22) =~= payload);
}

/// `count` bytes, each of them `byte`.
fn filled(byte: u8, count: usize) -> (bytes: Vec<u8>)
    ensures
        bytes@ == Seq::new(count as nat, |i: int| byte),
{
    let mut bytes: Vec<u8> = Vec::new();
    let mut i: usize = 0;
    while i < count
        invariant
            i <= count,
            bytes@ == Seq::new(i as nat, |j: int| byte),
        decreases count - i,
    {
        bytes.push(byte);
        i += 1;
    }
    bytes
}

/// The ten bytes of a Q channel that its checksum covers.
pub fn q_payload(
    absolute_sector: i64,
    relative_sector: i64,
    track: u8,
    index: u8,
    track_type: TrackMode,
) -> (payload: Vec<u8>)
    ensures
        payload@ == q_payload_bytes(
            absolute_sector as int,
            relative_sector as int,
            track,
            index,
            track_type,
        ),
{
    let control: u8 = match track_type {
        TrackMode::Audio => 0x01,
        _ => 0x41,
    };
    // The pregap counts down to zero, so the timecode takes the distance
    // from the start of the track.
    let position: u64 = if relative_sector >= 0 {
        relative_sector as u64
    } else if relative_sector == i64::MIN {
        0x8000_0000_0000_0000
    } else {
        (-relative_sector) as u64
    };
    let mut payload: Vec<u8> = Vec::new();
    payload.push(control);
    payload.push(bcd(track as i64));
    payload.push(bcd(index as i64));
    payload.push(bcd((position / 4500) as i64));
    payload.push(bcd(((position / 75) % 60) as i64));
    payload.push(bcd((position % 75) as i64));
    payload.push(0);
    let absolute: (i64, i64, i64) = lba_to_msf(absolute_sector);
    payload.push(bcd(absolute.0));
    payload.push(bcd(absolute.1));
    payload.push(bcd(absolute.2));
    payload
}

/// A Q channel from its payload and the checksum of the payload: the payload
/// followed by the checksum, high byte first.
pub fn seal_q(payload: Vec<u8>, crc: u16) -> (q: Vec<u8>)
    ensures
        q@ == payload@ + crc_bytes(crc),
{
    let mut q: Vec<u8> = payload;
    assert(crc >> 8 == crc / 256) by (bit_vector);
    assert(crc & 0xFF == crc % 256) by (bit_vector);
    let high: u8 = (crc >> 8) as u8;
    let low: u8 = (crc & 0xFF) as u8;
    q.push(high);
    q.push(low);
    q
}

/// `q` with its first bytes replaced by the bytes of `captured`, as many of
/// them as `q` has room for.
pub fn apply_override(q: Vec<u8>, captured: &Vec<u8>) -> (patched: Vec<u8>)
    ensures
        patched@ == overlay(q@, captured@),
{
    let mut patched: Vec<u8> = q;
    let mut i: usize = 0;
    while i < patched.len() && i < captured.len()
        invariant
            patched@.len() == q@.len(),
            i <= patched@.len(),
            i <= captured@.len(),
            forall|j: int| 0 <= j < i ==> patched@[j] == captured@[j],
            forall|j: int| i <= j < q@.len() ==> patched@[j] == q@[j],
        decreases patched@.len() - i,
    {
        patched.set(i, captured[i]);
        i += 1;
    }
    patched
}

impl<'a> Sector<'a> {
    /// The subchannel data of this sector, each channel in one run of twelve
    /// bytes. Where `overrides` has an entry for the sector's position on the
    /// disc, the bytes of the entry replace the first bytes of the
    /// synthesized Q channel.
    pub fn generate_subchannel(&self, overrides: Option<&HashMap<i64, Vec<u8>>>) -> (out: Vec<u8>)
        ensures
            out@.len() == 96,
            out@ == subchannel_bytes(
                self.start as int,
                self.absolute_start as int,
                self.relative_position as int,
                self.track.number,
                self.index.number,
                self.track.mode,
                captured_bytes(active_entries(overrides), self.absolute_start as int),
            ),
    {
        broadcast use group_hash_axioms;

        let p: Vec<u8> = if self.start == 0 || self.index.number == 0 {
            filled(0xFF, 12)
        } else {
            filled(0, 12)
        };
        let synthesized: Vec<u8> = Sector::generate_q_subchannel(
            self.absolute_start,
            self.relative_position,
            self.track.number,
            self.index.number,
            self.track.mode,
        );
        let q: Vec<u8> = match overrides {
            Some(map) => match map.get(&self.absolute_start) {
                Some(captured) => apply_override(synthesized, captured),
                None => synthesized,
            },
            None => synthesized,
        };
        let rest: Vec<u8> = filled(0, 72);

        let mut out: Vec<u8> = Vec::new();
        out.extend_from_slice(p.as_slice());
        out.extend_from_slice(q.as_slice());
        out.extend_from_slice(rest.as_slice());
        out
    }

    /// The twelve bytes of the Q channel of a sector: the payload and, in the
    /// last two bytes, the checksum of the payload.
    pub fn generate_q_subchannel(
        absolute_sector: i64,
        relative_sector: i64,
        track: u8,
        index: u8,
        track_type: TrackMode,
    ) -> (q: Vec<u8>)
        ensures
            q@.len() == 12,
            q@ == q_channel_bytes(
                absolute_sector as int,
                relative_sector as int,
                track,
                index,
                track_type,
            ),
            q@.subrange(10, 12) == crc_bytes(
                crc16_checksum(q@.subrange(0, 10), CRC16_INITIAL_CRC),
            ),
    {
        let payload: Vec<u8> = q_payload(
            absolute_sector,
            relative_sector,
            track,
            index,
            track_type,
        );
        let crc: u16 = crc16(&payload, CRC16_INITIAL_CRC);
        let q: Vec<u8> = seal_q(payload, crc);
        assert(q@.subrange(0, 10) =~= payload@);
        q
    }
}

} // verus!
