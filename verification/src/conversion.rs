//! The whole conversion: from the tracks of a cuesheet, the sizes of their
//! files and an optional sidecar to the text of the control file and the
//! bytes of the subchannel file.

use std::collections::HashMap;
use vstd::prelude::*;
use vstd::std_specs::hash::*;
use crate::builder::placed_disc;
use crate::cuesheet::{
    absent_files,
    check_cue_input,
    cue_tracks_wf,
    file_presence,
    file_sector_counts,
    first_defect,
    texts,
    CueTrack,
};
use crate::error::Cue2CCDError;
use crate::geometry::{Disc, DiscView};
use crate::locator::SectorIterator;
use crate::protection::{
    check_protection,
    count_fits,
    entries_of,
    generate_lsd_data,
    generate_sbi_data,
    has_sbi_magic,
    mismatch_error,
    scheme_of_count,
    sidecar_map,
    DiscProtection,
    SidecarFormat,
};
use crate::subchannel::{active_entries, captured_bytes, lemma_subchannel_len, subchannel_bytes};
use crate::timecode::LEAD_IN_SECTORS;

verus! {

impl DiscView {
    /// The subchannel data of the sector numbered `sector`, which the disc
    /// covers.
    pub open spec fn sector_subchannel(
        self,
        sector: int,
        entries: Option<Map<i64, Seq<u8>>>,
    ) -> Seq<u8> {
        let (k, i) = self.owner(sector);
        subchannel_bytes(
            sector,
            sector + LEAD_IN_SECTORS,
            sector - self.tracks[k].start,
            self.tracks[k].number,
            self.tracks[k].indices[i].number,
            self.tracks[k].mode,
            captured_bytes(entries, sector + LEAD_IN_SECTORS),
        )
    }

    /// The subchannel data of the sectors before sector `n`, in order.
    pub open spec fn sub_bytes(self, n: int, entries: Option<Map<i64, Seq<u8>>>) -> Seq<u8>
        decreases n,
    {
        if n <= 0 {
            Seq::empty()
        } else {
            self.sub_bytes(n - 1, entries) + self.sector_subchannel(n - 1, entries)
        }
    }

    /// Whether the disc covers every sector from 0 up to `n`, without `n`.
    pub open spec fn covered_up_to(self, n: int) -> bool {
        forall|m: int| 0 <= m < n ==> #[trigger] self.covers(m)
    }

    /// Whether `sector` is the first sector of the disc that no track and
    /// index hold.
    pub open spec fn is_first_gap(self, sector: int) -> bool {
        &&& 0 <= sector < self.sector_count
        &&& !self.covers(sector)
        &&& self.covered_up_to(sector)
    }

    /// The subchannel data of `n` sectors is 96 bytes for each.
    pub proof fn lemma_sub_bytes_len(self, n: int, entries: Option<Map<i64, Seq<u8>>>)
        requires
            0 <= n,
        ensures
            self.sub_bytes(n, entries).len() == 96 * n,
        decreases n,
    {
        if n > 0 {
            self.lemma_sub_bytes_len(n - 1, entries);
            let (k, i) = self.owner(n - 1);
            lemma_subchannel_len(
                n - 1,
                n - 1 + LEAD_IN_SECTORS,
                n - 1 - self.tracks[k].start,
                self.tracks[k].number,
                self.tracks[k].indices[i].number,
                self.tracks[k].mode,
                captured_bytes(entries, n - 1 + LEAD_IN_SECTORS),
            );
        }
    }
}

/// The subchannel data of the sector at the position of `walk`, which moves
/// on by one sector; `None` at the end of the disc.
fn next_subchannel(walk: &mut SectorIterator<'_>, overrides: Option<&HashMap<i64, Vec<u8>>>) -> (item:
    Option<Result<Vec<u8>, Cue2CCDError>>)
    requires
        old(walk).disc().wf(),
    ensures
        final(walk).disc() == old(walk).disc(),
        old(walk).position() >= old(walk).disc().sector_count ==> {
            &&& item is None
            &&& final(walk).position() == old(walk).position()
        },
        old(walk).position() < old(walk).disc().sector_count ==> {
            &&& final(walk).position() == old(walk).position() + 1
            &&& match item {
                Some(Ok(data)) => {
                    &&& old(walk).disc().covers(old(walk).position())
                    &&& data@ == old(walk).disc().sector_subchannel(
                        old(walk).position(),
                        active_entries(overrides),
                    )
                },
                Some(Err(e)) => {
                    &&& !old(walk).disc().covers(old(walk).position())
                    &&& e == (Cue2CCDError::CoverageGap { sector: old(walk).position() as i64 })
                },
                None => false,
            }
        },
{
    match walk.next() {
        None => None,
        Some(Ok(sector)) => Some(Ok(sector.generate_subchannel(overrides))),
        Some(Err(e)) => Some(Err(e)),
    }
}

impl Disc {
    /// The content of the subchannel file: the subchannel data of every
    /// sector of the disc, in order. A sector that no track and index hold
    /// ends the work with an error that names the first such sector.
    pub fn generate_sub(&self, overrides: Option<&HashMap<i64, Vec<u8>>>) -> (sub: Result<
        Vec<u8>,
        Cue2CCDError,
    >)
        requires
            self@.wf(),
        ensures
            match sub {
                Ok(bytes) => {
                    &&& self@.covered_up_to(self.sector_count as int)
                    &&& bytes@ == self@.sub_bytes(
                        self.sector_count as int,
                        active_entries(overrides),
                    )
                    &&& self.sector_count >= 0 ==> bytes@.len() == 96 * self.sector_count
                },
                Err(Cue2CCDError::CoverageGap { sector }) => self@.is_first_gap(sector as int),
                Err(_) => false,
            },
    {
        let mut out: Vec<u8> = Vec::new();
        let mut walk: SectorIterator<'_> = self.sectors();
        let ghost disc = self@;
        let ghost entries = active_entries(overrides);
        let mut n: i64 = 0;
        while n < self.sector_count
            invariant
                disc == self@,
                disc.wf(),
                walk.disc() == disc,
                walk.position() == n,
                0 <= n,
                n <= self.sector_count || n == 0,
                entries == active_entries(overrides),
                disc.covered_up_to(n as int),
                out@ == disc.sub_bytes(n as int, entries),
            decreases self.sector_count - n,
        {
            match next_subchannel(&mut walk, overrides) {
                None => {},
                Some(Ok(data)) => {
                    out.extend_from_slice(data.as_slice());
                },
                Some(Err(e)) => {
                    return Err(e);
                },
            }
            n += 1;
        }
        proof {
            if self.sector_count >= 0 {
                disc.lemma_sub_bytes_len(self.sector_count as int, entries);
            }
        }
        Ok(out)
    }
}

/// A sidecar file: its format and its bytes.
#[derive(Clone, Debug, PartialEq, Eq)]
pub struct Sidecar {
    pub format: SidecarFormat,
    pub data: Vec<u8>,
}

/// What a conversion yields.
#[derive(Clone, Debug, PartialEq, Eq)]
pub struct Conversion {
    /// Text of the control file
    pub ccd: String,
    /// Bytes of the subchannel file
    pub sub: Vec<u8>,
    /// The protection scheme that the sidecar gives away, if any
    pub protection: Option<DiscProtection>,
}

/// The overrides that a sidecar holds.
pub open spec fn sidecar_entries(sidecar: Option<Sidecar>) -> Option<Map<i64, Seq<u8>>> {
    match sidecar {
        Some(s) => Some(sidecar_map(s.data@, s.format)),
        None => None,
    }
}

/// Why a sidecar is refused, if it is: an SBI file without its magic, or
/// else a number of entries that does not fit the scheme that was asked for.
pub open spec fn sidecar_defect(
    sidecar: Option<Sidecar>,
    requested: Option<DiscProtection>,
) -> Option<Cue2CCDError> {
    match sidecar {
        None => None,
        Some(s) => if s.format is Sbi && !has_sbi_magic(s.data@) {
            Some(Cue2CCDError::InvalidSBIError)
        } else {
            match requested {
                Some(scheme) if !count_fits(
                    scheme,
                    sidecar_map(s.data@, s.format).dom().len() as int,
                ) => Some(mismatch_error(s.format)),
                _ => None,
            }
        },
    }
}

/// The protection scheme that the sidecar gives away, if any.
pub open spec fn detected_protection(sidecar: Option<Sidecar>) -> Option<DiscProtection> {
    match sidecar {
        Some(s) => scheme_of_count(sidecar_map(s.data@, s.format).dom().len() as int),
        None => None,
    }
}

/// Whether a conversion can work with these tracks: a disc can be built
/// from them, and there is at least one.
pub open spec fn convertible(tracks: Seq<CueTrack>, file_lengths: Seq<Option<u64>>) -> bool {
    &&& tracks.len() >= 1
    &&& cue_tracks_wf(tracks, file_lengths)
}

/// Whether `outcome` is what the conversion of these inputs yields. The
/// checks come in a fixed order, and the first that fails decides the error:
/// whether the cuesheet can be worked with, the tracks' fitness, the presence
/// of the files, the sidecar, and last the coverage of the disc. Where all
/// pass, the control file and the subchannel file are those of the disc that
/// the tracks and their files make.
pub open spec fn is_outcome_of(
    outcome: Result<Conversion, Cue2CCDError>,
    tracks: Seq<CueTrack>,
    file_lengths: Seq<Option<u64>>,
    sidecar: Option<Sidecar>,
    requested: Option<DiscProtection>,
) -> bool {
    let absent = absent_files(tracks, file_presence(file_lengths));
    let disc = placed_disc(tracks, file_sector_counts(file_lengths));
    match outcome {
        Ok(done) => {
            &&& convertible(tracks, file_lengths)
            &&& first_defect(tracks) is None
            &&& absent.len() == 0
            &&& sidecar_defect(sidecar, requested) is None
            &&& disc.covered_up_to(disc.sector_count as int)
            &&& done.ccd@ == disc.ccd_text()
            &&& done.sub@ == disc.sub_bytes(disc.sector_count as int, sidecar_entries(sidecar))
            &&& done.protection == detected_protection(sidecar)
        },
        Err(e) => if !convertible(tracks, file_lengths) {
            e == Cue2CCDError::UnusableCuesheet
        } else {
            match first_defect(tracks) {
                Some(defect) => e == defect,
                None => if absent.len() > 0 {
                    e matches Cue2CCDError::MissingFilesError { missing_files } && texts(
                        missing_files@,
                    ) == absent
                } else {
                    match sidecar_defect(sidecar, requested) {
                        Some(defect) => e == defect,
                        None => e matches Cue2CCDError::CoverageGap { sector }
                            && disc.is_first_gap(sector as int),
                    }
                },
            }
        },
    }
}

/// Tells whether a conversion can work with these tracks.
pub fn check_convertible(tracks: &Vec<CueTrack>, file_lengths: &Vec<Option<u64>>) -> (ok: bool)
    ensures
        ok == convertible(tracks@, file_lengths@),
{
    tracks.len() >= 1 && check_cue_input(tracks, file_lengths)
}

/// Reads a sidecar and holds its number of entries against the scheme that
/// was asked for.
fn read_sidecar(sidecar: Sidecar, requested: Option<DiscProtection>) -> (read: Result<
    (HashMap<i64, Vec<u8>>, Option<DiscProtection>),
    Cue2CCDError,
>)
    ensures
        match read {
            Ok((overrides, protection)) => {
                &&& sidecar_defect(Some(sidecar), requested) is None
                &&& Some(entries_of(overrides)) == sidecar_entries(Some(sidecar))
                &&& protection == detected_protection(Some(sidecar))
            },
            Err(e) => sidecar_defect(Some(sidecar), requested) == Some(e),
        },
{
    broadcast use group_hash_axioms;

    let format: SidecarFormat = sidecar.format;
    let parsed: Result<HashMap<i64, Vec<u8>>, Cue2CCDError> = match format {
        SidecarFormat::Lsd => generate_lsd_data(sidecar.data),
        SidecarFormat::Sbi => generate_sbi_data(sidecar.data),
    };
    match parsed {
        Err(e) => Err(e),
        Ok(overrides) => {
            assert(entries_of(overrides).dom() =~= overrides@.dom());
            match check_protection(requested, overrides.len(), format) {
                Err(e) => Err(e),
                Ok(protection) => Ok((overrides, protection)),
            }
        },
    }
}

/// Converts an image. `tracks` are the tracks of the cuesheet in order, and
/// `file_lengths` gives for each track the length in bytes of its file, or
/// `None` where the file is missing.
pub fn convert(
    tracks: &Vec<CueTrack>,
    file_lengths: &Vec<Option<u64>>,
    sidecar: Option<Sidecar>,
    requested: Option<DiscProtection>,
) -> (outcome: Result<Conversion, Cue2CCDError>)
    ensures
        is_outcome_of(outcome, tracks@, file_lengths@, sidecar, requested),
{
    // The control file takes its pregap mode from the first track.
    if tracks.len() == 0 {
        return Err(Cue2CCDError::UnusableCuesheet);
    }
    let disc: Disc = match Disc::from_cuesheet(tracks, file_lengths) {
        Err(e) => {
            return Err(e);
        },
        Ok(disc) => disc,
    };
    let (overrides, protection): (Option<HashMap<i64, Vec<u8>>>, Option<DiscProtection>) =
        match sidecar {
        None => (None, None),
        Some(given) => match read_sidecar(given, requested) {
            Err(e) => {
                return Err(e);
            },
            Ok((map, detected)) => (Some(map), detected),
        },
    };
    let sub: Vec<u8> = match disc.generate_sub(overrides.as_ref()) {
        Err(e) => {
            return Err(e);
        },
        Ok(bytes) => bytes,
    };
    let ccd: String = disc.generate_ccd();
    Ok(Conversion { ccd, sub, protection })
}

/// Converting the same inputs twice gives the same result: the same text
/// and the same bytes, or the same error.
pub proof fn lemma_conversion_is_repeatable(
    first: Result<Conversion, Cue2CCDError>,
    second: Result<Conversion, Cue2CCDError>,
    tracks: Seq<CueTrack>,
    file_lengths: Seq<Option<u64>>,
    sidecar: Option<Sidecar>,
    requested: Option<DiscProtection>,
)
    requires
        is_outcome_of(first, tracks, file_lengths, sidecar, requested),
        is_outcome_of(second, tracks, file_lengths, sidecar, requested),
    ensures
        match (first, second) {
            (Ok(a), Ok(b)) => a.ccd@ == b.ccd@ && a.sub@ == b.sub@ && a.protection == b.protection,
            (
                Err(Cue2CCDError::MissingFilesError { missing_files: a }),
                Err(Cue2CCDError::MissingFilesError { missing_files: b }),
            ) => texts(a@) == texts(b@),
            (Err(a), Err(b)) => a == b,
            _ => false,
        },
{
}

} // verus!
