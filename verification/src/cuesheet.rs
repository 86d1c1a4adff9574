//! What a cuesheet says of each track, and the checks that a cuesheet has to
//! pass before an image is built from it.

use vstd::prelude::*;
use vstd::string::*;
use crate::error::Cue2CCDError;
use crate::geometry::TrackMode;
use crate::timecode::{MAX_FILE_SECTORS, SECTOR_BYTES};

verus! {

/// Largest magnitude of a position or length that a cuesheet may give.
pub const MAX_CUE_SECTOR: i64 = 0x20_0000_0000_0000;

/// Most index slots of a track: the numbers 0 to 99.
pub const MAX_INDEX_SLOTS: usize = 100;

/// Most tracks of a disc.
pub const MAX_TRACKS: usize = 99;

/// One track as the cuesheet describes it. Positions count sectors from the
/// start of the track's file.
#[derive(Clone, Debug, PartialEq, Eq)]
pub struct CueTrack {
    /// Name of the file that holds the track
    pub filename: String,
    /// Sector at which index 1 of the track begins
    pub start: i64,
    /// Length in sectors, where the cuesheet fixes it
    pub length: Option<i64>,
    /// Start of each index, by index number; `None` for a number that the
    /// track does not use
    pub indices: Vec<Option<i64>>,
    pub mode: TrackMode,
}

/// Whether `v` lies within `MAX_CUE_SECTOR` of zero.
pub open spec fn cue_sector_ok(v: i64) -> bool {
    -MAX_CUE_SECTOR <= v <= MAX_CUE_SECTOR
}

impl CueTrack {
    /// Whether the record can be worked with: no more index slots than there
    /// are index numbers, and every position and length within
    /// `MAX_CUE_SECTOR` of zero.
    pub open spec fn wf(self) -> bool {
        &&& self.indices@.len() <= MAX_INDEX_SLOTS
        &&& cue_sector_ok(self.start)
        &&& (self.length matches Some(l) ==> cue_sector_ok(l))
        &&& forall|i: int|
            0 <= i < self.indices@.len() ==> (#[trigger] self.indices@[i] matches Some(o)
                ==> cue_sector_ok(o))
    }

    /// Tells whether the record can be worked with.
    pub fn is_valid(&self) -> (ok: bool)
        ensures
            ok == self.wf(),
    {
        if self.indices.len() > MAX_INDEX_SLOTS || self.start < -MAX_CUE_SECTOR || self.start
            > MAX_CUE_SECTOR {
            return false;
        }
        match self.length {
            Some(l) => {
                if l < -MAX_CUE_SECTOR || l > MAX_CUE_SECTOR {
                    return false;
                }
            },
            None => {},
        }
        let mut i: usize = 0;
        while i < self.indices.len()
            invariant
                i <= self.indices@.len(),
                forall|j: int|
                    0 <= j < i ==> (#[trigger] self.indices@[j] matches Some(o) ==> cue_sector_ok(
                        o,
                    )),
            decreases self.indices@.len() - i,
        {
            match self.indices[i] {
                Some(o) => {
                    if o < -MAX_CUE_SECTOR || o > MAX_CUE_SECTOR {
                        return false;
                    }
                },
                None => {},
            }
            i += 1;
        }
        true
    }
}

/// Whether a disc can be placed from these tracks and the sector counts of
/// their files: at most 99 tracks, one sector count for each, every record
/// workable and every sector count one that a file can have.
pub open spec fn cue_input_wf(tracks: Seq<CueTrack>, file_sectors: Seq<i64>) -> bool {
    &&& tracks.len() <= MAX_TRACKS
    &&& file_sectors.len() == tracks.len()
    &&& forall|k: int| 0 <= k < tracks.len() ==> (#[trigger] tracks[k]).wf()
    &&& forall|k: int| 0 <= k < tracks.len() ==> 0 <= #[trigger] file_sectors[k] <= MAX_FILE_SECTORS
}

/// Whether a disc can be built from these tracks and the lengths of their
/// files: at most 99 tracks, one length or `None` for each, and every record
/// workable.
pub open spec fn cue_tracks_wf(tracks: Seq<CueTrack>, file_lengths: Seq<Option<u64>>) -> bool {
    &&& tracks.len() <= MAX_TRACKS
    &&& file_lengths.len() == tracks.len()
    &&& forall|k: int| 0 <= k < tracks.len() ==> (#[trigger] tracks[k]).wf()
}

/// For each track, whether its file is there.
pub open spec fn file_presence(file_lengths: Seq<Option<u64>>) -> Seq<bool> {
    Seq::new(file_lengths.len(), |k: int| file_lengths[k] is Some)
}

/// For each track, the whole sectors in its file. A missing file has none;
/// no disc is built where one is missing.
pub open spec fn file_sector_counts(file_lengths: Seq<Option<u64>>) -> Seq<i64> {
    Seq::new(
        file_lengths.len(),
        |k: int|
            match file_lengths[k] {
                Some(n) => (n / SECTOR_BYTES) as i64,
                None => 0i64,
            },
    )
}

/// Tells whether a disc can be built from these tracks and the lengths of
/// their files.
pub fn check_cue_input(tracks: &Vec<CueTrack>, file_lengths: &Vec<Option<u64>>) -> (ok: bool)
    ensures
        ok == cue_tracks_wf(tracks@, file_lengths@),
{
    if tracks.len() > MAX_TRACKS || file_lengths.len() != tracks.len() {
        return false;
    }
    let mut k: usize = 0;
    while k < tracks.len()
        invariant
            k <= tracks@.len(),
            forall|j: int| 0 <= j < k ==> (#[trigger] tracks@[j]).wf(),
        decreases tracks@.len() - k,
    {
        if !tracks[k].is_valid() {
            return false;
        }
        k += 1;
    }
    true
}

/// Whether a file name ends in `.wav`.
pub open spec fn is_wave_name(name: Seq<char>) -> bool {
    &&& name.len() >= 4
    &&& name[name.len() - 4] == '.'
    &&& name[name.len() - 3] == 'w'
    &&& name[name.len() - 2] == 'a'
    &&& name[name.len() - 1] == 'v'
}

/// What makes a track unfit for conversion, if anything: storage in a wave
/// file, or else a cooked data mode.
pub open spec fn track_defect(track: CueTrack) -> Option<Cue2CCDError> {
    if is_wave_name(track.filename@) {
        Some(Cue2CCDError::WaveFile)
    } else if track.mode.is_cooked() {
        Some(Cue2CCDError::CookedData)
    } else {
        None
    }
}

/// The defect of the first unfit track, if there is one.
pub open spec fn first_defect(tracks: Seq<CueTrack>) -> Option<Cue2CCDError>
    decreases tracks.len(),
{
    if tracks.len() == 0 {
        None
    } else {
        match first_defect(tracks.drop_last()) {
            Some(e) => Some(e),
            None => track_defect(tracks.last()),
        }
    }
}

/// Whether track `k` is the first of a run of tracks stored in one file.
pub open spec fn starts_file(tracks: Seq<CueTrack>, k: int) -> bool {
    k == 0 || tracks[k].filename@ != tracks[k - 1].filename@
}

/// The file names of the tracks, a run of tracks in one file counted once.
pub open spec fn unique_files(tracks: Seq<CueTrack>) -> Seq<Seq<char>>
    decreases tracks.len(),
{
    if tracks.len() == 0 {
        Seq::empty()
    } else {
        let before = unique_files(tracks.drop_last());
        if starts_file(tracks, tracks.len() - 1) {
            before.push(tracks.last().filename@)
        } else {
            before
        }
    }
}

/// Of the files in `unique_files`, the names of those for which `present`
/// holds `false` at the first track of the run.
pub open spec fn absent_files(tracks: Seq<CueTrack>, present: Seq<bool>) -> Seq<Seq<char>>
    decreases tracks.len(),
{
    if tracks.len() == 0 {
        Seq::empty()
    } else {
        let before = absent_files(tracks.drop_last(), present);
        if starts_file(tracks, tracks.len() - 1) && !present[tracks.len() - 1] {
            before.push(tracks.last().filename@)
        } else {
            before
        }
    }
}

/// The text of each string.
pub open spec fn texts(names: Seq<String>) -> Seq<Seq<char>> {
    Seq::new(names.len(), |i: int| names[i]@)
}

fn ends_in_wav(name: &String) -> (wave: bool)
    ensures
        wave == is_wave_name(name@),
{
    let text: &str = name.as_str();
    let len: usize = text.unicode_len();
    len >= 4 && text.get_char(len - 4) == '.' && text.get_char(len - 3) == 'w' && text.get_char(
        len - 2,
    ) == 'a' && text.get_char(len - 1) == 'v'
}

/// Refuses cuesheets that this tool cannot convert: the first track that is
/// stored in a wave file, or else holds cooked data, decides the error.
pub fn validate_mode(tracks: &Vec<CueTrack>) -> (verdict: Result<(), Cue2CCDError>)
    ensures
        verdict == (match first_defect(tracks@) {
            Some(e) => Err::<(), Cue2CCDError>(e),
            None => Ok(()),
        }),
{
    let mut k: usize = 0;
    while k < tracks.len()
        invariant
            k <= tracks@.len(),
            first_defect(tracks@.take(k as int)) is None,
        decreases tracks@.len() - k,
    {
        let track: &CueTrack = &tracks[k];
        proof {
            assert(tracks@.take(k + 1).drop_last() =~= tracks@.take(k as int));
        }
        if ends_in_wav(&track.filename) {
            proof {
                lemma_first_defect_stays(tracks@, k + 1);
            }
            return Err(Cue2CCDError::WaveFile);
        }
        match track.mode {
            TrackMode::Mode1 | TrackMode::Mode2 | TrackMode::Mode2Form1 | TrackMode::Mode2Form2 => {
                proof {
                    lemma_first_defect_stays(tracks@, k + 1);
                }
                return Err(Cue2CCDError::CookedData);
            },
            _ => (),
        }
        k += 1;
    }
    assert(tracks@.take(k as int) =~= tracks@);
    Ok(())
}

/// A defect found among the first `n` tracks is the defect of the whole list.
proof fn lemma_first_defect_stays(tracks: Seq<CueTrack>, n: int)
    requires
        0 <= n <= tracks.len(),
        first_defect(tracks.take(n)) is Some,
    ensures
        first_defect(tracks) == first_defect(tracks.take(n)),
    decreases tracks.len() - n,
{
    if n == tracks.len() {
        assert(tracks.take(n) =~= tracks);
    } else {
        assert(tracks.take(n + 1).drop_last() =~= tracks.take(n));
        lemma_first_defect_stays(tracks, n + 1);
    }
}

/// Fetches the file names of the tracks. Where tracks that follow one another
/// are stored in one file, the name comes once.
pub fn get_unique_tracks(tracks: &Vec<CueTrack>) -> (files: Vec<String>)
    ensures
        texts(files@) == unique_files(tracks@),
{
    let mut files: Vec<String> = Vec::new();
    let mut k: usize = 0;
    while k < tracks.len()
        invariant
            k <= tracks@.len(),
            texts(files@) == unique_files(tracks@.take(k as int)),
        decreases tracks@.len() - k,
    {
        proof {
            assert(tracks@.take(k + 1).drop_last() =~= tracks@.take(k as int));
        }
        if k == 0 || tracks[k].filename != tracks[k - 1].filename {
            let name: String = tracks[k].filename.clone();
            files.push(name);
        }
        k += 1;
    }
    assert(tracks@.take(k as int) =~= tracks@);
    files
}

/// Names the files that are missing. `present` tells for each track whether
/// its file is there; a run of tracks in one file is judged by its first
/// track. With no file missing the result is `Ok`.
pub fn check_files_present(tracks: &Vec<CueTrack>, present: &Vec<bool>) -> (verdict: Result<
    (),
    Cue2CCDError,
>)
    requires
        present@.len() == tracks@.len(),
    ensures
        match verdict {
            Ok(_) => absent_files(tracks@, present@).len() == 0,
            Err(Cue2CCDError::MissingFilesError { missing_files }) => {
                &&& texts(missing_files@) == absent_files(tracks@, present@)
                &&& missing_files@.len() > 0
            },
            Err(_) => false,
        },
{
    let mut missing: Vec<String> = Vec::new();
    let mut k: usize = 0;
    while k < tracks.len()
        invariant
            k <= tracks@.len(),
            present@.len() == tracks@.len(),
            texts(missing@) == absent_files(tracks@.take(k as int), present@),
        decreases tracks@.len() - k,
    {
        proof {
            assert(tracks@.take(k + 1).drop_last() =~= tracks@.take(k as int));
        }
        if (k == 0 || tracks[k].filename != tracks[k - 1].filename) && !present[k] {
            let name: String = tracks[k].filename.clone();
            missing.push(name);
        }
        k += 1;
    }
    assert(tracks@.take(k as int) =~= tracks@);
    if missing.len() > 0 {
        Err(Cue2CCDError::MissingFilesError { missing_files: missing })
    } else {
        Ok(())
    }
}

} // verus!
