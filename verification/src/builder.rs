//! Building the disc model from the tracks of a cuesheet and the sizes of
//! the files that hold them.

use vstd::prelude::*;
use crate::cuesheet::{
    absent_files,
    check_cue_input,
    check_files_present,
    cue_input_wf,
    cue_sector_ok,
    cue_tracks_wf,
    file_presence,
    file_sector_counts,
    first_defect,
    texts,
    validate_mode,
    CueTrack,
    MAX_INDEX_SLOTS,
};
use crate::error::Cue2CCDError;
use crate::geometry::{Disc, DiscView, Index, Track, TrackView};
use crate::timecode::{sector_length, MAX_FILE_SECTORS};

verus! {

/// Sectors of the files that lie before the file of track `k` in the image.
/// A file is counted when the track after it names another file.
pub open spec fn files_before(tracks: Seq<CueTrack>, file_sectors: Seq<i64>, k: int) -> int
    decreases k,
{
    if k <= 0 {
        0
    } else {
        files_before(tracks, file_sectors, k - 1) + if tracks[k].filename@ != tracks[k
            - 1].filename@ {
            file_sectors[k - 1] as int
        } else {
            0
        }
    }
}

/// Where track `k` starts in the image.
pub open spec fn placed_start(tracks: Seq<CueTrack>, file_sectors: Seq<i64>, k: int) -> int {
    tracks[k].start + files_before(tracks, file_sectors, k)
}

/// The length of track `k`: the one that the cuesheet gives, else what is
/// left of the track's file after the start of the track.
pub open spec fn placed_length(tracks: Seq<CueTrack>, file_sectors: Seq<i64>, k: int) -> int {
    match tracks[k].length {
        Some(l) => l as int,
        None => files_before(tracks, file_sectors, k) + file_sectors[k] - placed_start(
            tracks,
            file_sectors,
            k,
        ),
    }
}

/// Sectors in all the files of the image.
pub open spec fn image_sectors(tracks: Seq<CueTrack>, file_sectors: Seq<i64>) -> int {
    if tracks.len() == 0 {
        0
    } else {
        files_before(tracks, file_sectors, tracks.len() - 1) + file_sectors[tracks.len() - 1]
    }
}

/// The numbers of the slots that hold a position, in ascending order.
pub open spec fn present_slots(slots: Seq<Option<i64>>) -> Seq<int>
    decreases slots.len(),
{
    if slots.len() == 0 {
        Seq::empty()
    } else {
        let before = present_slots(slots.drop_last());
        if slots.last() is Some {
            before.push(slots.len() - 1)
        } else {
            before
        }
    }
}

/// The indices of a track whose file starts at sector `base` of the image and
/// whose last sector is `track_end`: one for each slot that holds a position,
/// moved by `base`, and ending one sector before the next of them or, for the
/// last, at `track_end`.
pub open spec fn placed_indices(slots: Seq<Option<i64>>, base: int, track_end: int) -> Seq<Index> {
    let present = present_slots(slots);
    Seq::new(
        present.len(),
        |j: int|
            Index {
                number: present[j] as u8,
                start: (slots[present[j]].unwrap() + base) as i64,
                end: (if j + 1 < present.len() {
                    slots[present[j + 1]].unwrap() + base - 1
                } else {
                    track_end
                }) as i64,
            },
    )
}

/// Track `k` of the cuesheet, placed in the image: numbered by its place,
/// moved by the sectors of the files before its own, with the mode that the
/// cuesheet gives.
pub open spec fn placed_track(tracks: Seq<CueTrack>, file_sectors: Seq<i64>, k: int) -> TrackView {
    TrackView {
        number: (k + 1) as u8,
        start: placed_start(tracks, file_sectors, k) as i64,
        length: placed_length(tracks, file_sectors, k) as i64,
        indices: placed_indices(
            tracks[k].indices@,
            files_before(tracks, file_sectors, k),
            placed_start(tracks, file_sectors, k) + placed_length(tracks, file_sectors, k) - 1,
        ),
        mode: tracks[k].mode,
    }
}

/// The disc that the tracks of a cuesheet and the sector counts of their
/// files make.
pub open spec fn placed_disc(tracks: Seq<CueTrack>, file_sectors: Seq<i64>) -> DiscView {
    DiscView {
        tracks: Seq::new(tracks.len(), |k: int| placed_track(tracks, file_sectors, k)),
        sector_count: image_sectors(tracks, file_sectors) as i64,
    }
}

/// The slots that `present_slots` names hold a position, and it names them
/// in ascending order.
pub proof fn lemma_present_slots(slots: Seq<Option<i64>>)
    ensures
        present_slots(slots).len() <= slots.len(),
        forall|j: int|
            0 <= j < present_slots(slots).len() ==> {
                &&& 0 <= #[trigger] present_slots(slots)[j] < slots.len()
                &&& slots[present_slots(slots)[j]] is Some
            },
        forall|i: int, j: int|
            0 <= i < j < present_slots(slots).len() ==> #[trigger] present_slots(slots)[i]
                < #[trigger] present_slots(slots)[j],
    decreases slots.len(),
{
    if slots.len() > 0 {
        lemma_present_slots(slots.drop_last());
    }
}

/// The sectors before a file are never negative, and no more than the sizes
/// of the files of the tracks before it.
proof fn lemma_files_before_bounds(tracks: Seq<CueTrack>, file_sectors: Seq<i64>, k: int)
    requires
        cue_input_wf(tracks, file_sectors),
        0 <= k < tracks.len(),
    ensures
        0 <= files_before(tracks, file_sectors, k) <= k * MAX_FILE_SECTORS,
    decreases k,
{
    if k > 0 {
        lemma_files_before_bounds(tracks, file_sectors, k - 1);
    }
}

/// A track placed in the image keeps the invariant of tracks, and its start
/// and length are what `placed_start` and `placed_length` say.
pub proof fn lemma_placed_track_wf(tracks: Seq<CueTrack>, file_sectors: Seq<i64>, k: int)
    requires
        cue_input_wf(tracks, file_sectors),
        0 <= k < tracks.len(),
    ensures
        placed_track(tracks, file_sectors, k).wf(),
        placed_track(tracks, file_sectors, k).number == k + 1,
        placed_track(tracks, file_sectors, k).start == placed_start(tracks, file_sectors, k),
        placed_track(tracks, file_sectors, k).length == placed_length(tracks, file_sectors, k),
{
    lemma_files_before_bounds(tracks, file_sectors, k);
    lemma_present_slots(tracks[k].indices@);
    assert(tracks[k].wf());
}

/// The disc that a workable cuesheet makes keeps the invariant of discs.
pub proof fn lemma_placed_disc_wf(tracks: Seq<CueTrack>, file_sectors: Seq<i64>)
    requires
        cue_input_wf(tracks, file_sectors),
    ensures
        placed_disc(tracks, file_sectors).wf(),
{
    let disc = placed_disc(tracks, file_sectors);
    assert forall|k: int| 0 <= k < disc.tracks.len() implies (#[trigger] disc.tracks[k]).wf()
        && disc.tracks[k].number == k + 1 by {
        lemma_placed_track_wf(tracks, file_sectors, k);
    }
    if tracks.len() > 0 {
        lemma_files_before_bounds(tracks, file_sectors, tracks.len() - 1);
    }
}

/// The position in its file at which track `k` stops, its last sector not
/// counted: the start and length that the cuesheet gives, else the end of
/// the file.
pub open spec fn cue_end(tracks: Seq<CueTrack>, file_sectors: Seq<i64>, k: int) -> int {
    match tracks[k].length {
        Some(l) => tracks[k].start + l,
        None => file_sectors[k] as int,
    }
}

/// The position in its file of the `j`-th index that track `k` uses.
pub open spec fn cue_index(tracks: Seq<CueTrack>, k: int, j: int) -> int {
    tracks[k].indices@[present_slots(tracks[k].indices@)[j]].unwrap() as int
}

/// Whether the cuesheet lays its tracks out without a gap and without an
/// overlap: every track has an index, the indices of a track follow one
/// another and none lies past the end of the track, the first track begins at
/// the start of its file, a track in the file of the track before it begins
/// where that track stops, and a track in a new file begins at the start of
/// its file while the track before it stops at the end of its own, as the
/// last track does.
pub open spec fn cue_tiles(tracks: Seq<CueTrack>, file_sectors: Seq<i64>) -> bool {
    &&& forall|k: int|
        0 <= k < tracks.len() ==> {
            &&& present_slots((#[trigger] tracks[k]).indices@).len() > 0
            &&& forall|i: int, j: int|
                0 <= i < j < present_slots(tracks[k].indices@).len() ==> cue_index(tracks, k, i)
                    <= cue_index(tracks, k, j)
            &&& forall|j: int|
                0 <= j < present_slots(tracks[k].indices@).len() ==> cue_index(tracks, k, j)
                    <= cue_end(tracks, file_sectors, k)
        }
    &&& tracks.len() > 0 ==> cue_index(tracks, 0, 0) == 0
    &&& forall|k: int|
        0 <= k && k + 1 < tracks.len() ==> if (#[trigger] tracks[k + 1]).filename@
            == tracks[k].filename@ {
            cue_index(tracks, k + 1, 0) == cue_end(tracks, file_sectors, k)
        } else {
            &&& cue_index(tracks, k + 1, 0) == 0
            &&& cue_end(tracks, file_sectors, k) == file_sectors[k]
        }
    &&& tracks.len() > 0 ==> cue_end(tracks, file_sectors, tracks.len() - 1)
        == file_sectors[tracks.len() - 1]
}

/// The tracks of a disc built from a cuesheet that lays them out without a
/// gap and without an overlap lie one after the other.
pub proof fn lemma_placed_disc_contiguous(tracks: Seq<CueTrack>, file_sectors: Seq<i64>)
    requires
        cue_input_wf(tracks, file_sectors),
        cue_tiles(tracks, file_sectors),
    ensures
        placed_disc(tracks, file_sectors).contiguous(),
{
    let disc = placed_disc(tracks, file_sectors);
    assert forall|k: int| 0 <= k < disc.tracks.len() implies {
        &&& (#[trigger] disc.tracks[k]).indices.len() > 0
        &&& disc.tracks[k].starts_ascend()
        &&& disc.tracks[k].end_sector() + 1 == cue_end(tracks, file_sectors, k) + files_before(
            tracks,
            file_sectors,
            k,
        )
        &&& disc.tracks[k].indices[0].start == cue_index(tracks, k, 0) + files_before(
            tracks,
            file_sectors,
            k,
        )
    } by {
        lemma_placed_track_wf(tracks, file_sectors, k);
        lemma_files_before_bounds(tracks, file_sectors, k);
        lemma_present_slots(tracks[k].indices@);
        assert(tracks[k].wf());
        let track = disc.tracks[k];
        assert forall|i: int| 0 <= i < track.indices.len() implies (#[trigger] track.indices[i]).start
            == cue_index(tracks, k, i) + files_before(tracks, file_sectors, k) by {}
    }
    assert forall|k: int| 0 <= k && k + 1 < disc.tracks.len() implies (#[trigger] disc.tracks[k
        + 1]).indices[0].start == disc.tracks[k].end_sector() + 1 by {
        assert(disc.tracks[k].indices.len() > 0);
        assert(tracks[k + 1].wf());
    }
    if tracks.len() > 0 {
        let last = tracks.len() - 1;
        lemma_files_before_bounds(tracks, file_sectors, last);
        assert(disc.tracks[last].indices.len() > 0);
        assert(disc.tracks[0].indices.len() > 0);
        assert(disc.tracks[0].indices[0].start == 0);
        assert(disc.tracks[last].end_sector() == disc.sector_count - 1);
    }
}

/// Every slot that holds a position is among those that `present_slots`
/// names.
pub proof fn lemma_present_slots_complete(slots: Seq<Option<i64>>, i: int)
    requires
        0 <= i < slots.len(),
        slots[i] is Some,
    ensures
        exists|j: int| 0 <= j < present_slots(slots).len() && #[trigger] present_slots(slots)[j] == i,
    decreases slots.len(),
{
    if i == slots.len() - 1 {
        let j = present_slots(slots).len() - 1;
        assert(present_slots(slots)[j] == i);
    } else {
        lemma_present_slots_complete(slots.drop_last(), i);
        let j = choose|j: int|
            0 <= j < present_slots(slots.drop_last()).len() && #[trigger] present_slots(
                slots.drop_last(),
            )[j] == i;
        assert(present_slots(slots)[j] == i);
    }
}

/// Where the cuesheet gives a track an index 1 at the start of the track,
/// index 1 of the track placed in the image starts at the start of the
/// track.
pub proof fn lemma_placed_track_starts_at_index_one(
    tracks: Seq<CueTrack>,
    file_sectors: Seq<i64>,
    k: int,
)
    requires
        cue_input_wf(tracks, file_sectors),
        0 <= k < tracks.len(),
        tracks[k].indices@.len() > 1,
        tracks[k].indices@[1] == Some(tracks[k].start),
    ensures
        placed_track(tracks, file_sectors, k).starts_at_index_one(),
{
    let slots = tracks[k].indices@;
    lemma_present_slots_complete(slots, 1);
    lemma_present_slots(slots);
    lemma_placed_track_wf(tracks, file_sectors, k);
    lemma_files_before_bounds(tracks, file_sectors, k);
    assert(tracks[k].wf());
    let j = choose|j: int| 0 <= j < present_slots(slots).len() && #[trigger] present_slots(slots)[j]
        == 1;
    let placed = placed_track(tracks, file_sectors, k);
    assert(placed.indices[j].number == 1);
    assert(placed.indices[j].start == placed.start);
}

/// Exactly one track and index hold each sector of a disc built from a
/// cuesheet that lays its tracks out without a gap and without an overlap.
pub proof fn lemma_built_disc_has_one_holder(
    tracks: Seq<CueTrack>,
    file_sectors: Seq<i64>,
    sector: int,
)
    requires
        cue_input_wf(tracks, file_sectors),
        cue_tiles(tracks, file_sectors),
        0 <= sector < placed_disc(tracks, file_sectors).sector_count,
    ensures
        placed_disc(tracks, file_sectors).covers(sector),
        forall|k1: int, i1: int, k2: int, i2: int|
            #[trigger] placed_disc(tracks, file_sectors).holds(k1, i1, sector)
                && #[trigger] placed_disc(tracks, file_sectors).holds(k2, i2, sector) ==> k1 == k2
                && i1 == i2,
{
    lemma_placed_disc_contiguous(tracks, file_sectors);
    placed_disc(tracks, file_sectors).lemma_one_holder(sector);
}

/// Places the indices of one track.
fn place_indices(slots: &Vec<Option<i64>>, base: i64, track_end: i64) -> (indices: Vec<Index>)
    requires
        slots@.len() <= MAX_INDEX_SLOTS,
        forall|i: int|
            0 <= i < slots@.len() ==> (#[trigger] slots@[i] matches Some(o) ==> cue_sector_ok(o)),
        0 <= base <= 99 * MAX_FILE_SECTORS,
    ensures
        indices@ == placed_indices(slots@, base as int, track_end as int),
{
    let mut indices: Vec<Index> = Vec::new();
    let mut i: usize = 0;
    while i < slots.len()
        invariant
            i <= slots@.len() <= MAX_INDEX_SLOTS,
            forall|t: int|
                0 <= t < slots@.len() ==> (#[trigger] slots@[t] matches Some(o) ==> cue_sector_ok(
                    o,
                )),
            0 <= base <= 99 * MAX_FILE_SECTORS,
            indices@ == placed_indices(slots@.take(i as int), base as int, track_end as int),
        decreases slots@.len() - i,
    {
        proof {
            assert(slots@.take(i + 1).drop_last() =~= slots@.take(i as int));
            lemma_present_slots(slots@.take(i as int));
            lemma_present_slots(slots@.take(i + 1));
        }
        if let Some(offset) = slots[i] {
            // The index before this one ends where this one starts.
            let count: usize = indices.len();
            if count > 0 {
                let last: Index = indices[count - 1];
                indices.set(
                    count - 1,
                    Index { number: last.number, start: last.start, end: offset + base - 1 },
                );
            }
            indices.push(Index { number: i as u8, start: offset + base, end: track_end });
        }
        i += 1;
    }
    assert(slots@.take(i as int) =~= slots@);
    indices
}

/// Places the tracks of a cuesheet in the image. The files follow one another
/// in the image, so each track and each index moves by the sectors of the
/// files before its own.
fn place_tracks(tracks: &Vec<CueTrack>, file_sectors: &Vec<i64>) -> (disc: Disc)
    requires
        cue_input_wf(tracks@, file_sectors@),
    ensures
        disc@ == placed_disc(tracks@, file_sectors@),
        disc@.wf(),
{
    let mut placed: Vec<Track> = Vec::new();
    let mut disc_length_so_far: i64 = 0;
    let mut k: usize = 0;
    while k < tracks.len()
        invariant
            cue_input_wf(tracks@, file_sectors@),
            k <= tracks@.len(),
            placed@.len() == k,
            k == 0 ==> disc_length_so_far == 0,
            k > 0 ==> disc_length_so_far == files_before(tracks@, file_sectors@, k - 1),
            forall|j: int|
                0 <= j < k ==> (#[trigger] placed@[j])@ == placed_track(tracks@, file_sectors@, j),
        decreases tracks@.len() - k,
    {
        let track: &CueTrack = &tracks[k];
        proof {
            lemma_files_before_bounds(tracks@, file_sectors@, k as int);
            if k > 0 {
                lemma_files_before_bounds(tracks@, file_sectors@, k - 1);
            }
            lemma_placed_track_wf(tracks@, file_sectors@, k as int);
            assert(tracks@[k as int].wf());
        }
        // At the start of a new file, the file before it is behind us.
        if k > 0 && track.filename != tracks[k - 1].filename {
            disc_length_so_far = disc_length_so_far + file_sectors[k - 1];
        }
        assert(disc_length_so_far == files_before(tracks@, file_sectors@, k as int));
        let start: i64 = track.start + disc_length_so_far;
        // The cuesheet does not tell how long the last track of a file is:
        // it takes what is left of the file.
        let length: i64 = match track.length {
            Some(l) => l,
            None => disc_length_so_far + file_sectors[k] - start,
        };
        let indices: Vec<Index> = place_indices(
            &track.indices,
            disc_length_so_far,
            start + length - 1,
        );
        let number: u8 = (k + 1) as u8;
        let built: Track = Track { number, start, length, indices, mode: track.mode };
        assert(built@ == placed_track(tracks@, file_sectors@, k as int));
        placed.push(built);
        k += 1;
    }
    let sector_count: i64 = if tracks.len() == 0 {
        0
    } else {
        proof {
            lemma_files_before_bounds(tracks@, file_sectors@, tracks@.len() - 1);
        }
        disc_length_so_far + file_sectors[tracks.len() - 1]
    };
    let disc: Disc = Disc { tracks: placed, sector_count };
    proof {
        assert(disc@.tracks =~= placed_disc(tracks@, file_sectors@).tracks);
        lemma_placed_disc_wf(tracks@, file_sectors@);
    }
    disc
}

/// Whether `outcome` is what building a disc from these tracks and the
/// lengths of their files yields. A cuesheet that cannot be worked with is
/// refused first, then one with a track that is not raw, then one with a
/// missing file; from any other the disc is built.
pub open spec fn is_build_of(
    outcome: Result<Disc, Cue2CCDError>,
    tracks: Seq<CueTrack>,
    file_lengths: Seq<Option<u64>>,
) -> bool {
    let absent = absent_files(tracks, file_presence(file_lengths));
    if !cue_tracks_wf(tracks, file_lengths) {
        outcome == Err::<Disc, Cue2CCDError>(Cue2CCDError::UnusableCuesheet)
    } else {
        match first_defect(tracks) {
            Some(defect) => outcome == Err::<Disc, Cue2CCDError>(defect),
            None => if absent.len() > 0 {
                outcome matches Err(Cue2CCDError::MissingFilesError { missing_files }) && texts(
                    missing_files@,
                ) == absent
            } else {
                &&& outcome matches Ok(disc)
                &&& disc@ == placed_disc(tracks, file_sector_counts(file_lengths))
                &&& disc@.wf()
            },
        }
    }
}

impl Disc {
    /// Builds the disc from the tracks of a cuesheet, in order, and the
    /// length in bytes of the file of each track, `None` where the file is
    /// missing or cannot be read. No disc is built from a cuesheet with a
    /// track in a wave file or in a cooked mode, nor where a file is missing.
    pub fn from_cuesheet(tracks: &Vec<CueTrack>, file_lengths: &Vec<Option<u64>>) -> (built:
        Result<Disc, Cue2CCDError>)
        ensures
            is_build_of(built, tracks@, file_lengths@),
    {
        if !check_cue_input(tracks, file_lengths) {
            return Err(Cue2CCDError::UnusableCuesheet);
        }
        match validate_mode(tracks) {
            Err(e) => {
                return Err(e);
            },
            Ok(_) => {},
        }
        let mut present: Vec<bool> = Vec::new();
        let mut file_sectors: Vec<i64> = Vec::new();
        let mut k: usize = 0;
        while k < file_lengths.len()
            invariant
                k <= file_lengths@.len(),
                present@ == file_presence(file_lengths@).take(k as int),
                file_sectors@ == file_sector_counts(file_lengths@).take(k as int),
            decreases file_lengths@.len() - k,
        {
            match file_lengths[k] {
                Some(byte_len) => {
                    present.push(true);
                    file_sectors.push(sector_length(byte_len));
                },
                None => {
                    present.push(false);
                    file_sectors.push(0);
                },
            }
            k += 1;
        }
        assert(present@ =~= file_presence(file_lengths@));
        assert(file_sectors@ =~= file_sector_counts(file_lengths@));
        match check_files_present(tracks, &present) {
            Err(e) => {
                return Err(e);
            },
            Ok(_) => {},
        }
        Ok(place_tracks(tracks, &file_sectors))
    }
}

} // verus!
