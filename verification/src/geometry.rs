//! The disc model: tracks, their indices, and the whole disc.

use vstd::prelude::*;

verus! {

/// Largest magnitude of a track's start and length, of an index's start and
/// of the sector count in a well-formed disc. Sums and differences of a few
/// such values fit an `i64`.
pub const MAX_DISC_SECTOR: i64 = 0x2000_0000_0000_0000;

/// How the sectors of a track are laid out.
#[derive(Clone, Copy, Debug, PartialEq, Eq, Structural)]
pub enum TrackMode {
    Audio,
    /// 2048-byte data without ECC
    Mode1,
    /// 2048-byte data with ECC
    Mode1Raw,
    /// 2336-byte data without ECC
    Mode2,
    /// 2048-byte data (CD-ROM XA)
    Mode2Form1,
    /// 2324-byte data (CD-ROM XA)
    Mode2Form2,
    /// 2332-byte data (CD-ROM XA)
    Mode2FormMix,
    /// 2336-byte data with ECC
    Mode2Raw,
}

impl TrackMode {
    /// The mode number of the control file: 0 for audio, 1 for mode 1 data,
    /// 2 for mode 2 data.
    pub open spec fn code(self) -> int {
        match self {
            TrackMode::Audio => 0,
            TrackMode::Mode1 | TrackMode::Mode1Raw => 1,
            TrackMode::Mode2
            | TrackMode::Mode2Raw
            | TrackMode::Mode2Form1
            | TrackMode::Mode2Form2
            | TrackMode::Mode2FormMix => 2,
        }
    }

    /// Whether sectors of this mode come without their raw framing.
    pub open spec fn is_cooked(self) -> bool {
        self is Mode1 || self is Mode2 || self is Mode2Form1 || self is Mode2Form2
    }

    /// The mode number that the control file gives for the mode.
    pub fn as_u8(&self) -> (code: u8)
        ensures
            code == self.code(),
    {
        match self {
            TrackMode::Audio => 0,
            TrackMode::Mode1 | TrackMode::Mode1Raw => 1,
            TrackMode::Mode2
            | TrackMode::Mode2Raw
            | TrackMode::Mode2Form1
            | TrackMode::Mode2Form2
            | TrackMode::Mode2FormMix => 2,
        }
    }
}

/// A stretch of a track. Index 0 is the pregap, indices from 1 on are the
/// track proper.
#[derive(Clone, Copy, Debug, PartialEq, Eq, Structural)]
pub struct Index {
    /// Number of the index within its track
    pub number: u8,
    /// First sector of the index
    pub start: i64,
    /// Last sector of the index
    pub end: i64,
}

/// One track of a disc.
#[derive(Clone, Debug, PartialEq, Eq)]
pub struct Track {
    pub number: u8,
    /// Sector at which index 1 of the track begins
    pub start: i64,
    /// Sectors from `start` to the end of the track, the last one counted
    pub length: i64,
    pub indices: Vec<Index>,
    pub mode: TrackMode,
}

/// What a `Track` holds, as the contracts see it.
pub struct TrackView {
    pub number: u8,
    pub start: i64,
    pub length: i64,
    pub indices: Seq<Index>,
    pub mode: TrackMode,
}

impl View for Track {
    type V = TrackView;

    open spec fn view(&self) -> TrackView {
        TrackView {
            number: self.number,
            start: self.start,
            length: self.length,
            indices: self.indices@,
            mode: self.mode,
        }
    }
}

impl TrackView {
    /// The last sector of the track.
    pub open spec fn end_sector(self) -> int {
        self.start + self.length - 1
    }

    /// The last sector of the `i`-th index: the sector before the next index
    /// where there is one, else the last sector of the track.
    pub open spec fn boundary(self, i: int) -> int {
        if i + 1 < self.indices.len() {
            self.indices[i + 1].start - 1
        } else {
            self.end_sector()
        }
    }

    /// Whether the `i`-th index holds `sector`.
    pub open spec fn index_holds(self, i: int, sector: int) -> bool {
        &&& 0 <= i < self.indices.len()
        &&& self.indices[i].start <= sector <= self.boundary(i)
    }

    /// The invariant of a track: a number from 1 to 99, indices in ascending
    /// order of number, each ending where `boundary` says, and magnitudes
    /// within `MAX_DISC_SECTOR`.
    pub open spec fn wf(self) -> bool {
        &&& 1 <= self.number <= 99
        &&& -MAX_DISC_SECTOR <= self.start <= MAX_DISC_SECTOR
        &&& -MAX_DISC_SECTOR <= self.length <= MAX_DISC_SECTOR
        &&& self.indices.len() <= 100
        &&& forall|i: int|
            0 <= i < self.indices.len() ==> {
                &&& (#[trigger] self.indices[i]).number <= 99
                &&& -MAX_DISC_SECTOR <= self.indices[i].start <= MAX_DISC_SECTOR
                &&& self.indices[i].end == self.boundary(i)
            }
        &&& forall|i: int, j: int|
            0 <= i < j < self.indices.len() ==> (#[trigger] self.indices[i]).number < (
            #[trigger] self.indices[j]).number
    }
}

impl Track {
    /// Tells whether the track keeps the invariant of tracks.
    pub fn is_valid(&self) -> (ok: bool)
        ensures
            ok == self@.wf(),
    {
        if self.number < 1 || self.number > 99 || self.start < -MAX_DISC_SECTOR || self.start
            > MAX_DISC_SECTOR || self.length < -MAX_DISC_SECTOR || self.length > MAX_DISC_SECTOR
            || self.indices.len() > 100 {
            return false;
        }
        let count: usize = self.indices.len();
        let mut i: usize = 0;
        while i < count
            invariant
                count == self.indices@.len(),
                i <= count,
                forall|j: int|
                    0 <= j < i ==> {
                        &&& (#[trigger] self.indices@[j]).number <= 99
                        &&& -MAX_DISC_SECTOR <= self.indices@[j].start <= MAX_DISC_SECTOR
                    },
            decreases count - i,
        {
            let index: &Index = &self.indices[i];
            if index.number > 99 || index.start < -MAX_DISC_SECTOR || index.start
                > MAX_DISC_SECTOR {
                return false;
            }
            i += 1;
        }
        let mut i: usize = 0;
        while i < count
            invariant
                count == self.indices@.len(),
                i <= count,
                -MAX_DISC_SECTOR <= self.start <= MAX_DISC_SECTOR,
                -MAX_DISC_SECTOR <= self.length <= MAX_DISC_SECTOR,
                forall|j: int|
                    0 <= j < count ==> -MAX_DISC_SECTOR <= (#[trigger] self.indices@[j]).start
                        <= MAX_DISC_SECTOR,
                forall|j: int| 0 <= j < i ==> (#[trigger] self.indices@[j]).end == self@.boundary(j),
                forall|a: int, b: int|
                    0 <= a < b < count && b <= i ==> (#[trigger] self.indices@[a]).number < (
                    #[trigger] self.indices@[b]).number,
            decreases count - i,
        {
            let boundary: i64 = if i + 1 < count {
                self.indices[i + 1].start - 1
            } else {
                self.start + self.length - 1
            };
            if self.indices[i].end != boundary {
                return false;
            }
            if i + 1 < count && self.indices[i].number >= self.indices[i + 1].number {
                return false;
            }
            i += 1;
        }
        true
    }
}

/// A whole disc: its tracks in order and the size of its address space.
#[derive(Clone, Debug, PartialEq, Eq)]
pub struct Disc {
    pub tracks: Vec<Track>,
    /// Sectors in all the files of the image together
    pub sector_count: i64,
}

/// What a `Disc` holds, as the contracts see it.
pub struct DiscView {
    pub tracks: Seq<TrackView>,
    pub sector_count: i64,
}

impl View for Disc {
    type V = DiscView;

    open spec fn view(&self) -> DiscView {
        DiscView {
            tracks: Seq::new(self.tracks@.len(), |k: int| self.tracks@[k]@),
            sector_count: self.sector_count,
        }
    }
}

impl DiscView {
    /// The invariant of a disc: at most 99 well-formed tracks, numbered from 1
    /// without a gap, and a sector count within `MAX_DISC_SECTOR`.
    pub open spec fn wf(self) -> bool {
        &&& self.tracks.len() <= 99
        &&& -MAX_DISC_SECTOR <= self.sector_count <= MAX_DISC_SECTOR
        &&& forall|k: int|
            0 <= k < self.tracks.len() ==> {
                &&& (#[trigger] self.tracks[k]).wf()
                &&& self.tracks[k].number == k + 1
            }
    }

    /// Whether the `i`-th index of the `k`-th track holds `sector`.
    pub open spec fn holds(self, k: int, i: int, sector: int) -> bool {
        &&& 0 <= k < self.tracks.len()
        &&& self.tracks[k].index_holds(i, sector)
    }

    /// Whether a track and index before the `i`-th index of the `k`-th track,
    /// in the order of tracks and then of indices, hold `sector`.
    pub open spec fn held_before(self, k: int, i: int, sector: int) -> bool {
        exists|k0: int, i0: int|
            (k0 < k || (k0 == k && i0 < i)) && #[trigger] self.holds(k0, i0, sector)
    }

    /// Whether some track and index hold `sector`.
    pub open spec fn covers(self, sector: int) -> bool {
        exists|k: int, i: int| #[trigger] self.holds(k, i, sector)
    }
}

impl Disc {
    /// Tells whether the disc keeps the invariant of discs.
    pub fn is_valid(&self) -> (ok: bool)
        ensures
            ok == self@.wf(),
    {
        if self.tracks.len() > 99 || self.sector_count < -MAX_DISC_SECTOR || self.sector_count
            > MAX_DISC_SECTOR {
            return false;
        }
        let mut k: usize = 0;
        while k < self.tracks.len()
            invariant
                k <= self.tracks@.len() <= 99,
                forall|j: int|
                    0 <= j < k ==> {
                        &&& (#[trigger] self@.tracks[j]).wf()
                        &&& self@.tracks[j].number == j + 1
                    },
            decreases self.tracks@.len() - k,
        {
            let track: &Track = &self.tracks[k];
            assert(track@ == self@.tracks[k as int]);
            if !track.is_valid() || track.number as usize != k + 1 {
                return false;
            }
            k += 1;
        }
        true
    }
}

} // verus!
