//! Finding the track and index that own a sector.

use vstd::prelude::*;
use crate::error::Cue2CCDError;
use crate::geometry::{Disc, DiscView, Index, Track, TrackView};
use crate::timecode::{LEAD_IN_SECTORS, SECTOR_SIZE};

verus! {

/// One sector of a disc, as the lookup computes it.
#[derive(Clone, Copy, Debug)]
pub struct Sector<'a> {
    /// Sector number, relative to the start of the image
    pub start: i64,
    /// Sector number, relative to the start of the disc
    pub absolute_start: i64,
    /// Position relative to index 1 of the track: negative in the pregap
    pub relative_position: i64,
    /// Size of the sector, in bytes
    pub size: usize,
    /// The track that owns the sector
    pub track: &'a Track,
    /// The index that owns the sector
    pub index: &'a Index,
}

impl DiscView {
    /// Whether the `i`-th index of the `k`-th track is the first, in the
    /// order of tracks and then of indices, to hold `sector`.
    pub open spec fn is_owner(self, k: int, i: int, sector: int) -> bool {
        self.holds(k, i, sector) && !self.held_before(k, i, sector)
    }

    /// The track and the index that own `sector`: the first to hold it.
    /// Meaningful where the disc covers `sector`.
    pub open spec fn owner(self, sector: int) -> (int, int) {
        choose|p: (int, int)| self.is_owner(p.0, p.1, sector)
    }

    /// The first track and index to hold a sector are the owner of it.
    pub proof fn lemma_owner_is_first(self, k: int, i: int, sector: int)
        requires
            self.is_owner(k, i, sector),
        ensures
            self.owner(sector) == (k, i),
            self.covers(sector),
    {
        // The pair is a witness for the choice that `owner` makes, and of two
        // pairs that hold the sector only the earlier is an owner.
        assert(self.is_owner((k, i).0, (k, i).1, sector));
    }

    /// Every sector that the disc covers has an owner, and the owner's index
    /// runs from a sector at or before it to one at or after it.
    pub proof fn lemma_covered_sector_has_owner(self, sector: int)
        requires
            self.wf(),
            self.covers(sector),
        ensures
            ({
                let (k, i) = self.owner(sector);
                &&& self.is_owner(k, i, sector)
                &&& 0 <= k < self.tracks.len()
                &&& 0 <= i < self.tracks[k].indices.len()
                &&& self.tracks[k].indices[i].start <= sector <= self.tracks[k].indices[i].end
            }),
    {
        let (k1, i1) = choose|k: int, i: int| #[trigger] self.holds(k, i, sector);
        self.lemma_first_holder_exists(k1, i1, sector);
    }

    proof fn lemma_first_holder_exists(self, k: int, i: int, sector: int)
        requires
            self.wf(),
            self.holds(k, i, sector),
        ensures
            exists|p: (int, int)| self.is_owner(p.0, p.1, sector),
        decreases k, i,
    {
        if self.held_before(k, i, sector) {
            let (k0, i0) = choose|k0: int, i0: int|
                (k0 < k || (k0 == k && i0 < i)) && #[trigger] self.holds(k0, i0, sector);
            self.lemma_first_holder_exists(k0, i0, sector);
        } else {
            assert(self.is_owner((k, i).0, (k, i).1, sector));
        }
    }
}

impl TrackView {
    /// Whether the indices follow one another: none starts before the one
    /// before it, and none starts more than one sector after the end of the
    /// track.
    pub open spec fn starts_ascend(self) -> bool {
        &&& forall|i: int, j: int|
            0 <= i < j < self.indices.len() ==> (#[trigger] self.indices[i]).start <= (
            #[trigger] self.indices[j]).start
        &&& forall|i: int|
            0 <= i < self.indices.len() ==> (#[trigger] self.indices[i]).start <= self.end_sector()
                + 1
    }

    /// Whether the track proper begins where the track starts: the track has
    /// an index 1, and it starts at the start of the track.
    pub open spec fn starts_at_index_one(self) -> bool {
        exists|i: int|
            0 <= i < self.indices.len() && (#[trigger] self.indices[i]).number == 1
                && self.indices[i].start == self.start
    }

    /// From the start of one of its indices to its end, a track leaves no
    /// sector out.
    pub proof fn lemma_track_is_covered(self, i: int, sector: int)
        requires
            0 <= i < self.indices.len(),
            self.indices[i].start <= sector <= self.end_sector(),
        ensures
            exists|j: int| self.index_holds(j, sector),
        decreases self.indices.len() - i,
    {
        if i + 1 < self.indices.len() && self.indices[i + 1].start <= sector {
            self.lemma_track_is_covered(i + 1, sector);
        } else {
            assert(self.index_holds(i, sector));
        }
    }

    /// In a track whose indices follow one another, no two indices hold the
    /// same sector, and a sector that an index holds lies between the start
    /// of the first index and the end of the track.
    pub proof fn lemma_one_index_holds(self, i: int, j: int, sector: int)
        requires
            self.starts_ascend(),
            self.index_holds(i, sector),
            self.index_holds(j, sector),
        ensures
            i == j,
            self.indices[0].start <= sector <= self.end_sector(),
    {
        if i < j {
            assert(self.indices[i + 1].start <= self.indices[j].start);
        }
        if j < i {
            assert(self.indices[j + 1].start <= self.indices[i].start);
        }
        if i + 1 < self.indices.len() {
            assert(self.indices[i + 1].start <= self.end_sector() + 1);
        }
    }

    /// The position within the track, which is the sector less the start of
    /// the track, tells the pregap from the track proper: in a track whose
    /// indices follow one another and whose index 1 starts at the start of
    /// the track, it is negative for a sector of index 0 and not negative for
    /// a sector of any other index.
    pub proof fn lemma_position_sign(self, i: int, sector: int)
        requires
            self.wf(),
            self.starts_ascend(),
            self.starts_at_index_one(),
            self.index_holds(i, sector),
        ensures
            self.indices[i].number == 0 ==> sector - self.start < 0,
            self.indices[i].number != 0 ==> sector - self.start >= 0,
    {
        let one = choose|j: int|
            0 <= j < self.indices.len() && (#[trigger] self.indices[j]).number == 1
                && self.indices[j].start == self.start;
        if self.indices[i].number == 0 {
            // Numbers ascend, so index 0 comes first and index 1 right after.
            if i > 0 {
                assert(self.indices[0].number < self.indices[i].number);
            }
            if one > 1 {
                assert(self.indices[0].number < self.indices[1].number);
                assert(self.indices[1].number < self.indices[one].number);
            }
            assert(i == 0 && one == 1);
        } else {
            if i < one {
                assert(self.indices[i].number < self.indices[one].number);
            }
            if one < i {
                assert(self.indices[one].start <= self.indices[i].start);
            }
        }
    }
}

impl DiscView {
    /// Whether the tracks lie one after the other from sector 0 to the last
    /// sector of the disc: every track has an index, the indices of a track
    /// follow one another, the first index of the first track starts at sector
    /// 0, the first index of every other track starts one sector after the
    /// end of the track before it, and the last track ends with the disc.
    pub open spec fn contiguous(self) -> bool {
        &&& self.sector_count > 0 ==> self.tracks.len() > 0
        &&& forall|k: int|
            0 <= k < self.tracks.len() ==> {
                &&& (#[trigger] self.tracks[k]).indices.len() > 0
                &&& self.tracks[k].starts_ascend()
            }
        &&& self.tracks.len() > 0 ==> self.tracks[0].indices[0].start == 0
        &&& forall|k: int|
            0 <= k && k + 1 < self.tracks.len() ==> (#[trigger] self.tracks[k + 1]).indices[0].start
                == self.tracks[k].end_sector() + 1
        &&& self.tracks.len() > 0 ==> self.tracks[self.tracks.len() - 1].end_sector()
            == self.sector_count - 1
    }

    /// On a disc whose tracks lie one after the other, exactly one track and
    /// index hold each sector of the disc.
    pub proof fn lemma_one_holder(self, sector: int)
        requires
            self.contiguous(),
            0 <= sector < self.sector_count,
        ensures
            self.covers(sector),
            forall|k1: int, i1: int, k2: int, i2: int|
                #[trigger] self.holds(k1, i1, sector) && #[trigger] self.holds(k2, i2, sector)
                    ==> k1 == k2 && i1 == i2,
    {
        self.lemma_covered_from(0, sector);
        assert forall|k1: int, i1: int, k2: int, i2: int|
            #[trigger] self.holds(k1, i1, sector) && #[trigger] self.holds(
                k2,
                i2,
                sector,
            ) implies k1 == k2 && i1 == i2 by {
            self.tracks[k1].lemma_one_index_holds(i1, i1, sector);
            self.tracks[k2].lemma_one_index_holds(i2, i2, sector);
            if k1 < k2 {
                // The later track starts after the end of the earlier one.
                self.lemma_ends_ascend(k1, k2 - 1);
                assert(self.tracks[k2 - 1 + 1].indices[0].start == self.tracks[k2
                    - 1].end_sector() + 1);
            } else if k2 < k1 {
                self.lemma_ends_ascend(k2, k1 - 1);
                assert(self.tracks[k1 - 1 + 1].indices[0].start == self.tracks[k1
                    - 1].end_sector() + 1);
            } else {
                self.tracks[k1].lemma_one_index_holds(i1, i2, sector);
            }
        }
    }

    /// Where the indices of every track follow one another and index 1 of
    /// every track starts at the start of the track, the position of a sector
    /// within its track is negative if index 0 owns the sector, and not
    /// negative if another index does.
    pub proof fn lemma_owner_position_sign(self, sector: int)
        requires
            self.wf(),
            forall|k: int|
                0 <= k < self.tracks.len() ==> (#[trigger] self.tracks[k]).starts_ascend()
                    && self.tracks[k].starts_at_index_one(),
            self.covers(sector),
        ensures
            ({
                let (k, i) = self.owner(sector);
                let position = sector - self.tracks[k].start;
                &&& self.tracks[k].indices[i].number == 0 ==> position < 0
                &&& self.tracks[k].indices[i].number != 0 ==> position >= 0
            }),
    {
        self.lemma_covered_sector_has_owner(sector);
        let (k, i) = self.owner(sector);
        self.tracks[k].lemma_position_sign(i, sector);
    }

    /// A disc whose tracks lie one after the other covers each of its
    /// sectors.
    pub proof fn lemma_contiguous_disc_is_covered(self, sector: int)
        requires
            self.contiguous(),
            0 <= sector < self.sector_count,
        ensures
            self.covers(sector),
    {
        self.lemma_covered_from(0, sector);
    }

    /// On a disc whose tracks lie one after the other, a later track does not
    /// end before an earlier one.
    proof fn lemma_ends_ascend(self, k: int, m: int)
        requires
            self.contiguous(),
            0 <= k <= m < self.tracks.len(),
        ensures
            self.tracks[k].end_sector() <= self.tracks[m].end_sector(),
        decreases m - k,
    {
        if k < m {
            self.lemma_ends_ascend(k, m - 1);
            assert(self.tracks[m - 1 + 1].indices[0].start == self.tracks[m - 1].end_sector() + 1);
            assert(self.tracks[m].indices[0].start <= self.tracks[m].end_sector() + 1);
        }
    }

    proof fn lemma_covered_from(self, k: int, sector: int)
        requires
            self.contiguous(),
            0 <= k < self.tracks.len(),
            self.tracks[k].indices[0].start <= sector < self.sector_count,
        ensures
            self.covers(sector),
        decreases self.tracks.len() - k,
    {
        if sector <= self.tracks[k].end_sector() {
            self.tracks[k].lemma_track_is_covered(0, sector);
            let j = choose|j: int| self.tracks[k].index_holds(j, sector);
            assert(self.holds(k, j, sector));
        } else {
            assert(self.tracks[k + 1].indices[0].start == self.tracks[k].end_sector() + 1);
            self.lemma_covered_from(k + 1, sector);
        }
    }
}

impl<'a> Sector<'a> {
    /// Whether this is the sector numbered `sector` of `disc`: it names the
    /// owning track and index, lies 150 sectors further from the start of the
    /// disc than from the start of the image, and counts its position from
    /// the start of the owning track.
    pub open spec fn is_sector_of(self, disc: DiscView, sector: int) -> bool {
        let (k, i) = disc.owner(sector);
        &&& disc.covers(sector)
        &&& self.start == sector
        &&& self.absolute_start == sector + LEAD_IN_SECTORS
        &&& self.relative_position == sector - disc.tracks[k].start
        &&& self.size == SECTOR_SIZE
        &&& self.track@ == disc.tracks[k]
        &&& *self.index == disc.tracks[k].indices[i]
    }
}

/// A walk over the sectors of a disc, from sector 0 to the last.
pub struct SectorIterator<'a> {
    current: i64,
    disc: &'a Disc,
}

impl Disc {
    /// A walk over the sectors of the disc, placed before sector 0.
    pub fn sectors(&self) -> (walk: SectorIterator<'_>)
        ensures
            walk.disc() == self@,
            walk.position() == 0,
    {
        SectorIterator { current: 0, disc: self }
    }
}

impl<'a> SectorIterator<'a> {
    /// The disc that is walked.
    pub closed spec fn disc(self) -> DiscView {
        self.disc@
    }

    /// The number of the sector that `next` yields.
    pub closed spec fn position(self) -> int {
        self.current as int
    }

    /// The sector numbered `sector`, if a track and index of the disc hold
    /// it. Where several do, the first in the order of tracks and then of
    /// indices owns the sector.
    pub fn sector_from_number(&self, sector: i64) -> (found: Option<Sector<'a>>)
        requires
            self.disc().wf(),
        ensures
            match found {
                Some(s) => {
                    &&& s.is_sector_of(self.disc(), sector as int)
                    &&& s.index.start <= sector <= s.index.end
                },
                None => !self.disc().covers(sector as int),
            },
    {
        let disc: &'a Disc = self.disc;
        let mut k: usize = 0;
        while k < disc.tracks.len()
            invariant
                disc@ == self.disc(),
                disc@.wf(),
                0 <= k <= disc.tracks@.len(),
                forall|k0: int, i0: int| k0 < k ==> !#[trigger] disc@.holds(k0, i0, sector as int),
            decreases disc.tracks@.len() - k,
        {
            let track: &'a Track = &disc.tracks[k];
            assert(track@ == disc@.tracks[k as int]);
            let mut i: usize = 0;
            while i < track.indices.len()
                invariant
                    disc@ == self.disc(),
                    disc@.wf(),
                    0 <= k < disc.tracks@.len(),
                    track@ == disc@.tracks[k as int],
                    track@.wf(),
                    0 <= i <= track.indices@.len(),
                    forall|k0: int, i0: int|
                        (k0 < k || (k0 == k && i0 < i)) ==> !#[trigger] disc@.holds(
                            k0,
                            i0,
                            sector as int,
                        ),
                decreases track.indices@.len() - i,
            {
                let index: &'a Index = &track.indices[i];
                // An index ends one sector before the next one starts, and
                // the last index with its track.
                let boundary: i64 = if i + 1 < track.indices.len() {
                    track.indices[i + 1].start - 1
                } else {
                    track.start + track.length - 1
                };
                if index.start <= sector && sector <= boundary {
                    proof {
                        disc@.lemma_owner_is_first(k as int, i as int, sector as int);
                    }
                    return Some(
                        Sector {
                            start: sector,
                            absolute_start: sector + LEAD_IN_SECTORS,
                            relative_position: sector - track.start,
                            size: SECTOR_SIZE,
                            track,
                            index,
                        },
                    );
                }
                i += 1;
            }
            k += 1;
        }
        None
    }

    /// The sector at the walk's position, after which the walk stands one
    /// sector further; `None` once every sector of the disc has been yielded.
    /// A sector that no track and index hold is reported, not skipped.
    pub fn next(&mut self) -> (item: Option<Result<Sector<'a>, Cue2CCDError>>)
        requires
            old(self).disc().wf(),
        ensures
            final(self).disc() == old(self).disc(),
            old(self).position() >= old(self).disc().sector_count ==> {
                &&& item is None
                &&& final(self).position() == old(self).position()
            },
            old(self).position() < old(self).disc().sector_count ==> {
                &&& final(self).position() == old(self).position() + 1
                &&& match item {
                    Some(Ok(s)) => s.is_sector_of(old(self).disc(), old(self).position()),
                    Some(Err(e)) => {
                        &&& !old(self).disc().covers(old(self).position())
                        &&& e == (Cue2CCDError::CoverageGap { sector: old(self).position() as i64 })
                    },
                    None => false,
                }
            },
    {
        if self.current >= self.disc.sector_count {
            return None;
        }
        let number: i64 = self.current;
        let found: Option<Sector<'a>> = self.sector_from_number(number);
        self.current = number + 1;
        match found {
            Some(s) => Some(Ok(s)),
            None => Some(Err(Cue2CCDError::CoverageGap { sector: number })),
        }
    }
}

} // verus!
