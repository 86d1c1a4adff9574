//! The control file: the table of contents of the disc as text.

use vstd::prelude::*;
use vstd::string::*;
use crate::geometry::{Disc, DiscView, Index, Track, TrackMode, TrackView};
use crate::text::{append_decimal, append_hex_byte, append_unsigned, decimal, hex_byte};
use crate::timecode::{lba_to_msf, msf_frac, msf_min, msf_sec, LEAD_IN_SECTORS};

verus! {

/// What an entry of the table of contents points at.
// For more detail, see section 22.3.4.2 of ECMA-130.
#[derive(Clone, Copy, Debug, PartialEq, Eq, Structural)]
pub enum Pointer {
    /// A track, by its number
    Track(u8),
    /// The first track of the disc
    FirstTrack,
    /// The last track of the disc
    LastTrack,
    /// The leadout, which follows the last track
    LeadOut,
}

impl Pointer {
    /// The byte that stands for the pointer: the number of a track, or one of
    /// the codes A0, A1 and A2.
    pub open spec fn code(self) -> u8 {
        match self {
            Pointer::Track(value) => value,
            Pointer::FirstTrack => 0xA0,
            Pointer::LastTrack => 0xA1,
            Pointer::LeadOut => 0xA2,
        }
    }

    /// The byte that the control file gives for the pointer.
    pub fn as_u8(&self) -> (code: u8)
        ensures
            code == self.code(),
    {
        match self {
            Pointer::Track(value) => *value,
            Pointer::FirstTrack => 0xA0,
            Pointer::LastTrack => 0xA1,
            Pointer::LeadOut => 0xA2,
        }
    }
}

/// The control nibble of a track: 0 for audio, 4 for data that may be copied.
pub open spec fn control_code(mode: TrackMode) -> u8 {
    if mode is Audio {
        0
    } else {
        4
    }
}

/// The lines `INDEX <number>=<start>`, one for each index.
pub open spec fn index_lines(indices: Seq<Index>) -> Seq<char>
    decreases indices.len(),
{
    if indices.len() == 0 {
        Seq::empty()
    } else {
        index_lines(indices.drop_last()) + "INDEX "@ + decimal(indices.last().number as int) + "="@
            + decimal(indices.last().start as int) + "\n"@
    }
}

/// The block that lists the mode and the indices of a track. Like every
/// block of the control file it ends with an empty line.
pub open spec fn track_block_text(track: TrackView) -> Seq<char> {
    "[TRACK "@ + decimal(track.number as int) + "]\nMODE="@ + decimal(track.mode.code()) + "\n"@
        + index_lines(track.indices) + "\n"@
}

impl DiscView {
    /// Whether the numbers in the table of contents can be computed: the
    /// number of entries stays within a `usize`, and the sector count and the
    /// start of every track stay within an `i64` when the 150 sectors of the
    /// lead-in are added.
    pub open spec fn fits_toc(self) -> bool {
        &&& self.tracks.len() + 3 <= usize::MAX
        &&& self.sector_count + LEAD_IN_SECTORS <= i64::MAX
        &&& forall|k: int|
            0 <= k < self.tracks.len() ==> (#[trigger] self.tracks[k]).start + LEAD_IN_SECTORS
                <= i64::MAX
    }

    /// The sector that an entry gives for `pointer`. For the first and the
    /// last track this is by convention the track number taken as minutes,
    /// less the lead-in; for the leadout it is the sector count of the disc,
    /// and for a track its start.
    pub open spec fn pointer_lba(self, pointer: Pointer, track: TrackView) -> int {
        match pointer {
            Pointer::FirstTrack | Pointer::LastTrack => track.number * 4500 - LEAD_IN_SECTORS,
            Pointer::LeadOut => self.sector_count as int,
            Pointer::Track(_) => track.start as int,
        }
    }

    /// Minute, second and frame that an entry gives for `pointer`: the track
    /// number as minutes for the first and the last track, else the timecode
    /// of the entry's sector counted from the start of the lead-in.
    pub open spec fn pointer_msf(self, pointer: Pointer, track: TrackView) -> (int, int, int) {
        match pointer {
            Pointer::FirstTrack | Pointer::LastTrack => (track.number as int, 0, 0),
            _ => {
                let lba = self.pointer_lba(pointer, track) + LEAD_IN_SECTORS;
                (msf_min(lba), msf_sec(lba), msf_frac(lba))
            },
        }
    }

    /// The text of entry number `entry`, which points at `pointer` and takes
    /// its control nibble from `track`.
    pub open spec fn entry_text(self, entry: int, pointer: Pointer, track: TrackView) -> Seq<char> {
        let msf = self.pointer_msf(pointer, track);
        "[Entry "@ + decimal(entry) + "]\nSession=1\nPoint=0x"@ + hex_byte(pointer.code() as int)
            + "\nADR=0x01\nControl=0x"@ + hex_byte(control_code(track.mode) as int)
            + "\nTrackNo=0\nAMin=0\nASec=0\nAFrame=0\nALBA=-150\nZero=0\nPMin="@ + decimal(msf.0)
            + "\nPSec="@ + decimal(msf.1) + "\nPFrame="@ + decimal(msf.2) + "\nPLBA="@ + decimal(
            self.pointer_lba(pointer, track),
        ) + "\n\n"@
    }

    /// The head of the control file: version, number of entries, which is
    /// three more than there are tracks, and the pregap mode, which is the
    /// mode of the first track.
    pub open spec fn header_text(self) -> Seq<char> {
        "[CloneCD]\nVersion=3\n\n[Disc]\nTocEntries="@ + decimal(self.tracks.len() as int + 3)
            + "\nSessions=1\nDataTracksScrambled=0\nCDTextLength=0\n\n[Session 1]\nPreGapMode="@
            + decimal(self.tracks[0].mode.code()) + "\nPreGapSubC=0\n\n"@
    }

    /// The entries of the first `n` tracks; the entry of a track has the
    /// number of the track's place in the disc plus three.
    pub open spec fn track_entries_text(self, n: int) -> Seq<char>
        decreases n,
    {
        if n <= 0 {
            Seq::empty()
        } else {
            self.track_entries_text(n - 1) + self.entry_text(
                n + 2,
                Pointer::Track(self.tracks[n - 1].number),
                self.tracks[n - 1],
            )
        }
    }

    /// The blocks of the first `n` tracks.
    pub open spec fn track_blocks_text(self, n: int) -> Seq<char>
        decreases n,
    {
        if n <= 0 {
            Seq::empty()
        } else {
            self.track_blocks_text(n - 1) + track_block_text(self.tracks[n - 1])
        }
    }

    /// The whole control file: the head, the entries for the first track, the
    /// last track and the leadout, one entry for each track, and one block
    /// for each track. An empty line follows each of these parts.
    pub open spec fn ccd_text(self) -> Seq<char> {
        let last = self.tracks[self.tracks.len() - 1];
        self.header_text() + self.entry_text(0, Pointer::FirstTrack, self.tracks[0])
            + self.entry_text(1, Pointer::LastTrack, last) + self.entry_text(
            2,
            Pointer::LeadOut,
            last,
        ) + self.track_entries_text(self.tracks.len() as int) + self.track_blocks_text(
            self.tracks.len() as int,
        )
    }

}

impl Disc {
    /// Writes the control file of the disc as text.
    pub fn generate_ccd(&self) -> (ccd: String)
        requires
            self@.tracks.len() > 0,
            self@.fits_toc(),
        ensures
            ccd@ == self@.ccd_text(),
    {
        let mut result: String = self.generate_header();
        let first_track: &Track = &self.tracks[0];
        let last_track: &Track = &self.tracks[self.tracks.len() - 1];
        assert(last_track@ == self@.tracks[self@.tracks.len() - 1]);

        // The entries for the first and the last track come before those of
        // the tracks themselves.
        let first: String = self.generate_track(0, Pointer::FirstTrack, first_track);
        result.append(first.as_str());
        let last: String = self.generate_track(1, Pointer::LastTrack, last_track);
        result.append(last.as_str());
        let leadout: String = self.generate_track(2, Pointer::LeadOut, last_track);
        result.append(leadout.as_str());
        let ghost head = result@;

        let mut k: usize = 0;
        while k < self.tracks.len()
            invariant
                self@.fits_toc(),
                k <= self.tracks@.len(),
                result@ == head + self@.track_entries_text(k as int),
            decreases self.tracks@.len() - k,
        {
            let track: &Track = &self.tracks[k];
            assert(track@ == self@.tracks[k as int]);
            let entry: String = self.generate_track(k + 3, Pointer::Track(track.number), track);
            result.append(entry.as_str());
            k += 1;
        }
        let ghost entries = result@;

        // Next comes the list of the tracks with their indices.
        let mut k: usize = 0;
        while k < self.tracks.len()
            invariant
                k <= self.tracks@.len(),
                result@ == entries + self@.track_blocks_text(k as int),
            decreases self.tracks@.len() - k,
        {
            let track: &Track = &self.tracks[k];
            let block: String = self.generate_track_entry(track);
            result.append(block.as_str());
            k += 1;
        }
        result
    }

    /// Writes the head of the control file.
    fn generate_header(&self) -> (text: String)
        requires
            self@.tracks.len() > 0,
            self@.tracks.len() + 3 <= usize::MAX,
        ensures
            text@ == self@.header_text(),
    {
        let mut result: String = String::new();
        // Many values here are fixed: a disc has one session, no scrambled
        // tracks and no CD-TEXT.
        result.append("[CloneCD]\nVersion=3\n\n[Disc]\nTocEntries=");
        // Three entries more than there are tracks: first track, last track
        // and leadout.
        append_unsigned(&mut result, (self.tracks.len() + 3) as u64);
        result.append(
            "\nSessions=1\nDataTracksScrambled=0\nCDTextLength=0\n\n[Session 1]\nPreGapMode=",
        );
        // The mode of the first track; even on a mixed-mode disc this is
        // given once.
        let first_track: &Track = &self.tracks[0];
        append_unsigned(&mut result, first_track.mode.as_u8() as u64);
        result.append("\nPreGapSubC=0\n\n");
        result
    }

    /// Writes one entry of the table of contents.
    pub fn generate_track(&self, entry: usize, pointer: Pointer, track: &Track) -> (text: String)
        requires
            self.sector_count + LEAD_IN_SECTORS <= i64::MAX,
            track.start + LEAD_IN_SECTORS <= i64::MAX,
        ensures
            text@ == self@.entry_text(entry as int, pointer, track@),
    {
        let mut result: String = String::new();
        result.append("[Entry ");
        append_unsigned(&mut result, entry as u64);
        result.append("]\nSession=1\nPoint=0x");
        append_hex_byte(&mut result, pointer.as_u8());

        // The position is not always the true one: for the first and the
        // last track it is the track number in place of the minutes.
        let lba: i64;
        let msf: (i64, i64, i64);
        match pointer {
            Pointer::FirstTrack | Pointer::LastTrack => {
                lba = track.number as i64 * 4500 - LEAD_IN_SECTORS;
                msf = (track.number as i64, 0, 0);
            },
            Pointer::LeadOut => {
                lba = self.sector_count;
                // Minute, second and frame count the 150 sectors of the
                // lead-in; the sector does not.
                msf = lba_to_msf(lba + LEAD_IN_SECTORS);
            },
            Pointer::Track(_) => {
                lba = track.start;
                msf = lba_to_msf(track.start + LEAD_IN_SECTORS);
            },
        }

        result.append("\nADR=0x01\nControl=0x");
        let control: u8 = match track.mode {
            // Audio track, all bits 0
            TrackMode::Audio => 0,
            // Data with copy flag set - 0100
            _ => 4,
        };
        append_hex_byte(&mut result, control);
        result.append("\nTrackNo=0\nAMin=0\nASec=0\nAFrame=0\nALBA=-150\nZero=0\nPMin=");
        append_decimal(&mut result, msf.0);
        result.append("\nPSec=");
        append_decimal(&mut result, msf.1);
        result.append("\nPFrame=");
        append_decimal(&mut result, msf.2);
        result.append("\nPLBA=");
        append_decimal(&mut result, lba);
        result.append("\n\n");
        result
    }

    /// Writes the block that lists the mode and the indices of a track, and
    /// the empty line that ends the block.
    pub fn generate_track_entry(&self, track: &Track) -> (text: String)
        ensures
            text@ == track_block_text(track@),
    {
        let mut result: String = String::new();
        result.append("[TRACK ");
        append_unsigned(&mut result, track.number as u64);
        result.append("]\nMODE=");
        append_unsigned(&mut result, track.mode.as_u8() as u64);
        result.append("\n");
        let ghost head = result@;

        let mut i: usize = 0;
        while i < track.indices.len()
            invariant
                i <= track.indices@.len(),
                result@ == head + index_lines(track.indices@.take(i as int)),
            decreases track.indices@.len() - i,
        {
            let index: &Index = &track.indices[i];
            result.append("INDEX ");
            append_unsigned(&mut result, index.number as u64);
            result.append("=");
            append_decimal(&mut result, index.start);
            result.append("\n");
            proof {
                assert(track.indices@.take(i + 1).drop_last() =~= track.indices@.take(i as int));
            }
            i += 1;
        }
        assert(track.indices@.take(i as int) =~= track.indices@);
        // An empty line parts the block from the next one.
        result.append("\n");
        result
    }
}

} // verus!
