//! Conversion of raw CD images described by a cuesheet into the CloneCD
//! format: a control file, which holds the table of contents as text, and a
//! subchannel file, which holds 96 bytes of P and Q channel data for every
//! sector.
//!
//! - [`cuesheet`] holds what a cuesheet says of each track, and the checks
//!   that cuesheets have to pass.
//! - [`builder`] places the tracks in the image and builds the disc of
//!   [`geometry`].
//! - [`locator`] finds the track and index that own a sector.
//! - [`subchannel`] synthesizes the subchannel data of a sector, and lays
//!   over it what [`protection`] has read from a sidecar file.
//! - [`toc`] writes the control file.
//! - [`conversion`] does all of this in one call.
//!
//! Every function states what it returns in terms of the `spec` functions
//! beside it, and is verified against that statement. The one thing taken on
//! trust is the checksum of the Q channel, which the crate `cdrom_crc`
//! computes: the contracts give it a name, [`subchannel::crc16_checksum`],
//! and say nothing of its value.

pub mod builder;
pub mod conversion;
pub mod cuesheet;
pub mod error;
pub mod geometry;
pub mod locator;
pub mod protection;
pub mod subchannel;
pub mod text;
pub mod timecode;
pub mod toc;

pub use conversion::{check_convertible, convert, Conversion, Sidecar};
pub use cuesheet::{
    check_cue_input, check_files_present, get_unique_tracks, validate_mode, CueTrack,
};
pub use error::Cue2CCDError;
pub use geometry::{Disc, Index, Track, TrackMode};
pub use locator::{Sector, SectorIterator};
pub use protection::{
    check_protection, choose_sidecar, detect_protection, generate_lsd_data, generate_sbi_data,
    DiscProtection, SidecarFormat,
};
pub use subchannel::{apply_override, q_payload, seal_q, CRC16_INITIAL_CRC, SUBCHANNEL_SIZE};
pub use timecode::{amsf_to_asec, bcd, lba_to_msf, sector_length};
pub use toc::Pointer;
