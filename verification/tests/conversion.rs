use cdrom::{
    check_convertible, convert, Cue2CCDError, CueTrack, Disc, DiscProtection, Index, Sidecar,
    SidecarFormat, Track, TrackMode,
};

fn one_track() -> Vec<CueTrack> {
    vec![CueTrack {
        filename: "basic_image.bin".to_string(),
        start: 0,
        length: None,
        indices: vec![None, Some(0)],
        mode: TrackMode::Mode1Raw,
    }]
}

fn two_tracks() -> Vec<CueTrack> {
    vec![
        CueTrack {
            filename: "disc (Track 1).bin".to_string(),
            start: 0,
            length: None,
            indices: vec![None, Some(0)],
            mode: TrackMode::Mode2Raw,
        },
        CueTrack {
            filename: "disc (Track 2).bin".to_string(),
            start: 150,
            length: None,
            indices: vec![Some(0), Some(150)],
            mode: TrackMode::Audio,
        },
    ]
}

fn lsd_file(entries: usize) -> Vec<u8> {
    let mut data = vec![];
    for n in 0..entries {
        data.extend_from_slice(&[(n / 75) as u8, 2, (n % 75) as u8]);
        data.extend_from_slice(&[n as u8; 12]);
    }
    data
}

fn sbi_file(entries: usize) -> Vec<u8> {
    let mut data = vec![0x53, 0x42, 0x49, 0x00];
    for n in 0..entries {
        data.extend_from_slice(&[(n / 75) as u8, 2, (n % 75) as u8, 1]);
        data.extend_from_slice(&[n as u8; 10]);
    }
    data
}

#[test]
fn single_track_image_of_150_sectors() {
    let done = convert(&one_track(), &vec![Some(150 * 2352)], None, None).unwrap();
    assert_eq!(done.protection, None);
    assert!(done.ccd.starts_with("[CloneCD]\nVersion=3\n\n[Disc]\nTocEntries=4\n"));
    assert!(done.ccd.ends_with("[TRACK 1]\nMODE=1\nINDEX 1=0\n\n"));
    assert_eq!(done.sub.len(), 96 * 150);
    assert_eq!(done.sub[..12], [0xFF; 12]);
    assert_eq!(
        done.sub[12..24],
        [0x41, 0x01, 0x01, 0x00, 0x00, 0x00, 0x00, 0x00, 0x02, 0x00, 0x28, 0x32]
    );
    assert_eq!(done.sub[24..96], [0x00; 72]);
    assert_eq!(done.sub[96..108], [0x00; 12]);
    assert_eq!(
        done.sub[108..120],
        [0x41, 0x01, 0x01, 0x00, 0x00, 0x01, 0x00, 0x00, 0x02, 0x01, 0x92, 0x42]
    );
}

#[test]
fn conversion_agrees_with_the_disc_built_by_hand() {
    let disc = Disc {
        tracks: vec![
            Track {
                number: 1,
                start: 0,
                length: 300,
                indices: vec![Index { number: 1, start: 0, end: 299 }],
                mode: TrackMode::Mode2Raw,
            },
            Track {
                number: 2,
                start: 450,
                length: 300,
                indices: vec![
                    Index { number: 0, start: 300, end: 449 },
                    Index { number: 1, start: 450, end: 749 },
                ],
                mode: TrackMode::Audio,
            },
        ],
        sector_count: 750,
    };
    let done =
        convert(&two_tracks(), &vec![Some(300 * 2352), Some(450 * 2352 + 7)], None, None).unwrap();
    assert_eq!(done.ccd, disc.generate_ccd());
    assert_eq!(done.sub, disc.generate_sub(None).unwrap());
    assert_eq!(done.sub.len(), 96 * 750);
    // Sector 301 lies in the pregap of track 2.
    let at = 96 * 301;
    assert_eq!(done.sub[at..at + 12], [0xFF; 12]);
    assert_eq!(
        done.sub[at + 12..at + 24],
        [0x01, 0x02, 0x00, 0x00, 0x01, 0x74, 0x00, 0x00, 0x06, 0x01, 0x3D, 0x7A]
    );
    // Sector 450 is the first of track 2 proper.
    let at = 96 * 450;
    assert_eq!(done.sub[at..at + 12], [0x00; 12]);
    assert_eq!(
        done.sub[at + 12..at + 24],
        [0x01, 0x02, 0x01, 0x00, 0x00, 0x00, 0x00, 0x00, 0x08, 0x00, 0x98, 0xA7]
    );
}

#[test]
fn converting_twice_gives_the_same_files() {
    let sidecar = Sidecar { format: SidecarFormat::Lsd, data: lsd_file(76) };
    let lengths = vec![Some(300 * 2352), Some(450 * 2352)];
    let first = convert(&two_tracks(), &lengths, Some(sidecar.clone()), None).unwrap();
    let second = convert(&two_tracks(), &lengths, Some(sidecar), None).unwrap();
    assert_eq!(first.ccd, second.ccd);
    assert_eq!(first.sub, second.sub);
    assert_eq!(first, second);
}

#[test]
fn an_lsd_sidecar_replaces_whole_q_channels() {
    let sidecar = Sidecar { format: SidecarFormat::Lsd, data: lsd_file(76) };
    let plain = convert(&one_track(), &vec![Some(150 * 2352)], None, None).unwrap();
    let done = convert(&one_track(), &vec![Some(150 * 2352)], Some(sidecar), None).unwrap();
    assert_eq!(done.protection, Some(DiscProtection::DiscGuardScheme2));
    assert_eq!(done.ccd, plain.ccd);
    // Up to 74, entry n speaks of the sector at 2 seconds and n frames, which
    // is sector n of the image; the last entry lies past the end of the disc.
    for n in 0..75usize {
        let at = 96 * n;
        assert_eq!(done.sub[at..at + 12], plain.sub[at..at + 12]);
        assert_eq!(done.sub[at + 12..at + 24], [n as u8; 12]);
        assert_eq!(done.sub[at + 24..at + 96], [0u8; 72]);
    }
    assert_eq!(done.sub[96 * 75..], plain.sub[96 * 75..]);
}

#[test]
fn an_sbi_sidecar_leaves_the_checksum() {
    let sidecar = Sidecar { format: SidecarFormat::Sbi, data: sbi_file(3) };
    let plain = convert(&one_track(), &vec![Some(150 * 2352)], None, None).unwrap();
    let done = convert(&one_track(), &vec![Some(150 * 2352)], Some(sidecar), None).unwrap();
    assert_eq!(done.protection, None);
    for n in 0..3usize {
        let at = 96 * n;
        assert_eq!(done.sub[at + 12..at + 22], [n as u8; 10]);
        assert_eq!(done.sub[at + 22..at + 24], plain.sub[at + 22..at + 24]);
    }
    assert_eq!(done.sub[96 * 3..], plain.sub[96 * 3..]);
}

#[test]
fn a_sidecar_of_600_entries_gives_the_first_discguard_scheme() {
    let sidecar = Sidecar { format: SidecarFormat::Sbi, data: sbi_file(600) };
    let done = convert(
        &one_track(),
        &vec![Some(150 * 2352)],
        Some(sidecar),
        Some(DiscProtection::DiscGuard),
    )
    .unwrap();
    assert_eq!(done.protection, Some(DiscProtection::DiscGuardScheme1));
}

#[test]
fn a_sidecar_that_does_not_fit_the_request_ends_the_conversion() {
    let lsd = Sidecar { format: SidecarFormat::Lsd, data: lsd_file(76) };
    assert_eq!(
        convert(
            &one_track(),
            &vec![Some(150 * 2352)],
            Some(lsd),
            Some(DiscProtection::DiscGuardScheme1)
        ),
        Err(Cue2CCDError::InvalidProtectionLSDError)
    );
    let sbi = Sidecar { format: SidecarFormat::Sbi, data: sbi_file(5) };
    assert_eq!(
        convert(&one_track(), &vec![Some(150 * 2352)], Some(sbi), Some(DiscProtection::DiscGuard)),
        Err(Cue2CCDError::InvalidProtectionSBIError)
    );
}

#[test]
fn without_a_sidecar_the_request_is_not_held_against_anything() {
    let done = convert(
        &one_track(),
        &vec![Some(150 * 2352)],
        None,
        Some(DiscProtection::DiscGuardScheme1),
    )
    .unwrap();
    assert_eq!(done.protection, None);
}

#[test]
fn an_sbi_sidecar_without_magic_ends_the_conversion() {
    let sidecar = Sidecar { format: SidecarFormat::Sbi, data: lsd_file(2) };
    assert_eq!(
        convert(&one_track(), &vec![Some(150 * 2352)], Some(sidecar), None),
        Err(Cue2CCDError::InvalidSBIError)
    );
}

#[test]
fn wave_files_end_the_conversion() {
    let mut tracks = two_tracks();
    tracks[1].filename = "disc (Track 2).wav".to_string();
    assert_eq!(
        convert(&tracks, &vec![Some(300 * 2352), None], None, None),
        Err(Cue2CCDError::WaveFile)
    );
}

#[test]
fn cooked_data_ends_the_conversion() {
    let mut tracks = two_tracks();
    tracks[0].mode = TrackMode::Mode1;
    assert_eq!(
        convert(&tracks, &vec![None, None], None, None),
        Err(Cue2CCDError::CookedData)
    );
}

#[test]
fn missing_files_end_the_conversion() {
    assert_eq!(
        convert(&two_tracks(), &vec![Some(300 * 2352), None], None, None),
        Err(Cue2CCDError::MissingFilesError {
            missing_files: vec!["disc (Track 2).bin".to_string()]
        })
    );
    // Missing files are told before a look at the sidecar.
    let sidecar = Sidecar { format: SidecarFormat::Sbi, data: vec![] };
    assert_eq!(
        convert(&two_tracks(), &vec![None, None], Some(sidecar), None),
        Err(Cue2CCDError::MissingFilesError {
            missing_files: vec!["disc (Track 1).bin".to_string(), "disc (Track 2).bin".to_string()]
        })
    );
}

#[test]
fn a_sector_that_no_track_holds_ends_the_conversion() {
    // The only index starts at sector 10 of a file of 100 sectors.
    let tracks = vec![CueTrack {
        filename: "late.bin".to_string(),
        start: 10,
        length: None,
        indices: vec![None, Some(10)],
        mode: TrackMode::Audio,
    }];
    assert_eq!(
        convert(&tracks, &vec![Some(100 * 2352)], None, None),
        Err(Cue2CCDError::CoverageGap { sector: 0 })
    );
    // The track holds the first 40 sectors of a file of 100 sectors.
    let tracks = vec![CueTrack {
        filename: "short.bin".to_string(),
        start: 0,
        length: Some(40),
        indices: vec![None, Some(0)],
        mode: TrackMode::Audio,
    }];
    assert_eq!(
        convert(&tracks, &vec![Some(100 * 2352)], None, None),
        Err(Cue2CCDError::CoverageGap { sector: 40 })
    );
}

#[test]
fn subchannel_file_of_a_disc_with_a_gap_is_refused() {
    let disc = Disc {
        tracks: vec![Track {
            number: 1,
            start: 150,
            length: 50,
            indices: vec![
                Index { number: 0, start: 100, end: 149 },
                Index { number: 1, start: 150, end: 199 },
            ],
            mode: TrackMode::Audio,
        }],
        sector_count: 200,
    };
    assert_eq!(disc.generate_sub(None), Err(Cue2CCDError::CoverageGap { sector: 0 }));
}

#[test]
fn subchannel_file_of_an_empty_disc_is_empty() {
    let disc = Disc { tracks: vec![], sector_count: 0 };
    assert_eq!(disc.generate_sub(None), Ok(vec![]));
}

#[test]
fn a_cuesheet_that_cannot_be_worked_with_ends_the_conversion() {
    assert_eq!(convert(&vec![], &vec![], None, None), Err(Cue2CCDError::UnusableCuesheet));
    assert_eq!(
        convert(&two_tracks(), &vec![Some(1)], None, None),
        Err(Cue2CCDError::UnusableCuesheet)
    );
    let mut far = one_track();
    far[0].start = i64::MAX;
    far[0].filename = "far.wav".to_string();
    assert_eq!(convert(&far, &vec![None], None, None), Err(Cue2CCDError::UnusableCuesheet));
    let many: Vec<CueTrack> = (0..100).map(|_| one_track().remove(0)).collect();
    assert_eq!(
        convert(&many, &vec![Some(2352); 100], None, None),
        Err(Cue2CCDError::UnusableCuesheet)
    );
}

#[test]
fn at_the_seam_of_two_tracks_the_pregap_of_the_second_begins() {
    let tracks = vec![
        CueTrack {
            filename: "disc.bin".to_string(),
            start: 0,
            length: Some(100),
            indices: vec![None, Some(0)],
            mode: TrackMode::Mode1Raw,
        },
        CueTrack {
            filename: "disc.bin".to_string(),
            start: 150,
            length: None,
            indices: vec![Some(100), Some(150)],
            mode: TrackMode::Audio,
        },
    ];
    let done = convert(&tracks, &vec![Some(200 * 2352), Some(200 * 2352)], None, None).unwrap();
    assert_eq!(done.sub.len(), 96 * 200);
    // Sector 99 is the last of track 1.
    let at = 96 * 99;
    assert_eq!(done.sub[at..at + 12], [0x00; 12]);
    assert_eq!(done.sub[at + 12..at + 15], [0x41, 0x01, 0x01]);
    // Sector 100 is the first of the pregap of track 2, 50 sectors before it.
    let at = 96 * 100;
    assert_eq!(done.sub[at..at + 12], [0xFF; 12]);
    assert_eq!(
        done.sub[at + 12..at + 22],
        [0x01, 0x02, 0x00, 0x00, 0x00, 0x50, 0x00, 0x00, 0x03, 0x25]
    );
    // Sector 150 is the first of track 2 proper.
    let at = 96 * 150;
    assert_eq!(done.sub[at..at + 12], [0x00; 12]);
    assert_eq!(
        done.sub[at + 12..at + 22],
        [0x01, 0x02, 0x01, 0x00, 0x00, 0x00, 0x00, 0x00, 0x04, 0x00]
    );
}

#[test]
fn conversion_needs_tracks_within_limits() {
    assert!(check_convertible(&one_track(), &vec![None]));
    assert!(check_convertible(&two_tracks(), &vec![Some(1), Some(u64::MAX)]));
    assert!(!check_convertible(&vec![], &vec![]));
    assert!(!check_convertible(&two_tracks(), &vec![None]));
    let mut far = one_track();
    far[0].start = i64::MAX;
    assert!(!check_convertible(&far, &vec![None]));
    let many: Vec<CueTrack> = (0..100).map(|_| one_track().remove(0)).collect();
    assert!(!check_convertible(&many, &vec![None; 100]));
    assert!(check_convertible(&many[1..].to_vec(), &vec![None; 99]));
}
