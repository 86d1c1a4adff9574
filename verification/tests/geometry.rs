use cdrom::{check_cue_input, Cue2CCDError, CueTrack, Disc, Index, Track, TrackMode};

/// The length in bytes of a file of `sectors` whole sectors.
fn bytes(sectors: u64) -> Option<u64> {
    Some(sectors * 2352)
}

fn cue_track(
    filename: &str,
    start: i64,
    length: Option<i64>,
    indices: Vec<Option<i64>>,
    mode: TrackMode,
) -> CueTrack {
    CueTrack { filename: filename.to_string(), start, length, indices, mode }
}

#[test]
fn track_mode_codes() {
    assert_eq!(TrackMode::Audio.as_u8(), 0);
    assert_eq!(TrackMode::Mode1.as_u8(), 1);
    assert_eq!(TrackMode::Mode1Raw.as_u8(), 1);
    assert_eq!(TrackMode::Mode2.as_u8(), 2);
    assert_eq!(TrackMode::Mode2Raw.as_u8(), 2);
    assert_eq!(TrackMode::Mode2Form1.as_u8(), 2);
    assert_eq!(TrackMode::Mode2Form2.as_u8(), 2);
    assert_eq!(TrackMode::Mode2FormMix.as_u8(), 2);
}

#[test]
fn single_track_disc_of_150_sectors() {
    let tracks = vec![cue_track(
        "basic_image.bin",
        0,
        None,
        vec![None, Some(0)],
        TrackMode::Mode1Raw,
    )];
    let disc = Disc::from_cuesheet(&tracks, &vec![bytes(150)]).unwrap();
    assert_eq!(disc.sector_count, 150);
    assert_eq!(
        disc.tracks,
        vec![Track {
            number: 1,
            start: 0,
            length: 150,
            indices: vec![Index { number: 1, start: 0, end: 149 }],
            mode: TrackMode::Mode1Raw,
        }]
    );
}

#[test]
fn tracks_in_two_files_follow_one_another() {
    let tracks = vec![
        cue_track("disc (Track 1).bin", 0, None, vec![None, Some(0)], TrackMode::Mode2Raw),
        cue_track("disc (Track 2).bin", 150, None, vec![Some(0), Some(150)], TrackMode::Audio),
    ];
    let disc = Disc::from_cuesheet(&tracks, &vec![bytes(300), bytes(450)]).unwrap();
    assert_eq!(disc.sector_count, 750);
    assert_eq!(
        disc.tracks,
        vec![
            Track {
                number: 1,
                start: 0,
                length: 300,
                indices: vec![Index { number: 1, start: 0, end: 299 }],
                mode: TrackMode::Mode2Raw,
            },
            Track {
                number: 2,
                start: 450,
                length: 300,
                indices: vec![
                    Index { number: 0, start: 300, end: 449 },
                    Index { number: 1, start: 450, end: 749 },
                ],
                mode: TrackMode::Audio,
            },
        ]
    );
}

#[test]
fn tracks_in_one_file_share_its_offset() {
    let tracks = vec![
        cue_track("disc.bin", 0, Some(1000), vec![None, Some(0)], TrackMode::Mode1Raw),
        cue_track("disc.bin", 1150, Some(2000), vec![Some(1000), Some(1150)], TrackMode::Audio),
        cue_track("disc.bin", 3150, None, vec![None, Some(3150), Some(4000)], TrackMode::Audio),
    ];
    let disc =
        Disc::from_cuesheet(&tracks, &vec![bytes(5000), bytes(5000), bytes(5000)]).unwrap();
    assert_eq!(disc.sector_count, 5000);
    assert_eq!(disc.tracks.len(), 3);
    assert_eq!(disc.tracks[0].start, 0);
    assert_eq!(disc.tracks[0].length, 1000);
    assert_eq!(disc.tracks[0].indices, vec![Index { number: 1, start: 0, end: 999 }]);
    assert_eq!(disc.tracks[1].number, 2);
    assert_eq!(disc.tracks[1].start, 1150);
    assert_eq!(disc.tracks[1].length, 2000);
    assert_eq!(
        disc.tracks[1].indices,
        vec![
            Index { number: 0, start: 1000, end: 1149 },
            Index { number: 1, start: 1150, end: 3149 },
        ]
    );
    assert_eq!(disc.tracks[2].number, 3);
    assert_eq!(disc.tracks[2].start, 3150);
    assert_eq!(disc.tracks[2].length, 1850);
    assert_eq!(
        disc.tracks[2].indices,
        vec![
            Index { number: 1, start: 3150, end: 3999 },
            Index { number: 2, start: 4000, end: 4999 },
        ]
    );
}

#[test]
fn a_file_is_counted_when_the_next_track_names_another() {
    let tracks = vec![
        cue_track("a.bin", 0, None, vec![None, Some(0)], TrackMode::Audio),
        cue_track("b.bin", 0, Some(40), vec![None, Some(0)], TrackMode::Audio),
        cue_track("b.bin", 40, None, vec![None, Some(40)], TrackMode::Audio),
        cue_track("c.bin", 10, None, vec![Some(0), Some(10)], TrackMode::Audio),
    ];
    let disc =
        Disc::from_cuesheet(&tracks, &vec![bytes(100), bytes(200), bytes(200), bytes(50)]).unwrap();
    assert_eq!(disc.sector_count, 350);
    let starts: Vec<i64> = disc.tracks.iter().map(|t| t.start).collect();
    let lengths: Vec<i64> = disc.tracks.iter().map(|t| t.length).collect();
    assert_eq!(starts, vec![0, 100, 140, 310]);
    assert_eq!(lengths, vec![100, 40, 160, 40]);
    assert_eq!(
        disc.tracks[3].indices,
        vec![
            Index { number: 0, start: 300, end: 309 },
            Index { number: 1, start: 310, end: 349 },
        ]
    );
}

#[test]
fn unused_index_numbers_are_left_out() {
    let mut slots: Vec<Option<i64>> = vec![None; 100];
    slots[1] = Some(0);
    slots[5] = Some(20);
    slots[99] = Some(30);
    let tracks = vec![cue_track("a.bin", 0, None, slots, TrackMode::Audio)];
    let disc = Disc::from_cuesheet(&tracks, &vec![bytes(60)]).unwrap();
    assert_eq!(
        disc.tracks[0].indices,
        vec![
            Index { number: 1, start: 0, end: 19 },
            Index { number: 5, start: 20, end: 29 },
            Index { number: 99, start: 30, end: 59 },
        ]
    );
}

#[test]
fn a_cuesheet_without_tracks_makes_an_empty_disc() {
    let disc = Disc::from_cuesheet(&vec![], &vec![]).unwrap();
    assert_eq!(disc.sector_count, 0);
    assert!(disc.tracks.is_empty());
}

#[test]
fn a_track_without_indices_has_none() {
    let tracks = vec![cue_track("a.bin", 0, None, vec![], TrackMode::Audio)];
    let disc = Disc::from_cuesheet(&tracks, &vec![bytes(10)]).unwrap();
    assert!(disc.tracks[0].indices.is_empty());
    assert_eq!(disc.tracks[0].length, 10);
}

#[test]
fn cue_input_is_checked_against_its_limits() {
    let good = vec![cue_track("a.bin", 0, None, vec![None, Some(0)], TrackMode::Audio)];
    assert!(check_cue_input(&good, &vec![bytes(150)]));
    assert!(check_cue_input(&good, &vec![None]));
    assert!(check_cue_input(&good, &vec![Some(u64::MAX)]));
    assert!(check_cue_input(&vec![], &vec![]));
    // One file length for each track.
    assert!(!check_cue_input(&good, &vec![]));
    assert!(!check_cue_input(&good, &vec![None, None]));
    let edge = vec![cue_track("a.bin", 1 << 53, Some(-(1 << 53)), vec![], TrackMode::Audio)];
    assert!(check_cue_input(&edge, &vec![None]));
    let far = vec![cue_track("a.bin", (1 << 53) + 1, None, vec![], TrackMode::Audio)];
    assert!(!check_cue_input(&far, &vec![None]));
    let long = vec![cue_track("a.bin", 0, Some(-(1 << 53) - 1), vec![], TrackMode::Audio)];
    assert!(!check_cue_input(&long, &vec![None]));
    let wild = vec![cue_track("a.bin", 0, None, vec![None, Some(i64::MAX)], TrackMode::Audio)];
    assert!(!check_cue_input(&wild, &vec![None]));
    let crowded = vec![cue_track("a.bin", 0, None, vec![None; 101], TrackMode::Audio)];
    assert!(!check_cue_input(&crowded, &vec![None]));
    let full = vec![cue_track("a.bin", 0, None, vec![None; 100], TrackMode::Audio)];
    assert!(check_cue_input(&full, &vec![None]));
    let many: Vec<CueTrack> =
        (0..100).map(|_| cue_track("a.bin", 0, None, vec![], TrackMode::Audio)).collect();
    assert!(!check_cue_input(&many, &vec![None; 100]));
    assert!(check_cue_input(&many[..99].to_vec(), &vec![None; 99]));
}

#[test]
fn no_disc_is_built_where_a_file_is_missing() {
    let tracks = vec![
        cue_track("a.bin", 0, None, vec![None, Some(0)], TrackMode::Audio),
        cue_track("b.bin", 0, None, vec![None, Some(0)], TrackMode::Audio),
        cue_track("c.bin", 0, None, vec![None, Some(0)], TrackMode::Audio),
    ];
    assert_eq!(
        Disc::from_cuesheet(&tracks, &vec![bytes(10), None, bytes(10)]),
        Err(Cue2CCDError::MissingFilesError { missing_files: vec!["b.bin".to_string()] })
    );
    assert_eq!(
        Disc::from_cuesheet(&tracks, &vec![None, bytes(10), None]),
        Err(Cue2CCDError::MissingFilesError {
            missing_files: vec!["a.bin".to_string(), "c.bin".to_string()]
        })
    );
    // A file that is there but empty is not missing.
    assert!(Disc::from_cuesheet(&tracks, &vec![bytes(10), Some(0), bytes(10)]).is_ok());
}

#[test]
fn no_disc_is_built_from_tracks_that_are_not_raw() {
    let wave = vec![
        cue_track("a.bin", 0, None, vec![None, Some(0)], TrackMode::Mode1Raw),
        cue_track("b.wav", 0, None, vec![None, Some(0)], TrackMode::Audio),
    ];
    assert_eq!(
        Disc::from_cuesheet(&wave, &vec![bytes(10), bytes(10)]),
        Err(Cue2CCDError::WaveFile)
    );
    let cooked = vec![cue_track("a.iso", 0, None, vec![None, Some(0)], TrackMode::Mode1)];
    assert_eq!(Disc::from_cuesheet(&cooked, &vec![bytes(10)]), Err(Cue2CCDError::CookedData));
    // A track that is not raw is told before a missing file.
    assert_eq!(Disc::from_cuesheet(&cooked, &vec![None]), Err(Cue2CCDError::CookedData));
    assert_eq!(Disc::from_cuesheet(&wave, &vec![None, None]), Err(Cue2CCDError::WaveFile));
}

#[test]
fn no_disc_is_built_from_a_cuesheet_out_of_range() {
    let good = vec![cue_track("a.bin", 0, None, vec![None, Some(0)], TrackMode::Audio)];
    assert_eq!(Disc::from_cuesheet(&good, &vec![]), Err(Cue2CCDError::UnusableCuesheet));
    let far = vec![cue_track("a.wav", i64::MAX, None, vec![], TrackMode::Mode1)];
    assert_eq!(Disc::from_cuesheet(&far, &vec![None]), Err(Cue2CCDError::UnusableCuesheet));
    let many: Vec<CueTrack> =
        (0..100).map(|_| cue_track("a.bin", 0, None, vec![], TrackMode::Audio)).collect();
    assert_eq!(
        Disc::from_cuesheet(&many, &vec![bytes(1); 100]),
        Err(Cue2CCDError::UnusableCuesheet)
    );
}

#[test]
fn the_last_index_of_a_track_ends_with_the_track() {
    let tracks = vec![
        cue_track("disc.bin", 0, Some(100), vec![None, Some(0)], TrackMode::Mode1Raw),
        cue_track("disc.bin", 150, None, vec![Some(100), Some(150)], TrackMode::Audio),
    ];
    let disc = Disc::from_cuesheet(&tracks, &vec![bytes(200), bytes(200)]).unwrap();
    assert_eq!(disc.sector_count, 200);
    for track in &disc.tracks {
        let last = track.indices.last().unwrap();
        assert_eq!(last.end, track.start + track.length - 1);
    }
    assert_eq!(disc.tracks[0].indices, vec![Index { number: 1, start: 0, end: 99 }]);
    assert_eq!(
        disc.tracks[1].indices,
        vec![
            Index { number: 0, start: 100, end: 149 },
            Index { number: 1, start: 150, end: 199 },
        ]
    );
    assert_eq!(disc.tracks[1].length, 50);
}

fn valid_track() -> Track {
    Track {
        number: 1,
        start: 150,
        length: 50,
        indices: vec![
            Index { number: 0, start: 100, end: 149 },
            Index { number: 1, start: 150, end: 199 },
        ],
        mode: TrackMode::Audio,
    }
}

#[test]
fn discs_built_from_cuesheets_are_valid() {
    let tracks = vec![
        cue_track("disc (Track 1).bin", 0, None, vec![None, Some(0)], TrackMode::Mode2Raw),
        cue_track("disc (Track 2).bin", 150, None, vec![Some(0), Some(150)], TrackMode::Audio),
    ];
    assert!(Disc::from_cuesheet(&tracks, &vec![bytes(300), bytes(450)]).unwrap().is_valid());
    assert!(Disc::from_cuesheet(&vec![], &vec![]).unwrap().is_valid());
    let extreme = vec![cue_track(
        "a.bin",
        -(1 << 53),
        None,
        vec![Some(1 << 53), None, Some(-(1 << 53))],
        TrackMode::Audio,
    )];
    assert!(Disc::from_cuesheet(&extreme, &vec![Some(u64::MAX)]).unwrap().is_valid());
}

#[test]
fn a_valid_track_keeps_every_rule() {
    assert!(valid_track().is_valid());
    assert!(Disc { tracks: vec![valid_track()], sector_count: 200 }.is_valid());

    let mut numbered = valid_track();
    numbered.number = 0;
    assert!(!numbered.is_valid());
    numbered.number = 100;
    assert!(!numbered.is_valid());

    let mut ending = valid_track();
    ending.indices[0].end = 150;
    assert!(!ending.is_valid());
    // The last index ends with the track, at sector 199, not one further.
    let mut ending = valid_track();
    ending.indices[1].end = 200;
    assert!(!ending.is_valid());
    let mut ending = valid_track();
    ending.indices[1].end = 198;
    assert!(!ending.is_valid());

    let mut ordered = valid_track();
    ordered.indices[0].number = 1;
    assert!(!ordered.is_valid());
    ordered.indices[0].number = 2;
    assert!(!ordered.is_valid());

    let mut high = valid_track();
    high.indices[1].number = 100;
    assert!(!high.is_valid());

    let mut far = valid_track();
    far.start = (1 << 61) + 1;
    far.indices[1].end = far.start + far.length - 1;
    assert!(!far.is_valid());

    let mut long = valid_track();
    long.length = -(1 << 61) - 1;
    long.indices[1].end = long.start + long.length - 1;
    assert!(!long.is_valid());

    let mut wide = valid_track();
    wide.indices[0].start = i64::MIN;
    assert!(!wide.is_valid());
}

#[test]
fn a_valid_disc_numbers_its_tracks_from_one() {
    let mut second = valid_track();
    second.number = 2;
    assert!(Disc { tracks: vec![valid_track(), second.clone()], sector_count: 250 }.is_valid());
    assert!(!Disc { tracks: vec![second.clone()], sector_count: 250 }.is_valid());
    assert!(!Disc { tracks: vec![valid_track(), valid_track()], sector_count: 250 }.is_valid());
    assert!(!Disc { tracks: vec![second, valid_track()], sector_count: 250 }.is_valid());
    assert!(!Disc { tracks: vec![], sector_count: (1 << 61) + 1 }.is_valid());
    assert!(Disc { tracks: vec![], sector_count: -(1 << 61) }.is_valid());
    let many: Vec<Track> = (1..=100u8)
        .map(|n| Track { number: n, start: 0, length: 0, indices: vec![], mode: TrackMode::Audio })
        .collect();
    assert!(!Disc { tracks: many.clone(), sector_count: 0 }.is_valid());
    assert!(Disc { tracks: many[..99].to_vec(), sector_count: 0 }.is_valid());
}
