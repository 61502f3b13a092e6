use ferrous::library_tree::{
    append_album_tracks, order_tracks, resolve_album, AlbumNodeBuilder, OrderedTrack,
    ResolvedAlbum, ResolvedSection, TrackLeaf, ROW_TYPE_SECTION,
};

fn leaf(path: &str, album: &str, year: Option<i32>, track_no: Option<u32>) -> TrackLeaf {
    let file_stem = std::path::Path::new(path)
        .file_stem()
        .unwrap_or_default()
        .to_string_lossy()
        .to_string();
    TrackLeaf {
        path: String::from(path),
        title: file_stem.clone(),
        file_stem,
        album_tag: album.to_string(),
        cover_path: String::new(),
        year,
        track_no,
    }
}

fn leaf_with_cover(
    path: &str,
    album: &str,
    year: Option<i32>,
    track_no: Option<u32>,
    cover: &str,
) -> TrackLeaf {
    let mut l = leaf(path, album, year, track_no);
    l.cover_path = cover.to_string();
    l
}

#[test]
fn mixed_album_years_omit_album_year() {
    let album = AlbumNodeBuilder {
        folder_name: "Folder".to_string(),
        folder_path: String::from("/music/Artist/Folder"),
        root_tracks: vec![
            TrackLeaf {
                path: String::from("/music/Artist/Folder/01.flac"),
                title: "A".to_string(),
                file_stem: "01".to_string(),
                album_tag: "Tag".to_string(),
                cover_path: String::new(),
                year: Some(2024),
                track_no: Some(1),
            },
            TrackLeaf {
                path: String::from("/music/Artist/Folder/02.flac"),
                title: "B".to_string(),
                file_stem: "02".to_string(),
                album_tag: "Tag".to_string(),
                cover_path: String::new(),
                year: Some(2023),
                track_no: Some(2),
            },
        ],
        sections: Vec::new(),
    };
    let resolved = resolve_album(&album, &Vec::new());
    assert_eq!(resolved.year, None);
}


#[test]
fn uniform_album_years_are_preserved() {
    let album = AlbumNodeBuilder {
        folder_name: "Folder".to_string(),
        folder_path: String::from("/music/Artist/Folder"),
        root_tracks: vec![
            TrackLeaf {
                path: String::from("/music/Artist/Folder/01.flac"),
                title: "A".to_string(),
                file_stem: "01".to_string(),
                album_tag: "Tag".to_string(),
                cover_path: String::new(),
                year: Some(2023),
                track_no: Some(1),
            },
            TrackLeaf {
                path: String::from("/music/Artist/Folder/02.flac"),
                title: "B".to_string(),
                file_stem: "02".to_string(),
                album_tag: "Tag".to_string(),
                cover_path: String::new(),
                year: Some(2023),
                track_no: Some(2),
            },
        ],
        sections: Vec::new(),
    };
    let resolved = resolve_album(&album, &Vec::new());
    assert_eq!(resolved.year, Some(2023));
}


#[test]
fn track_label_uses_zero_padded_number() {
    let ordered = order_tracks(&vec![
        TrackLeaf {
            path: String::from("/music/a/1.flac"),
            title: "One".to_string(),
            file_stem: "1".to_string(),
            album_tag: String::new(),
            cover_path: String::new(),
            year: None,
            track_no: Some(1),
        },
        TrackLeaf {
            path: String::from("/music/a/10.flac"),
            title: "Ten".to_string(),
            file_stem: "10".to_string(),
            album_tag: String::new(),
            cover_path: String::new(),
            year: None,
            track_no: Some(10),
        },
    ]);
    assert_eq!(ordered[0].label, "01 - One");
    assert_eq!(ordered[1].label, "10 - Ten");
    assert_eq!(ordered[0].number, 1);
    assert_eq!(ordered[1].number, 10);
}


#[test]
fn disc_only_album_inherits_year_from_all_disc_sections() {
    let album = AlbumNodeBuilder {
        folder_name: "The Incident".to_string(),
        folder_path: String::from("/music/PT/The Incident"),
        root_tracks: vec![],
        sections: Vec::from([
            (
                "CD1".to_string(),
                vec![
                    leaf(
                        "/music/PT/The Incident/CD1/01.flac",
                        "The Incident",
                        Some(2009),
                        Some(1),
                    ),
                    leaf(
                        "/music/PT/The Incident/CD1/02.flac",
                        "The Incident",
                        Some(2009),
                        Some(2),
                    ),
                ],
            ),
            (
                "CD2".to_string(),
                vec![leaf(
                    "/music/PT/The Incident/CD2/01.flac",
                    "The Incident",
                    Some(2009),
                    Some(1),
                )],
            ),
        ]),
    };
    let resolved = resolve_album(&album, &Vec::new());
    assert_eq!(
        resolved.year,
        Some(2009),
        "album year should come from disc sections"
    );
    assert_eq!(resolved.title, "The Incident");
    // Disc sections should NOT have independent cover/year
    for section in &resolved.sections {
        assert!(
            section.cover_path.is_none(),
            "disc section should not have independent cover"
        );
        assert!(
            section.year.is_none(),
            "disc section should not have independent year"
        );
    }
}


#[test]
fn disc_only_album_inherits_cover_from_disc_section_tracks() {
    let album = AlbumNodeBuilder {
        folder_name: "Album".to_string(),
        folder_path: String::from("/music/Artist/Album"),
        root_tracks: vec![],
        sections: Vec::from([(
            "CD1".to_string(),
            vec![leaf_with_cover(
                "/music/Artist/Album/CD1/01.flac",
                "Album",
                Some(2020),
                Some(1),
                "/music/Artist/Album/CD1/cover.jpg",
            )],
        )]),
    };
    let resolved = resolve_album(&album, &Vec::new());
    assert_eq!(
        resolved.cover_path.as_deref(),
        Some("/music/Artist/Album/CD1/cover.jpg"),
        "album should inherit embedded cover from disc section tracks"
    );
}


#[test]
fn non_disc_sections_do_not_contribute_to_album_metadata() {
    let album = AlbumNodeBuilder {
        folder_name: "Muut".to_string(),
        folder_path: String::from("/music/PT/Muut"),
        root_tracks: vec![],
        sections: Vec::from([
            (
                "Lightbulb Sun".to_string(),
                vec![leaf_with_cover(
                    "/music/PT/Muut/Lightbulb Sun/01.flac",
                    "Lightbulb Sun",
                    Some(2000),
                    Some(1),
                    "/music/PT/Muut/Lightbulb Sun/cover.jpg",
                )],
            ),
            (
                "Voyage 34".to_string(),
                vec![leaf_with_cover(
                    "/music/PT/Muut/Voyage 34/01.flac",
                    "Voyage 34",
                    Some(1992),
                    Some(1),
                    "/music/PT/Muut/Voyage 34/cover.jpg",
                )],
            ),
        ]),
    };
    let resolved = resolve_album(&album, &Vec::new());
    // Album should NOT inherit cover or year from non-disc sections
    assert!(
        resolved.cover_path.is_none(),
        "grouping folder should have no cover"
    );
    assert!(
        resolved.year.is_none(),
        "grouping folder should have no year"
    );
    // Each section should have its own cover and year
    let ls = resolved
        .sections
        .iter()
        .find(|s| s.name == "Lightbulb Sun")
        .unwrap();
    assert_eq!(
        ls.cover_path.as_deref(),
        Some("/music/PT/Muut/Lightbulb Sun/cover.jpg")
    );
    assert_eq!(ls.year, Some(2000));
    let v34 = resolved
        .sections
        .iter()
        .find(|s| s.name == "Voyage 34")
        .unwrap();
    assert_eq!(
        v34.cover_path.as_deref(),
        Some("/music/PT/Muut/Voyage 34/cover.jpg")
    );
    assert_eq!(v34.year, Some(1992));
}


#[test]
fn mixed_disc_and_non_disc_sections() {
    let album = AlbumNodeBuilder {
        folder_name: "Album".to_string(),
        folder_path: String::from("/music/Artist/Album"),
        root_tracks: vec![leaf(
            "/music/Artist/Album/01.flac",
            "Album",
            Some(2010),
            Some(1),
        )],
        sections: Vec::from([
            (
                "Bonus".to_string(),
                vec![leaf_with_cover(
                    "/music/Artist/Album/Bonus/01.flac",
                    "Bonus Tracks",
                    Some(2015),
                    Some(1),
                    "/music/Artist/Album/Bonus/cover.jpg",
                )],
            ),
            (
                "CD1".to_string(),
                vec![leaf(
                    "/music/Artist/Album/CD1/01.flac",
                    "Album",
                    Some(2010),
                    Some(1),
                )],
            ),
            (
                "CD2".to_string(),
                vec![leaf(
                    "/music/Artist/Album/CD2/01.flac",
                    "Album",
                    Some(2010),
                    Some(1),
                )],
            ),
        ]),
    };
    let resolved = resolve_album(&album, &Vec::new());
    // Album metadata from root + CD1 + CD2 only
    assert_eq!(resolved.year, Some(2010));
    assert_eq!(resolved.title, "Album");
    // Bonus section has its own cover and year
    let bonus = resolved
        .sections
        .iter()
        .find(|s| s.name == "Bonus")
        .unwrap();
    assert_eq!(
        bonus.cover_path.as_deref(),
        Some("/music/Artist/Album/Bonus/cover.jpg")
    );
    assert_eq!(bonus.year, Some(2015));
    // CD sections should not have independent metadata
    let cd1 = resolved.sections.iter().find(|s| s.name == "CD1").unwrap();
    assert!(cd1.cover_path.is_none());
    assert!(cd1.year.is_none());
}


#[test]
fn section_year_appears_in_title_in_flat_rows() {
    let album = ResolvedAlbum {
        title: "Muut".to_string(),
        year: None,
        folder_name: "Muut".to_string(),
        folder_path: String::from("/music/PT/Muut"),
        cover_path: None,
        root_tracks: vec![],
        sections: vec![ResolvedSection {
            name: "Lightbulb Sun".to_string(),
            path: String::from("/music/PT/Muut/Lightbulb Sun"),
            cover_path: Some("/cover.jpg".to_string()),
            year: Some(2000),
            tracks: vec![OrderedTrack {
                label: "01 - Track".to_string(),
                path: "/music/PT/Muut/Lightbulb Sun/01.flac".to_string(),
                number: 1,
            }],
        }],
    };
    let mut rows = Vec::new();
    append_album_tracks(&mut rows, "PT", &album, "/music", 2, 3);
    let section_row = rows
        .iter()
        .find(|r| r.row_type == ROW_TYPE_SECTION)
        .unwrap();
    assert_eq!(section_row.title, "Lightbulb Sun (2000)");
    assert_eq!(section_row.cover_path, "/cover.jpg");
}
