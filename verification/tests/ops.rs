use playlist_studio::ai::prompts::SuggestedTrack;
use playlist_studio::ops::generate::{clamp_count, generated_description, taste_from_artists};
use playlist_studio::ops::insights::{
    artist_counts, insights_from, local_play_times, recent_row, time_ranges, top_list, InsightsData,
};
use playlist_studio::ops::organize::{
    clamp_playlists, liked_section, playlist_section, sampled_playlists, top_artists_section,
};
use playlist_studio::ops::playlist_tools::{
    dedupe_description, dedupe_name, dedupe_note, dedupe_tracks, merge_description, merge_name,
    merge_uris, sort_description, sort_name, sort_uris, SortKey,
};
use playlist_studio::ops::refine::{refine_listing, refined_description, refined_name};
use playlist_studio::ops::resolve::{
    known_uris, match_key, pick_best, resolving_label, score_candidate, search_queries,
    unresolved_note, Resolution, ResolutionReport,
};
use playlist_studio::ops::{
    addable_uris, in_place_target_for, nothing_to_write, playable_tracks, refine_target_for,
    skipped_items_note, CreatedPlaylist, TrackSource, WriteDestination,
};
use playlist_studio::safety::{PlaylistId, SafetyPolicy};
use playlist_studio::spotify::models::{
    ArtistRef, FullArtist, PlayHistoryItem, PlayableItem, PlaylistItem, PlaylistOwner,
    SimplifiedPlaylist, TrackInfo, TracksRef,
};

fn track(uri: &str, name: &str, artists: &[&str]) -> TrackInfo {
    TrackInfo {
        uri: uri.to_string(),
        name: name.to_string(),
        artists: artists.iter().map(|a| a.to_string()).collect(),
        album: String::new(),
        release_date: None,
        duration_ms: 0,
        is_local: false,
        is_episode: false,
        added_at: None,
    }
}

fn item(uri: &str, name: &str, artists: &[&str]) -> PlayableItem {
    PlayableItem {
        uri: uri.to_string(),
        name: name.to_string(),
        artists: artists.iter().map(|a| ArtistRef { name: a.to_string() }).collect(),
        ..Default::default()
    }
}

fn suggestion(a: &str, t: &str) -> SuggestedTrack {
    SuggestedTrack { artist: a.into(), title: t.into() }
}

// ----- resolve -----

#[test]
fn match_keys_are_normalized() {
    assert_eq!(match_key("The Beatles", "Hey Jude - Remastered 2015"), "the beatles|hey jude");
}

#[test]
fn known_uris_first_track_wins() {
    let mut local = track("spotify:local:x", "Other", &["Band"]);
    local.is_local = true;
    let known = known_uris(&[
        track("spotify:track:1", "Song", &["Band"]),
        track("spotify:track:2", "Song (Live)", &["Band"]),
        local,
        track("spotify:track:3", "Lonely", &[]),
    ]);
    assert_eq!(known.get("band|song").as_deref(), Some("spotify:track:1"));
    assert_eq!(known.get("band|other"), None);
    assert_eq!(known.lookup(&suggestion("BAND", "song")).as_deref(), Some("spotify:track:1"));
}

#[test]
fn scoring_rewards_title_and_artist_matches() {
    let c = item("spotify:track:1", "Hey Jude", &["The Beatles"]);
    assert_eq!(score_candidate(&c, "the beatles", "hey jude"), 6);
    let c = item("spotify:track:1", "Hey Jude - Live", &["Beatles Tribute"]);
    assert_eq!(score_candidate(&c, "the beatles", "hey jude"), 3);
    let c = item("spotify:track:1", "Something Else", &[]);
    assert_eq!(score_candidate(&c, "x", "hey jude"), 0);
}

#[test]
fn best_candidate_needs_the_threshold_and_prefers_the_last_tie() {
    let cands = vec![
        item("spotify:track:a", "Hey Jude", &["The Beatles"]),
        item("", "Hey Jude", &["The Beatles"]),
        item("spotify:track:b", "Hey Jude", &["The Beatles"]),
    ];
    assert_eq!(pick_best(&cands, "the beatles", "hey jude").as_deref(), Some("spotify:track:b"));
    let weak = vec![item("spotify:track:c", "Hey", &["Nobody"])];
    assert_eq!(pick_best(&weak, "the beatles", "hey jude"), None);
}

#[test]
fn search_queries_are_field_filtered_then_plain() {
    assert_eq!(
        search_queries("Daft Punk", "One More Time"),
        vec![
            "track:\"One More Time\" artist:\"Daft Punk\"".to_string(),
            "Daft Punk One More Time".to_string()
        ]
    );
}

#[test]
fn resolution_deduplicates_and_lists_misses() {
    let mut r = Resolution::new();
    r.record(&suggestion("A", "1"), Some("spotify:track:x".into()), true);
    r.record(&suggestion("B", "2"), Some("spotify:track:y".into()), false);
    r.record(&suggestion("C", "3"), Some("spotify:track:x".into()), false);
    r.record(&suggestion("D", "4"), None, false);
    let (uris, report) = r.finish();
    assert_eq!(uris, vec!["spotify:track:x".to_string(), "spotify:track:y".to_string()]);
    assert_eq!(report.resolved, 2);
    assert_eq!(report.reused_from_library, 1);
    assert_eq!(report.unresolved, vec!["D — 4".to_string()]);
    assert_eq!(
        unresolved_note(&report).unwrap(),
        "1 suggestion(s) could not be found on Spotify: D — 4"
    );
    assert_eq!(unresolved_note(&ResolutionReport::default()), None);
    assert_eq!(resolving_label(&suggestion("A", "T")), "Resolving 'A — T'");
}

// ----- ops shared -----

#[test]
fn addable_uris_drop_local_files() {
    let mut local = track("spotify:local:a", "L", &[]);
    local.is_local = true;
    let uris = addable_uris(&[track("spotify:track:1", "A", &[]), local]);
    assert_eq!(uris, vec!["spotify:track:1".to_string()]);
    assert_eq!(
        skipped_items_note(2, 1).unwrap(),
        "1 item(s) skipped (local files can't be re-added through the Web API)"
    );
    assert_eq!(skipped_items_note(1, 1), None);
    assert!(nothing_to_write(&[]).is_some());
}

#[test]
fn write_summaries() {
    let d = WriteDestination::NewPlaylist(CreatedPlaylist { name: "Mix".into(), track_count: 3 });
    assert_eq!(d.summary(), "created new playlist 'Mix' with 3 tracks");
    assert_eq!(d.created().unwrap().name, "Mix");
    let d = WriteDestination::EditedInPlace { name: "S".into(), track_count: 2 };
    assert_eq!(d.summary(), "updated session playlist 'S' in place (2 tracks)");
    assert!(d.created().is_none());
    assert_eq!(TrackSource::LikedSongs.label(), "Liked Songs");
}

#[test]
fn in_place_is_only_for_session_playlists() {
    let mut policy = SafetyPolicy::new();
    policy.note_created(PlaylistId("s".into()), "Mine");
    let session = TrackSource::Playlist { id: PlaylistId("s".into()), name: "Mine".into() };
    let protected = TrackSource::Playlist { id: PlaylistId("p".into()), name: "Old".into() };
    let (t, note) = in_place_target_for(&policy, &session, true);
    assert_eq!(t.unwrap().1, "Mine");
    assert!(note.is_none());
    let (t, note) = in_place_target_for(&policy, &protected, true);
    assert!(t.is_none());
    assert!(note.unwrap().starts_with("In-place editing is only allowed"));
    let (t, note) = in_place_target_for(&policy, &TrackSource::LikedSongs, false);
    assert!(t.is_none() && note.is_none());
    let (_, note) = refine_target_for(&policy, &TrackSource::LikedSongs, true);
    assert!(note.unwrap().starts_with("In-place refinement is only allowed"));
}

#[test]
fn playable_tracks_skip_missing_entries() {
    let items = vec![
        PlaylistItem { added_at: Some("2020".into()), track: Some(item("spotify:track:1", "A", &["X"])) },
        PlaylistItem { added_at: None, track: None },
        PlaylistItem { added_at: None, track: Some(item("", "NoUri", &[])) },
    ];
    let t = playable_tracks(items);
    assert_eq!(t.len(), 1);
    assert_eq!(t[0].name, "A");
    assert_eq!(t[0].added_at.as_deref(), Some("2020"));
}

// ----- playlist tools -----

#[test]
fn dedupe_keeps_first_occurrence() {
    let plan = dedupe_tracks(&[
        track("spotify:track:1", "Song", &["Band"]),
        track("spotify:track:1", "Song", &["Band"]),
        track("spotify:track:2", "Song (Single Version)", &["Band", "Guest"]),
        track("spotify:track:3", "Other", &["Band"]),
    ]);
    assert_eq!(plan.uris, vec!["spotify:track:1".to_string(), "spotify:track:3".to_string()]);
    assert_eq!(
        plan.removed,
        vec!["Band — Song".to_string(), "Band, Guest — Song (Single Version)".to_string()]
    );
    assert_eq!(dedupe_note("L", &plan.removed), "Found 2 duplicate(s): Band — Song; Band, Guest — Song (Single Version)");
    assert_eq!(dedupe_note("L", &vec![]), "No duplicates found in 'L'");
    assert_eq!(dedupe_name("L"), "L (deduped)");
    assert_eq!(
        dedupe_description("L", 2),
        "'L' with 2 duplicate(s) removed · Created with Playlist Studio"
    );
}

#[test]
fn merge_concatenates_and_optionally_dedupes() {
    let lists = vec![
        vec!["a".to_string(), "b".to_string()],
        vec!["b".to_string(), "c".to_string()],
    ];
    assert_eq!(merge_uris(&lists, false), vec!["a", "b", "b", "c"]);
    assert_eq!(merge_uris(&lists, true), vec!["a", "b", "c"]);
    let sources = vec![
        TrackSource::LikedSongs,
        TrackSource::Playlist { id: PlaylistId("p".into()), name: "Road".into() },
    ];
    assert_eq!(merge_name(&sources), "Merged: Liked Songs + Road");
    let long = vec![
        TrackSource::Playlist { id: PlaylistId("p".into()), name: "x".repeat(60) },
        TrackSource::Playlist { id: PlaylistId("q".into()), name: "y".repeat(60) },
    ];
    let n = merge_name(&long);
    assert_eq!(n.chars().count(), 90);
    assert!(n.ends_with('…'));
    assert_eq!(
        merge_description(2, 3, true, false),
        "Merge of 2 sources (3 tracks, deduped) · Created with Playlist Studio"
    );
}

#[test]
fn sort_is_stable_and_reversible() {
    let mut a = track("spotify:track:a", "beta", &["Z"]);
    a.duration_ms = 300;
    let mut b = track("spotify:track:b", "Alpha", &["Y"]);
    b.duration_ms = 100;
    let mut c = track("spotify:track:c", "alpha", &["X"]);
    c.duration_ms = 300;
    let tracks = vec![a, b, c];
    assert_eq!(
        sort_uris(&tracks, SortKey::Title, false).unwrap(),
        vec!["spotify:track:b", "spotify:track:c", "spotify:track:a"]
    );
    assert_eq!(
        sort_uris(&tracks, SortKey::Duration, true).unwrap(),
        vec!["spotify:track:a", "spotify:track:c", "spotify:track:b"]
    );
    assert_eq!(
        sort_uris(&tracks, SortKey::Artist, false).unwrap(),
        vec!["spotify:track:c", "spotify:track:b", "spotify:track:a"]
    );
    assert!(sort_uris(&[], SortKey::Title, false).is_err());
    assert_eq!(sort_name("L", SortKey::ReleaseDate, true), "L (by release date descending)");
    assert_eq!(
        sort_description("L", SortKey::DateAdded, false),
        "'L' sorted by date added (ascending) · Created with Playlist Studio"
    );
    assert_eq!(SortKey::all().len(), 6);
    assert_eq!(SortKey::ReleaseDate.label(), "Release date");
}

#[test]
fn missing_dates_sort_first() {
    let mut a = track("spotify:track:a", "a", &[]);
    a.release_date = Some("2010-01-01".into());
    let b = track("spotify:track:b", "b", &[]);
    let mut c = track("spotify:track:c", "c", &[]);
    c.release_date = Some("1999-05-05".into());
    assert_eq!(
        sort_uris(&[a, b, c], SortKey::ReleaseDate, false).unwrap(),
        vec!["spotify:track:b", "spotify:track:c", "spotify:track:a"]
    );
}

// ----- generate / refine / organize -----

#[test]
fn generation_settings() {
    assert_eq!(clamp_count(0), 3);
    assert_eq!(clamp_count(500), 150);
    assert_eq!(clamp_count(40), 40);
    assert_eq!(generated_description("", "chill"), "Created with Playlist Studio · chill");
    assert_eq!(generated_description("Mellow", "chill"), "Mellow · Created with Playlist Studio");
    let artists = vec![
        FullArtist { name: "A".into(), genres: vec!["jazz".into(), "soul".into()] },
        FullArtist { name: "B".into(), genres: vec!["soul".into(), "funk".into()] },
    ];
    let taste = taste_from_artists(&artists);
    assert_eq!(taste.top_artists, vec!["A", "B"]);
    assert_eq!(taste.genres, vec!["jazz", "soul", "funk"]);
}

#[test]
fn refinement_texts() {
    assert_eq!(refined_name("  ", "Mix"), "Mix (refined)");
    assert_eq!(refined_name("Mix", "Mix"), "Mix (refined)");
    assert_eq!(refined_name("New", "Mix"), "New");
    assert_eq!(
        refined_description("", "Mix"),
        " · Refined from 'Mix' · Created with Playlist Studio"
    );
    let tracks: Vec<TrackInfo> = (0..205).map(|i| track("spotify:track:x", &format!("t{i}"), &["A"])).collect();
    let (listing, note) = refine_listing(&tracks);
    assert_eq!(listing.len(), 200);
    assert_eq!(listing[0], ("A".to_string(), "t0".to_string()));
    assert_eq!(note.unwrap(), "Source has 205 tracks; showing the first 200 to the model");
    let (listing, note) = refine_listing(&[track("u", "solo", &[])]);
    assert_eq!(listing, vec![(String::new(), "solo".to_string())]);
    assert!(note.is_none());
}

#[test]
fn organize_digest() {
    assert_eq!(clamp_playlists(0), 1);
    assert_eq!(clamp_playlists(99), 10);
    let p = |id: &str, owner: &str, collab: bool| SimplifiedPlaylist {
        id: id.into(),
        name: id.into(),
        description: Some("about".into()),
        owner: Some(PlaylistOwner { id: owner.into(), display_name: None }),
        collaborative: collab,
        tracks: Some(TracksRef { total: 2 }),
    };
    let ps = vec![p("a", "me", false), p("b", "other", false), p("c", "other", true)];
    assert_eq!(sampled_playlists(&ps, "me"), vec![0, 2]);
    let s = playlist_section(&ps[0], &[track("u", "T", &["X", "Y"])]);
    assert_eq!(s, "PLAYLIST: a (2 tracks — about)\n  - X, Y — T\n");
    let liked: Vec<TrackInfo> = (0..3).map(|i| track("u", &format!("s{i}"), &["A"])).collect();
    assert_eq!(
        liked_section(&liked),
        "\nLIKED SONGS (sample of 3 out of 3):\n  - A — s0\n  - A — s1\n  - A — s2\n"
    );
    let many: Vec<TrackInfo> = (0..450).map(|i| track("u", &format!("s{i}"), &["A"])).collect();
    let sec = liked_section(&many);
    assert!(sec.starts_with("\nLIKED SONGS (sample of 150 out of 450):\n  - A — s0\n  - A — s3\n"));
    assert_eq!(sec.matches("  - ").count(), 150);
    assert_eq!(top_artists_section(&[]), "");
    assert_eq!(
        top_artists_section(&[FullArtist { name: "Q".into(), genres: vec![] }]),
        "\nMOST PLAYED ARTISTS (last ~6 months): Q\n"
    );
}

// ----- insights -----

#[test]
fn artist_counts_rank_by_plays_then_name() {
    let play = |artists: &[&str]| PlayHistoryItem {
        track: item("spotify:track:1", "t", artists),
        played_at: "2024-01-01T00:00:00Z".into(),
    };
    let history = vec![play(&["B", "A"]), play(&["B"]), play(&["C"]), play(&["A"])];
    assert_eq!(
        artist_counts(&history),
        vec![("A".to_string(), 2), ("B".to_string(), 2), ("C".to_string(), 1)]
    );
    let many: Vec<PlayHistoryItem> = (0..12).map(|i| play(&[&format!("a{i:02}")])).collect();
    let top = artist_counts(&many);
    assert_eq!(top.len(), 10);
    assert_eq!(top[9].0, "a09");
}

#[test]
fn insight_rows_and_lists() {
    let it = PlayHistoryItem {
        track: item("spotify:track:1", "Song", &["X", "Y"]),
        played_at: "2024".into(),
    };
    let row = recent_row(&it, "Mon".into());
    assert_eq!(row.artists, "X, Y");
    assert_eq!(row.title, "Song");
    let top = top_list(
        "Last ~4 weeks",
        &[
            FullArtist { name: "A".into(), genres: vec![] },
            FullArtist { name: "B".into(), genres: vec!["pop".into(), "rock".into()] },
        ],
        &[item("spotify:track:1", "Song", &["X"])],
    );
    assert_eq!(top.artists, vec!["A", "B (pop, rock)"]);
    assert_eq!(top.tracks, vec!["X — Song"]);
    assert_eq!(time_ranges()[1], ("medium_term", "Last ~6 months"));
    let mut data = InsightsData::default();
    data.count_play_hour(25);
    assert_eq!(data.hour_histogram[1], 1);
}

#[test]
fn insights_tally_local_hours_and_keep_raw_unparsable_times() {
    let play = |at: &str, artists: &[&str]| PlayHistoryItem {
        track: item("spotify:track:1", "t", artists),
        played_at: at.into(),
    };
    let history = vec![
        play("2024-01-01T10:00:00Z", &["A"]),
        play("not a time", &["B"]),
        play("2024-01-02T10:30:00Z", &["A"]),
    ];
    let local = local_play_times(&history);
    assert_eq!(local.len(), 3);
    assert!(local[0].is_some() && local[2].is_some());
    assert!(local[1].is_none());
    assert_eq!(local[0].as_ref().unwrap().0, local[2].as_ref().unwrap().0);

    let given = vec![Some((7u8, "Mon Jan 1, 07:00".to_string())), None, Some((7u8, "Tue Jan 2, 07:30".to_string()))];
    let data = insights_from(&history, &given);
    assert_eq!(data.hour_histogram[7], 2);
    assert_eq!(data.hour_histogram.iter().sum::<u32>(), 2);
    assert_eq!(data.recent[0].when_local, "Mon Jan 1, 07:00");
    assert_eq!(data.recent[1].when_local, "not a time");
    assert_eq!(data.recent_artist_counts, vec![("A".to_string(), 2), ("B".to_string(), 1)]);
    assert!(data.tops.is_empty());
}
