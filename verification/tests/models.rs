use playlist_studio::spotify::models::{
    ArtistRef, PlayableItem, PlaylistOwner, SimplifiedPlaylist, TracksRef, TrackInfo, UserProfile,
};

#[test]
fn local_files_are_not_addable() {
    let p = PlayableItem {
        uri: "spotify:local:artist:album:title:180".into(),
        is_local: true,
        ..Default::default()
    };
    assert!(!TrackInfo::from_playable(p, None).unwrap().is_addable());
}

#[test]
fn track_without_uri_is_dropped() {
    assert!(TrackInfo::from_playable(PlayableItem::default(), None).is_none());
}

#[test]
fn episode_item_deserializes_without_artists() {
    let p = PlayableItem {
        uri: "spotify:episode:ep1".into(),
        name: "Some Episode".into(),
        duration_ms: 100,
        item_type: Some("episode".into()),
        ..Default::default()
    };
    let info = TrackInfo::from_playable(p, None).unwrap();
    assert!(info.is_episode);
    assert!(info.artists.is_empty());
    assert!(info.is_addable());
}

#[test]
fn conversion_keeps_metadata() {
    let p = PlayableItem {
        uri: "spotify:track:1".into(),
        name: "Song".into(),
        artists: vec![ArtistRef { name: "A".into() }, ArtistRef { name: "B".into() }],
        album: None,
        duration_ms: 5,
        is_local: false,
        item_type: Some("track".into()),
    };
    let t = TrackInfo::from_playable(p, Some("2020-01-01T00:00:00Z".into())).unwrap();
    assert_eq!(t.artist_line(), "A, B");
    assert_eq!(t.album, "");
    assert_eq!(t.added_at.as_deref(), Some("2020-01-01T00:00:00Z"));
    assert!(!t.is_episode);
}

#[test]
fn non_spotify_uris_are_not_addable() {
    let p = PlayableItem { uri: "https://example.com/x".into(), ..Default::default() };
    assert!(!TrackInfo::from_playable(p, None).unwrap().is_addable());
}

#[test]
fn profile_and_playlist_labels() {
    let u = UserProfile { id: "uid".into(), display_name: None };
    assert_eq!(u.label(), "uid");
    let u = UserProfile { id: "uid".into(), display_name: Some("Ann".into()) };
    assert_eq!(u.label(), "Ann");
    let p = SimplifiedPlaylist {
        id: "p".into(),
        name: "P".into(),
        description: None,
        owner: Some(PlaylistOwner { id: "o".into(), display_name: None }),
        collaborative: false,
        tracks: Some(TracksRef { total: 9 }),
    };
    assert_eq!(p.owner_label(), "o");
    assert_eq!(p.total_tracks(), 9);
}
