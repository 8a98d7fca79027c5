use playlist_studio::messages::{playlist_row, track_row};
use playlist_studio::safety::{PlaylistId, SafetyPolicy, Tier};
use playlist_studio::spotify::models::{PlaylistOwner, SimplifiedPlaylist, TrackInfo};

#[test]
fn track_rows_show_date_part_and_duration() {
    let t = TrackInfo {
        uri: "spotify:track:1".into(),
        name: "Song".into(),
        artists: vec!["A".into(), "B".into()],
        album: "Alb".into(),
        release_date: None,
        duration_ms: 61_000,
        is_local: false,
        is_episode: false,
        added_at: Some("2021-05-06T07:08:09Z".into()),
    };
    let r = track_row(&t);
    assert_eq!(r.artists, "A, B");
    assert_eq!(r.duration, "1:01");
    assert_eq!(r.release_date, "");
    assert_eq!(r.added_at, "2021-05-06");
}

#[test]
fn playlist_rows_carry_tier_and_readability() {
    let mut policy = SafetyPolicy::new();
    policy.note_created(PlaylistId("p1".into()), "Mine");
    let p = SimplifiedPlaylist {
        id: "p1".into(),
        name: "Mine".into(),
        description: None,
        owner: Some(PlaylistOwner { id: "me".into(), display_name: Some("Me".into()) }),
        collaborative: false,
        tracks: None,
    };
    let row = playlist_row(&p, "me", &policy);
    assert_eq!(row.tier, Tier::Session);
    assert!(row.readable);
    assert_eq!(row.owner, "Me");
    assert_eq!(row.total, 0);
    let row = playlist_row(&p, "someone-else", &SafetyPolicy::new());
    assert_eq!(row.tier, Tier::Protected);
    assert!(!row.readable);
}
