use playlist_studio::ops::import_export::{
    export_rows, export_summary, import_description, import_request, nonblank_line_count,
    parse_import_lines,
};
use playlist_studio::ops::OpError;
use playlist_studio::spotify::models::TrackInfo;

#[test]
fn parses_dash_em_dash_and_tab_lines() {
    let text = "# comment\nDaft Punk - Around the World\nBjörk — Hyperballad\nNina\tSimone Song\n\nnot a track line\n";
    let parsed = parse_import_lines(text);
    assert_eq!(parsed.len(), 3);
    assert_eq!(parsed[0].artist, "Daft Punk");
    assert_eq!(parsed[0].title, "Around the World");
    assert_eq!(parsed[1].artist, "Björk");
    assert_eq!(parsed[2].artist, "Nina");
    assert_eq!(parsed[2].title, "Simone Song");
}

#[test]
fn hyphenated_titles_survive() {
    let parsed = parse_import_lines("Jay-Z - 99 Problems");
    assert_eq!(parsed[0].artist, "Jay-Z");
    assert_eq!(parsed[0].title, "99 Problems");
}

#[test]
fn crlf_lines_and_blank_halves() {
    let parsed = parse_import_lines("A - B\r\n - C\r\nD -  \r\n  E\t F  ");
    assert_eq!(parsed.len(), 2);
    assert_eq!((parsed[0].artist.as_str(), parsed[0].title.as_str()), ("A", "B"));
    assert_eq!((parsed[1].artist.as_str(), parsed[1].title.as_str()), ("E", "F"));
}

#[test]
fn tab_wins_over_dashes() {
    let parsed = parse_import_lines("X - Y\tZ");
    assert_eq!(parsed[0].artist, "X - Y");
    assert_eq!(parsed[0].title, "Z");
}

#[test]
fn counts_nonblank_lines() {
    assert_eq!(nonblank_line_count("a\n\n  \nb\nc"), 3);
    assert_eq!(nonblank_line_count(""), 0);
}

#[test]
fn import_request_names_and_counts() {
    let req = import_request("  ", "# note\nA - B\njunk\n").unwrap();
    assert_eq!(req.name, "Imported playlist");
    assert_eq!(req.suggestions.len(), 1);
    assert_eq!(req.skipped_lines, 2);
    let req = import_request(" Road Trip ", "A - B").unwrap();
    assert_eq!(req.name, "Road Trip");
    assert_eq!(req.skipped_lines, 0);
}

#[test]
fn import_without_parsable_lines_is_refused() {
    match import_request("x", "nothing here\n# c\n") {
        Err(OpError::Other(m)) => {
            assert_eq!(m, "no parsable lines — use one `Artist - Title` per line")
        }
        _ => panic!("expected a refusal"),
    }
}

#[test]
fn import_description_counts_tracks() {
    assert_eq!(
        import_description(12),
        "Imported from text (12 tracks) · Created with Playlist Studio"
    );
}

fn track(name: &str, artists: &[&str]) -> TrackInfo {
    TrackInfo {
        uri: format!("spotify:track:{name}"),
        name: name.to_string(),
        artists: artists.iter().map(|a| a.to_string()).collect(),
        album: "Alb".to_string(),
        release_date: Some("2001-02-03".to_string()),
        duration_ms: 1000,
        is_local: false,
        is_episode: false,
        added_at: None,
    }
}

#[test]
fn export_rows_number_from_one() {
    let rows = export_rows(&[track("a", &["X", "Y"]), track("b", &[])]);
    assert_eq!(rows.len(), 2);
    assert_eq!(rows[0].position, 1);
    assert_eq!(rows[0].artists, "X, Y");
    assert_eq!(rows[0].release_date.as_deref(), Some("2001-02-03"));
    assert_eq!(rows[1].position, 2);
    assert_eq!(rows[1].uri, "spotify:track:b");
    assert_eq!(rows[1].artists, "");
}

#[test]
fn export_summary_text() {
    assert_eq!(
        export_summary(3, "Liked Songs", "/tmp/x.csv"),
        "Exported 3 tracks from 'Liked Songs' to /tmp/x.csv"
    );
}
