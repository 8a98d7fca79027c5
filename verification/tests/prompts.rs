use playlist_studio::ai::prompts::{
    answer_json_of, check_organize_plan, check_playlist_spec, decode_failure, generation_request,
    organize_request, playlist_schema, refinement_request, snippet, GeneratedPlaylistSpec,
    OrganizePlan, SuggestedTrack, TasteContext,
};
use playlist_studio::ai::AiError;

#[test]
fn prompts_embed_key_content() {
    let req = generation_request("rainy day jazz", 25, None);
    assert!(req.user.contains("rainy day jazz"));
    assert!(req.user.contains("exactly 25"));
    assert!(req.system.contains("STRICT JSON"));

    let taste = TasteContext {
        top_artists: vec!["Radiohead".into()],
        genres: vec!["indie rock".into()],
    };
    let req = generation_request("focus music", 10, Some(&taste));
    assert!(req.user.contains("Radiohead"));

    let refine = refinement_request(
        "My Mix",
        &[("A".into(), "T".into())],
        "more upbeat, less sad",
    );
    assert!(refine.user.contains("more upbeat, less sad"));
    assert!(refine.user.contains("1. A — T"));
}

#[test]
fn taste_block_lists_artists_and_genres() {
    let taste = TasteContext {
        top_artists: vec!["A".into(), "B".into()],
        genres: vec!["jazz".into()],
    };
    let block = taste.render();
    assert!(block.contains("- Frequently played artists: A, B\n"));
    assert!(block.contains("- Genres they gravitate to: jazz\n"));
    assert_eq!(TasteContext::default().render(), "");
}

#[test]
fn schema_names_the_count() {
    assert!(playlist_schema(7).contains("exactly 7"));
}

#[test]
fn organize_request_embeds_digest_and_goal() {
    let req = organize_request("PLAYLIST: X", "by mood", 4);
    assert!(req.user.contains("PLAYLIST: X"));
    assert!(req.user.contains("by mood"));
    assert!(req.user.contains("4"));
}

#[test]
fn snippet_cuts_long_text() {
    let long: String = "x".repeat(200);
    let s = snippet(&long);
    assert_eq!(s.chars().count(), 161);
    assert!(s.ends_with('…'));
    assert_eq!(snippet("short"), "short");
}

#[test]
fn answer_without_json_is_a_parse_error() {
    match answer_json_of("sorry, I can't") {
        Err(AiError::Parse(m)) => assert_eq!(m, "no JSON found in: sorry, I can't"),
        other => panic!("unexpected {other:?}"),
    }
    assert_eq!(answer_json_of("ok {\"a\":1}").unwrap(), "{\"a\":1}");
}

#[test]
fn empty_track_list_is_rejected() {
    let spec = GeneratedPlaylistSpec {
        name: "Empty".into(),
        description: String::new(),
        tracks: vec![],
    };
    assert!(matches!(check_playlist_spec(spec), Err(AiError::Parse(_))));
    let spec = GeneratedPlaylistSpec {
        name: "One".into(),
        description: String::new(),
        tracks: vec![SuggestedTrack { artist: "A".into(), title: "T".into() }],
    };
    assert_eq!(check_playlist_spec(spec).unwrap().name, "One");
}

#[test]
fn plan_without_playlists_is_rejected() {
    let plan = OrganizePlan { playlists: vec![], notes: None };
    assert!(matches!(check_organize_plan(plan), Err(AiError::Parse(_))));
}

#[test]
fn decode_failure_quotes_the_json() {
    match decode_failure("missing field `tracks`", "{}") {
        AiError::Parse(m) => assert_eq!(m, "missing field `tracks` in: {}"),
        other => panic!("unexpected {other:?}"),
    }
}
