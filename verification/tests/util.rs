use playlist_studio::util::{extract_json, format_duration_ms, normalize_for_match};

#[test]
fn extracts_fenced_json() {
    let text = "Here you go:\n```json\n{\"a\": 1}\n```\nEnjoy!";
    assert_eq!(extract_json(text).unwrap(), "{\"a\": 1}");
}

#[test]
fn extracts_plain_fenced_block_when_json_shaped() {
    let text = "```\n[1, 2, 3]\n```";
    assert_eq!(extract_json(text).unwrap(), "[1, 2, 3]");
}

#[test]
fn extracts_balanced_object_from_prose() {
    let text = "Sure! The plan is {\"tracks\": [{\"t\": \"a } b\"}]} — hope that helps.";
    assert_eq!(
        extract_json(text).unwrap(),
        "{\"tracks\": [{\"t\": \"a } b\"}]}"
    );
}

#[test]
fn handles_escaped_quotes_in_strings() {
    let text = r#"prefix {"name": "he said \"hi\" {ok}"} suffix"#;
    assert_eq!(
        extract_json(text).unwrap(),
        r#"{"name": "he said \"hi\" {ok}"}"#
    );
}

#[test]
fn returns_none_without_json() {
    assert_eq!(extract_json("no json here"), None);
    assert_eq!(extract_json("unbalanced { oops"), None);
}

#[test]
fn normalization_strips_qualifiers() {
    assert_eq!(normalize_for_match("Hey Jude - Remastered 2015"), "hey jude");
    assert_eq!(
        normalize_for_match("Lose Yourself (From \"8 Mile\")"),
        "lose yourself"
    );
    assert_eq!(normalize_for_match("HUMBLE. [Explicit]"), "humble");
    assert_eq!(normalize_for_match("Don't Stop Me Now"), "don t stop me now");
    assert_eq!(normalize_for_match("Untitled - Part One"), "untitled part one");
}

#[test]
fn duration_formatting() {
    assert_eq!(format_duration_ms(61_000), "1:01");
    assert_eq!(format_duration_ms(3_600_000), "1:00:00");
    assert_eq!(format_duration_ms(500), "0:00");
}

#[test]
fn plain_fence_with_prose_body_falls_back_to_balanced_scan() {
    let text = "```\nnot json\n```\nthen {\"k\": [1]} trailing";
    assert_eq!(extract_json(text).unwrap(), "{\"k\": [1]}");
}

#[test]
fn fenced_json_body_is_trimmed() {
    let text = "```json\n   {\"x\": 2}   \n```";
    assert_eq!(extract_json(text).unwrap(), "{\"x\": 2}");
}

#[test]
fn balanced_array_is_found() {
    assert_eq!(extract_json("list: [1, [2, 3]] end").unwrap(), "[1, [2, 3]]");
}

#[test]
fn normalization_collapses_punctuation_and_spaces() {
    assert_eq!(normalize_for_match("  AC/DC  "), "ac dc");
    assert_eq!(normalize_for_match("Song - Live at Wembley"), "song");
    assert_eq!(normalize_for_match(""), "");
}

#[test]
fn duration_formatting_pads_minutes_and_seconds() {
    assert_eq!(format_duration_ms(3_725_000), "1:02:05");
    assert_eq!(format_duration_ms(599_999), "9:59");
    assert_eq!(format_duration_ms(60_000), "1:00");
}
