//! Prompt builders and response checks for the playlist AI features.
//!
//! Every prompt demands strict JSON; parsing is nevertheless tolerant
//! (fenced blocks, surrounding prose) via [`crate::util::extract_json`].
//! The model only ever proposes (artist, title) pairs; resolution against
//! Spotify happens later.

use vstd::prelude::*;

use super::{AiError, AiRequest};
use crate::text::{
    chars_of, decimal, owned, push_decimal, push_str, slice_chars, string_of,
};
use crate::util::{extract_json, extract_json_spec};

verus! {

#[derive(Clone, Debug)]
pub struct SuggestedTrack {
    pub artist: String,
    pub title: String,
}

#[derive(Clone, Debug)]
pub struct GeneratedPlaylistSpec {
    pub name: String,
    pub description: String,
    pub tracks: Vec<SuggestedTrack>,
}

#[derive(Clone, Debug)]
pub struct OrganizePlan {
    pub playlists: Vec<GeneratedPlaylistSpec>,
    pub notes: Option<String>,
}

/// Optional taste context distilled from the user's library.
#[derive(Clone, Debug, Default)]
pub struct TasteContext {
    pub top_artists: Vec<String>,
    pub genres: Vec<String>,
}

/// The characters of each string in `v`.
pub open spec fn views(v: Seq<String>) -> Seq<Seq<char>> {
    v.map_values(|s: String| s@)
}

/// `items` joined with `sep` between consecutive items.
pub open spec fn join(items: Seq<Seq<char>>, sep: Seq<char>) -> Seq<char>
    decreases items.len(),
{
    if items.len() == 0 {
        Seq::empty()
    } else if items.len() == 1 {
        items[0]
    } else {
        join(items.drop_last(), sep) + sep + items.last()
    }
}

/// `v` joined with `sep` (as `[String]::join`).
pub fn join_strings(v: &Vec<String>, sep: &str) -> (r: String)
    ensures
        r@ == join(views(v@), sep@),
{
    let mut r = String::new();
    let mut i: usize = 0;
    while i < v.len()
        invariant
            i <= v@.len(),
            r@ == join(views(v@.take(i as int)), sep@),
        decreases v@.len() - i,
    {
        proof {
            assert(views(v@.take(i + 1)).drop_last() =~= views(v@.take(i as int)));
            assert(views(v@.take(i + 1)).last() == v@[i as int]@);
        }
        if i > 0 {
            push_str(&mut r, sep);
        } else {
            proof {
                assert(views(v@.take(1)).len() == 1);
                assert(r@ + v@[0]@ =~= v@[0]@);
            }
        }
        push_str(&mut r, v[i].as_str());
        i += 1;
    }
    proof {
        assert(v@.take(v@.len() as int) =~= v@);
    }
    r
}

/// The taste block appended to a generation prompt.
pub open spec fn taste_block(artists: Seq<Seq<char>>, genres: Seq<Seq<char>>) -> Seq<char> {
    if artists.len() == 0 && genres.len() == 0 {
        Seq::empty()
    } else {
        "\n\nListener taste context (from their Spotify history):\n"@ + (if artists.len() > 0 {
            "- Frequently played artists: "@ + join(artists, ", "@) + "\n"@
        } else {
            Seq::empty()
        }) + (if genres.len() > 0 {
            "- Genres they gravitate to: "@ + join(genres, ", "@) + "\n"@
        } else {
            Seq::empty()
        })
            + "Use this to calibrate familiarity vs. discovery, but the description below always wins over taste context."@
    }
}

impl TasteContext {
    /// The taste block for a generation prompt (empty without any context).
    pub fn render(&self) -> (s: String)
        ensures
            s@ == taste_block(views(self.top_artists@), views(self.genres@)),
    {
        if self.top_artists.len() == 0 && self.genres.len() == 0 {
            return String::new();
        }
        let mut s = owned("\n\nListener taste context (from their Spotify history):\n");
        let ghost s0 = s@;
        if self.top_artists.len() > 0 {
            push_str(&mut s, "- Frequently played artists: ");
            let j = join_strings(&self.top_artists, ", ");
            push_str(&mut s, j.as_str());
            push_str(&mut s, "\n");
        }
        let ghost s1 = s@;
        if self.genres.len() > 0 {
            push_str(&mut s, "- Genres they gravitate to: ");
            let j = join_strings(&self.genres, ", ");
            push_str(&mut s, j.as_str());
            push_str(&mut s, "\n");
        }
        push_str(
            &mut s,
            "Use this to calibrate familiarity vs. discovery, but the description below always wins over taste context.",
        );
        proof {
            let a = views(self.top_artists@);
            let g = views(self.genres@);
            let pa = if a.len() > 0 {
                "- Frequently played artists: "@ + join(a, ", "@) + "\n"@
            } else {
                Seq::empty()
            };
            let pg = if g.len() > 0 {
                "- Genres they gravitate to: "@ + join(g, ", "@) + "\n"@
            } else {
                Seq::empty()
            };
            assert(s1 =~= s0 + pa);
            assert(s@ =~= taste_block(a, g));
        }
        s
    }
}

/// Role and format rules shared by every playlist prompt.
pub const CURATOR_SYSTEM: &'static str = "You are an expert music curator with deep knowledge of recorded music across every era and genre. You respond with STRICT JSON only: no markdown fences, no commentary before or after the JSON. Every track you propose must be a real, released recording likely to exist on Spotify. Use artist names exactly as they are credited on Spotify. Prefer original studio versions over live/remaster/karaoke variants unless asked otherwise. Never repeat the same artist+title pair.";

/// The JSON shape a playlist answer must have, with `count` tracks.
pub open spec fn schema_text(count: nat) -> Seq<char> {
    "Respond with exactly this JSON shape:\n{\n  \"name\": \"<short evocative playlist name>\",\n  \"description\": \"<one sentence, under 250 characters>\",\n  \"tracks\": [ { \"artist\": \"<artist>\", \"title\": \"<track title>\" }, ... exactly "@
        + decimal(count) + " entries ... ]\n}"@
}

pub fn playlist_schema(count: usize) -> (s: String)
    ensures
        s@ == schema_text(count as nat),
{
    let mut s = owned(
        "Respond with exactly this JSON shape:\n{\n  \"name\": \"<short evocative playlist name>\",\n  \"description\": \"<one sentence, under 250 characters>\",\n  \"tracks\": [ { \"artist\": \"<artist>\", \"title\": \"<track title>\" }, ... exactly ",
    );
    push_decimal(&mut s, count as u64);
    push_str(&mut s, " entries ... ]\n}");
    s
}

/// The user prompt for generating a playlist from a description.
pub open spec fn generation_text(description: Seq<char>, count: nat, taste: Seq<char>) -> Seq<
    char,
> {
    "Create a playlist of exactly "@ + decimal(count)
        + " tracks matching this description:\n\""@ + description + "\""@ + taste + "\n\n"@
        + schema_text(count)
}

/// AI playlist creation from a natural-language description.
pub fn generation_request(description: &str, count: usize, taste: Option<&TasteContext>) -> (r:
    AiRequest)
    ensures
        r.system@ == CURATOR_SYSTEM@,
        r.user@ == generation_text(
            description@,
            count as nat,
            match taste {
                Some(t) => taste_block(views(t.top_artists@), views(t.genres@)),
                None => Seq::empty(),
            },
        ),
{
    let taste_text = match taste {
        Some(t) => t.render(),
        None => String::new(),
    };
    let mut user = owned("Create a playlist of exactly ");
    push_decimal(&mut user, count as u64);
    push_str(&mut user, " tracks matching this description:\n\"");
    push_str(&mut user, description);
    push_str(&mut user, "\"");
    push_str(&mut user, taste_text.as_str());
    push_str(&mut user, "\n\n");
    let schema = playlist_schema(count);
    push_str(&mut user, schema.as_str());
    AiRequest { system: owned(CURATOR_SYSTEM), user }
}

/// `1. artist — title` lines for the current tracks.
pub open spec fn listing_text(current: Seq<(String, String)>) -> Seq<char>
    decreases current.len(),
{
    if current.len() == 0 {
        Seq::empty()
    } else {
        listing_text(current.drop_last()) + decimal(current.len()) + ". "@ + current.last().0@
            + " — "@ + current.last().1@ + "\n"@
    }
}

/// The user prompt for revising a playlist per an instruction.
pub open spec fn refinement_text(
    name: Seq<char>,
    current: Seq<(String, String)>,
    instruction: Seq<char>,
) -> Seq<char> {
    let hint: nat = if current.len() > 5 {
        current.len()
    } else {
        5
    };
    "Here is the playlist \""@ + name + "\" as it stands ("@ + decimal(current.len())
        + " tracks):\n"@ + listing_text(current) + "\nRevise it according to this instruction:\n\""@
        + instruction
        + "\"\n\nReturn the COMPLETE revised track list (not a diff). Keep tracks that still fit, drop the ones the instruction argues against, and add replacements. Stay near "@
        + decimal(hint) + " tracks unless the instruction implies otherwise.\n\n"@ + schema_text(
        hint,
    )
}

/// AI refinement: revise an existing track list per an instruction.
pub fn refinement_request(
    playlist_name: &str,
    current: &[(String, String)],
    instruction: &str,
) -> (r: AiRequest)
    ensures
        r.system@ == CURATOR_SYSTEM@,
        r.user@ == refinement_text(playlist_name@, current@, instruction@),
{
    let mut listing = String::new();
    let mut i: usize = 0;
    while i < current.len()
        invariant
            i <= current@.len(),
            listing@ == listing_text(current@.take(i as int)),
        decreases current@.len() - i,
    {
        proof {
            assert(current@.take(i + 1).drop_last() =~= current@.take(i as int));
        }
        push_decimal(&mut listing, (i + 1) as u64);
        push_str(&mut listing, ". ");
        push_str(&mut listing, current[i].0.as_str());
        push_str(&mut listing, " — ");
        push_str(&mut listing, current[i].1.as_str());
        push_str(&mut listing, "\n");
        i += 1;
    }
    proof {
        assert(current@.take(current@.len() as int) =~= current@);
    }
    let count_hint = if current.len() > 5 {
        current.len()
    } else {
        5
    };
    let mut user = owned("Here is the playlist \"");
    push_str(&mut user, playlist_name);
    push_str(&mut user, "\" as it stands (");
    push_decimal(&mut user, current.len() as u64);
    push_str(&mut user, " tracks):\n");
    push_str(&mut user, listing.as_str());
    push_str(&mut user, "\nRevise it according to this instruction:\n\"");
    push_str(&mut user, instruction);
    push_str(
        &mut user,
        "\"\n\nReturn the COMPLETE revised track list (not a diff). Keep tracks that still fit, drop the ones the instruction argues against, and add replacements. Stay near ",
    );
    push_decimal(&mut user, count_hint as u64);
    push_str(&mut user, " tracks unless the instruction implies otherwise.\n\n");
    let schema = playlist_schema(count_hint);
    push_str(&mut user, schema.as_str());
    AiRequest { system: owned(CURATOR_SYSTEM), user }
}

/// The user prompt for reorganizing a library from its digest.
pub open spec fn organize_text(digest: Seq<char>, goal: Seq<char>, max_playlists: nat) -> Seq<
    char,
> {
    "Below is a digest of a listener's Spotify library. Study it to understand their taste, then design AT MOST "@
        + decimal(max_playlists) + " new playlists that accomplish this goal:\n\""@ + goal
        + "\"\n\nDraw tracks primarily from the digest (copy artist and title EXACTLY as written there, so they can be matched back to the library). You may add a few new suggestions that clearly fit. 15 to 40 tracks per playlist.\n\n=== LIBRARY DIGEST ===\n"@
        + digest
        + "\n=== END DIGEST ===\n\nRespond with exactly this JSON shape:\n{\n  \"playlists\": [ { \"name\": \"...\", \"description\": \"...\", \"tracks\": [ { \"artist\": \"...\", \"title\": \"...\" } ] } ],\n  \"notes\": \"<one short paragraph explaining the organization>\"\n}"@
}

/// Learn-from-library reorganization.
pub fn organize_request(library_digest: &str, goal: &str, max_playlists: usize) -> (r: AiRequest)
    ensures
        r.system@ == CURATOR_SYSTEM@,
        r.user@ == organize_text(library_digest@, goal@, max_playlists as nat),
{
    let mut user = owned(
        "Below is a digest of a listener's Spotify library. Study it to understand their taste, then design AT MOST ",
    );
    push_decimal(&mut user, max_playlists as u64);
    push_str(&mut user, " new playlists that accomplish this goal:\n\"");
    push_str(&mut user, goal);
    push_str(
        &mut user,
        "\"\n\nDraw tracks primarily from the digest (copy artist and title EXACTLY as written there, so they can be matched back to the library). You may add a few new suggestions that clearly fit. 15 to 40 tracks per playlist.\n\n=== LIBRARY DIGEST ===\n",
    );
    push_str(&mut user, library_digest);
    push_str(
        &mut user,
        "\n=== END DIGEST ===\n\nRespond with exactly this JSON shape:\n{\n  \"playlists\": [ { \"name\": \"...\", \"description\": \"...\", \"tracks\": [ { \"artist\": \"...\", \"title\": \"...\" } ] } ],\n  \"notes\": \"<one short paragraph explaining the organization>\"\n}",
    );
    AiRequest { system: owned(CURATOR_SYSTEM), user }
}

/// The first 160 characters of `t`, with `…` appended when `t` is longer.
pub open spec fn snippet_text(t: Seq<char>) -> Seq<char> {
    if t.len() > 160 {
        t.take(160).push('…')
    } else {
        t
    }
}

pub fn snippet(text: &str) -> (s: String)
    ensures
        s@ == snippet_text(text@),
{
    let v = chars_of(text);
    if v.len() > 160 {
        let mut s = string_of(&slice_chars(&v, 0, 160));
        crate::text::push_char(&mut s, '…');
        s
    } else {
        proof {
            assert(v@ =~= text@);
        }
        string_of(&v)
    }
}

/// The JSON region of a model answer, or the parse error the app reports
/// when there is none.
pub open spec fn answer_json(text: Seq<char>) -> Result<Seq<char>, Seq<char>> {
    match extract_json_spec(text) {
        Some(j) => Ok(j),
        None => Err("no JSON found in: "@ + snippet_text(text)),
    }
}

/// Locate the JSON value in a model answer (first step of parsing a
/// playlist spec or an organize plan).
pub fn answer_json_of(text: &str) -> (r: Result<String, AiError>)
    ensures
        match r {
            Ok(j) => answer_json(text@) == Ok::<Seq<char>, Seq<char>>(j@),
            Err(AiError::Parse(m)) => answer_json(text@) == Err::<Seq<char>, Seq<char>>(m@),
            Err(_) => false,
        },
{
    match extract_json(text) {
        Some(j) => Ok(j),
        None => {
            let mut m = owned("no JSON found in: ");
            let sn = snippet(text);
            push_str(&mut m, sn.as_str());
            Err(AiError::Parse(m))
        },
    }
}

/// The error reported when the JSON region does not decode: the decoder's
/// message and a snippet of the JSON.
pub fn decode_failure(decoder_message: &str, json: &str) -> (e: AiError)
    ensures
        match e {
            AiError::Parse(m) => m@ == decoder_message@ + " in: "@ + snippet_text(json@),
            _ => false,
        },
{
    let mut m = owned(decoder_message);
    push_str(&mut m, " in: ");
    let sn = snippet(json);
    push_str(&mut m, sn.as_str());
    AiError::Parse(m)
}

/// Accept a decoded playlist spec only if it proposes at least one track.
pub fn check_playlist_spec(spec: GeneratedPlaylistSpec) -> (r: Result<
    GeneratedPlaylistSpec,
    AiError,
>)
    ensures
        spec.tracks@.len() > 0 ==> r == Ok::<GeneratedPlaylistSpec, AiError>(spec),
        spec.tracks@.len() == 0 ==> match r {
            Err(AiError::Parse(m)) => m@ == "the model returned an empty track list"@,
            _ => false,
        },
{
    if spec.tracks.len() == 0 {
        return Err(AiError::Parse(owned("the model returned an empty track list")));
    }
    Ok(spec)
}

/// Accept a decoded organize plan only if it proposes at least one
/// playlist.
pub fn check_organize_plan(plan: OrganizePlan) -> (r: Result<OrganizePlan, AiError>)
    ensures
        plan.playlists@.len() > 0 ==> r == Ok::<OrganizePlan, AiError>(plan),
        plan.playlists@.len() == 0 ==> match r {
            Err(AiError::Parse(m)) => m@ == "the model returned no playlists"@,
            _ => false,
        },
{
    if plan.playlists.len() == 0 {
        return Err(AiError::Parse(owned("the model returned no playlists")));
    }
    Ok(plan)
}

} // verus!
