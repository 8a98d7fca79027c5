//! AI refinement: "more like this, less like that".
//!
//! Refining a PROTECTED source always produces a NEW playlist. Refining a
//! SESSION playlist may edit it in place when `in_place` is requested — and
//! even then the service re-validates the tier before any write (see
//! [`super::refine_target_for`]).

use vstd::prelude::*;

use super::resolve::ResolutionReport;
use super::{OpError, WriteDestination, APP_SIGNATURE};
use crate::spotify::models::TrackInfo;
use crate::text::{decimal, owned, push_decimal, push_str, str_eq, trim_spec, trimmed};

verus! {

/// Cap on how many current tracks are shown to the model.
pub const PROMPT_TRACK_CAP: usize = 200;

#[derive(Clone, Debug)]
pub struct RefineOutcome {
    pub destination: WriteDestination,
    pub report: ResolutionReport,
}

/// A refinement needs a source with tracks.
pub fn check_source(tracks: &[TrackInfo]) -> (r: Result<(), OpError>)
    ensures
        match r {
            Ok(()) => tracks@.len() > 0,
            Err(OpError::Other(m)) => tracks@.len() == 0 && m@ == "the source has no tracks to refine"@,
            Err(_) => false,
        },
{
    if tracks.len() == 0 {
        Err(OpError::Other(owned("the source has no tracks to refine")))
    } else {
        Ok(())
    }
}

/// How track `t` is listed to the model: (primary artist or empty, title).
pub open spec fn listing_entry(t: TrackInfo) -> (Seq<char>, Seq<char>) {
    (
        if t.artists@.len() > 0 {
            t.artists@[0]@
        } else {
            Seq::empty()
        },
        t.name@,
    )
}

/// The (artist, title) pairs of a listing.
pub open spec fn listing_pairs(l: Seq<(String, String)>) -> Seq<(Seq<char>, Seq<char>)> {
    l.map_values(|p: (String, String)| (p.0@, p.1@))
}

/// The current tracks as shown to the model: the first
/// [`PROMPT_TRACK_CAP`] of them, and a note when the source had more.
pub fn refine_listing(tracks: &[TrackInfo]) -> (r: (Vec<(String, String)>, Option<String>))
    ensures
        r.0@.len() == if tracks@.len() > 200 {
            200
        } else {
            tracks@.len()
        },
        forall|i: int| 0 <= i < r.0@.len() ==> listing_pairs(r.0@)[i] == listing_entry(#[trigger] tracks@[i]),
        tracks@.len() > 200 <==> r.1 is Some,
        match r.1 {
            Some(m) => m@ == "Source has "@ + decimal(tracks@.len() as nat)
                + " tracks; showing the first 200 to the model"@,
            None => true,
        },
{
    let mut listing: Vec<(String, String)> = Vec::new();
    let mut i: usize = 0;
    while i < tracks.len() && i < PROMPT_TRACK_CAP
        invariant
            i <= tracks@.len(),
            i <= 200,
            listing@.len() == i,
            forall|j: int| 0 <= j < i ==> listing_pairs(listing@)[j] == listing_entry(#[trigger] tracks@[j]),
        decreases tracks@.len() - i,
    {
        let t = &tracks[i];
        let artist = if t.artists.len() > 0 {
            t.artists[0].clone()
        } else {
            proof {
                reveal_strlit("");
            }
            String::new()
        };
        listing.push((artist, t.name.clone()));
        i += 1;
    }
    if tracks.len() > PROMPT_TRACK_CAP {
        let mut m = owned("Source has ");
        push_decimal(&mut m, tracks.len() as u64);
        push_str(&mut m, " tracks; showing the first 200 to the model");
        (listing, Some(m))
    } else {
        (listing, None)
    }
}

/// The name of the refined playlist: the AI's name, unless it is blank or
/// just the source's label, in which case "<label> (refined)".
pub open spec fn refined_name_spec(ai_name: Seq<char>, label: Seq<char>) -> Seq<char> {
    if trim_spec(ai_name).len() == 0 || ai_name == label {
        label + " (refined)"@
    } else {
        ai_name
    }
}

/// The name of the refined playlist.
pub fn refined_name(ai_name: &str, label: &str) -> (s: String)
    ensures
        s@ == refined_name_spec(ai_name@, label@),
{
    let t = trimmed(ai_name);
    if t.as_str().is_empty() || str_eq(ai_name, label) {
        let mut s = owned(label);
        push_str(&mut s, " (refined)");
        s
    } else {
        owned(ai_name)
    }
}

/// The description of the refined playlist.
pub fn refined_description(ai_description: &str, label: &str) -> (s: String)
    ensures
        s@ == ai_description@ + " · Refined from '"@ + label@ + "' · "@ + APP_SIGNATURE@,
{
    let mut s = owned(ai_description);
    push_str(&mut s, " · Refined from '");
    push_str(&mut s, label);
    push_str(&mut s, "' · ");
    push_str(&mut s, APP_SIGNATURE);
    s
}

/// A revision that resolved to nothing is refused.
pub fn check_revision(uris: &Vec<String>) -> (r: Result<(), OpError>)
    ensures
        match r {
            Ok(()) => uris@.len() > 0,
            Err(OpError::Other(m)) => uris@.len() == 0 && m@ == "the revision resolved to zero tracks"@,
            Err(_) => false,
        },
{
    if uris.len() == 0 {
        Err(OpError::Other(owned("the revision resolved to zero tracks")))
    } else {
        Ok(())
    }
}

} // verus!
