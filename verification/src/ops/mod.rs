//! Feature operations ("ops") — the decisions behind every button in the UI.
//!
//! Ops read anything but write only through the safety-gated service, which
//! enforces the two-tier safety model. Every op that transforms a protected
//! source writes its output to a NEW playlist; the `in_place` variants are
//! honored only for session playlists. This module holds the pure parts of
//! the pipelines: what is written, where, and under which name; the
//! application drives the network calls around them.

use vstd::prelude::*;

pub mod generate;
pub mod import_export;
pub mod insights;
pub mod organize;
pub mod playlist_tools;
pub mod refine;
pub mod resolve;


use crate::ai::AiError;
use crate::safety::{PlaylistId, SafetyPolicy, Tier};
use crate::spotify::models::{addable, converted_from, PlayableItem, PlaylistItem, TrackInfo};
use crate::spotify::service::ServiceError;
use crate::text::{decimal, owned, push_decimal, push_str};

verus! {

#[derive(Clone, Debug)]
pub enum OpError {
    Spotify(ServiceError),
    Ai(AiError),
    Other(String),
}

/// Streamed feedback from a running op to the UI.
#[derive(Clone, Debug)]
pub enum OpUpdate {
    Log(String),
    Progress { label: String, done: u64, total: Option<u64> },
}

/// Where an op reads tracks from. Liked Songs is not a playlist and can
/// therefore never be a mutation target — only ever a source.
#[derive(Clone, Debug, PartialEq, Eq)]
pub enum TrackSource {
    LikedSongs,
    Playlist { id: PlaylistId, name: String },
}

/// The label shown for a source.
pub open spec fn source_label(s: TrackSource) -> Seq<char> {
    match s {
        TrackSource::LikedSongs => "Liked Songs"@,
        TrackSource::Playlist { name, .. } => name@,
    }
}

impl TrackSource {
    pub fn label(&self) -> (s: String)
        ensures
            s@ == source_label(*self),
    {
        match self {
            TrackSource::LikedSongs => owned("Liked Songs"),
            TrackSource::Playlist { name, .. } => name.clone(),
        }
    }
}

#[derive(Clone, Debug)]
pub struct CreatedPlaylist {
    pub name: String,
    pub track_count: usize,
}

/// Result of writing an op's output.
#[derive(Clone, Debug)]
pub enum WriteDestination {
    NewPlaylist(CreatedPlaylist),
    EditedInPlace { name: String, track_count: usize },
}

/// One-line summary of a write.
pub open spec fn destination_summary(d: WriteDestination) -> Seq<char> {
    match d {
        WriteDestination::NewPlaylist(p) => "created new playlist '"@ + p.name@ + "' with "@
            + decimal(p.track_count as nat) + " tracks"@,
        WriteDestination::EditedInPlace { name, track_count } => "updated session playlist '"@
            + name@ + "' in place ("@ + decimal(track_count as nat) + " tracks)"@,
    }
}

impl WriteDestination {
    pub fn summary(&self) -> (s: String)
        ensures
            s@ == destination_summary(*self),
    {
        match self {
            WriteDestination::NewPlaylist(p) => {
                let mut s = owned("created new playlist '");
                push_str(&mut s, p.name.as_str());
                push_str(&mut s, "' with ");
                push_decimal(&mut s, p.track_count as u64);
                push_str(&mut s, " tracks");
                s
            },
            WriteDestination::EditedInPlace { name, track_count } => {
                let mut s = owned("updated session playlist '");
                push_str(&mut s, name.as_str());
                push_str(&mut s, "' in place (");
                push_decimal(&mut s, *track_count as u64);
                push_str(&mut s, " tracks)");
                s
            },
        }
    }

    /// The created playlist, for writes that created one.
    pub fn created(&self) -> (r: Option<&CreatedPlaylist>)
        ensures
            match *self {
                WriteDestination::NewPlaylist(p) => r == Some(&p),
                WriteDestination::EditedInPlace { .. } => r is None,
            },
    {
        match self {
            WriteDestination::NewPlaylist(p) => Some(p),
            WriteDestination::EditedInPlace { .. } => None,
        }
    }
}

/// The URIs of the addable tracks of `tracks`, in order.
pub open spec fn addable_uri_seq(tracks: Seq<TrackInfo>) -> Seq<Seq<char>>
    decreases tracks.len(),
{
    if tracks.len() == 0 {
        Seq::empty()
    } else {
        let prev = addable_uri_seq(tracks.drop_last());
        let t = tracks.last();
        if addable(t.uri@, t.is_local) {
            prev.push(t.uri@)
        } else {
            prev
        }
    }
}

pub proof fn lemma_addable_uri_seq_len(tracks: Seq<TrackInfo>)
    ensures
        addable_uri_seq(tracks).len() <= tracks.len(),
    decreases tracks.len(),
{
    if tracks.len() > 0 {
        lemma_addable_uri_seq_len(tracks.drop_last());
    }
}

/// URIs that can be written back through the API (drops local files and
/// anything without a proper Spotify URI), in order.
pub fn addable_uris(tracks: &[TrackInfo]) -> (uris: Vec<String>)
    ensures
        crate::ai::prompts::views(uris@) == addable_uri_seq(tracks@),
{
    let mut uris: Vec<String> = Vec::new();
    let mut i: usize = 0;
    while i < tracks.len()
        invariant
            i <= tracks@.len(),
            crate::ai::prompts::views(uris@) == addable_uri_seq(tracks@.take(i as int)),
        decreases tracks@.len() - i,
    {
        let ghost before = uris@;
        proof {
            assert(tracks@.take(i + 1).drop_last() =~= tracks@.take(i as int));
        }
        if tracks[i].is_addable() {
            let u = tracks[i].uri.clone();
            uris.push(u);
            proof {
                assert(crate::ai::prompts::views(uris@) =~= crate::ai::prompts::views(before).push(
                    u@,
                ));
            }
        }
        i += 1;
    }
    proof {
        assert(tracks@.take(tracks@.len() as int) =~= tracks@);
    }
    uris
}

/// The log line for items skipped by [`addable_uris`], if any were.
pub fn skipped_items_note(total: usize, kept: usize) -> (r: Option<String>)
    requires
        kept <= total,
    ensures
        total == kept ==> r is None,
        total > kept ==> match r {
            Some(s) => s@ == decimal((total - kept) as nat)
                + " item(s) skipped (local files can't be re-added through the Web API)"@,
            None => false,
        },
{
    if total == kept {
        return None;
    }
    let mut s = String::new();
    push_decimal(&mut s, (total - kept) as u64);
    push_str(&mut s, " item(s) skipped (local files can't be re-added through the Web API)");
    proof {
        assert(s@ =~= Seq::<char>::empty() + decimal((total - kept) as nat)
            + " item(s) skipped (local files can't be re-added through the Web API)"@);
    }
    Some(s)
}

/// Why writing nothing is refused: an op never creates an empty playlist.
pub fn nothing_to_write(uris: &[String]) -> (r: Option<OpError>)
    ensures
        uris@.len() == 0 <==> r is Some,
        match r {
            Some(OpError::Other(m)) => m@ == "nothing to write — no playable tracks"@,
            Some(_) => false,
            None => true,
        },
{
    if uris.len() == 0 {
        Some(OpError::Other(owned("nothing to write — no playable tracks")))
    } else {
        None
    }
}

/// The in-place target an op may use: only a session playlist, and only
/// when in-place editing was requested.
pub open spec fn in_place_target_spec(
    requested: bool,
    source: TrackSource,
    tier: spec_fn(Seq<char>) -> Tier,
) -> Option<(Seq<char>, Seq<char>)> {
    match source {
        TrackSource::Playlist { id, name } => if requested && tier(id@) == Tier::Session {
            Some((id@, name@))
        } else {
            None
        },
        TrackSource::LikedSongs => None,
    }
}

/// Only a session playlist is ever an in-place target, and only when asked:
/// Liked Songs and protected playlists always get their results written to
/// a new playlist.
pub proof fn law_in_place_only_for_session(
    requested: bool,
    source: TrackSource,
    tier: spec_fn(Seq<char>) -> Tier,
)
    ensures
        in_place_target_spec(requested, source, tier) is Some ==> requested && match source {
            TrackSource::Playlist { id, .. } => tier(id@) == Tier::Session,
            TrackSource::LikedSongs => false,
        },
{
}

/// The in-place gate: the target when in-place editing was requested for a
/// session playlist; otherwise none, and the note `declined` when it was
/// requested.
fn in_place_gate(policy: &SafetyPolicy, source: &TrackSource, requested: bool, declined: &str) -> (r: (
    Option<(PlaylistId, String)>,
    Option<String>,
))
    ensures
        match r.0 {
            Some(t) => in_place_target_spec(requested, *source, |id: Seq<char>| policy@.tier(id))
                == Some((t.0@, t.1@)),
            None => in_place_target_spec(
                requested,
                *source,
                |id: Seq<char>| policy@.tier(id),
            ) is None,
        },
        (requested && r.0 is None) <==> r.1 is Some,
        match r.1 {
            Some(m) => m@ == declined@,
            None => true,
        },
{
    if !requested {
        return (None, None);
    }
    match source {
        TrackSource::Playlist { id, name } => {
            if policy.is_session(id) {
                return (Some((id.duplicate(), name.clone())), None);
            }
        },
        TrackSource::LikedSongs => {},
    }
    (None, Some(owned(declined)))
}

/// The UX-level in-place gate of the playlist tools (the service re-checks
/// authoritatively): in-place is honored only for playlists created this
/// session. The second component is the log line when a requested in-place
/// edit was declined.
pub fn in_place_target_for(policy: &SafetyPolicy, source: &TrackSource, requested: bool) -> (r: (
    Option<(PlaylistId, String)>,
    Option<String>,
))
    ensures
        match r.0 {
            Some(t) => in_place_target_spec(requested, *source, |id: Seq<char>| policy@.tier(id))
                == Some((t.0@, t.1@)),
            None => in_place_target_spec(
                requested,
                *source,
                |id: Seq<char>| policy@.tier(id),
            ) is None,
        },
        (requested && r.0 is None) <==> r.1 is Some,
        match r.1 {
            Some(m) => m@
                == "In-place editing is only allowed for playlists created this session; writing to a new playlist instead."@,
            None => true,
        },
{
    in_place_gate(
        policy,
        source,
        requested,
        "In-place editing is only allowed for playlists created this session; writing to a new playlist instead.",
    )
}

/// The in-place gate of a refinement: as [`in_place_target_for`], with
/// its own note.
pub fn refine_target_for(policy: &SafetyPolicy, source: &TrackSource, requested: bool) -> (r: (
    Option<(PlaylistId, String)>,
    Option<String>,
))
    ensures
        match r.0 {
            Some(t) => in_place_target_spec(requested, *source, |id: Seq<char>| policy@.tier(id))
                == Some((t.0@, t.1@)),
            None => in_place_target_spec(
                requested,
                *source,
                |id: Seq<char>| policy@.tier(id),
            ) is None,
        },
        (requested && r.0 is None) <==> r.1 is Some,
        match r.1 {
            Some(m) => m@
                == "In-place refinement is only allowed for playlists created this session; writing to a new playlist instead."@,
            None => true,
        },
{
    in_place_gate(
        policy,
        source,
        requested,
        "In-place refinement is only allowed for playlists created this session; writing to a new playlist instead.",
    )
}

/// The signature appended to every description this app writes.
pub const APP_SIGNATURE: &'static str = "Created with Playlist Studio";

/// The playable entries of `items`: each entry with a track that has a URI,
/// as (track, when it was added), in order.
pub open spec fn kept_items(items: Seq<PlaylistItem>) -> Seq<(PlayableItem, Option<String>)>
    decreases items.len(),
{
    if items.len() == 0 {
        Seq::empty()
    } else {
        let prev = kept_items(items.drop_last());
        let it = items.last();
        match it.track {
            Some(p) => if p.uri@.len() > 0 {
                prev.push((p, it.added_at))
            } else {
                prev
            },
            None => prev,
        }
    }
}

/// The display-ready tracks of a listing: entries without a track (no longer
/// available) and tracks without a URI are dropped.
pub fn playable_tracks(items: Vec<PlaylistItem>) -> (r: Vec<TrackInfo>)
    ensures
        r@.len() == kept_items(items@).len(),
        forall|k: int|
            0 <= k < r@.len() ==> converted_from(
                #[trigger] r@[k],
                kept_items(items@)[k].0,
                kept_items(items@)[k].1,
            ),
{
    let ghost all = items@;
    let mut r: Vec<TrackInfo> = Vec::new();
    for item in it: items
        invariant
            it.seq() == all,
            r@.len() == kept_items(all.take(it.index() as int)).len(),
            forall|k: int|
                0 <= k < r@.len() ==> converted_from(
                    #[trigger] r@[k],
                    kept_items(all.take(it.index() as int))[k].0,
                    kept_items(all.take(it.index() as int))[k].1,
                ),
    {
        proof {
            assert(all.take(it.index() + 1).drop_last() =~= all.take(it.index() as int));
            assert(all.take(it.index() + 1).last() == item);
        }
        let added = item.added_at;
        match item.track {
            Some(p) => {
                match TrackInfo::from_playable(p, added) {
                    Some(t) => {
                        r.push(t);
                    },
                    None => {},
                }
            },
            None => {},
        }
    }
    proof {
        assert(all.take(all.len() as int) =~= all);
    }
    r
}

} // verus!
