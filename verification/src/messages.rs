//! Message types between the UI thread and the background worker.
//!
//! The UI never touches the network: it sends [`Command`]s and renders
//! [`Event`]s. The worker processes commands strictly one at a time, which
//! also serializes every safety-policy check with the mutation it guards.

use vstd::prelude::*;

use crate::ai::prompts::{join, views};
use crate::config::AppConfig;
use crate::ops::import_export::ExportFormat;
use crate::ops::insights::InsightsData;
use crate::ops::organize::readable;
use crate::ops::playlist_tools::SortKey;
use crate::ops::TrackSource;
use crate::safety::{PlaylistId, SafetyPolicy, Tier};
use crate::spotify::models::{SimplifiedPlaylist, TrackInfo};
use crate::text::{chars_of, slice_chars, string_of, str_eq};
use crate::util::{duration_text, format_duration_ms};

verus! {

#[derive(Clone, Debug)]
pub enum Command {
    Connect,
    Disconnect,
    RefreshPlaylists,
    LoadTracks(TrackSource),
    Generate { description: String, count: usize, personalize: bool },
    Refine { source: TrackSource, instruction: String, in_place: bool },
    Organize { goal: String, max_playlists: usize },
    Shuffle { source: TrackSource },
    Dedupe { source: TrackSource, in_place: bool },
    Merge { sources: Vec<TrackSource>, dedupe: bool, shuffle: bool },
    Sort { source: TrackSource, key: SortKey, descending: bool, in_place: bool },
    Import { name: String, text: String },
    Export { source: TrackSource, format: ExportFormat, path: std::path::PathBuf },
    RenameSession { id: PlaylistId, current_name: String, new_name: String },
    DeleteSession { id: PlaylistId, name: String },
    ArmGuardedDelete { id: PlaylistId, name: String },
    ConfirmGuardedDelete { id: PlaylistId, typed: String },
    CancelGuardedDelete,
    FetchInsights,
    /// Free connectivity check (binary/auth/key presence) — no generation.
    CheckAi,
    /// Full round-trip test — performs one tiny generation.
    TestAi,
    ApplyConfig(Box<AppConfig>),
}

#[derive(Clone, Copy, Debug, PartialEq, Eq, Structural)]
pub enum LogLevel {
    Info,
    Success,
    Warn,
    Error,
}

#[derive(Clone, Debug)]
pub struct PlaylistRow {
    pub id: PlaylistId,
    pub name: String,
    pub owner: String,
    pub total: u64,
    pub tier: Tier,
    /// Contents readable? (owned or collaborative — dev-mode restriction)
    pub readable: bool,
}

#[derive(Clone, Debug)]
pub struct TrackRow {
    pub title: String,
    pub artists: String,
    pub album: String,
    pub duration: String,
    pub release_date: String,
    pub added_at: String,
    pub is_local: bool,
    pub is_episode: bool,
}

#[derive(Clone, Debug)]
pub struct AuthInfo {
    pub connected: bool,
    pub user: Option<String>,
    pub provider_desc: String,
}

#[derive(Clone, Debug)]
pub enum Event {
    /// Level, time, message.
    Log(LogLevel, String, String),
    Auth(AuthInfo),
    Playlists(Vec<PlaylistRow>),
    SessionPlaylists(Vec<(PlaylistId, String)>),
    Tracks { source_label: String, rows: Vec<TrackRow> },
    BusyStarted { label: String },
    BusyProgress { label: String, done: u64, total: Option<u64> },
    BusyFinished,
    Insights(Box<InsightsData>),
    /// The worker armed the guarded deletion flow; the UI must now show the
    /// warning dialog displaying exactly this name.
    GuardedDeleteArmed { id: PlaylistId, name: String },
    /// The guarded flow ended (confirmed, mismatched, or cancelled).
    GuardedDeleteResolved,
    AiTest { ok: bool, message: String },
}

/// The date part shown for an `added_at` timestamp: its first ten
/// characters (all of it when shorter), or nothing when absent.
pub open spec fn added_date(a: Option<String>) -> Seq<char> {
    match a {
        Some(s) => if s@.len() > 10 {
            s@.take(10)
        } else {
            s@
        },
        None => Seq::empty(),
    }
}

/// The table row shown for a track.
pub fn track_row(t: &TrackInfo) -> (r: TrackRow)
    ensures
        r.title@ == t.name@,
        r.artists@ == join(views(t.artists@), ", "@),
        r.album@ == t.album@,
        r.duration@ == duration_text(t.duration_ms as nat),
        r.release_date@ == match t.release_date {
            Some(d) => d@,
            None => Seq::empty(),
        },
        r.added_at@ == added_date(t.added_at),
        r.is_local == t.is_local,
        r.is_episode == t.is_episode,
{
    let release_date = match &t.release_date {
        Some(d) => d.clone(),
        None => String::new(),
    };
    let added_at = match &t.added_at {
        Some(a) => {
            let v = chars_of(a.as_str());
            if v.len() > 10 {
                let head = slice_chars(&v, 0, 10);
                proof {
                    assert(v@.subrange(0, 10) =~= a@.take(10));
                }
                string_of(&head)
            } else {
                a.clone()
            }
        },
        None => String::new(),
    };
    TrackRow {
        title: t.name.clone(),
        artists: t.artist_line(),
        album: t.album.clone(),
        duration: format_duration_ms(t.duration_ms),
        release_date,
        added_at,
        is_local: t.is_local,
        is_episode: t.is_episode,
    }
}

/// The library row shown for playlist `p` of the user `me` under `policy`.
pub fn playlist_row(p: &SimplifiedPlaylist, me: &str, policy: &SafetyPolicy) -> (r: PlaylistRow)
    ensures
        r.id@ == p.id@,
        r.name@ == p.name@,
        r.owner@ == match p.owner {
            Some(o) => match o.display_name {
                Some(n) => n@,
                None => o.id@,
            },
            None => Seq::empty(),
        },
        r.total == match p.tracks {
            Some(t) => t.total,
            None => 0,
        },
        r.tier == policy@.tier(p.id@),
        r.readable == readable(*p, me@),
{
    let id = PlaylistId(p.id.clone());
    let tier = policy.tier(&id);
    let ok = p.collaborative || match &p.owner {
        Some(o) => str_eq(o.id.as_str(), me),
        None => false,
    };
    PlaylistRow {
        id,
        name: p.name.clone(),
        owner: p.owner_label(),
        total: p.total_tracks(),
        tier,
        readable: ok,
    }
}

} // verus!
