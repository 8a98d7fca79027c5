//! Models for the subset of the Spotify Web API this app uses, plus the
//! owned `TrackInfo` shape the rest of the library works with.
//!
//! The application decodes API responses into these types permissively
//! (playlists can contain `null` items, local files, and podcast episodes,
//! and the API occasionally omits fields); everything non-essential is
//! optional or defaulted.

use vstd::prelude::*;

use crate::ai::prompts::{join, join_strings, views};
use crate::text::{chars_of, matches_at, owned};

verus! {

#[derive(Clone, Debug)]
pub struct UserProfile {
    pub id: String,
    pub display_name: Option<String>,
}

impl UserProfile {
    /// The display name, falling back to the user id.
    pub fn label(&self) -> (s: &str)
        ensures
            s@ == match self.display_name {
                Some(n) => n@,
                None => self.id@,
            },
    {
        match &self.display_name {
            Some(n) => n.as_str(),
            None => self.id.as_str(),
        }
    }
}

#[derive(Clone, Debug, Default)]
pub struct Page<T> {
    pub items: Vec<T>,
    pub next: Option<String>,
    pub total: Option<u64>,
}

#[derive(Clone, Debug)]
pub struct SimplifiedPlaylist {
    pub id: String,
    pub name: String,
    pub description: Option<String>,
    pub owner: Option<PlaylistOwner>,
    pub collaborative: bool,
    /// The track count reference (the API's `tracks`, renamed `items` in
    /// February 2026; the decoder accepts either spelling).
    pub tracks: Option<TracksRef>,
}

impl SimplifiedPlaylist {
    /// The owner's display name, else the owner id, else empty.
    pub fn owner_label(&self) -> (s: String)
        ensures
            s@ == match self.owner {
                Some(o) => match o.display_name {
                    Some(n) => n@,
                    None => o.id@,
                },
                None => Seq::empty(),
            },
    {
        match &self.owner {
            Some(o) => match &o.display_name {
                Some(n) => n.clone(),
                None => o.id.clone(),
            },
            None => String::new(),
        }
    }

    /// The playlist's track count, 0 when unknown.
    pub fn total_tracks(&self) -> (n: u64)
        ensures
            n == match self.tracks {
                Some(t) => t.total,
                None => 0,
            },
    {
        match &self.tracks {
            Some(t) => t.total,
            None => 0,
        }
    }
}

#[derive(Clone, Debug)]
pub struct PlaylistOwner {
    pub id: String,
    pub display_name: Option<String>,
}

#[derive(Clone, Debug)]
pub struct TracksRef {
    pub total: u64,
}

/// One entry of a playlist's items.
#[derive(Clone, Debug)]
pub struct PlaylistItem {
    pub added_at: Option<String>,
    /// `None` for tracks that are no longer available.
    pub track: Option<PlayableItem>,
}

/// A track or podcast episode as it appears inside playlists, saved tracks,
/// top lists, and search results. Episode objects lack artists and album.
#[derive(Clone, Debug, Default)]
pub struct PlayableItem {
    pub uri: String,
    pub name: String,
    pub artists: Vec<ArtistRef>,
    pub album: Option<AlbumRef>,
    pub duration_ms: u64,
    pub is_local: bool,
    /// The API's `type` field ("track", "episode", ...).
    pub item_type: Option<String>,
}

#[derive(Clone, Debug)]
pub struct ArtistRef {
    pub name: String,
}

#[derive(Clone, Debug)]
pub struct AlbumRef {
    pub name: String,
    pub release_date: Option<String>,
}

#[derive(Clone, Debug)]
pub struct SavedTrackItem {
    pub added_at: Option<String>,
    pub track: Option<PlayableItem>,
}

#[derive(Clone, Debug)]
pub struct FullArtist {
    pub name: String,
    /// Deprecated by Spotify and frequently empty.
    pub genres: Vec<String>,
}

#[derive(Clone, Debug)]
pub struct PlayHistoryItem {
    pub track: PlayableItem,
    pub played_at: String,
}

#[derive(Clone, Debug)]
pub struct SearchResponse {
    pub tracks: Option<Page<PlayableItem>>,
}

/// Owned, display-ready track used across ops and the UI.
#[derive(Clone, Debug)]
pub struct TrackInfo {
    pub uri: String,
    pub name: String,
    pub artists: Vec<String>,
    pub album: String,
    pub release_date: Option<String>,
    pub duration_ms: u64,
    pub is_local: bool,
    pub is_episode: bool,
    pub added_at: Option<String>,
}

/// The prefix of every URI the Web API accepts back in playlist writes.
pub open spec fn spotify_prefix() -> Seq<char> {
    seq!['s', 'p', 'o', 't', 'i', 'f', 'y', ':']
}

/// A track with URI `uri` can be written back through the API: not a local
/// file, and a proper `spotify:` URI.
pub open spec fn addable(uri: Seq<char>, is_local: bool) -> bool {
    !is_local && matches_at(uri, 0, spotify_prefix())
}

/// The names of the artists of `p`.
pub open spec fn artist_names(artists: Seq<ArtistRef>) -> Seq<Seq<char>> {
    artists.map_values(|a: ArtistRef| a.name@)
}

/// `TrackInfo::from_playable` keeps these facts of the item it came from.
pub open spec fn converted_from(t: TrackInfo, p: PlayableItem, added_at: Option<String>) -> bool {
    &&& t.uri@ == p.uri@
    &&& t.name@ == p.name@
    &&& views(t.artists@) == artist_names(p.artists@)
    &&& t.album@ == match p.album {
        Some(a) => a.name@,
        None => Seq::empty(),
    }
    &&& t.release_date == match p.album {
        Some(a) => a.release_date,
        None => None,
    }
    &&& t.duration_ms == p.duration_ms
    &&& t.is_local == p.is_local
    &&& t.is_episode == match p.item_type {
        Some(k) => k@ == "episode"@,
        None => false,
    }
    &&& t.added_at == added_at
}

impl TrackInfo {
    /// Convert an API item; items without a URI are dropped.
    pub fn from_playable(p: PlayableItem, added_at: Option<String>) -> (r: Option<TrackInfo>)
        ensures
            p.uri@.len() == 0 <==> r is None,
            match r {
                Some(t) => converted_from(t, p, added_at),
                None => true,
            },
    {
        if p.uri.as_str().is_empty() {
            return None;
        }
        let ghost p0 = p;
        let mut artists: Vec<String> = Vec::new();
        let mut i: usize = 0;
        while i < p.artists.len()
            invariant
                p == p0,
                i <= p.artists@.len(),
                views(artists@) == artist_names(p.artists@.take(i as int)),
            decreases p.artists@.len() - i,
        {
            let ghost before = artists@;
            let name = p.artists[i].name.clone();
            artists.push(name);
            proof {
                assert(views(artists@) =~= views(before).push(name@));
                assert(p.artists@.take(i + 1) =~= p.artists@.take(i as int).push(p.artists@[i as int]));
                assert(artist_names(p.artists@.take(i + 1)) =~= artist_names(
                    p.artists@.take(i as int),
                ).push(p.artists@[i as int].name@));
            }
            i += 1;
        }
        proof {
            assert(p.artists@.take(p.artists@.len() as int) =~= p.artists@);
        }
        let album = match &p.album {
            Some(a) => a.name.clone(),
            None => String::new(),
        };
        let release_date = match &p.album {
            Some(a) => a.release_date.clone(),
            None => None,
        };
        let is_episode = match &p.item_type {
            Some(k) => crate::text::str_eq(k.as_str(), "episode"),
            None => false,
        };
        Some(
            TrackInfo {
                uri: p.uri,
                name: p.name,
                artists,
                album,
                release_date,
                duration_ms: p.duration_ms,
                is_local: p.is_local,
                is_episode,
                added_at,
            },
        )
    }

    /// The artists joined with ", ".
    pub fn artist_line(&self) -> (s: String)
        ensures
            s@ == join(views(self.artists@), ", "@),
    {
        join_strings(&self.artists, ", ")
    }

    /// URI usable in playlist-mutation requests. Local files
    /// (`spotify:local:...`) cannot be added back through the Web API.
    pub fn is_addable(&self) -> (b: bool)
        ensures
            b == addable(self.uri@, self.is_local),
    {
        if self.is_local {
            return false;
        }
        let u = chars_of(self.uri.as_str());
        let mut prefix = Vec::new();
        prefix.push('s');
        prefix.push('p');
        prefix.push('o');
        prefix.push('t');
        prefix.push('i');
        prefix.push('f');
        prefix.push('y');
        prefix.push(':');
        proof {
            assert(prefix@ =~= spotify_prefix());
        }
        crate::text::matches_at_exec(&u, 0, &prefix)
    }
}

} // verus!
