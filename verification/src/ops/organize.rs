//! Learn-from-library: digest the user's playlists, Liked Songs, and top
//! artists; let the AI design improved/reorganized playlists; create them as
//! NEW playlists. The protected source playlists are never touched.
//!
//! The application fetches the library and talks to the AI; this module
//! chooses what is sampled and writes the digest the AI reads.

use vstd::prelude::*;

use super::generate::full_artist_names;
use super::playlist_tools::first_n;
use super::{CreatedPlaylist, OpError};
use crate::ai::prompts::{join, join_strings, views, GeneratedPlaylistSpec};
use crate::spotify::models::{FullArtist, SimplifiedPlaylist, TrackInfo};
use crate::text::{decimal, owned, push_decimal, push_str};

verus! {

/// Caps keep the digest inside a sane token budget.
pub const MAX_PLAYLISTS_IN_DIGEST: usize = 25;

pub const SAMPLE_TRACKS_PER_PLAYLIST: usize = 15;

pub const LIKED_SAMPLE: usize = 150;

#[derive(Clone, Debug)]
pub struct OrganizeOutcome {
    pub created: Vec<CreatedPlaylist>,
    pub notes: Option<String>,
    pub unresolved_total: usize,
}

/// The number of playlists an organize run may create: kept within 1..=10.
pub fn clamp_playlists(max_playlists: usize) -> (n: usize)
    ensures
        n == if max_playlists < 1 {
            1
        } else if max_playlists > 10 {
            10
        } else {
            max_playlists
        },
{
    if max_playlists < 1 {
        1
    } else if max_playlists > 10 {
        10
    } else {
        max_playlists
    }
}

/// Only owned or collaborative playlists have readable contents.
pub open spec fn readable(p: SimplifiedPlaylist, me: Seq<char>) -> bool {
    p.collaborative || match p.owner {
        Some(o) => o.id@ == me,
        None => false,
    }
}

/// The positions of the readable playlists, in order.
pub open spec fn readable_positions(ps: Seq<SimplifiedPlaylist>, me: Seq<char>) -> Seq<usize>
    decreases ps.len(),
{
    if ps.len() == 0 {
        Seq::empty()
    } else {
        let prev = readable_positions(ps.drop_last(), me);
        if readable(ps.last(), me) {
            prev.push((ps.len() - 1) as usize)
        } else {
            prev
        }
    }
}

/// The positions of the playlists sampled for the digest: the first
/// [`MAX_PLAYLISTS_IN_DIGEST`] readable ones of the user `me`.
pub fn sampled_playlists(playlists: &[SimplifiedPlaylist], me: &str) -> (r: Vec<usize>)
    ensures
        r@ == if readable_positions(playlists@, me@).len() > 25 {
            readable_positions(playlists@, me@).take(25)
        } else {
            readable_positions(playlists@, me@)
        },
{
    let mut r: Vec<usize> = Vec::new();
    let mut i: usize = 0;
    while i < playlists.len()
        invariant
            i <= playlists@.len(),
            r@ == readable_positions(playlists@.take(i as int), me@),
        decreases playlists@.len() - i,
    {
        proof {
            assert(playlists@.take(i + 1).drop_last() =~= playlists@.take(i as int));
            assert(playlists@.take(i + 1).last() == playlists@[i as int]);
        }
        let p = &playlists[i];
        let ok = p.collaborative || match &p.owner {
            Some(o) => crate::text::str_eq(o.id.as_str(), me),
            None => false,
        };
        if ok {
            r.push(i);
        }
        i += 1;
    }
    proof {
        assert(playlists@.take(playlists@.len() as int) =~= playlists@);
    }
    if r.len() > MAX_PLAYLISTS_IN_DIGEST {
        r.truncate(MAX_PLAYLISTS_IN_DIGEST);
    }
    r
}

/// The log line naming how many playlists are sampled.
pub fn sampling_note(sampled: usize, total: usize) -> (s: String)
    ensures
        s@ == "Sampling "@ + decimal(sampled as nat) + " of your playlists ("@ + decimal(total as nat)
            + " total; only owned/collaborative ones are readable)"@,
{
    let mut s = owned("Sampling ");
    push_decimal(&mut s, sampled as u64);
    push_str(&mut s, " of your playlists (");
    push_decimal(&mut s, total as u64);
    push_str(&mut s, " total; only owned/collaborative ones are readable)");
    s
}

/// One digest line for a track: "  - artists — title".
pub open spec fn digest_line(t: TrackInfo) -> Seq<char> {
    "  - "@ + join(views(t.artists@), ", "@) + " — "@ + t.name@ + "\n"@
}

/// The digest lines of `ts`, in order.
pub open spec fn digest_lines(ts: Seq<TrackInfo>) -> Seq<char>
    decreases ts.len(),
{
    if ts.len() == 0 {
        Seq::empty()
    } else {
        digest_lines(ts.drop_last()) + digest_line(ts.last())
    }
}

fn push_digest_line(s: &mut String, t: &TrackInfo)
    ensures
        final(s)@ == old(s)@ + digest_line(*t),
{
    push_str(s, "  - ");
    let a = t.artist_line();
    push_str(s, a.as_str());
    push_str(s, " — ");
    push_str(s, t.name.as_str());
    push_str(s, "\n");
}

/// The digest header of playlist `p`.
pub open spec fn playlist_header(p: SimplifiedPlaylist) -> Seq<char> {
    "PLAYLIST: "@ + p.name@ + " ("@ + decimal(
        match p.tracks {
            Some(t) => t.total as nat,
            None => 0,
        },
    ) + " tracks"@ + match p.description {
        Some(d) => if d@.len() > 0 {
            " — "@ + d@
        } else {
            Seq::empty()
        },
        None => Seq::empty(),
    } + ")\n"@
}

/// The digest section of playlist `p` whose first tracks are `tracks`: the
/// header and up to [`SAMPLE_TRACKS_PER_PLAYLIST`] track lines.
pub fn playlist_section(p: &SimplifiedPlaylist, tracks: &[TrackInfo]) -> (s: String)
    ensures
        s@ == playlist_header(*p) + digest_lines(
            if tracks@.len() > 15 {
                tracks@.take(15)
            } else {
                tracks@
            },
        ),
{
    let mut s = owned("PLAYLIST: ");
    push_str(&mut s, p.name.as_str());
    push_str(&mut s, " (");
    push_decimal(&mut s, p.total_tracks());
    push_str(&mut s, " tracks");
    let ghost before = s@;
    match &p.description {
        Some(d) => {
            if !d.as_str().is_empty() {
                push_str(&mut s, " — ");
                push_str(&mut s, d.as_str());
            } else {
                assert(s@ =~= before + Seq::<char>::empty());
            }
        },
        None => {
            assert(s@ =~= before + Seq::<char>::empty());
        },
    }
    push_str(&mut s, ")\n");
    let ghost head = s@;
    let mut i: usize = 0;
    while i < tracks.len() && i < SAMPLE_TRACKS_PER_PLAYLIST
        invariant
            i <= tracks@.len(),
            i <= 15,
            s@ == head + digest_lines(tracks@.take(i as int)),
        decreases tracks@.len() - i,
    {
        proof {
            assert(tracks@.take(i + 1).drop_last() =~= tracks@.take(i as int));
            assert(tracks@.take(i + 1).last() == tracks@[i as int]);
        }
        push_digest_line(&mut s, &tracks[i]);
        i += 1;
    }
    proof {
        assert(head == playlist_header(*p));
        if tracks@.len() <= 15 {
            assert(tracks@.take(i as int) =~= tracks@);
        }
    }
    s
}

/// The stride of the Liked Songs sample for `n` liked tracks.
pub open spec fn liked_step(n: nat) -> nat {
    if n / 150 > 1 {
        n / 150
    } else {
        1
    }
}

/// The size of the Liked Songs sample for `n` liked tracks.
pub open spec fn liked_count(n: nat) -> nat {
    if n > 150 {
        150
    } else {
        n
    }
}

/// The sampled Liked Songs: every `liked_step`-th track from the first,
/// at most [`LIKED_SAMPLE`] of them.
pub open spec fn liked_sample(liked: Seq<TrackInfo>) -> Seq<TrackInfo> {
    Seq::new(liked_count(liked.len()), |k: int| liked[k * liked_step(liked.len())])
}

proof fn lemma_liked_index(n: nat, k: nat)
    requires
        k < liked_count(n),
    ensures
        k * liked_step(n) < n,
{
    if n / 150 > 1 {
        assert(k * (n / 150) <= 149 * (n / 150)) by (nonlinear_arith)
            requires
                k < 150,
        ;
        assert(149 * (n / 150) < n) by (nonlinear_arith)
            requires
                n / 150 > 1,
        ;
    } else {
        assert(k * 1 == k);
    }
}

/// The Liked Songs section of the digest.
pub fn liked_section(liked: &[TrackInfo]) -> (s: String)
    ensures
        s@ == "\nLIKED SONGS (sample of "@ + decimal(liked_count(liked@.len())) + " out of "@
            + decimal(liked@.len() as nat) + "):\n"@ + digest_lines(liked_sample(liked@)),
{
    let n = liked.len();
    let step: usize = if n / LIKED_SAMPLE > 1 {
        n / LIKED_SAMPLE
    } else {
        1
    };
    let count: usize = if n > LIKED_SAMPLE {
        LIKED_SAMPLE
    } else {
        n
    };
    let mut s = owned("\nLIKED SONGS (sample of ");
    push_decimal(&mut s, count as u64);
    push_str(&mut s, " out of ");
    push_decimal(&mut s, n as u64);
    push_str(&mut s, "):\n");
    let ghost head = s@;
    let ghost sample = liked_sample(liked@);
    let mut k: usize = 0;
    while k < count
        invariant
            k <= count,
            count == liked_count(n as nat),
            step == liked_step(n as nat),
            n == liked@.len(),
            sample == liked_sample(liked@),
            s@ == head + digest_lines(sample.take(k as int)),
        decreases count - k,
    {
        proof {
            lemma_liked_index(n as nat, k as nat);
            assert(sample.take(k + 1).drop_last() =~= sample.take(k as int));
            assert(sample.take(k + 1).last() == sample[k as int]);
        }
        assert(k * step < n);
        let idx = k * step;
        push_digest_line(&mut s, &liked[idx]);
        k += 1;
    }
    proof {
        assert(sample.take(count as int) =~= sample);
    }
    s
}

/// The top-artists section of the digest: empty without top artists, else
/// the first 20 names.
pub fn top_artists_section(top: &[FullArtist]) -> (s: String)
    ensures
        s@ == if top@.len() == 0 {
            Seq::empty()
        } else {
            "\nMOST PLAYED ARTISTS (last ~6 months): "@ + join(
                first_n(full_artist_names(top@), 20),
                ", "@,
            ) + "\n"@
        },
{
    if top.len() == 0 {
        return String::new();
    }
    let mut names: Vec<String> = Vec::new();
    let mut k: usize = 0;
    while k < top.len() && k < 20
        invariant
            k <= top@.len(),
            k <= 20,
            views(names@) == full_artist_names(top@).take(k as int),
        decreases top@.len() - k,
    {
        let ghost before = names@;
        let name = top[k].name.clone();
        names.push(name);
        proof {
            assert(views(names@) =~= views(before).push(name@));
            assert(full_artist_names(top@).take(k + 1) =~= full_artist_names(top@).take(
                k as int,
            ).push(top@[k as int].name@));
        }
        k += 1;
    }
    proof {
        if top@.len() <= 20 {
            assert(full_artist_names(top@).take(k as int) =~= full_artist_names(top@));
        }
    }
    let mut s = owned("\nMOST PLAYED ARTISTS (last ~6 months): ");
    let j = join_strings(&names, ", ");
    push_str(&mut s, j.as_str());
    push_str(&mut s, "\n");
    s
}

/// An organize run needs a library with tracks.
pub fn check_library(tracks: &[TrackInfo]) -> (r: Result<(), OpError>)
    ensures
        match r {
            Ok(()) => tracks@.len() > 0,
            Err(OpError::Other(m)) => tracks@.len() == 0 && m@ == "your library appears to be empty"@,
            Err(_) => false,
        },
{
    if tracks.len() == 0 {
        Err(OpError::Other(owned("your library appears to be empty")))
    } else {
        Ok(())
    }
}

/// The log line before a planned playlist is built.
pub fn building_note(spec: &GeneratedPlaylistSpec) -> (s: String)
    ensures
        s@ == "Building '"@ + spec.name@ + "' ("@ + decimal(spec.tracks@.len() as nat)
            + " suggested tracks)…"@,
{
    let mut s = owned("Building '");
    push_str(&mut s, spec.name.as_str());
    push_str(&mut s, "' (");
    push_decimal(&mut s, spec.tracks.len() as u64);
    push_str(&mut s, " suggested tracks)…");
    s
}

/// The log line when a planned playlist resolved to nothing.
pub fn skipping_note(name: &str) -> (s: String)
    ensures
        s@ == "Skipping '"@ + name@ + "' — no tracks resolved"@,
{
    let mut s = owned("Skipping '");
    push_str(&mut s, name);
    push_str(&mut s, "' — no tracks resolved");
    s
}

/// An organize run that created nothing is refused.
pub fn check_created(created: &Vec<CreatedPlaylist>) -> (r: Result<(), OpError>)
    ensures
        match r {
            Ok(()) => created@.len() > 0,
            Err(OpError::Other(m)) => created@.len() == 0 && m@
                == "no playlists could be created from the plan"@,
            Err(_) => false,
        },
{
    if created.len() == 0 {
        Err(OpError::Other(owned("no playlists could be created from the plan")))
    } else {
        Ok(())
    }
}

} // verus!
