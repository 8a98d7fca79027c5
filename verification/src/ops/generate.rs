//! AI playlist creation: natural-language description → new playlist.
//!
//! The application asks the AI provider and Spotify; this module fixes the
//! requested size, distills the taste context, and words the result.

use vstd::prelude::*;

use super::resolve::{holds_uri, ResolutionReport};
use super::playlist_tools::first_n;
use super::{CreatedPlaylist, OpError, APP_SIGNATURE};
use crate::ai::prompts::{views, TasteContext};
use crate::spotify::models::FullArtist;
use crate::text::{decimal, owned, push_decimal, push_str};

verus! {

#[derive(Clone, Debug)]
pub struct GenerateOutcome {
    pub playlist: CreatedPlaylist,
    pub report: ResolutionReport,
}

/// The number of tracks a generation asks for: `count` kept within 3..=150.
pub fn clamp_count(count: usize) -> (n: usize)
    ensures
        n == if count < 3 {
            3
        } else if count > 150 {
            150
        } else {
            count
        },
{
    if count < 3 {
        3
    } else if count > 150 {
        150
    } else {
        count
    }
}

/// `acc` followed by the items of `gs` it does not hold yet, each once.
pub open spec fn add_new(acc: Seq<Seq<char>>, gs: Seq<Seq<char>>) -> Seq<Seq<char>>
    decreases gs.len(),
{
    if gs.len() == 0 {
        acc
    } else {
        let a = add_new(acc, gs.drop_last());
        if a.contains(gs.last()) {
            a
        } else {
            a.push(gs.last())
        }
    }
}

/// The genres of `artists`, each once, in first-seen order.
pub open spec fn distinct_genres(artists: Seq<FullArtist>) -> Seq<Seq<char>>
    decreases artists.len(),
{
    if artists.len() == 0 {
        Seq::empty()
    } else {
        add_new(distinct_genres(artists.drop_last()), views(artists.last().genres@))
    }
}

/// The names of `artists`.
pub open spec fn full_artist_names(artists: Seq<FullArtist>) -> Seq<Seq<char>> {
    artists.map_values(|a: FullArtist| a.name@)
}

/// Taste context from the user's top artists: the first 20 names, and the
/// first 12 distinct genres.
pub fn taste_from_artists(artists: &[FullArtist]) -> (t: TasteContext)
    ensures
        views(t.top_artists@) == first_n(full_artist_names(artists@), 20),
        views(t.genres@) == first_n(distinct_genres(artists@), 12),
{
    let mut genres: Vec<String> = Vec::new();
    let mut i: usize = 0;
    while i < artists.len()
        invariant
            i <= artists@.len(),
            views(genres@) == distinct_genres(artists@.take(i as int)),
        decreases artists@.len() - i,
    {
        proof {
            assert(artists@.take(i + 1).drop_last() =~= artists@.take(i as int));
            assert(artists@.take(i + 1).last() == artists@[i as int]);
        }
        let ghost acc = views(genres@);
        let gs = &artists[i].genres;
        let mut j: usize = 0;
        while j < gs.len()
            invariant
                j <= gs@.len(),
                gs == artists@[i as int].genres,
                views(genres@) == add_new(acc, views(gs@).take(j as int)),
            decreases gs@.len() - j,
        {
            proof {
                assert(views(gs@).take(j + 1).drop_last() =~= views(gs@).take(j as int));
                assert(views(gs@).take(j + 1).last() == gs@[j as int]@);
            }
            if !holds_uri(&genres, gs[j].as_str()) {
                let ghost before = genres@;
                genres.push(gs[j].clone());
                proof {
                    assert(views(genres@) =~= views(before).push(gs@[j as int]@));
                }
            }
            j += 1;
        }
        proof {
            assert(views(gs@).take(gs@.len() as int) =~= views(gs@));
        }
        i += 1;
    }
    proof {
        assert(artists@.take(artists@.len() as int) =~= artists@);
    }
    if genres.len() > 12 {
        genres.truncate(12);
    }
    proof {
        assert(views(genres@) =~= first_n(distinct_genres(artists@), 12));
    }
    let mut top: Vec<String> = Vec::new();
    let mut k: usize = 0;
    while k < artists.len() && k < 20
        invariant
            k <= artists@.len(),
            k <= 20,
            views(top@) == full_artist_names(artists@).take(k as int),
        decreases artists@.len() - k,
    {
        let ghost before = top@;
        let name = artists[k].name.clone();
        top.push(name);
        proof {
            assert(views(top@) =~= views(before).push(name@));
            assert(full_artist_names(artists@)[k as int] == artists@[k as int].name@);
            assert(full_artist_names(artists@).take(k + 1) =~= full_artist_names(artists@).take(
                k as int,
            ).push(artists@[k as int].name@));
        }
        k += 1;
    }
    proof {
        if artists@.len() <= 20 {
            assert(full_artist_names(artists@).take(k as int) =~= full_artist_names(artists@));
        }
    }
    TasteContext { top_artists: top, genres }
}

/// The description of a generated playlist: the AI's description with the
/// signature, or the signature with the user's description when the AI
/// gave none.
pub fn generated_description(ai_description: &str, user_description: &str) -> (d: String)
    ensures
        d@ == if ai_description@.len() == 0 {
            APP_SIGNATURE@ + " · "@ + user_description@
        } else {
            ai_description@ + " · "@ + APP_SIGNATURE@
        },
{
    if ai_description.is_empty() {
        let mut d = owned(APP_SIGNATURE);
        push_str(&mut d, " · ");
        push_str(&mut d, user_description);
        d
    } else {
        let mut d = owned(ai_description);
        push_str(&mut d, " · ");
        push_str(&mut d, APP_SIGNATURE);
        d
    }
}

/// A generation that resolved to nothing is refused.
pub fn check_generated(uris: &Vec<String>) -> (r: Result<(), OpError>)
    ensures
        match r {
            Ok(()) => uris@.len() > 0,
            Err(OpError::Other(m)) => uris@.len() == 0 && m@
                == "none of the suggested tracks could be found on Spotify"@,
            Err(_) => false,
        },
{
    if uris.len() == 0 {
        Err(OpError::Other(owned("none of the suggested tracks could be found on Spotify")))
    } else {
        Ok(())
    }
}

/// The log line when the AI proposed playlist `name` with `n` tracks.
pub fn proposal_note(name: &str, n: usize) -> (s: String)
    ensures
        s@ == "AI proposed '"@ + name@ + "' with "@ + decimal(n as nat)
            + " tracks; matching them on Spotify…"@,
{
    let mut s = owned("AI proposed '");
    push_str(&mut s, name);
    push_str(&mut s, "' with ");
    push_decimal(&mut s, n as u64);
    push_str(&mut s, " tracks; matching them on Spotify…");
    s
}

} // verus!
