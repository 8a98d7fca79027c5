//! Listening insights from what the API still exposes: the recently-played
//! window (max 50 plays) and top artists/tracks over three time ranges.
//! (Full listening history is not available via the Web API.)
//!
//! The application fetches the data; this module reads the play times in
//! the local time zone, tallies and words it.

use vstd::prelude::*;

use chrono::Timelike;

use super::playlist_tools::{concat_all, first_n};
use crate::ai::prompts::{join, join_strings, views};
use crate::order::{lemma_text_lt_irreflexive, lemma_text_lt_transitive, lemma_text_lt_trichotomy,
    text_lt, text_lt_exec};
use crate::spotify::models::{artist_names, ArtistRef, FullArtist, PlayHistoryItem, PlayableItem};
use crate::text::{chars_of, owned, push_str, str_eq};

verus! {

#[derive(Clone, Debug)]
pub struct RecentRow {
    pub when_local: String,
    pub title: String,
    pub artists: String,
}

#[derive(Clone, Debug)]
pub struct TopList {
    pub range_label: &'static str,
    /// Artist name plus genres when Spotify still supplies them (the field
    /// is deprecated and frequently empty).
    pub artists: Vec<String>,
    /// "Artist — Title" lines.
    pub tracks: Vec<String>,
}

#[derive(Clone, Debug)]
pub struct InsightsData {
    pub recent: Vec<RecentRow>,
    pub recent_artist_counts: Vec<(String, usize)>,
    pub hour_histogram: [u32; 24],
    pub tops: Vec<TopList>,
}

impl Default for InsightsData {
    fn default() -> (d: Self)
        ensures
            d.recent@.len() == 0,
            d.recent_artist_counts@.len() == 0,
            forall|h: int| 0 <= h < 24 ==> #[trigger] d.hour_histogram@[h] == 0,
            d.tops@.len() == 0,
    {
        InsightsData {
            recent: Vec::new(),
            recent_artist_counts: Vec::new(),
            hour_histogram: [0u32; 24],
            tops: Vec::new(),
        }
    }
}

impl InsightsData {
    /// Count one play in local hour `hour` (taken modulo 24).
    pub fn count_play_hour(&mut self, hour: usize)
        requires
            old(self).hour_histogram@[(hour % 24) as int] < u32::MAX,
        ensures
            final(self).hour_histogram@ == old(self).hour_histogram@.update(
                (hour % 24) as int,
                (old(self).hour_histogram@[(hour % 24) as int] + 1) as u32,
            ),
            final(self).recent == old(self).recent,
            final(self).recent_artist_counts == old(self).recent_artist_counts,
            final(self).tops == old(self).tops,
    {
        let h = hour % 24;
        let v = self.hour_histogram[h] + 1;
        self.hour_histogram.set(h, v);
    }
}

/// The time ranges of the top lists: (API range, label).
pub fn time_ranges() -> (v: Vec<(&'static str, &'static str)>)
    ensures
        v@.len() == 3,
        v@[0].0@ == "short_term"@ && v@[0].1@ == "Last ~4 weeks"@,
        v@[1].0@ == "medium_term"@ && v@[1].1@ == "Last ~6 months"@,
        v@[2].0@ == "long_term"@ && v@[2].1@ == "All-time-ish (~1 year+)"@,
{
    let mut v = Vec::new();
    v.push(("short_term", "Last ~4 weeks"));
    v.push(("medium_term", "Last ~6 months"));
    v.push(("long_term", "All-time-ish (~1 year+)"));
    v
}

/// The artists of a played item joined with ", ".
fn artists_joined(artists: &Vec<ArtistRef>) -> (s: String)
    ensures
        s@ == join(artist_names(artists@), ", "@),
{
    let mut names: Vec<String> = Vec::new();
    let mut i: usize = 0;
    while i < artists.len()
        invariant
            i <= artists@.len(),
            views(names@) == artist_names(artists@.take(i as int)),
        decreases artists@.len() - i,
    {
        let ghost before = names@;
        let n = artists[i].name.clone();
        names.push(n);
        proof {
            assert(views(names@) =~= views(before).push(n@));
            assert(artist_names(artists@.take(i + 1)) =~= artist_names(artists@.take(i as int)).push(
                artists@[i as int].name@,
            ));
        }
        i += 1;
    }
    proof {
        assert(artists@.take(artists@.len() as int) =~= artists@);
    }
    join_strings(&names, ", ")
}

/// The row shown for a recent play, with its time already rendered.
pub fn recent_row(item: &PlayHistoryItem, when_local: String) -> (r: RecentRow)
    ensures
        r.when_local@ == when_local@,
        r.title@ == item.track.name@,
        r.artists@ == join(artist_names(item.track.artists@), ", "@),
{
    RecentRow { when_local, title: item.track.name.clone(), artists: artists_joined(&item.track.artists) }
}

/// `DateTime::parse_from_rfc3339(s)` succeeds.
pub uninterp spec fn rfc3339_valid(s: Seq<char>) -> bool;

/// `DateTime::parse_from_rfc3339` followed by `with_timezone(&Local)`: the
/// local hour and the "%a %b %-d, %H:%M" label of the play, or `None` when
/// the timestamp does not parse. The hour and label depend on the machine's
/// time zone, so only whether the timestamp parses is named; chrono panics
/// when the machine's time-zone data cannot be used at all.
#[verifier::external_body]
fn local_time_of(played_at: &str) -> (r: Option<(u8, String)>)
    ensures
        r is Some <==> rfc3339_valid(played_at@),
        r matches Some((h, _)) ==> h < 24,
{
    match chrono::DateTime::parse_from_rfc3339(played_at) {
        Ok(t) => {
            let local = t.with_timezone(&chrono::Local);
            Some((local.hour() as u8, local.format("%a %b %-d, %H:%M").to_string()))
        },
        Err(_) => None,
    }
}

/// A local reading fits a play: it is present exactly when the timestamp
/// parses, and its hour is on the clock.
pub open spec fn fits_play(played_at: Seq<char>, local: Option<(u8, String)>) -> bool {
    &&& (local is Some <==> rfc3339_valid(played_at))
    &&& (local matches Some((h, _)) ==> h < 24)
}

/// The local hour and label of each recent play (`None` where the
/// timestamp does not parse).
pub fn local_play_times(history: &[PlayHistoryItem]) -> (r: Vec<Option<(u8, String)>>)
    ensures
        r@.len() == history@.len(),
        forall|i: int| 0 <= i < r@.len() ==> fits_play(history@[i].played_at@, #[trigger] r@[i]),
{
    let mut r: Vec<Option<(u8, String)>> = Vec::new();
    let mut i: usize = 0;
    while i < history.len()
        invariant
            i <= history@.len(),
            r@.len() == i,
            forall|k: int| 0 <= k < i ==> fits_play(history@[k].played_at@, #[trigger] r@[k]),
        decreases history@.len() - i,
    {
        let t = local_time_of(history[i].played_at.as_str());
        r.push(t);
        i += 1;
    }
    r
}

/// How many plays fall in local hour `h`.
pub open spec fn hour_count(local: Seq<Option<(u8, String)>>, h: int) -> nat
    decreases local.len(),
{
    if local.len() == 0 {
        0
    } else {
        hour_count(local.drop_last(), h) + if local.last() matches Some((x, _)) && x == h {
            1nat
        } else {
            0nat
        }
    }
}

proof fn lemma_hour_count_bound(local: Seq<Option<(u8, String)>>, h: int)
    ensures
        hour_count(local, h) <= local.len(),
    decreases local.len(),
{
    if local.len() > 0 {
        lemma_hour_count_bound(local.drop_last(), h);
    }
}

/// The "when" of a recent play: its local label, or the raw timestamp when
/// it does not parse.
pub open spec fn when_label(played_at: Seq<char>, local: Option<(u8, String)>) -> Seq<char> {
    match local {
        Some((_, label)) => label@,
        None => played_at,
    }
}

/// The insights of the recent plays `history`, read with their local times
/// `local`: the local-hour histogram (plays whose time does not parse are
/// left out), one row per play, and the most played artists. The top lists
/// are added afterwards.
pub fn insights_from(history: &[PlayHistoryItem], local: &[Option<(u8, String)>]) -> (d: InsightsData)
    requires
        local@.len() == history@.len(),
        history@.len() < u32::MAX,
        forall|i: int| 0 <= i < local@.len() ==> (#[trigger] local@[i] matches Some((h, _)) ==> h < 24),
        played_artists(history@).len() <= usize::MAX,
    ensures
        forall|h: int| 0 <= h < 24 ==> #[trigger] d.hour_histogram@[h] == hour_count(local@, h),
        d.recent@.len() == history@.len(),
        forall|i: int|
            0 <= i < history@.len() ==> {
                &&& (#[trigger] d.recent@[i]).when_local@ == when_label(history@[i].played_at@, local@[i])
                &&& d.recent@[i].title@ == history@[i].track.name@
                &&& d.recent@[i].artists@ == join(artist_names(history@[i].track.artists@), ", "@)
            },
        is_top_artists(played_artists(history@), d.recent_artist_counts@),
        d.tops@.len() == 0,
{
    let mut d = InsightsData::default();
    let mut i: usize = 0;
    while i < history.len()
        invariant
            i <= history@.len(),
            local@.len() == history@.len(),
            history@.len() < u32::MAX,
            forall|k: int| 0 <= k < local@.len() ==> (#[trigger] local@[k] matches Some((h, _)) ==> h < 24),
            forall|h: int| 0 <= h < 24 ==> #[trigger] d.hour_histogram@[h] == hour_count(local@.take(i as int), h),
            d.recent@.len() == i,
            forall|k: int|
                0 <= k < i ==> {
                    &&& (#[trigger] d.recent@[k]).when_local@ == when_label(history@[k].played_at@, local@[k])
                    &&& d.recent@[k].title@ == history@[k].track.name@
                    &&& d.recent@[k].artists@ == join(artist_names(history@[k].track.artists@), ", "@)
                },
            d.recent_artist_counts@.len() == 0,
            d.tops@.len() == 0,
        decreases history@.len() - i,
    {
        proof {
            assert(local@.take(i + 1).drop_last() =~= local@.take(i as int));
        }
        let when = match &local[i] {
            Some((h, label)) => {
                let hh = *h as usize;
                proof {
                    lemma_hour_count_bound(local@.take(i as int), hh as int);
                }
                d.count_play_hour(hh);
                label.clone()
            },
            None => history[i].played_at.clone(),
        };
        let row = recent_row(&history[i], when);
        d.recent.push(row);
        i += 1;
    }
    proof {
        assert(local@.take(history@.len() as int) =~= local@);
    }
    d.recent_artist_counts = artist_counts(history);
    d
}

/// How a top artist is listed: the name, with its genres when there are any.
pub open spec fn top_artist_line(a: FullArtist) -> Seq<char> {
    if a.genres@.len() == 0 {
        a.name@
    } else {
        a.name@ + " ("@ + join(views(a.genres@), ", "@) + ")"@
    }
}

/// How a top track is listed: "artists — title".
pub open spec fn top_track_line(t: PlayableItem) -> Seq<char> {
    join(artist_names(t.artists@), ", "@) + " — "@ + t.name@
}

/// The top list for range `label`: the first 25 artists and tracks.
pub fn top_list(label: &'static str, artists: &[FullArtist], tracks: &[PlayableItem]) -> (t: TopList)
    ensures
        t.range_label == label,
        t.artists@.len() == if artists@.len() > 25 {
            25
        } else {
            artists@.len()
        },
        forall|i: int| 0 <= i < t.artists@.len() ==> #[trigger] t.artists@[i]@ == top_artist_line(artists@[i]),
        t.tracks@.len() == if tracks@.len() > 25 {
            25
        } else {
            tracks@.len()
        },
        forall|i: int| 0 <= i < t.tracks@.len() ==> #[trigger] t.tracks@[i]@ == top_track_line(tracks@[i]),
{
    let mut a: Vec<String> = Vec::new();
    let mut i: usize = 0;
    while i < artists.len() && i < 25
        invariant
            i <= artists@.len(),
            i <= 25,
            a@.len() == i,
            forall|k: int| 0 <= k < i ==> #[trigger] a@[k]@ == top_artist_line(artists@[k]),
        decreases artists@.len() - i,
    {
        let fa = &artists[i];
        if fa.genres.len() == 0 {
            a.push(fa.name.clone());
        } else {
            let mut s = fa.name.clone();
            push_str(&mut s, " (");
            let g = join_strings(&fa.genres, ", ");
            push_str(&mut s, g.as_str());
            push_str(&mut s, ")");
            a.push(s);
        }
        i += 1;
    }
    let mut t: Vec<String> = Vec::new();
    let mut j: usize = 0;
    while j < tracks.len() && j < 25
        invariant
            j <= tracks@.len(),
            j <= 25,
            t@.len() == j,
            forall|k: int| 0 <= k < j ==> #[trigger] t@[k]@ == top_track_line(tracks@[k]),
        decreases tracks@.len() - j,
    {
        let p = &tracks[j];
        let mut s = artists_joined(&p.artists);
        push_str(&mut s, " — ");
        push_str(&mut s, p.name.as_str());
        t.push(s);
        j += 1;
    }
    TopList { range_label: label, artists: a, tracks: t }
}

// ---------------------------------------------------------------------
// Most played artists of the recent window
// ---------------------------------------------------------------------
/// How often `n` occurs in `s`.
pub open spec fn count_in(s: Seq<Seq<char>>, n: Seq<char>) -> nat
    decreases s.len(),
{
    if s.len() == 0 {
        0
    } else {
        count_in(s.drop_last(), n) + if s.last() == n {
            1nat
        } else {
            0nat
        }
    }
}

proof fn lemma_count_in_bound(s: Seq<Seq<char>>, n: Seq<char>)
    ensures
        count_in(s, n) <= s.len(),
        !s.contains(n) ==> count_in(s, n) == 0,
    decreases s.len(),
{
    if s.len() > 0 {
        lemma_count_in_bound(s.drop_last(), n);
        if !s.contains(n) {
            assert forall|k: int| 0 <= k < s.drop_last().len() implies s.drop_last()[k] != n by {
                assert(s[k] == s.drop_last()[k]);
            }
            assert(s[s.len() - 1] != n);
        }
    }
}

/// Every artist credit of the recent plays, in order.
pub open spec fn played_artists(history: Seq<PlayHistoryItem>) -> Seq<Seq<char>> {
    concat_all(history.map_values(|i: PlayHistoryItem| artist_names(i.track.artists@)))
}

/// `a` ranks before `b`: played more often, or as often with a name that
/// sorts first.
pub open spec fn rank_lt(a: (Seq<char>, nat), b: (Seq<char>, nat)) -> bool {
    a.1 > b.1 || (a.1 == b.1 && text_lt(a.0, b.0))
}

proof fn lemma_rank_lt(a: (Seq<char>, nat), b: (Seq<char>, nat), c: (Seq<char>, nat))
    ensures
        !rank_lt(a, a),
        a.0 != b.0 ==> rank_lt(a, b) || rank_lt(b, a),
        !(rank_lt(a, b) && rank_lt(b, a)),
        rank_lt(a, b) && rank_lt(b, c) ==> rank_lt(a, c),
{
    lemma_text_lt_irreflexive(a.0);
    lemma_text_lt_trichotomy(a.0, b.0);
    if text_lt(a.0, b.0) && text_lt(b.0, c.0) {
        lemma_text_lt_transitive(a.0, b.0, c.0);
    }
}

/// A (name, count) entry as a ranked pair.
pub open spec fn entry(e: (String, usize)) -> (Seq<char>, nat) {
    (e.0@, e.1 as nat)
}

/// The names of ranked entries.
pub open spec fn entry_names(r: Seq<(String, usize)>) -> Seq<Seq<char>> {
    r.map_values(|e: (String, usize)| e.0@)
}

/// `r` lists the most played of the artists credited in `flat`: at most
/// ten, most played first (ties by name), each with its exact count; an
/// artist left out ranks below every listed one, and is only left out when
/// ten are listed.
pub open spec fn is_top_artists(flat: Seq<Seq<char>>, r: Seq<(String, usize)>) -> bool {
    &&& r.len() <= 10
    &&& forall|i: int, j: int| 0 <= i < j < r.len() ==> rank_lt(entry(r[i]), entry(r[j]))
    &&& forall|i: int|
        0 <= i < r.len() ==> flat.contains(#[trigger] r[i].0@) && r[i].1 == count_in(flat, r[i].0@)
    &&& forall|n: Seq<char>|
        flat.contains(n) && !entry_names(r).contains(n) ==> r.len() == 10
            && forall|i: int| 0 <= i < r.len() ==> rank_lt(entry(#[trigger] r[i]), (n, count_in(flat, n)))
}

proof fn lemma_concat_all_prefix(s: Seq<Seq<Seq<char>>>, i: int)
    requires
        0 <= i <= s.len(),
    ensures
        concat_all(s.take(i)).len() <= concat_all(s).len(),
        i < s.len() ==> concat_all(s.take(i)).len() + s[i].len() <= concat_all(s).len(),
    decreases s.len() - i,
{
    if i < s.len() {
        lemma_concat_all_prefix(s, i + 1);
        assert(s.take(i + 1).drop_last() =~= s.take(i));
    } else {
        assert(s.take(i) =~= s);
    }
}

fn rank_lt_exec(an: &Vec<char>, ac: usize, bn: &Vec<char>, bc: usize) -> (r: bool)
    ensures
        r == rank_lt((an@, ac as nat), (bn@, bc as nat)),
{
    ac > bc || (ac == bc && text_lt_exec(an, bn))
}

fn find_name(names: &Vec<String>, n: &str) -> (r: Option<usize>)
    ensures
        match r {
            Some(k) => k < names@.len() && names@[k as int]@ == n@,
            None => !views(names@).contains(n@),
        },
{
    let mut k: usize = 0;
    while k < names.len()
        invariant
            k <= names@.len(),
            forall|j: int| 0 <= j < k ==> names@[j]@ != n@,
        decreases names@.len() - k,
    {
        if str_eq(names[k].as_str(), n) {
            return Some(k);
        }
        k += 1;
    }
    None
}

/// The ten most played artists of the recent plays, with their play counts
/// (a play credits each of its artists).
pub fn artist_counts(history: &[PlayHistoryItem]) -> (r: Vec<(String, usize)>)
    requires
        played_artists(history@).len() <= usize::MAX,
    ensures
        is_top_artists(played_artists(history@), r@),
{
    let ghost per = history@.map_values(|i: PlayHistoryItem| artist_names(i.track.artists@));
    let ghost flat = played_artists(history@);
    let mut names: Vec<String> = Vec::new();
    let mut counts: Vec<usize> = Vec::new();
    let mut i: usize = 0;
    while i < history.len()
        invariant
            i <= history@.len(),
            per == history@.map_values(|i: PlayHistoryItem| artist_names(i.track.artists@)),
            flat == concat_all(per),
            flat.len() <= usize::MAX,
            names@.len() == counts@.len(),
            forall|k: int|
                0 <= k < names@.len() ==> counts@[k] == count_in(
                    concat_all(per.take(i as int)),
                    #[trigger] names@[k]@,
                ) && concat_all(per.take(i as int)).contains(names@[k]@),
            forall|n: Seq<char>| concat_all(per.take(i as int)).contains(n) ==> views(names@).contains(n),
            forall|a: int, b: int| 0 <= a < b < names@.len() ==> names@[a]@ != names@[b]@,
        decreases history@.len() - i,
    {
        let ghost base = concat_all(per.take(i as int));
        let arts = &history[i].track.artists;
        proof {
            lemma_concat_all_prefix(per, i as int);
            assert(per[i as int] == artist_names(arts@));
        }
        let mut j: usize = 0;
        while j < arts.len()
            invariant
                i < history@.len(),
                arts == history@[i as int].track.artists,
                j <= arts@.len(),
                base.len() + arts@.len() <= flat.len(),
                flat.len() <= usize::MAX,
                names@.len() == counts@.len(),
                forall|k: int|
                    0 <= k < names@.len() ==> counts@[k] == count_in(
                        base + artist_names(arts@).take(j as int),
                        #[trigger] names@[k]@,
                    ) && (base + artist_names(arts@).take(j as int)).contains(names@[k]@),
                forall|n: Seq<char>|
                    (base + artist_names(arts@).take(j as int)).contains(n) ==> views(
                        names@,
                    ).contains(n),
                forall|a: int, b: int| 0 <= a < b < names@.len() ==> names@[a]@ != names@[b]@,
            decreases arts@.len() - j,
        {
            let ghost prev = base + artist_names(arts@).take(j as int);
            let ghost next = base + artist_names(arts@).take(j + 1);
            let a = &arts[j].name;
            proof {
                assert(next =~= prev.push(a@));
                assert(next.drop_last() =~= prev);
                assert forall|n: Seq<char>| prev.contains(n) implies next.contains(n) by {
                    let q = choose|q: int| 0 <= q < prev.len() && prev[q] == n;
                    assert(next[q] == n);
                }
                assert(next.contains(a@)) by {
                    assert(next[next.len() - 1] == a@);
                }
            }
            match find_name(&names, a.as_str()) {
                Some(k) => {
                    proof {
                        lemma_count_in_bound(prev, a@);
                    }
                    let c = counts[k] + 1;
                    counts.set(k, c);
                    proof {
                        assert(views(names@)[k as int] == a@);
                        assert forall|n: Seq<char>| next.contains(n) implies views(names@).contains(n) by {
                            if n != a@ {
                                let q = choose|q: int| 0 <= q < next.len() && next[q] == n;
                                assert(prev[q] == n);
                                assert(prev.contains(n));
                            }
                        }
                    }
                },
                None => {
                    proof {
                        lemma_count_in_bound(prev, a@);
                        if prev.contains(a@) {
                            assert(views(names@).contains(a@));
                        }
                    }
                    let ghost before = names@;
                    names.push(a.clone());
                    counts.push(1);
                    proof {
                        assert(views(names@) =~= views(before).push(a@));
                        assert forall|x: int, y: int| 0 <= x < y < names@.len() implies names@[x]@
                            != names@[y]@ by {
                            if y == before.len() {
                                assert(views(before)[x] == before[x]@);
                                assert(views(before).contains(before[x]@));
                            }
                        }
                        assert(views(names@)[before.len() as int] == a@);
                        assert forall|n: Seq<char>| next.contains(n) implies views(names@).contains(n) by {
                            if n != a@ {
                                let q = choose|q: int| 0 <= q < next.len() && next[q] == n;
                                assert(prev[q] == n);
                                assert(prev.contains(n));
                                assert(views(before).contains(n));
                                let w = choose|w: int| 0 <= w < views(before).len() && views(before)[w] == n;
                                assert(views(names@)[w] == n);
                            }
                        }
                    }
                },
            }
            j += 1;
        }
        proof {
            assert(artist_names(arts@).take(arts@.len() as int) =~= artist_names(arts@));
            assert(per.take(i + 1).drop_last() =~= per.take(i as int));
            assert(concat_all(per.take(i + 1)) =~= base + artist_names(arts@));
        }
        i += 1;
    }
    proof {
        assert(per.take(history@.len() as int) =~= per);
    }
    select_top(names, counts, Ghost(flat))
}

/// Pick the ten best-ranked of the distinct `names` with their `counts`.
fn select_top(names: Vec<String>, counts: Vec<usize>, Ghost(flat): Ghost<Seq<Seq<char>>>) -> (r: Vec<(String, usize)>)
    requires
        names@.len() == counts@.len(),
        forall|k: int|
            0 <= k < names@.len() ==> counts@[k] == count_in(flat, #[trigger] names@[k]@)
                && flat.contains(names@[k]@),
        forall|n: Seq<char>| flat.contains(n) ==> views(names@).contains(n),
        forall|a: int, b: int| 0 <= a < b < names@.len() ==> names@[a]@ != names@[b]@,
    ensures
        is_top_artists(flat, r@),
{
    let mut rest_n = names;
    let mut rest_c = counts;
    let mut r: Vec<(String, usize)> = Vec::new();
    while r.len() < 10 && rest_n.len() > 0
        invariant
            rest_n@.len() == rest_c@.len(),
            r@.len() <= 10,
            forall|k: int|
                0 <= k < rest_n@.len() ==> rest_c@[k] == count_in(flat, #[trigger] rest_n@[k]@)
                    && flat.contains(rest_n@[k]@),
            forall|k: int|
                0 <= k < r@.len() ==> flat.contains(#[trigger] r@[k].0@) && r@[k].1 == count_in(
                    flat,
                    r@[k].0@,
                ),
            forall|n: Seq<char>|
                flat.contains(n) ==> views(rest_n@).contains(n) || entry_names(r@).contains(n),
            forall|a: int, b: int| 0 <= a < b < r@.len() ==> rank_lt(entry(r@[a]), entry(r@[b])),
            forall|a: int, k: int|
                0 <= a < r@.len() && 0 <= k < rest_n@.len() ==> rank_lt(
                    entry(r@[a]),
                    (rest_n@[k]@, rest_c@[k] as nat),
                ),
            forall|a: int, b: int| 0 <= a < b < rest_n@.len() ==> rest_n@[a]@ != rest_n@[b]@,
        decreases rest_n@.len(),
    {
        // The best-ranked remaining entry.
        let mut b: usize = 0;
        let mut j: usize = 1;
        let bv = chars_of(rest_n[0].as_str());
        let mut best_chars = bv;
        while j < rest_n.len()
            invariant
                rest_n@.len() == rest_c@.len(),
                0 <= b < j <= rest_n@.len(),
                best_chars@ == rest_n@[b as int]@,
                forall|a: int, c: int| 0 <= a < c < rest_n@.len() ==> rest_n@[a]@ != rest_n@[c]@,
                forall|k: int|
                    0 <= k < j && k != b ==> rank_lt(
                        (rest_n@[b as int]@, rest_c@[b as int] as nat),
                        (#[trigger] rest_n@[k]@, rest_c@[k] as nat),
                    ),
            decreases rest_n@.len() - j,
        {
            let cj = chars_of(rest_n[j].as_str());
            if rank_lt_exec(&cj, rest_c[j], &best_chars, rest_c[b]) {
                proof {
                    assert forall|k: int| 0 <= k < j + 1 && k != j implies rank_lt(
                        (rest_n@[j as int]@, rest_c@[j as int] as nat),
                        (#[trigger] rest_n@[k]@, rest_c@[k] as nat),
                    ) by {
                        lemma_rank_lt(
                            (rest_n@[j as int]@, rest_c@[j as int] as nat),
                            (rest_n@[b as int]@, rest_c@[b as int] as nat),
                            (rest_n@[k]@, rest_c@[k] as nat),
                        );
                    }
                }
                b = j;
                best_chars = cj;
            } else {
                proof {
                    lemma_rank_lt(
                        (rest_n@[b as int]@, rest_c@[b as int] as nat),
                        (rest_n@[j as int]@, rest_c@[j as int] as nat),
                        (rest_n@[b as int]@, rest_c@[b as int] as nat),
                    );
                }
            }
            j += 1;
        }
        let ghost old_n = rest_n@;
        let ghost old_c = rest_c@;
        let ghost old_r = r@;
        let name = rest_n.remove(b);
        let count = rest_c.remove(b);
        r.push((name, count));
        proof {
            let e = (name@, count as nat);
            assert(entry(r@[r@.len() - 1]) == e);
            assert forall|a: int, c: int| 0 <= a < c < r@.len() implies rank_lt(
                entry(r@[a]),
                entry(r@[c]),
            ) by {
                if c == r@.len() - 1 {
                    assert(entry(r@[a]) == entry(old_r[a]));
                } else {
                    assert(entry(r@[a]) == entry(old_r[a]));
                    assert(entry(r@[c]) == entry(old_r[c]));
                }
            }
            assert forall|a: int, k: int|
                0 <= a < r@.len() && 0 <= k < rest_n@.len() implies rank_lt(
                entry(r@[a]),
                (rest_n@[k]@, rest_c@[k] as nat),
            ) by {
                let ko = if k < b { k } else { k + 1 };
                assert(rest_n@[k] == old_n[ko]);
                assert(rest_c@[k] == old_c[ko]);
                if a < old_r.len() {
                    assert(entry(r@[a]) == entry(old_r[a]));
                }
            }
            assert forall|a: int, c: int| 0 <= a < c < rest_n@.len() implies rest_n@[a]@
                != rest_n@[c]@ by {
                let ao = if a < b { a } else { a + 1 };
                let co = if c < b { c } else { c + 1 };
                assert(rest_n@[a] == old_n[ao]);
                assert(rest_n@[c] == old_n[co]);
            }
            assert forall|k: int| 0 <= k < rest_n@.len() implies rest_c@[k] == count_in(
                flat,
                #[trigger] rest_n@[k]@,
            ) && flat.contains(rest_n@[k]@) by {
                let ko = if k < b { k } else { k + 1 };
                assert(rest_n@[k] == old_n[ko]);
                assert(rest_c@[k] == old_c[ko]);
            }
            assert forall|k: int| 0 <= k < r@.len() implies flat.contains(#[trigger] r@[k].0@)
                && r@[k].1 == count_in(flat, r@[k].0@) by {
                if k < old_r.len() {
                    assert(r@[k] == old_r[k]);
                }
            }
            assert forall|n: Seq<char>| flat.contains(n) implies views(rest_n@).contains(n)
                || entry_names(r@).contains(n) by {
                if views(old_n).contains(n) {
                    let q = choose|q: int| 0 <= q < views(old_n).len() && views(old_n)[q] == n;
                    if q == b {
                        assert(entry_names(r@)[r@.len() - 1] == n);
                    } else {
                        let qn = if q < b { q } else { q - 1 };
                        assert(views(rest_n@)[qn] == n);
                    }
                } else {
                    assert(entry_names(old_r).contains(n));
                    let q = choose|q: int|
                        0 <= q < old_r.len() && entry_names(old_r)[q] == n;
                    assert(entry_names(r@)[q] == n);
                }
            }
        }
    }
    proof {
        assert forall|n: Seq<char>|
            flat.contains(n) && !entry_names(r@).contains(n) implies r@.len()
            == 10 && forall|i: int| 0 <= i < r@.len() ==> rank_lt(entry(#[trigger] r@[i]), (n, count_in(flat, n))) by {
            assert(views(rest_n@).contains(n));
            let q = choose|q: int| 0 <= q < views(rest_n@).len() && views(rest_n@)[q] == n;
            assert(rest_n@[q]@ == n);
            assert(rest_c@[q] == count_in(flat, rest_n@[q]@));
        }
    }
    r
}

} // verus!
