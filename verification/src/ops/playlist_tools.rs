//! Power-user playlist tools: unbiased shuffle, dedupe, merge, sort.
//!
//! All of these read any source (protected sources are fine to READ) and
//! write results either to a NEW playlist or — only for session playlists,
//! only when asked — in place. This module decides the resulting track
//! lists, names and descriptions.

use vstd::prelude::*;

use super::resolve::{holds_uri, match_key, match_key_spec, no_duplicates};
use super::{addable_uri_seq, addable_uris, source_label, OpError, TrackSource, WriteDestination,
    APP_SIGNATURE};
use crate::ai::prompts::{join, join_strings, views};
use crate::order::{is_stable_sorted_order, key_view, lemma_ord_lt_props, ord_lt, stable_sort_order, text_lt};
use crate::spotify::models::{addable, TrackInfo};
use crate::text::{chars_of, decimal, owned, push_char, push_decimal, push_str, string_of,
    to_lowercase, unicode_lowercase};

verus! {

// ---------------------------------------------------------------------
// Shuffle
// ---------------------------------------------------------------------
/// The tracks a shuffle writes: the addable ones. Fails when there are none.
pub fn shuffle_source(tracks: &[TrackInfo]) -> (r: Result<Vec<String>, OpError>)
    ensures
        match r {
            Ok(u) => views(u@) == addable_uri_seq(tracks@) && u@.len() > 0,
            Err(OpError::Other(m)) => addable_uri_seq(tracks@).len() == 0 && m@
                == "the source has no addable tracks"@,
            Err(_) => false,
        },
{
    let uris = addable_uris(tracks);
    if uris.len() == 0 {
        return Err(OpError::Other(owned("the source has no addable tracks")));
    }
    Ok(uris)
}

/// Name of the shuffled copy of `label`, made at `stamp`.
pub fn shuffle_name(label: &str, stamp: &str) -> (s: String)
    ensures
        s@ == label@ + " (unbiased shuffle "@ + stamp@ + ")"@,
{
    let mut s = owned(label);
    push_str(&mut s, " (unbiased shuffle ");
    push_str(&mut s, stamp);
    push_str(&mut s, ")");
    s
}

/// Description of the shuffled copy of `label` with `n` tracks.
pub fn shuffle_description(label: &str, n: usize) -> (s: String)
    ensures
        s@ == "Statistically unbiased shuffle of '"@ + label@ + "' — "@ + decimal(n as nat)
            + " tracks · "@ + APP_SIGNATURE@,
{
    let mut s = owned("Statistically unbiased shuffle of '");
    push_str(&mut s, label);
    push_str(&mut s, "' — ");
    push_decimal(&mut s, n as u64);
    push_str(&mut s, " tracks · ");
    push_str(&mut s, APP_SIGNATURE);
    s
}

// ---------------------------------------------------------------------
// Dedupe
// ---------------------------------------------------------------------
#[derive(Clone, Debug)]
pub struct DedupeOutcome {
    pub destination: Option<WriteDestination>,
    pub removed: Vec<String>,
}

/// The fuzzy identity of a track: normalized primary artist and title.
pub open spec fn fuzzy_key(t: TrackInfo) -> Seq<char> {
    match_key_spec(
        if t.artists@.len() > 0 {
            t.artists@[0]@
        } else {
            Seq::empty()
        },
        t.name@,
    )
}

/// How a removed duplicate is listed: "artists — title".
pub open spec fn removed_line(t: TrackInfo) -> Seq<char> {
    join(views(t.artists@), ", "@) + " — "@ + t.name@
}

/// Dedupe of `tracks`: (kept URIs, their fuzzy keys, removed lines). Only
/// addable tracks are considered; a track is removed when its URI or its
/// fuzzy key was kept before, so the first occurrence wins.
pub open spec fn dedupe_state(tracks: Seq<TrackInfo>) -> (Seq<Seq<char>>, Seq<Seq<char>>, Seq<Seq<char>>)
    decreases tracks.len(),
{
    if tracks.len() == 0 {
        (Seq::empty(), Seq::empty(), Seq::empty())
    } else {
        let (u, k, r) = dedupe_state(tracks.drop_last());
        let t = tracks.last();
        if !addable(t.uri@, t.is_local) {
            (u, k, r)
        } else if u.contains(t.uri@) || k.contains(fuzzy_key(t)) {
            (u, k, r.push(removed_line(t)))
        } else {
            (u.push(t.uri@), k.push(fuzzy_key(t)), r)
        }
    }
}

/// The number of addable tracks.
pub open spec fn addable_count(tracks: Seq<TrackInfo>) -> nat
    decreases tracks.len(),
{
    if tracks.len() == 0 {
        0
    } else {
        addable_count(tracks.drop_last()) + if addable(tracks.last().uri@, tracks.last().is_local) {
            1nat
        } else {
            0nat
        }
    }
}

/// A dedupe keeps no URI twice and no fuzzy identity twice, and every
/// addable track is either kept or listed as removed.
pub proof fn law_dedupe_keeps_each_track_once(tracks: Seq<TrackInfo>)
    ensures
        no_duplicates(dedupe_state(tracks).0),
        no_duplicates(dedupe_state(tracks).1),
        dedupe_state(tracks).0.len() == dedupe_state(tracks).1.len(),
        dedupe_state(tracks).0.len() + dedupe_state(tracks).2.len() == addable_count(tracks),
    decreases tracks.len(),
{
    if tracks.len() > 0 {
        law_dedupe_keeps_each_track_once(tracks.drop_last());
        let (u, k, r) = dedupe_state(tracks.drop_last());
        let t = tracks.last();
        if addable(t.uri@, t.is_local) && !(u.contains(t.uri@) || k.contains(fuzzy_key(t))) {
            assert forall|i: int, j: int| 0 <= i < j < u.push(t.uri@).len() implies u.push(
                t.uri@,
            )[i] != u.push(t.uri@)[j] by {
                if j == u.len() {
                    assert(u.contains(u[i]));
                }
            }
            assert forall|i: int, j: int| 0 <= i < j < k.push(fuzzy_key(t)).len() implies k.push(
                fuzzy_key(t),
            )[i] != k.push(fuzzy_key(t))[j] by {
                if j == k.len() {
                    assert(k.contains(k[i]));
                }
            }
        }
    }
}

/// `a` is `b` with some items left out: the items of `a` occur in `b` in
/// the same order.
pub open spec fn is_subsequence(a: Seq<Seq<char>>, b: Seq<Seq<char>>) -> bool
    decreases b.len(),
{
    if a.len() == 0 {
        true
    } else if b.len() == 0 {
        false
    } else if a.last() == b.last() {
        is_subsequence(a.drop_last(), b.drop_last())
    } else {
        is_subsequence(a, b.drop_last())
    }
}

proof fn lemma_subsequence_drop_last(a: Seq<Seq<char>>, b: Seq<Seq<char>>)
    requires
        a.len() > 0,
        is_subsequence(a, b),
    ensures
        is_subsequence(a.drop_last(), b),
    decreases b.len(), 0nat,
{
    if b.len() > 0 {
        if a.last() == b.last() {
            lemma_subsequence_extend(a.drop_last(), b.drop_last(), b.last());
            assert(b.drop_last().push(b.last()) =~= b);
        } else {
            lemma_subsequence_drop_last(a, b.drop_last());
            lemma_subsequence_extend(a.drop_last(), b.drop_last(), b.last());
            assert(b.drop_last().push(b.last()) =~= b);
        }
    }
}

proof fn lemma_subsequence_extend(a: Seq<Seq<char>>, b: Seq<Seq<char>>, x: Seq<char>)
    requires
        is_subsequence(a, b),
    ensures
        is_subsequence(a, b.push(x)),
    decreases b.len(), 1nat,
{
    assert(b.push(x).drop_last() =~= b);
    if a.len() > 0 && a.last() == x {
        lemma_subsequence_drop_last(a, b);
    }
}

proof fn lemma_subsequence_push(a: Seq<Seq<char>>, b: Seq<Seq<char>>, x: Seq<char>)
    requires
        is_subsequence(a, b),
    ensures
        is_subsequence(a.push(x), b.push(x)),
{
    assert(a.push(x).drop_last() =~= a);
    assert(b.push(x).drop_last() =~= b);
}

/// A dedupe keeps the surviving URIs in their original order: they are the
/// addable URIs with the later repeats left out.
pub proof fn law_dedupe_preserves_order(tracks: Seq<TrackInfo>)
    ensures
        is_subsequence(dedupe_state(tracks).0, addable_uri_seq(tracks)),
    decreases tracks.len(),
{
    if tracks.len() > 0 {
        law_dedupe_preserves_order(tracks.drop_last());
        let (u, k, r) = dedupe_state(tracks.drop_last());
        let t = tracks.last();
        let prev = addable_uri_seq(tracks.drop_last());
        if addable(t.uri@, t.is_local) {
            if u.contains(t.uri@) || k.contains(fuzzy_key(t)) {
                lemma_subsequence_extend(u, prev, t.uri@);
            } else {
                lemma_subsequence_push(u, prev, t.uri@);
            }
        }
    }
}

/// The primary (first-credited) artist of a track, empty when it has none.
pub open spec fn primary_artist(t: TrackInfo) -> Seq<char> {
    if t.artists@.len() > 0 {
        t.artists@[0]@
    } else {
        Seq::empty()
    }
}

/// Some addable track of `s` has URI `x`.
pub open spec fn has_addable_uri(s: Seq<TrackInfo>, x: Seq<char>) -> bool {
    exists|j: int| 0 <= j < s.len() && addable(s[j].uri@, s[j].is_local) && #[trigger] s[j].uri@ == x
}

/// Some addable track of `s` has fuzzy identity `x`.
pub open spec fn has_addable_key(s: Seq<TrackInfo>, x: Seq<char>) -> bool {
    exists|j: int| 0 <= j < s.len() && addable(s[j].uri@, s[j].is_local) && #[trigger] fuzzy_key(s[j]) == x
}

/// Whatever a dedupe keeps comes from an addable track of the input.
proof fn lemma_dedupe_origin(s: Seq<TrackInfo>)
    ensures
        forall|p: int| 0 <= p < dedupe_state(s).0.len() ==> has_addable_uri(s, #[trigger] dedupe_state(s).0[p]),
        forall|p: int| 0 <= p < dedupe_state(s).1.len() ==> has_addable_key(s, #[trigger] dedupe_state(s).1[p]),
    decreases s.len(),
{
    if s.len() > 0 {
        let d = s.drop_last();
        lemma_dedupe_origin(d);
        let (u, k, r) = dedupe_state(d);
        let t = s.last();
        assert forall|x: Seq<char>| has_addable_uri(d, x) implies has_addable_uri(s, x) by {
            let j = choose|j: int| 0 <= j < d.len() && addable(d[j].uri@, d[j].is_local) && #[trigger] d[j].uri@ == x;
            assert(s[j] == d[j]);
        }
        assert forall|x: Seq<char>| has_addable_key(d, x) implies has_addable_key(s, x) by {
            let j = choose|j: int| 0 <= j < d.len() && addable(d[j].uri@, d[j].is_local) && #[trigger] fuzzy_key(d[j]) == x;
            assert(s[j] == d[j]);
        }
        if addable(t.uri@, t.is_local) && !(u.contains(t.uri@) || k.contains(fuzzy_key(t))) {
            assert(s[s.len() - 1] == t);
            assert(has_addable_uri(s, t.uri@));
            assert(has_addable_key(s, fuzzy_key(t)));
            assert forall|p: int| 0 <= p < u.push(t.uri@).len() implies has_addable_uri(s, #[trigger] u.push(t.uri@)[p]) by {
                if p < u.len() {
                    assert(u.push(t.uri@)[p] == u[p]);
                }
            }
            assert forall|p: int| 0 <= p < k.push(fuzzy_key(t)).len() implies has_addable_key(s, #[trigger] k.push(fuzzy_key(t))[p]) by {
                if p < k.len() {
                    assert(k.push(fuzzy_key(t))[p] == k[p]);
                }
            }
        }
    }
}

/// A URI kept by a dedupe of a prefix stays kept as the list goes on.
proof fn lemma_dedupe_keeps_kept(s: Seq<TrackInfo>, m: int, x: Seq<char>)
    requires
        0 <= m <= s.len(),
        dedupe_state(s.take(m)).0.contains(x),
    ensures
        dedupe_state(s).0.contains(x),
    decreases s.len() - m,
{
    if m == s.len() {
        assert(s.take(m) =~= s);
    } else {
        let n = m + 1;
        assert(s.take(n).drop_last() =~= s.take(m));
        let u = dedupe_state(s.take(m)).0;
        let j = choose|j: int| 0 <= j < u.len() && u[j] == x;
        let u2 = dedupe_state(s.take(n)).0;
        assert(u2 == u || u2 == u.push(s.take(n).last().uri@));
        assert(u2[j] == x);
        lemma_dedupe_keeps_kept(s, n, x);
    }
}

/// A track that repeats no earlier addable track, neither by URI nor by
/// its normalized primary artist and title, is kept by a dedupe: the fuzzy
/// identity depends on the primary artist as well as the title.
pub proof fn law_dedupe_keeps_new_tracks(tracks: Seq<TrackInfo>, i: int)
    requires
        0 <= i < tracks.len(),
        addable(tracks[i].uri@, tracks[i].is_local),
        forall|j: int|
            0 <= j < i && addable(tracks[j].uri@, tracks[j].is_local) ==> tracks[j].uri@ != tracks[i].uri@
                && match_key_spec(primary_artist(#[trigger] tracks[j]), tracks[j].name@) != match_key_spec(
                primary_artist(tracks[i]),
                tracks[i].name@,
            ),
    ensures
        dedupe_state(tracks).0.contains(tracks[i].uri@),
{
    let pre = tracks.take(i);
    let t = tracks[i];
    lemma_dedupe_origin(pre);
    let (u, k, r) = dedupe_state(pre);
    if u.contains(t.uri@) {
        let p = choose|p: int| 0 <= p < u.len() && u[p] == t.uri@;
        assert(has_addable_uri(pre, u[p]));
        let j = choose|j: int| 0 <= j < pre.len() && addable(pre[j].uri@, pre[j].is_local) && #[trigger] pre[j].uri@ == u[p];
        assert(pre[j] == tracks[j]);
        assert(false);
    }
    if k.contains(fuzzy_key(t)) {
        let p = choose|p: int| 0 <= p < k.len() && k[p] == fuzzy_key(t);
        assert(has_addable_key(pre, k[p]));
        let j = choose|j: int| 0 <= j < pre.len() && addable(pre[j].uri@, pre[j].is_local) && #[trigger] fuzzy_key(pre[j]) == k[p];
        assert(pre[j] == tracks[j]);
        assert(fuzzy_key(tracks[j]) == match_key_spec(primary_artist(tracks[j]), tracks[j].name@));
        assert(false);
    }
    assert(tracks.take(i + 1).drop_last() =~= pre);
    assert(tracks.take(i + 1).last() == t);
    assert(dedupe_state(tracks.take(i + 1)).0 == u.push(t.uri@));
    assert(u.push(t.uri@)[u.len() as int] == t.uri@);
    lemma_dedupe_keeps_kept(tracks, i + 1, t.uri@);
}

/// What a dedupe writes and reports.
pub struct DedupePlan {
    pub uris: Vec<String>,
    pub removed: Vec<String>,
}

/// The fuzzy identity of track `t`, computed.
fn fuzzy_key_of(t: &TrackInfo) -> (k: String)
    ensures
        k@ == fuzzy_key(*t),
{
    if t.artists.len() > 0 {
        match_key(t.artists[0].as_str(), t.name.as_str())
    } else {
        proof {
            reveal_strlit("");
        }
        match_key("", t.name.as_str())
    }
}

/// Remove duplicates: exact URI repeats plus fuzzy repeats (same normalized
/// title + primary artist, e.g. album vs. single edition). First occurrence
/// wins; order is otherwise preserved.
pub fn dedupe_tracks(tracks: &[TrackInfo]) -> (p: DedupePlan)
    ensures
        views(p.uris@) == dedupe_state(tracks@).0,
        views(p.removed@) == dedupe_state(tracks@).2,
{
    let mut uris: Vec<String> = Vec::new();
    let mut keys: Vec<String> = Vec::new();
    let mut removed: Vec<String> = Vec::new();
    let mut i: usize = 0;
    while i < tracks.len()
        invariant
            i <= tracks@.len(),
            dedupe_state(tracks@.take(i as int)) == (views(uris@), views(keys@), views(removed@)),
        decreases tracks@.len() - i,
    {
        proof {
            assert(tracks@.take(i + 1).drop_last() =~= tracks@.take(i as int));
            assert(tracks@.take(i + 1).last() == tracks@[i as int]);
        }
        let t = &tracks[i];
        if t.is_addable() {
            let key = fuzzy_key_of(t);
            if holds_uri(&uris, t.uri.as_str()) || holds_uri(&keys, key.as_str()) {
                let ghost before = removed@;
                let mut line = t.artist_line();
                push_str(&mut line, " — ");
                push_str(&mut line, t.name.as_str());
                removed.push(line);
                proof {
                    assert(views(removed@) =~= views(before).push(removed_line(*t)));
                }
            } else {
                let ghost bu = uris@;
                let ghost bk = keys@;
                uris.push(t.uri.clone());
                keys.push(key);
                proof {
                    assert(views(uris@) =~= views(bu).push(t.uri@));
                    assert(views(keys@) =~= views(bk).push(fuzzy_key(*t)));
                }
            }
        }
        i += 1;
    }
    proof {
        assert(tracks@.take(tracks@.len() as int) =~= tracks@);
    }
    DedupePlan { uris, removed }
}

/// The first `k` items of `s` (all of them when there are fewer).
pub open spec fn first_n(s: Seq<Seq<char>>, k: nat) -> Seq<Seq<char>> {
    if s.len() <= k {
        s
    } else {
        s.take(k as int)
    }
}

/// The log line after a dedupe of `label` that removed `removed`.
pub fn dedupe_note(label: &str, removed: &Vec<String>) -> (s: String)
    ensures
        removed@.len() == 0 ==> s@ == "No duplicates found in '"@ + label@ + "'"@,
        removed@.len() > 0 ==> s@ == "Found "@ + decimal(removed@.len() as nat) + " duplicate(s): "@
            + join(first_n(views(removed@), 15), "; "@),
{
    if removed.len() == 0 {
        let mut s = owned("No duplicates found in '");
        push_str(&mut s, label);
        push_str(&mut s, "'");
        return s;
    }
    let mut shown: Vec<String> = Vec::new();
    let mut i: usize = 0;
    while i < removed.len() && i < 15
        invariant
            i <= removed@.len(),
            i <= 15,
            shown@ == removed@.take(i as int),
        decreases removed@.len() - i,
    {
        shown.push(removed[i].clone());
        i += 1;
        proof {
            assert(shown@ =~= removed@.take(i as int));
        }
    }
    proof {
        if removed@.len() <= 15 {
            assert(removed@.take(i as int) =~= removed@);
        }
        assert(views(shown@) =~= first_n(views(removed@), 15));
    }
    let mut s = owned("Found ");
    push_decimal(&mut s, removed.len() as u64);
    push_str(&mut s, " duplicate(s): ");
    let joined = join_strings(&shown, "; ");
    push_str(&mut s, joined.as_str());
    s
}

/// Name of the deduped copy of `label`.
pub fn dedupe_name(label: &str) -> (s: String)
    ensures
        s@ == label@ + " (deduped)"@,
{
    let mut s = owned(label);
    push_str(&mut s, " (deduped)");
    s
}

/// Description of the deduped copy of `label` with `n` duplicates removed.
pub fn dedupe_description(label: &str, n: usize) -> (s: String)
    ensures
        s@ == "'"@ + label@ + "' with "@ + decimal(n as nat) + " duplicate(s) removed · "@
            + APP_SIGNATURE@,
{
    let mut s = owned("'");
    push_str(&mut s, label);
    push_str(&mut s, "' with ");
    push_decimal(&mut s, n as u64);
    push_str(&mut s, " duplicate(s) removed · ");
    push_str(&mut s, APP_SIGNATURE);
    s
}

// ---------------------------------------------------------------------
// Merge
// ---------------------------------------------------------------------
/// All items of `lists`, in order.
pub open spec fn concat_all(lists: Seq<Seq<Seq<char>>>) -> Seq<Seq<char>>
    decreases lists.len(),
{
    if lists.len() == 0 {
        Seq::empty()
    } else {
        concat_all(lists.drop_last()) + lists.last()
    }
}

/// The characters of each string of each list.
pub open spec fn list_views(lists: Seq<Vec<String>>) -> Seq<Seq<Seq<char>>> {
    lists.map_values(|l: Vec<String>| views(l@))
}

/// The items of `all` in order; with `dedupe`, repeats of an earlier item
/// are dropped.
pub open spec fn merged(all: Seq<Seq<char>>, dedupe: bool) -> Seq<Seq<char>>
    decreases all.len(),
{
    if all.len() == 0 {
        Seq::empty()
    } else {
        let prev = merged(all.drop_last(), dedupe);
        let u = all.last();
        if !dedupe || !prev.contains(u) {
            prev.push(u)
        } else {
            prev
        }
    }
}

/// Without dedupe a merge is the plain concatenation; with it, the merge
/// holds every item exactly once.
pub proof fn law_merge_dedupe(all: Seq<Seq<char>>)
    ensures
        merged(all, false) == all,
        no_duplicates(merged(all, true)),
        forall|u: Seq<char>| merged(all, true).contains(u) <==> all.contains(u),
    decreases all.len(),
{
    if all.len() > 0 {
        law_merge_dedupe(all.drop_last());
        let prev = merged(all.drop_last(), true);
        let u = all.last();
        assert(all.drop_last().push(u) =~= all);
        if !prev.contains(u) {
            assert forall|i: int, j: int| 0 <= i < j < prev.push(u).len() implies prev.push(u)[i]
                != prev.push(u)[j] by {
                if j == prev.len() {
                    assert(prev.contains(prev[i]));
                }
            }
        }
        let m = merged(all, true);
        assert forall|v: Seq<char>| m.contains(v) <==> all.contains(v) by {
            if m.contains(v) {
                let k = choose|k: int| 0 <= k < m.len() && m[k] == v;
                if k < prev.len() {
                    assert(prev[k] == v);
                    assert(prev.contains(v));
                    assert(all.drop_last().contains(v));
                    let k2 = choose|k2: int| 0 <= k2 < all.drop_last().len() && all.drop_last()[k2] == v;
                    assert(all[k2] == v);
                } else {
                    assert(v == u);
                    assert(all[all.len() - 1] == v);
                }
            }
            if all.contains(v) {
                let k = choose|k: int| 0 <= k < all.len() && all[k] == v;
                if k < all.len() - 1 {
                    assert(all.drop_last()[k] == v);
                    assert(all.drop_last().contains(v));
                    assert(prev.contains(v));
                    let k2 = choose|k2: int| 0 <= k2 < prev.len() && prev[k2] == v;
                    assert(m[k2] == v);
                } else if prev.contains(u) {
                    assert(m == prev);
                } else {
                    assert(m[prev.len() as int] == u);
                }
            }
        }
    } else {
        assert(merged(all, false) =~= all);
    }
}

/// A merge keeps the order of its sources: the merged list is the
/// concatenation with (when deduplicating) later repeats left out.
pub proof fn law_merge_preserves_order(all: Seq<Seq<char>>, dedupe: bool)
    ensures
        is_subsequence(merged(all, dedupe), all),
    decreases all.len(),
{
    if all.len() > 0 {
        law_merge_preserves_order(all.drop_last(), dedupe);
        let prev = merged(all.drop_last(), dedupe);
        let u = all.last();
        assert(all.drop_last().push(u) =~= all);
        if !dedupe || !prev.contains(u) {
            lemma_subsequence_push(prev, all.drop_last(), u);
        } else {
            lemma_subsequence_extend(prev, all.drop_last(), u);
        }
    }
}

/// Concatenate the URI lists of several sources, optionally dropping exact
/// repeats.
pub fn merge_uris(lists: &Vec<Vec<String>>, dedupe: bool) -> (r: Vec<String>)
    ensures
        views(r@) == merged(concat_all(list_views(lists@)), dedupe),
{
    let mut out: Vec<String> = Vec::new();
    let mut i: usize = 0;
    while i < lists.len()
        invariant
            i <= lists@.len(),
            views(out@) == merged(concat_all(list_views(lists@.take(i as int))), dedupe),
        decreases lists@.len() - i,
    {
        let ghost base = concat_all(list_views(lists@.take(i as int)));
        let ghost cur = views(lists@[i as int]@);
        let mut j: usize = 0;
        while j < lists[i].len()
            invariant
                i < lists@.len(),
                j <= lists@[i as int]@.len(),
                cur == views(lists@[i as int]@),
                views(out@) == merged(base + cur.take(j as int), dedupe),
            decreases lists@[i as int]@.len() - j,
        {
            let u = &lists[i][j];
            proof {
                assert((base + cur.take(j + 1)).drop_last() =~= base + cur.take(j as int));
                assert((base + cur.take(j + 1)).last() == u@);
            }
            let ghost before = out@;
            if !dedupe || !holds_uri(&out, u.as_str()) {
                out.push(u.clone());
                proof {
                    assert(views(out@) =~= views(before).push(u@));
                }
            }
            j += 1;
        }
        proof {
            assert(cur.take(cur.len() as int) =~= cur);
            assert(list_views(lists@.take(i + 1)).drop_last() =~= list_views(lists@.take(i as int)));
            assert(list_views(lists@.take(i + 1)).last() == cur);
        }
        i += 1;
    }
    proof {
        assert(lists@.take(lists@.len() as int) =~= lists@);
    }
    out
}

/// A merge needs at least two sources.
pub fn check_merge_sources(n: usize) -> (r: Result<(), OpError>)
    ensures
        match r {
            Ok(()) => n >= 2,
            Err(OpError::Other(m)) => n < 2 && m@ == "select at least two sources to merge"@,
            Err(_) => false,
        },
{
    if n < 2 {
        Err(OpError::Other(owned("select at least two sources to merge")))
    } else {
        Ok(())
    }
}

/// A merge that found nothing to write is refused.
pub fn check_merged(uris: &Vec<String>) -> (r: Result<(), OpError>)
    ensures
        match r {
            Ok(()) => uris@.len() > 0,
            Err(OpError::Other(m)) => uris@.len() == 0 && m@
                == "the selected sources have no addable tracks"@,
            Err(_) => false,
        },
{
    if uris.len() == 0 {
        Err(OpError::Other(owned("the selected sources have no addable tracks")))
    } else {
        Ok(())
    }
}

/// The name of a merge of sources labelled `labels`: "Merged: a + b",
/// cut to 89 characters and an ellipsis when longer than 90.
pub open spec fn merge_name_spec(labels: Seq<Seq<char>>) -> Seq<char> {
    let n = "Merged: "@ + join(labels, " + "@);
    if n.len() > 90 {
        n.take(89).push('…')
    } else {
        n
    }
}

/// The labels of `sources`.
pub open spec fn source_labels(sources: Seq<TrackSource>) -> Seq<Seq<char>> {
    sources.map_values(|s: TrackSource| source_label(s))
}

/// The name of the merged playlist.
pub fn merge_name(sources: &[TrackSource]) -> (s: String)
    ensures
        s@ == merge_name_spec(source_labels(sources@)),
{
    let mut labels: Vec<String> = Vec::new();
    let mut i: usize = 0;
    while i < sources.len()
        invariant
            i <= sources@.len(),
            views(labels@) == source_labels(sources@.take(i as int)),
        decreases sources@.len() - i,
    {
        let ghost before = labels@;
        let l = sources[i].label();
        labels.push(l);
        proof {
            assert(views(labels@) =~= views(before).push(l@));
            assert(sources@.take(i + 1) =~= sources@.take(i as int).push(sources@[i as int]));
            assert(source_labels(sources@.take(i + 1)) =~= source_labels(sources@.take(i as int)).push(
                source_label(sources@[i as int]),
            ));
        }
        i += 1;
    }
    proof {
        assert(sources@.take(sources@.len() as int) =~= sources@);
    }
    let mut n = owned("Merged: ");
    let joined = join_strings(&labels, " + ");
    push_str(&mut n, joined.as_str());
    let v = chars_of(n.as_str());
    if v.len() > 90 {
        let mut cut = crate::text::slice_chars(&v, 0, 89);
        cut.push('…');
        proof {
            assert(cut@ =~= n@.take(89).push('…'));
        }
        string_of(&cut)
    } else {
        n
    }
}

/// The description of a merge of `k` sources into `n` tracks.
pub fn merge_description(k: usize, n: usize, dedupe: bool, shuffle: bool) -> (s: String)
    ensures
        s@ == "Merge of "@ + decimal(k as nat) + " sources ("@ + decimal(n as nat) + " tracks"@ + (
        if dedupe {
            ", deduped"@
        } else {
            ""@
        }) + (if shuffle {
            ", shuffled"@
        } else {
            ""@
        }) + ") · "@ + APP_SIGNATURE@,
{
    proof {
        reveal_strlit("");
    }
    let mut s = owned("Merge of ");
    push_decimal(&mut s, k as u64);
    push_str(&mut s, " sources (");
    push_decimal(&mut s, n as u64);
    push_str(&mut s, " tracks");
    let ghost a = s@;
    if dedupe {
        push_str(&mut s, ", deduped");
    } else {
        assert(a + ""@ =~= a);
    }
    let ghost b = s@;
    if shuffle {
        push_str(&mut s, ", shuffled");
    } else {
        assert(b + ""@ =~= b);
    }
    push_str(&mut s, ") · ");
    push_str(&mut s, APP_SIGNATURE);
    s
}

// ---------------------------------------------------------------------
// Sort
// ---------------------------------------------------------------------
/// Metadata sort keys. Audio-feature sorting (BPM/energy/…) is impossible on
/// today's API, and `popularity` is stripped in development mode, so the
/// keys below are what genuinely works.
#[derive(Clone, Copy, Debug, PartialEq, Eq, Structural)]
pub enum SortKey {
    Title,
    Artist,
    Album,
    ReleaseDate,
    Duration,
    DateAdded,
}

/// The label shown for a sort key.
pub open spec fn sort_key_label(k: SortKey) -> Seq<char> {
    match k {
        SortKey::Title => "Title"@,
        SortKey::Artist => "Artist"@,
        SortKey::Album => "Album"@,
        SortKey::ReleaseDate => "Release date"@,
        SortKey::Duration => "Duration"@,
        SortKey::DateAdded => "Date added"@,
    }
}

/// The label of a sort key in lower case, as names and descriptions use it.
pub open spec fn sort_key_word(k: SortKey) -> Seq<char> {
    match k {
        SortKey::Title => "title"@,
        SortKey::Artist => "artist"@,
        SortKey::Album => "album"@,
        SortKey::ReleaseDate => "release date"@,
        SortKey::Duration => "duration"@,
        SortKey::DateAdded => "date added"@,
    }
}

impl SortKey {
    /// Every sort key, in the order the UI offers them.
    pub fn all() -> (v: Vec<SortKey>)
        ensures
            v@ == seq![
                SortKey::Title,
                SortKey::Artist,
                SortKey::Album,
                SortKey::ReleaseDate,
                SortKey::Duration,
                SortKey::DateAdded,
            ],
    {
        let mut v = Vec::new();
        v.push(SortKey::Title);
        v.push(SortKey::Artist);
        v.push(SortKey::Album);
        v.push(SortKey::ReleaseDate);
        v.push(SortKey::Duration);
        v.push(SortKey::DateAdded);
        proof {
            assert(v@ =~= seq![
                SortKey::Title,
                SortKey::Artist,
                SortKey::Album,
                SortKey::ReleaseDate,
                SortKey::Duration,
                SortKey::DateAdded,
            ]);
        }
        v
    }

    pub fn label(self) -> (s: &'static str)
        ensures
            s@ == sort_key_label(self),
    {
        match self {
            SortKey::Title => "Title",
            SortKey::Artist => "Artist",
            SortKey::Album => "Album",
            SortKey::ReleaseDate => "Release date",
            SortKey::Duration => "Duration",
            SortKey::DateAdded => "Date added",
        }
    }

    /// The label in lower case.
    pub fn word(self) -> (s: &'static str)
        ensures
            s@ == sort_key_word(self),
    {
        match self {
            SortKey::Title => "title",
            SortKey::Artist => "artist",
            SortKey::Album => "album",
            SortKey::ReleaseDate => "release date",
            SortKey::Duration => "duration",
            SortKey::DateAdded => "date added",
        }
    }
}

/// An optional text as a sort key: absent sorts first.
pub open spec fn optional_key(o: Option<String>) -> (u64, Seq<char>) {
    match o {
        Some(s) => (1, s@),
        None => (0, Seq::empty()),
    }
}

/// What track `t` is sorted by under `key`. Texts compare case-insensitively
/// (lowercased); dates as ISO-8601 texts, absent first; durations as numbers.
pub open spec fn sort_key_of(t: TrackInfo, key: SortKey) -> (u64, Seq<char>) {
    match key {
        SortKey::Title => (0, unicode_lowercase(t.name@)),
        SortKey::Artist => (0, unicode_lowercase(join(views(t.artists@), ", "@))),
        SortKey::Album => (0, unicode_lowercase(t.album@)),
        SortKey::ReleaseDate => optional_key(t.release_date),
        SortKey::Duration => (t.duration_ms, Seq::empty()),
        SortKey::DateAdded => optional_key(t.added_at),
    }
}

/// The addable tracks of `tracks`, in order.
pub open spec fn addable_tracks(tracks: Seq<TrackInfo>) -> Seq<TrackInfo>
    decreases tracks.len(),
{
    if tracks.len() == 0 {
        Seq::empty()
    } else {
        let prev = addable_tracks(tracks.drop_last());
        let t = tracks.last();
        if addable(t.uri@, t.is_local) {
            prev.push(t)
        } else {
            prev
        }
    }
}

/// `perm` orders `keys` by `ord_lt(descending, ..)`, stably: elements with
/// equal keys keep their original relative order.
pub open spec fn is_stable_order(keys: Seq<(u64, Seq<char>)>, descending: bool, perm: Seq<usize>) -> bool {
    &&& perm.len() == keys.len()
    &&& forall|i: int| 0 <= i < perm.len() ==> (#[trigger] perm[i]) < keys.len()
    &&& forall|i: int, j: int| 0 <= i < j < perm.len() ==> perm[i] != perm[j]
    &&& forall|i: int, j: int|
        0 <= i < j < perm.len() ==> !ord_lt(
            descending,
            keys[perm[j] as int],
            keys[perm[i] as int],
        )
    &&& forall|i: int, j: int|
        0 <= i < j < perm.len() && keys[perm[i] as int] == keys[perm[j] as int] ==> perm[i]
            < perm[j]
}

/// Every index below `p.len()` occurs in an order over that many indices.
proof fn lemma_order_is_onto(keys: Seq<(u64, Seq<char>)>, descending: bool, p: Seq<usize>, x: int)
    requires
        is_stable_order(keys, descending, p),
        0 <= x < p.len(),
    ensures
        exists|i: int| 0 <= i < p.len() && p[i] == x,
{
    let q = p.map_values(|v: usize| v as int);
    assert forall|i: int, j: int| 0 <= i < q.len() && 0 <= j < q.len() && i != j implies q[i]
        != q[j] by {
        if i < j {
            assert(p[i] != p[j]);
        } else {
            assert(p[j] != p[i]);
        }
    }
    q.unique_seq_to_set();
    if !(exists|i: int| 0 <= i < p.len() && p[i] == x) {
        let range = vstd::set_lib::set_int_range(0, p.len() as int);
        vstd::set_lib::lemma_int_range(0, p.len() as int);
        assert forall|v: int| q.to_set().contains(v) implies range.remove(x).contains(v) by {
            let i = choose|i: int| 0 <= i < q.len() && q[i] == v;
            assert(p[i] < keys.len());
            assert(p[i] as int != x);
        }
        vstd::set_lib::lemma_len_subset(q.to_set(), range.remove(x));
        assert(false);
    }
}

proof fn lemma_orders_agree_below(
    keys: Seq<(u64, Seq<char>)>,
    descending: bool,
    p1: Seq<usize>,
    p2: Seq<usize>,
    k: int,
)
    requires
        is_stable_order(keys, descending, p1),
        is_stable_order(keys, descending, p2),
        0 <= k <= p1.len(),
    ensures
        forall|i: int| 0 <= i < k ==> p1[i] == p2[i],
    decreases k,
{
    if k > 0 {
        lemma_orders_agree_below(keys, descending, p1, p2, k - 1);
        lemma_ord_lt_props(descending);
        let n = p1.len() as int;
        let m = k - 1;
        let a = p1[m] as int;
        let b = p2[m] as int;
        if a != b {
            lemma_order_is_onto(keys, descending, p1, b);
            let j = choose|j: int| 0 <= j < n && p1[j] == b;
            lemma_order_is_onto(keys, descending, p2, a);
            let jj = choose|jj: int| 0 <= jj < n && p2[jj] == a;
            if j < m {
                assert(p2[j] == b);
                assert(false);
            }
            if jj < m {
                assert(p1[jj] == a);
                assert(false);
            }
            assert(!ord_lt(descending, keys[b], keys[a]));
            assert(!ord_lt(descending, keys[a], keys[b]));
            assert(keys[a] == keys[b]);
            assert(p1[m] < p1[j]);
            assert(p2[m] < p2[jj]);
            assert(false);
        }
    }
}

/// The stable order of a list of keys is unique: any two orders that sort
/// `keys` stably are the same, so a stable sort's result is determined.
pub proof fn law_stable_order_is_unique(
    keys: Seq<(u64, Seq<char>)>,
    descending: bool,
    p1: Seq<usize>,
    p2: Seq<usize>,
)
    requires
        is_stable_order(keys, descending, p1),
        is_stable_order(keys, descending, p2),
    ensures
        p1 == p2,
{
    lemma_orders_agree_below(keys, descending, p1, p2, p1.len() as int);
    assert(p1 =~= p2);
}

/// The sort keys of `tracks` under `key`.
pub open spec fn sort_keys(tracks: Seq<TrackInfo>, key: SortKey) -> Seq<(u64, Seq<char>)> {
    tracks.map_values(|t: TrackInfo| sort_key_of(t, key))
}

/// `out` is the URIs of `tracks` stably sorted by `key`.
pub open spec fn sorted_uris(tracks: Seq<TrackInfo>, key: SortKey, descending: bool, out: Seq<Seq<char>>) -> bool {
    let kept = addable_tracks(tracks);
    exists|perm: Seq<usize>|
        #![trigger is_stable_order(sort_keys(kept, key), descending, perm)]
        is_stable_order(sort_keys(kept, key), descending, perm)
            && out.len() == perm.len() && forall|k: int|
            0 <= k < out.len() ==> #[trigger] out[k] == kept[perm[k] as int].uri@
}

/// `out` lists the URIs of `kept` in the order `perm`, and along that order
/// no track's `text` sorts before that of the track ahead of it (after it,
/// when `descending`).
pub open spec fn text_ordered(
    kept: Seq<TrackInfo>,
    descending: bool,
    out: Seq<Seq<char>>,
    perm: Seq<usize>,
    text: spec_fn(TrackInfo) -> Seq<char>,
) -> bool {
    &&& perm.len() == out.len()
    &&& forall|k: int|
        0 <= k < out.len() ==> (#[trigger] perm[k]) < kept.len() && out[k] == kept[perm[k] as int].uri@
    &&& forall|i: int, j: int|
        #![trigger perm[i], perm[j]]
        0 <= i < j < out.len() ==> {
            let a = text(kept[perm[i] as int]);
            let b = text(kept[perm[j] as int]);
            if descending {
                !text_lt(a, b)
            } else {
                !text_lt(b, a)
            }
        }
}

/// The lowercased title, artists ("A, B") and album of a track.
pub open spec fn lower_title(t: TrackInfo) -> Seq<char> {
    unicode_lowercase(t.name@)
}

pub open spec fn lower_artists(t: TrackInfo) -> Seq<char> {
    unicode_lowercase(join(views(t.artists@), ", "@))
}

pub open spec fn lower_album(t: TrackInfo) -> Seq<char> {
    unicode_lowercase(t.album@)
}

pub open spec fn by_title() -> spec_fn(TrackInfo) -> Seq<char> {
    |t: TrackInfo| lower_title(t)
}

pub open spec fn by_artists() -> spec_fn(TrackInfo) -> Seq<char> {
    |t: TrackInfo| lower_artists(t)
}

pub open spec fn by_album() -> spec_fn(TrackInfo) -> Seq<char> {
    |t: TrackInfo| lower_album(t)
}

/// `out` lists the URIs of `kept` in the order `perm`, and along that order
/// no track is longer than the one after it (shorter, when `descending`).
pub open spec fn duration_ordered(kept: Seq<TrackInfo>, descending: bool, out: Seq<Seq<char>>, perm: Seq<usize>) -> bool {
    &&& perm.len() == out.len()
    &&& forall|k: int|
        0 <= k < out.len() ==> (#[trigger] perm[k]) < kept.len() && out[k] == kept[perm[k] as int].uri@
    &&& forall|i: int, j: int|
        #![trigger perm[i], perm[j]]
        0 <= i < j < out.len() ==> if descending {
            kept[perm[i] as int].duration_ms >= kept[perm[j] as int].duration_ms
        } else {
            kept[perm[i] as int].duration_ms <= kept[perm[j] as int].duration_ms
        }
}

/// A stable sort under a key whose values are `(0, text(t))` orders the
/// tracks by `text`.
proof fn lemma_sort_follows_text(
    tracks: Seq<TrackInfo>,
    key: SortKey,
    descending: bool,
    out: Seq<Seq<char>>,
    text: spec_fn(TrackInfo) -> Seq<char>,
)
    requires
        sorted_uris(tracks, key, descending, out),
        forall|t: TrackInfo| #[trigger] sort_key_of(t, key) == (0u64, text(t)),
    ensures
        exists|perm: Seq<usize>| #[trigger] text_ordered(addable_tracks(tracks), descending, out, perm, text),
{
    let kept = addable_tracks(tracks);
    let keys = sort_keys(kept, key);
    let perm = choose|perm: Seq<usize>|
        #![trigger is_stable_order(sort_keys(kept, key), descending, perm)]
        is_stable_order(sort_keys(kept, key), descending, perm) && out.len() == perm.len()
            && forall|k: int| 0 <= k < out.len() ==> #[trigger] out[k] == kept[perm[k] as int].uri@;
    assert forall|i: int, j: int|
        #![trigger perm[i], perm[j]]
        0 <= i < j < out.len() implies {
        let a = text(kept[perm[i] as int]);
        let b = text(kept[perm[j] as int]);
        if descending {
            !text_lt(a, b)
        } else {
            !text_lt(b, a)
        }
    } by {
        assert(!ord_lt(descending, keys[perm[j] as int], keys[perm[i] as int]));
        assert(keys[perm[j] as int] == sort_key_of(kept[perm[j] as int], key));
        assert(keys[perm[i] as int] == sort_key_of(kept[perm[i] as int], key));
    }
    assert forall|k: int| 0 <= k < out.len() implies (#[trigger] perm[k]) < kept.len() && out[k]
        == kept[perm[k] as int].uri@ by {}
    assert(text_ordered(kept, descending, out, perm, text));
}

/// Sorting by album orders the tracks by their lowercased album names,
/// whatever their titles: in the result, no track's album sorts before
/// that of a track ahead of it (after it, when descending).
pub proof fn law_album_sort_orders_by_album(tracks: Seq<TrackInfo>, descending: bool, out: Seq<Seq<char>>)
    requires
        sorted_uris(tracks, SortKey::Album, descending, out),
    ensures
        exists|perm: Seq<usize>|
            #[trigger] text_ordered(addable_tracks(tracks), descending, out, perm, by_album()),
{
    lemma_sort_follows_text(tracks, SortKey::Album, descending, out, by_album());
}

/// Sorting by title orders the tracks by their lowercased titles.
pub proof fn law_title_sort_orders_by_title(tracks: Seq<TrackInfo>, descending: bool, out: Seq<Seq<char>>)
    requires
        sorted_uris(tracks, SortKey::Title, descending, out),
    ensures
        exists|perm: Seq<usize>|
            #[trigger] text_ordered(addable_tracks(tracks), descending, out, perm, by_title()),
{
    lemma_sort_follows_text(tracks, SortKey::Title, descending, out, by_title());
}

/// Sorting by artist orders the tracks by their lowercased artist lines.
pub proof fn law_artist_sort_orders_by_artists(tracks: Seq<TrackInfo>, descending: bool, out: Seq<Seq<char>>)
    requires
        sorted_uris(tracks, SortKey::Artist, descending, out),
    ensures
        exists|perm: Seq<usize>|
            #[trigger] text_ordered(addable_tracks(tracks), descending, out, perm, by_artists()),
{
    lemma_sort_follows_text(tracks, SortKey::Artist, descending, out, by_artists());
}

/// Sorting by duration orders the tracks by their lengths in milliseconds.
pub proof fn law_duration_sort_orders_by_length(tracks: Seq<TrackInfo>, descending: bool, out: Seq<Seq<char>>)
    requires
        sorted_uris(tracks, SortKey::Duration, descending, out),
    ensures
        exists|perm: Seq<usize>| #[trigger] duration_ordered(addable_tracks(tracks), descending, out, perm),
{
    let kept = addable_tracks(tracks);
    let keys = sort_keys(kept, SortKey::Duration);
    let perm = choose|perm: Seq<usize>|
        #![trigger is_stable_order(sort_keys(kept, SortKey::Duration), descending, perm)]
        is_stable_order(sort_keys(kept, SortKey::Duration), descending, perm) && out.len() == perm.len()
            && forall|k: int| 0 <= k < out.len() ==> #[trigger] out[k] == kept[perm[k] as int].uri@;
    assert forall|i: int, j: int|
        #![trigger perm[i], perm[j]]
        0 <= i < j < out.len() implies if descending {
        kept[perm[i] as int].duration_ms >= kept[perm[j] as int].duration_ms
    } else {
        kept[perm[i] as int].duration_ms <= kept[perm[j] as int].duration_ms
    } by {
        assert(!ord_lt(descending, keys[perm[j] as int], keys[perm[i] as int]));
        assert(keys[perm[j] as int] == sort_key_of(kept[perm[j] as int], SortKey::Duration));
        assert(keys[perm[i] as int] == sort_key_of(kept[perm[i] as int], SortKey::Duration));
    }
    assert forall|k: int| 0 <= k < out.len() implies (#[trigger] perm[k]) < kept.len() && out[k]
        == kept[perm[k] as int].uri@ by {}
    assert(duration_ordered(kept, descending, out, perm));
}

fn sort_key_exec(t: &TrackInfo, key: SortKey) -> (k: (u64, Vec<char>))
    ensures
        (k.0, k.1@) == sort_key_of(*t, key),
{
    match key {
        SortKey::Title => (0, chars_of(to_lowercase(t.name.as_str()).as_str())),
        SortKey::Artist => (0, chars_of(to_lowercase(t.artist_line().as_str()).as_str())),
        SortKey::Album => (0, chars_of(to_lowercase(t.album.as_str()).as_str())),
        SortKey::ReleaseDate => match &t.release_date {
            Some(d) => (1, chars_of(d.as_str())),
            None => (0, Vec::new()),
        },
        SortKey::Duration => (t.duration_ms, Vec::new()),
        SortKey::DateAdded => match &t.added_at {
            Some(d) => (1, chars_of(d.as_str())),
            None => (0, Vec::new()),
        },
    }
}

/// The URIs of the addable tracks of `tracks`, stably sorted by `key`
/// (reversed order when `descending`). Fails when no track is addable.
pub fn sort_uris(tracks: &[TrackInfo], key: SortKey, descending: bool) -> (r: Result<Vec<String>, OpError>)
    ensures
        match r {
            Ok(u) => u@.len() > 0 && sorted_uris(tracks@, key, descending, views(u@)),
            Err(OpError::Other(m)) => addable_tracks(tracks@).len() == 0 && m@
                == "the source has no addable tracks"@,
            Err(_) => false,
        },
{
    let ghost kept = addable_tracks(tracks@);
    let mut keys: Vec<(u64, Vec<char>)> = Vec::new();
    let mut uris: Vec<String> = Vec::new();
    let mut i: usize = 0;
    while i < tracks.len()
        invariant
            i <= tracks@.len(),
            keys@.len() == uris@.len() == addable_tracks(tracks@.take(i as int)).len(),
            forall|k: int|
                0 <= k < keys@.len() ==> key_view(keys@, k) == sort_key_of(
                    #[trigger] addable_tracks(tracks@.take(i as int))[k],
                    key,
                ),
            forall|k: int|
                0 <= k < uris@.len() ==> #[trigger] uris@[k]@ == addable_tracks(
                    tracks@.take(i as int),
                )[k].uri@,
        decreases tracks@.len() - i,
    {
        proof {
            assert(tracks@.take(i + 1).drop_last() =~= tracks@.take(i as int));
            assert(tracks@.take(i + 1).last() == tracks@[i as int]);
        }
        let t = &tracks[i];
        if t.is_addable() {
            keys.push(sort_key_exec(t, key));
            uris.push(t.uri.clone());
        }
        i += 1;
    }
    proof {
        assert(tracks@.take(tracks@.len() as int) =~= tracks@);
    }
    if uris.len() == 0 {
        return Err(OpError::Other(owned("the source has no addable tracks")));
    }
    let perm = stable_sort_order(&keys, descending);
    let mut out: Vec<String> = Vec::new();
    let mut k: usize = 0;
    while k < perm.len()
        invariant
            k <= perm@.len(),
            is_stable_sorted_order(keys@, descending, perm@),
            uris@.len() == keys@.len(),
            out@.len() == k,
            forall|j: int| 0 <= j < k ==> #[trigger] out@[j]@ == uris@[perm@[j] as int]@,
        decreases perm@.len() - k,
    {
        let p = perm[k];
        out.push(uris[p].clone());
        k += 1;
    }
    proof {
        let skeys = sort_keys(kept, key);
        assert forall|j: int| 0 <= j < keys@.len() implies #[trigger] skeys[j] == key_view(keys@, j) by {}
        assert(is_stable_order(skeys, descending, perm@));
        assert forall|j: int| 0 <= j < views(out@).len() implies #[trigger] views(out@)[j]
            == kept[perm@[j] as int].uri@ by {}
    }
    Ok(out)
}

/// "ascending" or "descending".
pub open spec fn direction_word(descending: bool) -> Seq<char> {
    if descending {
        "descending"@
    } else {
        "ascending"@
    }
}

/// Name of the copy of `label` sorted by `key`.
pub fn sort_name(label: &str, key: SortKey, descending: bool) -> (s: String)
    ensures
        s@ == label@ + " (by "@ + sort_key_word(key) + " "@ + direction_word(descending) + ")"@,
{
    let mut s = owned(label);
    push_str(&mut s, " (by ");
    push_str(&mut s, key.word());
    push_str(&mut s, " ");
    push_str(&mut s, if descending { "descending" } else { "ascending" });
    push_str(&mut s, ")");
    s
}

/// Description of the copy of `label` sorted by `key`.
pub fn sort_description(label: &str, key: SortKey, descending: bool) -> (s: String)
    ensures
        s@ == "'"@ + label@ + "' sorted by "@ + sort_key_word(key) + " ("@ + direction_word(
            descending,
        ) + ") · "@ + APP_SIGNATURE@,
{
    let mut s = owned("'");
    push_str(&mut s, label);
    push_str(&mut s, "' sorted by ");
    push_str(&mut s, key.word());
    push_str(&mut s, " (");
    push_str(&mut s, if descending { "descending" } else { "ascending" });
    push_str(&mut s, ") · ");
    push_str(&mut s, APP_SIGNATURE);
    s
}

} // verus!
