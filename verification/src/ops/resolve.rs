//! Resolve AI-suggested (artist, title) pairs to real Spotify track URIs.
//!
//! Search is limited to 10 results per query, so resolution leans on
//! precision: a field-filtered query first, a plain query as fallback, and a
//! scoring pass that requires both the title and the artist to plausibly
//! match before accepting a candidate. The application runs the searches;
//! this module decides what to search for, which candidate wins, and how the
//! results accumulate.

use vstd::prelude::*;

use crate::ai::prompts::{join, join_strings, views, SuggestedTrack};
use crate::spotify::models::{addable, PlayableItem, TrackInfo};
use crate::text::{
    chars_of, contains_exec, contains_seq, decimal, matches_at, matches_at_exec, owned,
    push_decimal, push_str, str_eq,
};
use crate::util::{normalize_for_match, normalize_spec};

verus! {

#[derive(Clone, Debug)]
pub struct ResolutionReport {
    pub resolved: usize,
    pub reused_from_library: usize,
    pub unresolved: Vec<String>,
}

impl Default for ResolutionReport {
    fn default() -> (r: Self)
        ensures
            r.resolved == 0,
            r.reused_from_library == 0,
            r.unresolved@.len() == 0,
    {
        ResolutionReport { resolved: 0, reused_from_library: 0, unresolved: Vec::new() }
    }
}

/// The key under which a suggestion is matched against known tracks.
pub open spec fn match_key_spec(artist: Seq<char>, title: Seq<char>) -> Seq<char> {
    normalize_spec(artist) + "|"@ + normalize_spec(title)
}

/// Key used to match suggestions against known library tracks.
pub fn match_key(artist: &str, title: &str) -> (k: String)
    ensures
        k@ == match_key_spec(artist@, title@),
{
    let mut k = normalize_for_match(artist);
    push_str(&mut k, "|");
    let t = normalize_for_match(title);
    push_str(&mut k, t.as_str());
    k
}

/// The key a known track is filed under, if it is filed at all: only
/// addable tracks with a primary artist are.
pub open spec fn track_key(t: TrackInfo) -> Option<Seq<char>> {
    if addable(t.uri@, t.is_local) && t.artists@.len() > 0 {
        Some(match_key_spec(t.artists@[0]@, t.name@))
    } else {
        None
    }
}

/// Key → URI for `tracks`; the first track filed under a key wins.
pub open spec fn known_map(tracks: Seq<TrackInfo>) -> Map<Seq<char>, Seq<char>>
    decreases tracks.len(),
{
    if tracks.len() == 0 {
        Map::empty()
    } else {
        let m = known_map(tracks.drop_last());
        let t = tracks.last();
        match track_key(t) {
            Some(k) => if m.dom().contains(k) {
                m
            } else {
                m.insert(k, t.uri@)
            },
            None => m,
        }
    }
}

/// Key → value for a list of pairs; the first pair with a key wins.
pub open spec fn pairs_map(s: Seq<(String, String)>) -> Map<Seq<char>, Seq<char>>
    decreases s.len(),
{
    if s.len() == 0 {
        Map::empty()
    } else {
        let m = pairs_map(s.drop_last());
        let e = s.last();
        if m.dom().contains(e.0@) {
            m
        } else {
            m.insert(e.0@, e.1@)
        }
    }
}

proof fn lemma_pairs_map_absent(s: Seq<(String, String)>, k: Seq<char>)
    requires
        forall|i: int| 0 <= i < s.len() ==> s[i].0@ != k,
    ensures
        !pairs_map(s).dom().contains(k),
    decreases s.len(),
{
    if s.len() > 0 {
        lemma_pairs_map_absent(s.drop_last(), k);
    }
}

proof fn lemma_pairs_map_first(s: Seq<(String, String)>, k: Seq<char>, i: int)
    requires
        0 <= i < s.len(),
        s[i].0@ == k,
        forall|j: int| 0 <= j < i ==> s[j].0@ != k,
    ensures
        pairs_map(s).dom().contains(k),
        pairs_map(s)[k] == s[i].1@,
    decreases s.len(),
{
    if i < s.len() - 1 {
        lemma_pairs_map_first(s.drop_last(), k, i);
    } else {
        assert forall|j: int| 0 <= j < s.drop_last().len() implies s.drop_last()[j].0@ != k by {}
        lemma_pairs_map_absent(s.drop_last(), k);
    }
}

/// Suggestion key → URI for tracks the user already has, so resolution can
/// skip searches and keep the user's exact versions.
pub struct KnownUris {
    entries: Vec<(String, String)>,
}

impl View for KnownUris {
    type V = Map<Seq<char>, Seq<char>>;

    closed spec fn view(&self) -> Map<Seq<char>, Seq<char>> {
        pairs_map(self.entries@)
    }
}

impl KnownUris {
    /// No known tracks.
    pub fn empty() -> (k: KnownUris)
        ensures
            k@ == Map::<Seq<char>, Seq<char>>::empty(),
    {
        let k = KnownUris { entries: Vec::new() };
        proof {
            assert(pairs_map(k.entries@) =~= Map::<Seq<char>, Seq<char>>::empty());
        }
        k
    }

    /// The URI filed under `key`.
    pub fn get(&self, key: &str) -> (r: Option<String>)
        ensures
            match r {
                Some(u) => self@.dom().contains(key@) && self@[key@] == u@,
                None => !self@.dom().contains(key@),
            },
    {
        let mut i: usize = 0;
        while i < self.entries.len()
            invariant
                i <= self.entries@.len(),
                forall|j: int| 0 <= j < i ==> self.entries@[j].0@ != key@,
            decreases self.entries@.len() - i,
        {
            if str_eq(self.entries[i].0.as_str(), key) {
                proof {
                    lemma_pairs_map_first(self.entries@, key@, i as int);
                }
                return Some(self.entries[i].1.clone());
            }
            i += 1;
        }
        proof {
            lemma_pairs_map_absent(self.entries@, key@);
        }
        None
    }

    /// The URI known for suggestion `s`.
    pub fn lookup(&self, s: &SuggestedTrack) -> (r: Option<String>)
        ensures
            match r {
                Some(u) => self@.dom().contains(match_key_spec(s.artist@, s.title@))
                    && self@[match_key_spec(s.artist@, s.title@)] == u@,
                None => !self@.dom().contains(match_key_spec(s.artist@, s.title@)),
            },
    {
        let k = match_key(s.artist.as_str(), s.title.as_str());
        self.get(k.as_str())
    }
}

/// Build a suggestion→URI lookup from tracks we already know (library
/// digests, current playlist contents).
pub fn known_uris(tracks: &[TrackInfo]) -> (k: KnownUris)
    ensures
        k@ == known_map(tracks@),
{
    let mut known = KnownUris::empty();
    let mut i: usize = 0;
    while i < tracks.len()
        invariant
            i <= tracks@.len(),
            known@ == known_map(tracks@.take(i as int)),
        decreases tracks@.len() - i,
    {
        proof {
            assert(tracks@.take(i + 1).drop_last() =~= tracks@.take(i as int));
            assert(tracks@.take(i + 1).last() == tracks@[i as int]);
        }
        let t = &tracks[i];
        if t.is_addable() && t.artists.len() > 0 {
            let key = match_key(t.artists[0].as_str(), t.name.as_str());
            match known.get(key.as_str()) {
                Some(_) => {},
                None => {
                    let ghost before = known.entries@;
                    let uri = t.uri.clone();
                    known.entries.push((key, uri));
                    proof {
                        assert(known.entries@.drop_last() =~= before);
                    }
                },
            }
        }
        i += 1;
    }
    proof {
        assert(tracks@.take(tracks@.len() as int) =~= tracks@);
    }
    known
}

/// Does `s` start with `p`?
pub open spec fn starts_with(s: Seq<char>, p: Seq<char>) -> bool {
    matches_at(s, 0, p)
}

/// How well a normalized candidate title matches the normalized title.
pub open spec fn title_score(cand: Seq<char>, title: Seq<char>) -> int {
    if cand == title {
        3
    } else if starts_with(cand, title) || starts_with(title, cand) {
        2
    } else if contains_seq(cand, title) || contains_seq(title, cand) {
        1
    } else {
        0
    }
}

/// How well one normalized candidate artist matches the normalized artist.
pub open spec fn artist_score(cand: Seq<char>, artist: Seq<char>) -> int {
    if cand == artist {
        3
    } else if contains_seq(cand, artist) || contains_seq(artist, cand) {
        2
    } else {
        0
    }
}

/// The best artist score over a candidate's artists (0 for none).
pub open spec fn best_artist_score(artists: Seq<crate::spotify::models::ArtistRef>, artist: Seq<char>) -> int
    decreases artists.len(),
{
    if artists.len() == 0 {
        0
    } else {
        let prev = best_artist_score(artists.drop_last(), artist);
        let s = artist_score(normalize_spec(artists.last().name@), artist);
        if s > prev {
            s
        } else {
            prev
        }
    }
}

proof fn lemma_best_artist_score_range(artists: Seq<crate::spotify::models::ArtistRef>, artist: Seq<char>)
    ensures
        0 <= best_artist_score(artists, artist) <= 3,
    decreases artists.len(),
{
    if artists.len() > 0 {
        lemma_best_artist_score_range(artists.drop_last(), artist);
    }
}

/// The score of a search candidate against normalized artist and title.
pub open spec fn candidate_score(c: PlayableItem, artist: Seq<char>, title: Seq<char>) -> int {
    title_score(normalize_spec(c.name@), title) + best_artist_score(c.artists@, artist)
}

fn starts_with_exec(s: &Vec<char>, p: &Vec<char>) -> (b: bool)
    ensures
        b == starts_with(s@, p@),
{
    matches_at_exec(s, 0, p)
}

/// Score a search candidate against the normalized artist `artist_n` and
/// title `title_n`.
pub fn score_candidate(candidate: &PlayableItem, artist_n: &str, title_n: &str) -> (s: i32)
    ensures
        s == candidate_score(*candidate, artist_n@, title_n@),
        0 <= s <= 6,
{
    let cand_title = normalize_for_match(candidate.name.as_str());
    let ct = chars_of(cand_title.as_str());
    let tn = chars_of(title_n);
    let title_pts: i32 = if str_eq(cand_title.as_str(), title_n) {
        3
    } else if starts_with_exec(&ct, &tn) || starts_with_exec(&tn, &ct) {
        2
    } else if contains_exec(&ct, &tn) || contains_exec(&tn, &ct) {
        1
    } else {
        0
    };
    let an = chars_of(artist_n);
    let mut best: i32 = 0;
    let mut i: usize = 0;
    while i < candidate.artists.len()
        invariant
            i <= candidate.artists@.len(),
            best == best_artist_score(candidate.artists@.take(i as int), artist_n@),
            an@ == artist_n@,
        decreases candidate.artists@.len() - i,
    {
        proof {
            assert(candidate.artists@.take(i + 1).drop_last() =~= candidate.artists@.take(i as int));
            lemma_best_artist_score_range(candidate.artists@.take(i as int), artist_n@);
        }
        let ca = normalize_for_match(candidate.artists[i].name.as_str());
        let cv = chars_of(ca.as_str());
        let pts: i32 = if str_eq(ca.as_str(), artist_n) {
            3
        } else if contains_exec(&cv, &an) || contains_exec(&an, &cv) {
            2
        } else {
            0
        };
        if pts > best {
            best = pts;
        }
        i += 1;
    }
    proof {
        assert(candidate.artists@.take(candidate.artists@.len() as int) =~= candidate.artists@);
        lemma_best_artist_score_range(candidate.artists@, artist_n@);
    }
    title_pts + best
}

/// The lowest score at which a candidate is accepted.
pub const ACCEPT_THRESHOLD: i32 = 4;

/// A candidate that can be written back: it has a URI and is not local.
pub open spec fn eligible(c: PlayableItem) -> bool {
    c.uri@.len() > 0 && !c.is_local
}

/// The highest-scoring eligible candidate as (score, index); among equal
/// scores the last one wins.
pub open spec fn best_candidate(cands: Seq<PlayableItem>, artist: Seq<char>, title: Seq<char>) -> Option<(int, int)>
    decreases cands.len(),
{
    if cands.len() == 0 {
        None
    } else {
        let prev = best_candidate(cands.drop_last(), artist, title);
        let c = cands.last();
        if eligible(c) {
            let s = candidate_score(c, artist, title);
            match prev {
                Some(p) => if s >= p.0 {
                    Some((s, cands.len() - 1))
                } else {
                    prev
                },
                None => Some((s, cands.len() - 1)),
            }
        } else {
            prev
        }
    }
}

proof fn lemma_best_candidate_index(cands: Seq<PlayableItem>, artist: Seq<char>, title: Seq<char>)
    ensures
        match best_candidate(cands, artist, title) {
            Some(p) => 0 <= p.1 < cands.len() && p.0 == candidate_score(cands[p.1], artist, title),
            None => true,
        },
    decreases cands.len(),
{
    if cands.len() > 0 {
        lemma_best_candidate_index(cands.drop_last(), artist, title);
    }
}

/// The URI a search result list resolves to: that of the best candidate,
/// when it scores at least [`ACCEPT_THRESHOLD`].
pub open spec fn accepted_uri(cands: Seq<PlayableItem>, artist: Seq<char>, title: Seq<char>) -> Option<Seq<char>> {
    match best_candidate(cands, artist, title) {
        Some(p) => if p.0 >= 4 {
            Some(cands[p.1].uri@)
        } else {
            None
        },
        None => None,
    }
}

proof fn lemma_best_candidate_is_max(cands: Seq<PlayableItem>, artist: Seq<char>, title: Seq<char>)
    ensures
        match best_candidate(cands, artist, title) {
            Some(p) => {
                &&& 0 <= p.1 < cands.len()
                &&& eligible(cands[p.1])
                &&& p.0 == candidate_score(cands[p.1], artist, title)
                &&& forall|j: int|
                    0 <= j < cands.len() && eligible(#[trigger] cands[j]) ==> candidate_score(
                        cands[j],
                        artist,
                        title,
                    ) <= p.0
            },
            None => forall|j: int| 0 <= j < cands.len() ==> !eligible(#[trigger] cands[j]),
        },
    decreases cands.len(),
{
    if cands.len() > 0 {
        let d = cands.drop_last();
        lemma_best_candidate_is_max(d, artist, title);
        assert forall|j: int| 0 <= j < d.len() implies d[j] == cands[j] by {}
    }
}

/// A search resolves to the URI of an eligible candidate that scores at
/// least [`ACCEPT_THRESHOLD`] and no lower than any other eligible
/// candidate; it resolves to nothing exactly when no eligible candidate
/// reaches the threshold.
pub proof fn law_accepted_candidate_scores_highest(
    cands: Seq<PlayableItem>,
    artist: Seq<char>,
    title: Seq<char>,
)
    ensures
        match accepted_uri(cands, artist, title) {
            Some(u) => exists|i: int|
                {
                    &&& 0 <= i < cands.len()
                    &&& eligible(cands[i])
                    &&& cands[i].uri@ == u
                    &&& candidate_score(cands[i], artist, title) >= 4
                    &&& forall|j: int|
                        0 <= j < cands.len() && eligible(#[trigger] cands[j]) ==> candidate_score(
                            cands[j],
                            artist,
                            title,
                        ) <= candidate_score(cands[i], artist, title)
                },
            None => forall|j: int|
                0 <= j < cands.len() && eligible(#[trigger] cands[j]) ==> candidate_score(
                    cands[j],
                    artist,
                    title,
                ) < 4,
        },
{
    lemma_best_candidate_is_max(cands, artist, title);
    match best_candidate(cands, artist, title) {
        Some(p) => {
            if p.0 >= 4 {
                assert(cands[p.1].uri@ == accepted_uri(cands, artist, title).unwrap());
            }
        },
        None => {},
    }
}

/// Pick the accepted candidate of one search (normalized artist and title).
pub fn pick_best(candidates: &[PlayableItem], artist_n: &str, title_n: &str) -> (r: Option<String>)
    ensures
        match r {
            Some(u) => accepted_uri(candidates@, artist_n@, title_n@) == Some(u@),
            None => accepted_uri(candidates@, artist_n@, title_n@) is None,
        },
{
    let mut best: Option<(i32, usize)> = None;
    let mut i: usize = 0;
    while i < candidates.len()
        invariant
            i <= candidates@.len(),
            match best {
                Some(p) => best_candidate(candidates@.take(i as int), artist_n@, title_n@) == Some(
                    (p.0 as int, p.1 as int),
                ),
                None => best_candidate(candidates@.take(i as int), artist_n@, title_n@) is None,
            },
        decreases candidates@.len() - i,
    {
        proof {
            assert(candidates@.take(i + 1).drop_last() =~= candidates@.take(i as int));
            assert(candidates@.take(i + 1).last() == candidates@[i as int]);
        }
        let c = &candidates[i];
        if !c.uri.as_str().is_empty() && !c.is_local {
            let s = score_candidate(c, artist_n, title_n);
            match best {
                Some(p) => {
                    if s >= p.0 {
                        best = Some((s, i));
                    }
                },
                None => {
                    best = Some((s, i));
                },
            }
        }
        i += 1;
    }
    proof {
        assert(candidates@.take(candidates@.len() as int) =~= candidates@);
        lemma_best_candidate_index(candidates@, artist_n@, title_n@);
    }
    match best {
        Some(p) => {
            if p.0 >= ACCEPT_THRESHOLD {
                Some(candidates[p.1].uri.clone())
            } else {
                None
            }
        },
        None => None,
    }
}

/// The searches tried for a suggestion, in order: field-filtered, then plain.
pub open spec fn search_query_texts(artist: Seq<char>, title: Seq<char>) -> Seq<Seq<char>> {
    seq![
        "track:\""@ + title + "\" artist:\""@ + artist + "\""@,
        artist + " "@ + title,
    ]
}

/// The search queries for (artist, title), in the order they are tried;
/// the first one whose results yield an accepted candidate decides.
pub fn search_queries(artist: &str, title: &str) -> (q: Vec<String>)
    ensures
        views(q@) == search_query_texts(artist@, title@),
{
    let mut field = owned("track:\"");
    push_str(&mut field, title);
    push_str(&mut field, "\" artist:\"");
    push_str(&mut field, artist);
    push_str(&mut field, "\"");
    let mut plain = owned(artist);
    push_str(&mut plain, " ");
    push_str(&mut plain, title);
    let mut q = Vec::new();
    q.push(field);
    q.push(plain);
    proof {
        assert(views(q@) =~= search_query_texts(artist@, title@));
    }
    q
}

/// "artist — title", as suggestions are shown.
pub open spec fn suggestion_line(artist: Seq<char>, title: Seq<char>) -> Seq<char> {
    artist + " — "@ + title
}

fn suggestion_text(s: &SuggestedTrack) -> (r: String)
    ensures
        r@ == suggestion_line(s.artist@, s.title@),
{
    let mut r = owned(s.artist.as_str());
    push_str(&mut r, " — ");
    push_str(&mut r, s.title.as_str());
    r
}

/// The progress label while a suggestion is being resolved.
pub fn resolving_label(s: &SuggestedTrack) -> (r: String)
    ensures
        r@ == "Resolving '"@ + suggestion_line(s.artist@, s.title@) + "'"@,
{
    let mut r = owned("Resolving '");
    let line = suggestion_text(s);
    push_str(&mut r, line.as_str());
    push_str(&mut r, "'");
    r
}

/// No value occurs twice in `s`.
pub open spec fn no_duplicates(s: Seq<Seq<char>>) -> bool {
    forall|i: int, j: int| 0 <= i < j < s.len() ==> s[i] != s[j]
}

pub fn holds_uri(uris: &Vec<String>, uri: &str) -> (b: bool)
    ensures
        b == views(uris@).contains(uri@),
{
    let mut i: usize = 0;
    while i < uris.len()
        invariant
            i <= uris@.len(),
            forall|j: int| 0 <= j < i ==> uris@[j]@ != uri@,
        decreases uris@.len() - i,
    {
        if str_eq(uris[i].as_str(), uri) {
            proof {
                assert(views(uris@)[i as int] == uri@);
            }
            return true;
        }
        i += 1;
    }
    false
}

/// The running state of a resolution: the URIs accepted so far, in first-
/// seen order and without repeats, and the report.
pub struct Resolution {
    uris: Vec<String>,
    report: ResolutionReport,
}

impl Resolution {
    #[verifier::type_invariant]
    spec fn inv(self) -> bool {
        &&& no_duplicates(views(self.uris@))
        &&& self.report.resolved == self.uris@.len()
    }

    /// The URIs accepted so far.
    pub closed spec fn uri_seq(self) -> Seq<Seq<char>> {
        views(self.uris@)
    }

    /// The report so far.
    pub closed spec fn report_spec(self) -> ResolutionReport {
        self.report
    }

    /// Nothing resolved yet.
    pub fn new() -> (r: Resolution)
        ensures
            r.uri_seq().len() == 0,
            r.report_spec().resolved == 0,
            r.report_spec().reused_from_library == 0,
            r.report_spec().unresolved@.len() == 0,
    {
        Resolution { uris: Vec::new(), report: ResolutionReport::default() }
    }

    /// How many suggestions were resolved from the known library tracks.
    pub fn reused_count(&self) -> (n: usize)
        ensures
            n == self.report_spec().reused_from_library,
    {
        self.report.reused_from_library
    }

    /// Record the outcome for suggestion `s`: the URI it resolved to, if
    /// any, and whether it came from the known library tracks. A URI seen
    /// before is not added again; an unresolved suggestion is listed.
    pub fn record(&mut self, s: &SuggestedTrack, uri: Option<String>, from_library: bool)
        requires
            old(self).report_spec().reused_from_library < usize::MAX,
        ensures
            final(self).report_spec().reused_from_library == old(
                self,
            ).report_spec().reused_from_library + if from_library {
                1int
            } else {
                0int
            },
            match uri {
                Some(u) => {
                    &&& final(self).uri_seq() == if old(self).uri_seq().contains(u@) {
                        old(self).uri_seq()
                    } else {
                        old(self).uri_seq().push(u@)
                    }
                    &&& final(self).report_spec().unresolved@ == old(
                        self,
                    ).report_spec().unresolved@
                },
                None => {
                    &&& final(self).uri_seq() == old(self).uri_seq()
                    &&& views(final(self).report_spec().unresolved@) == views(
                        old(self).report_spec().unresolved@,
                    ).push(suggestion_line(s.artist@, s.title@))
                },
            },
    {
        let mut cur = Resolution::new();
        std::mem::swap(self, &mut cur);
        proof {
            use_type_invariant(&cur);
        }
        let Resolution { mut uris, mut report } = cur;
        if from_library {
            report.reused_from_library = report.reused_from_library + 1;
        }
        match uri {
            Some(u) => {
                if !holds_uri(&uris, u.as_str()) {
                    let ghost before = uris@;
                    uris.push(u);
                    report.resolved = uris.len();
                    proof {
                        assert(views(uris@) =~= views(before).push(uris@.last()@));
                        assert forall|i: int, j: int|
                            0 <= i < j < views(uris@).len() implies views(uris@)[i] != views(
                            uris@,
                        )[j] by {
                            assert(views(before)[i] == views(uris@)[i]);
                            if j < before.len() {
                                assert(views(before)[j] == views(uris@)[j]);
                            }
                        }
                    }
                }
            },
            None => {
                let ghost before = report.unresolved@;
                report.unresolved.push(suggestion_text(s));
                proof {
                    assert(views(report.unresolved@) =~= views(before).push(
                        suggestion_line(s.artist@, s.title@),
                    ));
                }
            },
        }
        *self = Resolution { uris, report };
    }

    /// The accepted URIs, in first-seen order, and the report. The URIs
    /// never repeat and `resolved` counts them.
    pub fn finish(self) -> (r: (Vec<String>, ResolutionReport))
        ensures
            views(r.0@) == self.uri_seq(),
            r.1 == self.report_spec(),
            no_duplicates(views(r.0@)),
            r.1.resolved == r.0@.len(),
    {
        proof {
            use_type_invariant(&self);
        }
        (self.uris, self.report)
    }
}

/// The closing log line naming the suggestions that were not found.
pub fn unresolved_note(report: &ResolutionReport) -> (r: Option<String>)
    ensures
        report.unresolved@.len() == 0 <==> r is None,
        match r {
            Some(m) => m@ == decimal(report.unresolved@.len() as nat)
                + " suggestion(s) could not be found on Spotify: "@ + join(
                views(report.unresolved@),
                "; "@,
            ),
            None => true,
        },
{
    if report.unresolved.len() == 0 {
        return None;
    }
    let mut m = String::new();
    push_decimal(&mut m, report.unresolved.len() as u64);
    push_str(&mut m, " suggestion(s) could not be found on Spotify: ");
    let joined = join_strings(&report.unresolved, "; ");
    push_str(&mut m, joined.as_str());
    proof {
        assert(m@ =~= decimal(report.unresolved@.len() as nat)
            + " suggestion(s) could not be found on Spotify: "@ + join(
            views(report.unresolved@),
            "; "@,
        ));
    }
    Some(m)
}

} // verus!
