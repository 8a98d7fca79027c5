//! Export rows for playlists/Liked Songs; parsing of a pasted track list
//! that is imported into a new playlist. Writing the CSV or JSON file is the
//! application's part.

use vstd::prelude::*;

use super::resolve::ResolutionReport;
use super::{OpError, WriteDestination, APP_SIGNATURE};
use crate::ai::prompts::{join, views, SuggestedTrack};
use crate::spotify::models::TrackInfo;
use crate::text::{chars_of, decimal, owned, push_decimal, push_str, slice_chars, string_of,
    trim_bounds, trim_spec, trimmed, contains_seq, matches_at};
use crate::util::{find_first, find_first_exec, lemma_first_from_found, lemma_first_from_holds, match_pred};

verus! {

#[derive(Clone, Copy, Debug, PartialEq, Eq, Structural)]
pub enum ExportFormat {
    Csv,
    Json,
}

// ---------------------------------------------------------------------
// Lines
// ---------------------------------------------------------------------
/// A line without the `\r` of a `\r\n` ending.
pub open spec fn strip_cr(l: Seq<char>) -> Seq<char> {
    if l.len() > 0 && l.last() == '\r' {
        l.drop_last()
    } else {
        l
    }
}

/// The finished lines of `s` and the unfinished one after the last `\n`.
pub open spec fn lines_state(s: Seq<char>) -> (Seq<Seq<char>>, Seq<char>)
    decreases s.len(),
{
    if s.len() == 0 {
        (Seq::empty(), Seq::empty())
    } else {
        let (ls, cur) = lines_state(s.drop_last());
        if s.last() == '\n' {
            (ls.push(strip_cr(cur)), Seq::empty())
        } else {
            (ls, cur.push(s.last()))
        }
    }
}

/// The lines of `s`, as `str::lines` yields them: split at `\n`, a `\r`
/// before the `\n` dropped, no empty line after a final `\n`.
pub open spec fn text_lines(s: Seq<char>) -> Seq<Seq<char>> {
    let (ls, cur) = lines_state(s);
    if cur.len() == 0 {
        ls
    } else {
        ls.push(cur)
    }
}

// ---------------------------------------------------------------------
// Import parsing
// ---------------------------------------------------------------------
/// Where a trimmed line splits into artist and title: at the first tab,
/// else the first " — ", else the first " - "; as (index, separator length).
pub open spec fn split_point(t: Seq<char>) -> Option<(int, int)> {
    match find_first(t, seq!['\t'], 0) {
        Some(i) => Some((i, 1)),
        None => match find_first(t, " — "@, 0) {
            Some(i) => Some((i, 3)),
            None => match find_first(t, " - "@, 0) {
                Some(i) => Some((i, 3)),
                None => None,
            },
        },
    }
}

/// The (artist, title) a pasted line stands for, if any. Blank lines,
/// `#` comments and lines without a separator give none, and so do lines
/// whose artist or title is blank.
pub open spec fn parse_line(l: Seq<char>) -> Option<(Seq<char>, Seq<char>)> {
    let t = trim_spec(l);
    if t.len() == 0 || t[0] == '#' {
        None
    } else {
        match split_point(t) {
            Some(p) => {
                let a = trim_spec(t.subrange(0, p.0));
                let b = trim_spec(t.subrange(p.0 + p.1, t.len() as int));
                if a.len() > 0 && b.len() > 0 {
                    Some((a, b))
                } else {
                    None
                }
            },
            None => None,
        }
    }
}

proof fn lemma_find_first_absent(t: Seq<char>, pat: Seq<char>)
    requires
        !contains_seq(t, pat),
    ensures
        find_first(t, pat, 0) is None,
{
    if find_first(t, pat, 0) is Some {
        lemma_first_from_holds(match_pred(t, pat), 0, t.len() as int + 1);
        let k = find_first(t, pat, 0).unwrap();
        assert(matches_at(t, k, pat));
        assert(contains_seq(t, pat));
    }
}

/// A pasted line with neither a tab nor " — " splits at its first " - ":
/// the artist is the trimmed text before that occurrence (so it never
/// holds " - " itself) and the title the trimmed text after it.
pub proof fn law_import_splits_at_first_dash(l: Seq<char>, i: int)
    requires
        trim_spec(l).len() > 0,
        trim_spec(l)[0] != '#',
        !contains_seq(trim_spec(l), seq!['\t']),
        !contains_seq(trim_spec(l), " — "@),
        matches_at(trim_spec(l), i, " - "@),
        forall|j: int| 0 <= j < i ==> !matches_at(trim_spec(l), j, " - "@),
    ensures
        ({
            let t = trim_spec(l);
            let artist = trim_spec(t.subrange(0, i));
            let title = trim_spec(t.subrange(i + 3, t.len() as int));
            parse_line(l) == if artist.len() > 0 && title.len() > 0 {
                Some((artist, title))
            } else {
                None::<(Seq<char>, Seq<char>)>
            }
        }),
{
    let t = trim_spec(l);
    lemma_find_first_absent(t, seq!['\t']);
    lemma_find_first_absent(t, " — "@);
    assert(" - "@.len() == 3) by {
        reveal_strlit(" - ");
    }
    assert forall|j: int| 0 <= j < i implies !#[trigger] match_pred(t, " - "@)(j) by {}
    lemma_first_from_found(match_pred(t, " - "@), 0, t.len() as int + 1, i);
    assert(split_point(t) == Some((i, 3int)));
}

/// A pasted line with a tab splits at its first tab, whatever dashes it
/// holds: the artist is the trimmed text before the tab and the title the
/// trimmed text after it.
pub proof fn law_import_splits_at_first_tab(l: Seq<char>, i: int)
    requires
        trim_spec(l).len() > 0,
        trim_spec(l)[0] != '#',
        0 <= i < trim_spec(l).len(),
        trim_spec(l)[i] == '\t',
        forall|j: int| 0 <= j < i ==> trim_spec(l)[j] != '\t',
    ensures
        ({
            let t = trim_spec(l);
            let artist = trim_spec(t.subrange(0, i));
            let title = trim_spec(t.subrange(i + 1, t.len() as int));
            parse_line(l) == if artist.len() > 0 && title.len() > 0 {
                Some((artist, title))
            } else {
                None::<(Seq<char>, Seq<char>)>
            }
        }),
{
    let t = trim_spec(l);
    let tab = seq!['\t'];
    assert forall|j: int| 0 <= j < i implies !#[trigger] match_pred(t, tab)(j) by {
        assert(t.subrange(j, j + 1)[0] == t[j]);
    }
    assert(t.subrange(i, i + 1) =~= tab);
    lemma_first_from_found(match_pred(t, tab), 0, t.len() as int + 1, i);
    assert(split_point(t) == Some((i, 1int)));
}

/// The suggestions parsed from `lines`, in order.
pub open spec fn parsed_lines(lines: Seq<Seq<char>>) -> Seq<(Seq<char>, Seq<char>)>
    decreases lines.len(),
{
    if lines.len() == 0 {
        Seq::empty()
    } else {
        let prev = parsed_lines(lines.drop_last());
        match parse_line(lines.last()) {
            Some(p) => prev.push(p),
            None => prev,
        }
    }
}

/// The (artist, title) pairs of suggestions.
pub open spec fn suggestion_pairs(s: Seq<SuggestedTrack>) -> Seq<(Seq<char>, Seq<char>)> {
    s.map_values(|t: SuggestedTrack| (t.artist@, t.title@))
}

fn find_sep(t: &Vec<char>) -> (r: Option<(usize, usize)>)
    ensures
        match r {
            Some(p) => split_point(t@) == Some((p.0 as int, p.1 as int)) && p.0 + p.1 <= t@.len(),
            None => split_point(t@) is None,
        },
{
    let tab = chars_of("\t");
    let em = chars_of(" — ");
    let dash = chars_of(" - ");
    proof {
        reveal_strlit("\t");
        assert(tab@ =~= seq!['\t']);
    }
    match find_first_exec(t, 0, &tab) {
        Some(i) => {
            return Some((i, 1));
        },
        None => {},
    }
    match find_first_exec(t, 0, &em) {
        Some(i) => {
            proof {
                reveal_strlit(" — ");
            }
            return Some((i, 3));
        },
        None => {},
    }
    match find_first_exec(t, 0, &dash) {
        Some(i) => {
            proof {
                reveal_strlit(" - ");
            }
            Some((i, 3))
        },
        None => None,
    }
}

/// Parse one pasted line (see [`parse_line`]).
fn parse_import_line(line: &Vec<char>) -> (r: Option<SuggestedTrack>)
    ensures
        match r {
            Some(s) => parse_line(line@) == Some((s.artist@, s.title@)),
            None => parse_line(line@) is None,
        },
{
    let (a0, b0) = trim_bounds(line, 0, line.len());
    proof {
        assert(line@.subrange(0, line@.len() as int) =~= line@);
    }
    let t = slice_chars(line, a0, b0);
    if t.len() == 0 || t[0] == '#' {
        return None;
    }
    match find_sep(&t) {
        Some((i, n)) => {
            let (aa, ab) = trim_bounds(&t, 0, i);
            let (ba, bb) = trim_bounds(&t, i + n, t.len());
            if aa < ab && ba < bb {
                let artist = string_of(&slice_chars(&t, aa, ab));
                let title = string_of(&slice_chars(&t, ba, bb));
                Some(SuggestedTrack { artist, title })
            } else {
                None
            }
        },
        None => None,
    }
}

/// Characters `v[lo..hi]` as one line (its `\r` before `\n` dropped when
/// `ends_with_newline`).
fn line_at(v: &Vec<char>, lo: usize, hi: usize, ends_with_newline: bool) -> (r: Vec<char>)
    requires
        lo <= hi <= v.len(),
    ensures
        r@ == if ends_with_newline {
            strip_cr(v@.subrange(lo as int, hi as int))
        } else {
            v@.subrange(lo as int, hi as int)
        },
{
    if ends_with_newline && hi > lo && v[hi - 1] == '\r' {
        proof {
            assert(v@.subrange(lo as int, hi as int).drop_last() =~= v@.subrange(lo as int, hi - 1));
        }
        slice_chars(v, lo, hi - 1)
    } else {
        slice_chars(v, lo, hi)
    }
}

proof fn lemma_lines_state_step(s: Seq<char>, k: int, start: int)
    requires
        0 <= start <= k < s.len(),
        lines_state(s.take(k)).1 == s.subrange(start, k),
    ensures
        s.take(k + 1).drop_last() == s.take(k),
        s.take(k + 1).last() == s[k],
{
    assert(s.take(k + 1).drop_last() =~= s.take(k));
}

/// Parse pasted text into (artist, title) suggestions. Accepted per line:
/// `Artist - Title`, `Artist — Title`, or `Artist<TAB>Title`. Lines starting
/// with `#` and blank lines are skipped.
pub fn parse_import_lines(text: &str) -> (out: Vec<SuggestedTrack>)
    ensures
        suggestion_pairs(out@) == parsed_lines(text_lines(text@)),
{
    let v = chars_of(text);
    let mut out: Vec<SuggestedTrack> = Vec::new();
    let mut start: usize = 0;
    let mut k: usize = 0;
    let ghost mut lines: Seq<Seq<char>> = Seq::empty();
    while k < v.len()
        invariant
            start <= k <= v@.len(),
            lines_state(v@.take(k as int)) == (lines, v@.subrange(start as int, k as int)),
            suggestion_pairs(out@) == parsed_lines(lines),
        decreases v@.len() - k,
    {
        proof {
            lemma_lines_state_step(v@, k as int, start as int);
        }
        if v[k] == '\n' {
            let line = line_at(&v, start, k, true);
            let ghost before = out@;
            match parse_import_line(&line) {
                Some(s) => {
                    out.push(s);
                    proof {
                        assert(suggestion_pairs(out@) =~= suggestion_pairs(before).push(
                            (s.artist@, s.title@),
                        ));
                    }
                },
                None => {},
            }
            proof {
                assert(lines.push(line@).drop_last() =~= lines);
                lines = lines.push(line@);
                assert(v@.subrange(k + 1, k + 1) =~= Seq::<char>::empty());
            }
            start = k + 1;
        } else {
            proof {
                assert(v@.subrange(start as int, k + 1) =~= v@.subrange(start as int, k as int).push(
                    v@[k as int],
                ));
            }
        }
        k += 1;
    }
    proof {
        assert(v@.take(v@.len() as int) =~= v@);
    }
    if start < v.len() {
        let line = line_at(&v, start, v.len(), false);
        let ghost before = out@;
        match parse_import_line(&line) {
            Some(s) => {
                out.push(s);
                proof {
                    assert(suggestion_pairs(out@) =~= suggestion_pairs(before).push(
                        (s.artist@, s.title@),
                    ));
                }
            },
            None => {},
        }
        proof {
            assert(lines.push(line@).drop_last() =~= lines);
        }
    }
    out
}

/// How many lines of `lines` are not blank.
pub open spec fn nonblank_count(lines: Seq<Seq<char>>) -> nat
    decreases lines.len(),
{
    if lines.len() == 0 {
        0
    } else {
        nonblank_count(lines.drop_last()) + if trim_spec(lines.last()).len() > 0 {
            1nat
        } else {
            0nat
        }
    }
}

proof fn lemma_nonblank_count_bound(lines: Seq<Seq<char>>)
    ensures
        nonblank_count(lines) <= lines.len(),
    decreases lines.len(),
{
    if lines.len() > 0 {
        lemma_nonblank_count_bound(lines.drop_last());
    }
}

proof fn lemma_lines_state_len(s: Seq<char>)
    ensures
        lines_state(s).0.len() <= s.len(),
        lines_state(s).1.len() <= s.len(),
        lines_state(s).1.len() > 0 ==> lines_state(s).0.len() < s.len(),
    decreases s.len(),
{
    if s.len() > 0 {
        lemma_lines_state_len(s.drop_last());
    }
}

fn is_blank(line: &Vec<char>) -> (b: bool)
    ensures
        b == (trim_spec(line@).len() == 0),
{
    let (a, b) = trim_bounds(line, 0, line.len());
    proof {
        assert(line@.subrange(0, line@.len() as int) =~= line@);
    }
    a == b
}

/// The number of lines of `text` that are not blank.
pub fn nonblank_line_count(text: &str) -> (n: usize)
    ensures
        n == nonblank_count(text_lines(text@)),
{
    let v = chars_of(text);
    let mut n: usize = 0;
    let mut start: usize = 0;
    let mut k: usize = 0;
    let ghost mut lines: Seq<Seq<char>> = Seq::empty();
    while k < v.len()
        invariant
            start <= k <= v@.len(),
            lines_state(v@.take(k as int)) == (lines, v@.subrange(start as int, k as int)),
            n == nonblank_count(lines),
            lines.len() <= k,
        decreases v@.len() - k,
    {
        proof {
            lemma_lines_state_step(v@, k as int, start as int);
            lemma_nonblank_count_bound(lines);
        }
        if v[k] == '\n' {
            let line = line_at(&v, start, k, true);
            if !is_blank(&line) {
                n = n + 1;
            }
            proof {
                assert(lines.push(line@).drop_last() =~= lines);
                lines = lines.push(line@);
                assert(v@.subrange(k + 1, k + 1) =~= Seq::<char>::empty());
            }
            start = k + 1;
        } else {
            proof {
                assert(v@.subrange(start as int, k + 1) =~= v@.subrange(start as int, k as int).push(
                    v@[k as int],
                ));
            }
        }
        k += 1;
    }
    proof {
        assert(v@.take(v@.len() as int) =~= v@);
        lemma_nonblank_count_bound(lines);
        lemma_lines_state_len(v@);
    }
    if start < v.len() {
        let line = line_at(&v, start, v.len(), false);
        if !is_blank(&line) {
            n = n + 1;
        }
        proof {
            assert(lines.push(line@).drop_last() =~= lines);
        }
    }
    n
}

/// What an import asks for once the text is parsed: the playlist name,
/// the suggestions, and how many non-blank lines were not understood.
pub struct ImportRequest {
    pub name: String,
    pub suggestions: Vec<SuggestedTrack>,
    pub skipped_lines: usize,
}

/// The playlist name an import uses: the given name trimmed, or
/// "Imported playlist" when that is blank.
pub open spec fn import_name(name: Seq<char>) -> Seq<char> {
    if trim_spec(name).len() == 0 {
        "Imported playlist"@
    } else {
        trim_spec(name)
    }
}

/// Prepare an import of pasted `text` into a playlist called `name`.
/// Fails when no line could be parsed.
pub fn import_request(name: &str, text: &str) -> (r: Result<ImportRequest, OpError>)
    ensures
        match r {
            Ok(req) => {
                &&& parsed_lines(text_lines(text@)).len() > 0
                &&& suggestion_pairs(req.suggestions@) == parsed_lines(text_lines(text@))
                &&& req.name@ == import_name(name@)
                &&& req.skipped_lines == if nonblank_count(text_lines(text@)) >= parsed_lines(
                    text_lines(text@),
                ).len() {
                    nonblank_count(text_lines(text@)) - parsed_lines(text_lines(text@)).len()
                } else {
                    0
                }
            },
            Err(OpError::Other(m)) => parsed_lines(text_lines(text@)).len() == 0 && m@
                == "no parsable lines — use one `Artist - Title` per line"@,
            Err(_) => false,
        },
{
    let suggestions = parse_import_lines(text);
    if suggestions.len() == 0 {
        return Err(OpError::Other(owned("no parsable lines — use one `Artist - Title` per line")));
    }
    let total = nonblank_line_count(text);
    let skipped_lines = if total >= suggestions.len() {
        total - suggestions.len()
    } else {
        0
    };
    let t = trimmed(name);
    let name = if t.as_str().is_empty() {
        owned("Imported playlist")
    } else {
        t
    };
    Ok(ImportRequest { name, suggestions, skipped_lines })
}

/// An import none of whose lines matched a track is refused.
pub fn check_imported(uris: &Vec<String>) -> (r: Result<(), OpError>)
    ensures
        match r {
            Ok(()) => uris@.len() > 0,
            Err(OpError::Other(m)) => uris@.len() == 0 && m@
                == "none of the lines matched a Spotify track"@,
            Err(_) => false,
        },
{
    if uris.len() == 0 {
        Err(OpError::Other(owned("none of the lines matched a Spotify track")))
    } else {
        Ok(())
    }
}

/// The description of an imported playlist with `n` tracks.
pub fn import_description(n: usize) -> (d: String)
    ensures
        d@ == "Imported from text ("@ + decimal(n as nat) + " tracks) · "@ + APP_SIGNATURE@,
{
    let mut d = owned("Imported from text (");
    push_decimal(&mut d, n as u64);
    push_str(&mut d, " tracks) · ");
    push_str(&mut d, APP_SIGNATURE);
    d
}

#[derive(Clone, Debug)]
pub struct ImportOutcome {
    pub destination: WriteDestination,
    pub report: ResolutionReport,
    pub skipped_lines: usize,
}

// ---------------------------------------------------------------------
// Export
// ---------------------------------------------------------------------
/// One exported track, as the CSV row and JSON object show it.
#[derive(Clone, Debug)]
pub struct ExportRow {
    pub position: usize,
    pub title: String,
    pub artists: String,
    pub album: String,
    pub release_date: Option<String>,
    pub duration_ms: u64,
    pub added_at: Option<String>,
    pub uri: String,
    pub is_local: bool,
}

/// The characters of an optional string.
pub open spec fn opt_view(o: Option<String>) -> Option<Seq<char>> {
    match o {
        Some(s) => Some(s@),
        None => None,
    }
}

fn copy_opt(o: &Option<String>) -> (r: Option<String>)
    ensures
        opt_view(r) == opt_view(*o),
{
    match o {
        Some(s) => Some(s.clone()),
        None => None,
    }
}

/// Row `i` (0-based) exports track `t`.
pub open spec fn exports(r: ExportRow, i: int, t: TrackInfo) -> bool {
    &&& r.position == i + 1
    &&& r.title@ == t.name@
    &&& r.artists@ == join(views(t.artists@), ", "@)
    &&& r.album@ == t.album@
    &&& opt_view(r.release_date) == opt_view(t.release_date)
    &&& r.duration_ms == t.duration_ms
    &&& opt_view(r.added_at) == opt_view(t.added_at)
    &&& r.uri@ == t.uri@
    &&& r.is_local == t.is_local
}

/// The export rows of `tracks`, positions counted from 1.
pub fn export_rows(tracks: &[TrackInfo]) -> (rows: Vec<ExportRow>)
    ensures
        rows@.len() == tracks@.len(),
        forall|i: int| 0 <= i < tracks@.len() ==> exports(#[trigger] rows@[i], i, tracks@[i]),
{
    let mut rows: Vec<ExportRow> = Vec::new();
    let mut i: usize = 0;
    while i < tracks.len()
        invariant
            i <= tracks@.len(),
            rows@.len() == i,
            forall|j: int| 0 <= j < i ==> exports(#[trigger] rows@[j], j, tracks@[j]),
        decreases tracks@.len() - i,
    {
        let t = &tracks[i];
        let row = ExportRow {
            position: i + 1,
            title: t.name.clone(),
            artists: t.artist_line(),
            album: t.album.clone(),
            release_date: copy_opt(&t.release_date),
            duration_ms: t.duration_ms,
            added_at: copy_opt(&t.added_at),
            uri: t.uri.clone(),
            is_local: t.is_local,
        };
        rows.push(row);
        i += 1;
    }
    rows
}

/// Refuse an export of nothing.
pub fn nothing_to_export(tracks: &[TrackInfo]) -> (r: Option<OpError>)
    ensures
        tracks@.len() == 0 <==> r is Some,
        match r {
            Some(OpError::Other(m)) => m@ == "nothing to export"@,
            Some(_) => false,
            None => true,
        },
{
    if tracks.len() == 0 {
        Some(OpError::Other(owned("nothing to export")))
    } else {
        None
    }
}

/// The closing line of an export of `n` tracks from `label` to `path`.
pub fn export_summary(n: usize, label: &str, path: &str) -> (s: String)
    ensures
        s@ == "Exported "@ + decimal(n as nat) + " tracks from '"@ + label@ + "' to "@ + path@,
{
    let mut s = owned("Exported ");
    push_decimal(&mut s, n as u64);
    push_str(&mut s, " tracks from '");
    push_str(&mut s, label);
    push_str(&mut s, "' to ");
    push_str(&mut s, path);
    s
}

} // verus!
