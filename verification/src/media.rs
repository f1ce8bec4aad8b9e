//! Media sessions: naming and ranking of players, the source filter, the
//! choice of the session to show and control, the list of sources, the
//! change signature of the shown track, and the play-mode commands.
use vstd::prelude::*;
use crate::text::{
    ascii_lower, ascii_lower_seq, is_white_space, trim_end, trim_start, chars_of, has_infix, lower_ascii_chars, str_contains, string_from_chars, string_of,
    trim, trim_chars,
};

verus! {

broadcast use vstd::string::group_string_axioms;

// ---------------------------------------------------------------------------
// Source ids and names
// ---------------------------------------------------------------------------

/// A source id compared without surrounding white space and ASCII case.
pub open spec fn normalized(s: Seq<char>) -> Seq<char> {
    ascii_lower_seq(trim(s))
}

/// Trims a source id and lower-cases its ASCII letters.
pub fn normalize_source_id(source_id: &str) -> (r: String)
    ensures
        r@ == normalized(source_id@),
{
    let v = chars_of(source_id);
    let t = trim_chars(&v);
    let l = lower_ascii_chars(&t);
    string_from_chars(&l)
}

/// The display name of a media source: a known player when its normalized id
/// names one, otherwise the trimmed id, or "未知播放器" for a blank id.
pub open spec fn spec_source_name(id: Seq<char>) -> Seq<char> {
    let n = normalized(id);
    if has_infix(n, "netease"@) || has_infix(n, "cloudmusic"@) {
        "网易云音乐"@
    } else if has_infix(n, "qishui"@) || has_infix(n, "luna"@) || has_infix(n, "douyinmusic"@) {
        "汽水音乐"@
    } else if has_infix(n, "qqmusic"@) {
        "QQ音乐"@
    } else if has_infix(n, "kugou"@) {
        "酷狗音乐"@
    } else if has_infix(n, "kuwo"@) {
        "酷我音乐"@
    } else if has_infix(n, "spotify"@) {
        "Spotify"@
    } else if has_infix(n, "chrome"@) {
        "Google Chrome"@
    } else if has_infix(n, "msedge"@) || has_infix(n, "microsoftedge"@) {
        "Microsoft Edge"@
    } else if has_infix(n, "firefox"@) {
        "Firefox"@
    } else if trim(id).len() == 0 {
        "未知播放器"@
    } else {
        trim(id)
    }
}

/// The display name of a media source id.
pub fn source_name(source_id: &str) -> (r: String)
    ensures
        r@ == spec_source_name(source_id@),
{
    let v = chars_of(source_id);
    let t = trim_chars(&v);
    let n = lower_ascii_chars(&t);
    if str_contains(&n, "netease") || str_contains(&n, "cloudmusic") {
        string_of("网易云音乐")
    } else if str_contains(&n, "qishui") || str_contains(&n, "luna") || str_contains(
        &n,
        "douyinmusic",
    ) {
        string_of("汽水音乐")
    } else if str_contains(&n, "qqmusic") {
        string_of("QQ音乐")
    } else if str_contains(&n, "kugou") {
        string_of("酷狗音乐")
    } else if str_contains(&n, "kuwo") {
        string_of("酷我音乐")
    } else if str_contains(&n, "spotify") {
        string_of("Spotify")
    } else if str_contains(&n, "chrome") {
        string_of("Google Chrome")
    } else if str_contains(&n, "msedge") || str_contains(&n, "microsoftedge") {
        string_of("Microsoft Edge")
    } else if str_contains(&n, "firefox") {
        string_of("Firefox")
    } else if t.len() == 0 {
        string_of("未知播放器")
    } else {
        string_from_chars(&t)
    }
}

/// The player is one of the preferred music apps.
pub open spec fn preferred_player(id: Seq<char>) -> bool {
    let n = normalized(id);
    has_infix(n, "netease"@) || has_infix(n, "cloudmusic"@) || has_infix(n, "qishui"@) || has_infix(
        n,
        "luna"@,
    )
}

/// How much a session is preferred: playing counts 2, a preferred player 1.
pub open spec fn spec_session_score(id: Seq<char>, playing: bool) -> int {
    (if playing {
        2int
    } else {
        0int
    }) + (if preferred_player(id) {
        1int
    } else {
        0int
    })
}

/// The preference score of a session.
pub fn session_score(source_id: &str, playing: bool) -> (s: u8)
    ensures
        s as int == spec_session_score(source_id@, playing),
{
    let v = chars_of(source_id);
    let t = trim_chars(&v);
    let n = lower_ascii_chars(&t);
    let preferred = str_contains(&n, "netease") || str_contains(&n, "cloudmusic") || str_contains(
        &n,
        "qishui",
    ) || str_contains(&n, "luna");
    let p: u8 = if playing {
        1
    } else {
        0
    };
    let q: u8 = if preferred {
        1
    } else {
        0
    };
    p * 2 + q
}

/// A playing session always outranks a paused one, whatever the players; among
/// sessions that play alike, a preferred player outranks any other.
pub proof fn playing_outranks_preference(a: Seq<char>, b: Seq<char>, playing: bool)
    ensures
        spec_session_score(a, true) > spec_session_score(b, false),
        preferred_player(a) && !preferred_player(b) ==> spec_session_score(a, playing)
            > spec_session_score(b, playing),
{
}

// ---------------------------------------------------------------------------
// The source filter
// ---------------------------------------------------------------------------

/// `id` is one of the ids held in `ids`.
pub open spec fn ids_contain(ids: Seq<String>, id: Seq<char>) -> bool {
    exists|i: int| 0 <= i < ids.len() && ids[i]@ == id
}

/// Which media sources the panel shows and controls: every source, or only
/// those whose normalized id was selected.
pub struct MediaFilter {
    pub selected_only: bool,
    /// Normalized ids of the selected sources.
    pub source_ids: Vec<String>,
}

/// The filter lets a session through.
pub open spec fn filter_allows(selected_only: bool, ids: Seq<String>, source_id: Seq<char>) -> bool {
    !selected_only || ids_contain(ids, normalized(source_id))
}

impl MediaFilter {
    /// Whether the filter lets a session with this source id through.
    pub fn allows(&self, source_id: &str) -> (b: bool)
        ensures
            b == filter_allows(self.selected_only, self.source_ids@, source_id@),
    {
        if !self.selected_only {
            return true;
        }
        let n = normalize_source_id(source_id);
        for i in 0..self.source_ids.len()
            invariant
                n@ == normalized(source_id@),
                forall|k: int| 0 <= k < i ==> self.source_ids@[k]@ != n@,
        {
            if self.source_ids[i] == n {
                return true;
            }
        }
        false
    }

    /// The filter for a selection made in the front end: the selected ids are
    /// normalized, blank ones dropped and each kept once.
    pub fn from_selection(selected_only: bool, source_ids: &Vec<String>) -> (f: MediaFilter)
        ensures
            f.selected_only == selected_only,
            forall|id: Seq<char>|
                ids_contain(f.source_ids@, id) <==> (id.len() > 0 && exists|i: int|
                    0 <= i < source_ids.len() && normalized(#[trigger] source_ids@[i]@) == id),
            forall|i: int, j: int|
                0 <= i < j < f.source_ids.len() ==> f.source_ids@[i]@ != f.source_ids@[j]@,
    {
        let mut ids: Vec<String> = Vec::new();
        for i in 0..source_ids.len()
            invariant
                forall|id: Seq<char>|
                    ids_contain(ids@, id) <==> (id.len() > 0 && exists|k: int|
                        0 <= k < i && normalized(#[trigger] source_ids@[k]@) == id),
                forall|a: int, b: int| 0 <= a < b < ids.len() ==> ids@[a]@ != ids@[b]@,
        {
            let n = normalize_source_id(source_ids[i].as_str());
            let mut seen = false;
            let mut k: usize = 0;
            while k < ids.len()
                invariant
                    k <= ids.len(),
                    seen <==> exists|m: int| 0 <= m < k && ids@[m]@ == n@,
                decreases ids.len() - k,
            {
                if ids[k] == n {
                    seen = true;
                }
                k = k + 1;
            }
            let ghost before = ids@;
            let push = !n.as_str().is_empty() && !seen;
            if push {
                ids.push(n);
                proof {
                    assert forall|id: Seq<char>|
                        ids_contain(ids@, id) <==> (ids_contain(before, id) || id == n@) by {
                        if ids_contain(ids@, id) {
                            let m = choose|m: int| 0 <= m < ids@.len() && ids@[m]@ == id;
                            if m < before.len() {
                                assert(before[m] == ids@[m]);
                            }
                        }
                        if ids_contain(before, id) {
                            let m = choose|m: int| 0 <= m < before.len() && before[m]@ == id;
                            assert(ids@[m] == before[m]);
                        }
                        if id == n@ {
                            assert(ids@[ids@.len() - 1]@ == n@);
                        }
                    }
                }
            }
            proof {
                let ni = normalized(source_ids@[i as int]@);
                assert(ni == n@);
                if !push {
                    assert(ids@ == before);
                }
                assert forall|id: Seq<char>|
                    ids_contain(ids@, id) <==> (ids_contain(before, id) || (push && id == n@)) by {
                    if seen && id == n@ {
                        let m = choose|m: int| 0 <= m < k && ids@[m]@ == n@;
                        assert(ids_contain(before, id));
                    }
                }
                assert forall|id: Seq<char>|
                    ids_contain(ids@, id) <==> (id.len() > 0 && exists|k: int|
                        0 <= k < i + 1 && normalized(#[trigger] source_ids@[k]@) == id) by {
                    let old_rhs = exists|k: int| 0 <= k < i && normalized(#[trigger] source_ids@[k]@) == id;
                    let new_rhs = exists|k: int| 0 <= k < i + 1 && normalized(#[trigger] source_ids@[k]@) == id;
                    if new_rhs {
                        let k = choose|k: int| 0 <= k < i + 1 && normalized(#[trigger] source_ids@[k]@) == id;
                        if k == i {
                            assert(id == n@);
                        }
                    }
                    if old_rhs {
                        let k = choose|k: int| 0 <= k < i && normalized(#[trigger] source_ids@[k]@) == id;
                        assert(0 <= k < i + 1);
                    }
                    if id == n@ {
                        assert(normalized(source_ids@[i as int]@) == id);
                    }
                    assert(new_rhs <==> (old_rhs || id == n@));
                    assert(ids_contain(before, id) <==> (id.len() > 0 && old_rhs));
                    assert(n@.len() == 0 ==> !push);
                    assert(ids_contain(ids@, id) <==> (ids_contain(before, id) || (push && id == n@)));
                    if seen && id == n@ {
                        let m = choose|m: int| 0 <= m < k && ids@[m]@ == n@;
                        assert(ids_contain(before, id));
                    }
                }
                assert forall|a: int, b: int| 0 <= a < b < ids.len() implies ids@[a]@ != ids@[b]@ by {
                    if b == before.len() && ids@.len() > before.len() {
                        assert(ids@[a] == before[a]);
                        assert(!seen);
                    }
                }
            }
        }
        MediaFilter { selected_only, source_ids: ids }
    }

    /// A copy of the filter.
    pub fn snapshot(&self) -> (f: MediaFilter)
        ensures
            f.selected_only == self.selected_only,
            f.source_ids@.len() == self.source_ids@.len(),
            forall|i: int| 0 <= i < self.source_ids@.len() ==> f.source_ids@[i]@ == self.source_ids@[i]@,
    {
        let mut ids: Vec<String> = Vec::new();
        for i in 0..self.source_ids.len()
            invariant
                ids@.len() == i,
                forall|k: int| 0 <= k < i ==> ids@[k]@ == self.source_ids@[k]@,
        {
            ids.push(self.source_ids[i].clone());
        }
        MediaFilter { selected_only: self.selected_only, source_ids: ids }
    }
}

impl Default for MediaFilter {
    /// The filter that lets every source through.
    fn default() -> (f: MediaFilter)
        ensures
            !f.selected_only,
            f.source_ids@.len() == 0,
    {
        MediaFilter { selected_only: false, source_ids: Vec::new() }
    }
}

/// A filter for all sources lets every session through; a filter for
/// selected sources lets a session through exactly when its id, normalized,
/// is one of the selected ids, so ids differing only in case or surrounding
/// white space are treated alike.
pub proof fn filter_matches_normalized_ids(ids: Seq<String>, a: Seq<char>, b: Seq<char>)
    ensures
        filter_allows(false, ids, a),
        normalized(a) == normalized(b) ==> filter_allows(true, ids, a) == filter_allows(true, ids, b),
{
}

proof fn lemma_trim_start_front(s: Seq<char>)
    ensures
        trim_start(s).len() == 0 || !is_white_space(trim_start(s)[0]),
    decreases s.len(),
{
    if s.len() > 0 && is_white_space(s[0]) {
        lemma_trim_start_front(s.subrange(1, s.len() as int));
    }
}

proof fn lemma_trim_end_shape(t: Seq<char>)
    ensures
        trim_end(t).len() <= t.len(),
        trim_end(t) == t.take(trim_end(t).len() as int),
        trim_end(t).len() == 0 || !is_white_space(trim_end(t)[trim_end(t).len() - 1]),
    decreases t.len(),
{
    if t.len() > 0 && is_white_space(t[t.len() - 1]) {
        let u = t.subrange(0, t.len() - 1);
        lemma_trim_end_shape(u);
        assert(trim_end(t) == trim_end(u));
        assert(u.take(trim_end(u).len() as int) =~= t.take(trim_end(u).len() as int));
    } else {
        assert(t.take(t.len() as int) =~= t);
    }
}

/// `s` has no white space at either end.
pub open spec fn trimmed(s: Seq<char>) -> bool {
    s.len() == 0 || (!is_white_space(s[0]) && !is_white_space(s[s.len() - 1]))
}

proof fn lemma_trim_is_trimmed(s: Seq<char>)
    ensures
        trimmed(trim(s)),
{
    let t = trim_start(s);
    lemma_trim_start_front(s);
    lemma_trim_end_shape(t);
    let r = trim_end(t);
    if r.len() > 0 {
        assert(r[0] == t.take(r.len() as int)[0]);
    }
}

proof fn lemma_trimmed_fixed(s: Seq<char>)
    requires
        trimmed(s),
    ensures
        trim(s) == s,
{
}

proof fn lemma_lower_char(c: char)
    ensures
        is_white_space(ascii_lower(c)) == is_white_space(c),
        ascii_lower(ascii_lower(c)) == ascii_lower(c),
{
    if 'A' <= c <= 'Z' {
        let d = ((c as u32) + 32) as char;
        assert((d as u32) == (c as u32) + 32);
    }
}

/// Normalizing a normalized id changes nothing, so an id stored normalized
/// matches itself when compared after normalizing again.
pub proof fn normalize_idempotent(s: Seq<char>)
    ensures
        normalized(normalized(s)) == normalized(s),
{
    let t = trim(s);
    lemma_trim_is_trimmed(s);
    let u = ascii_lower_seq(t);
    if u.len() > 0 {
        lemma_lower_char(t[0]);
        lemma_lower_char(t[t.len() - 1]);
    }
    lemma_trimmed_fixed(u);
    assert forall|i: int| 0 <= i < u.len() implies ascii_lower(#[trigger] u[i]) == u[i] by {
        lemma_lower_char(t[i]);
    }
    assert(ascii_lower_seq(u) =~= u);
}

/// The normalized ids a selection stands for: the non-blank normalized ids
/// of the selected sources.
pub open spec fn selection_ids(selected: Seq<String>, id: Seq<char>) -> bool {
    id.len() > 0 && exists|i: int| 0 <= i < selected.len() && normalized(#[trigger] selected[i]@) == id
}

/// A filter for selected sources (holding the ids that `from_selection`
/// makes of a selection) lets through every selected source that has a
/// non-blank id, also when its id differs in case or surrounding white space,
/// and refuses a session whose normalized id was not selected.
pub proof fn selection_filter_law(ids: Seq<String>, selected: Seq<String>, i: int, other: Seq<char>)
    requires
        forall|id: Seq<char>| ids_contain(ids, id) <==> selection_ids(selected, id),
    ensures
        0 <= i < selected.len() && normalized(selected[i]@).len() > 0 ==> filter_allows(true, ids, selected[i]@),
        (forall|k: int| 0 <= k < selected.len() ==> normalized(#[trigger] selected[k]@) != normalized(other))
            ==> !filter_allows(true, ids, other),
{
    if 0 <= i < selected.len() && normalized(selected[i]@).len() > 0 {
        assert(selection_ids(selected, normalized(selected[i]@)));
    }
}

/// The media state shared by the commands and the watcher.
pub struct MediaState {
    pub filter: MediaFilter,
}

/// A copy of the current source filter.
pub fn filter_snapshot(state: &MediaState) -> (f: MediaFilter)
    ensures
        f.selected_only == state.filter.selected_only,
        f.source_ids@.len() == state.filter.source_ids@.len(),
        forall|i: int|
            0 <= i < state.filter.source_ids@.len() ==> f.source_ids@[i]@ == state.filter.source_ids@[i]@,
{
    state.filter.snapshot()
}


// ---------------------------------------------------------------------------
// Choosing the session
// ---------------------------------------------------------------------------

/// What the choice of a session reads of it.
pub struct SessionInfo {
    pub source_id: String,
    pub playing: bool,
}

/// The session passes the filter.
pub open spec fn session_allowed(f: &MediaFilter, s: SessionInfo) -> bool {
    filter_allows(f.selected_only, f.source_ids@, s.source_id@)
}

/// The score of a session.
pub open spec fn score_of(s: SessionInfo) -> int {
    spec_session_score(s.source_id@, s.playing)
}

/// The session to show and control: among the sessions the filter lets
/// through, the first one with the highest score; none when the filter lets
/// none through.
pub fn best_session(sessions: &Vec<SessionInfo>, filter: &MediaFilter) -> (r: Option<usize>)
    ensures
        match r {
            Some(i) => {
                &&& i < sessions.len()
                &&& session_allowed(filter, sessions@[i as int])
                &&& forall|k: int|
                    0 <= k < sessions.len() && session_allowed(filter, #[trigger] sessions@[k]) ==> score_of(
                        sessions@[k],
                    ) <= score_of(sessions@[i as int])
                &&& forall|k: int|
                    0 <= k < i && session_allowed(filter, #[trigger] sessions@[k]) ==> score_of(
                        sessions@[k],
                    ) < score_of(sessions@[i as int])
            },
            None => forall|k: int|
                0 <= k < sessions.len() ==> !session_allowed(filter, #[trigger] sessions@[k]),
        },
{
    let mut best: Option<usize> = None;
    let mut best_score: u8 = 0;
    for i in 0..sessions.len()
        invariant
            match best {
                Some(b) => {
                    &&& b < i
                    &&& session_allowed(filter, sessions@[b as int])
                    &&& best_score as int == score_of(sessions@[b as int])
                    &&& forall|k: int|
                        0 <= k < i && session_allowed(filter, #[trigger] sessions@[k]) ==> score_of(
                            sessions@[k],
                        ) <= best_score
                    &&& forall|k: int|
                        0 <= k < b && session_allowed(filter, #[trigger] sessions@[k]) ==> score_of(
                            sessions@[k],
                        ) < best_score
                },
                None => forall|k: int| 0 <= k < i ==> !session_allowed(filter, #[trigger] sessions@[k]),
            },
    {
        let s = &sessions[i];
        if filter.allows(s.source_id.as_str()) {
            let score = session_score(s.source_id.as_str(), s.playing);
            let better = match best {
                None => true,
                Some(_) => score > best_score,
            };
            if better {
                best = Some(i);
                best_score = score;
            }
        }
    }
    best
}

// ---------------------------------------------------------------------------
// The shown track
// ---------------------------------------------------------------------------

/// The track of the shown session, as sent to the front end.
pub struct Track {
    pub title: String,
    pub artist: String,
    pub playing: bool,
    pub play_mode: String,
    pub source_id: String,
    pub source_name: String,
}

/// The play mode the front end shows: shuffling wins over repeating one track.
pub open spec fn play_mode_name(shuffled: bool, repeat_track: bool) -> Seq<char> {
    if shuffled {
        "shuffle"@
    } else if repeat_track {
        "single"@
    } else {
        "sequence"@
    }
}

/// The track for a session's properties and playback state.
pub fn make_track(
    title: String,
    artist: String,
    playing: bool,
    shuffled: bool,
    repeat_track: bool,
    source_id: String,
) -> (t: Track)
    ensures
        t.title@ == title@,
        t.artist@ == artist@,
        t.playing == playing,
        t.play_mode@ == play_mode_name(shuffled, repeat_track),
        t.source_id@ == source_id@,
        t.source_name@ == spec_source_name(source_id@),
{
    let play_mode = if shuffled {
        string_of("shuffle")
    } else if repeat_track {
        string_of("single")
    } else {
        string_of("sequence")
    };
    let source_name = source_name(source_id.as_str());
    Track { title, artist, playing, play_mode, source_id, source_name }
}

/// How `bool` displays.
pub open spec fn bool_text(b: bool) -> Seq<char> {
    if b {
        "true"@
    } else {
        "false"@
    }
}

/// The signature of a shown track: empty without one, otherwise source id,
/// title, artist, playing flag and play mode joined by `|`.
pub open spec fn spec_track_signature(t: Option<&Track>) -> Seq<char> {
    match t {
        None => Seq::empty(),
        Some(t) => t.source_id@ + "|"@ + t.title@ + "|"@ + t.artist@ + "|"@ + bool_text(t.playing) + "|"@
            + t.play_mode@,
    }
}

/// The signature the watcher compares to tell that the shown track changed.
pub fn track_signature(track: Option<&Track>) -> (s: String)
    ensures
        s@ == spec_track_signature(track),
{
    match track {
        None => String::new(),
        Some(t) => {
            let mut s = t.source_id.clone();
            s.append("|");
            s.append(t.title.as_str());
            s.append("|");
            s.append(t.artist.as_str());
            s.append("|");
            if t.playing {
                s.append("true");
            } else {
                s.append("false");
            }
            s.append("|");
            s.append(t.play_mode.as_str());
            s
        },
    }
}

proof fn lemma_prefix_cancel(a: Seq<char>, b: Seq<char>, r: Seq<char>)
    requires
        a + r == b + r,
    ensures
        a == b,
{
    assert((a + r).len() == (b + r).len());
    assert(a =~= (a + r).subrange(0, a.len() as int));
    assert(b =~= (b + r).subrange(0, b.len() as int));
}

/// The signature tells a track from the same track with the playing flag flipped.
pub proof fn signature_detects_playing_change(t: &Track, u: &Track)
    requires
        t.title@ == u.title@,
        t.artist@ == u.artist@,
        t.play_mode@ == u.play_mode@,
        t.source_id@ == u.source_id@,
        t.playing != u.playing,
    ensures
        spec_track_signature(Some(t)) != spec_track_signature(Some(u)),
{
    reveal_strlit("true");
    reveal_strlit("false");
    let p = t.source_id@ + "|"@ + t.title@ + "|"@ + t.artist@ + "|"@;
    let q = "|"@ + t.play_mode@;
    assert(spec_track_signature(Some(t)).len() == p.len() + bool_text(t.playing).len() + q.len());
    assert(spec_track_signature(Some(u)).len() == p.len() + bool_text(u.playing).len() + q.len());
}

/// The signature tells a track from the same track of another source.
pub proof fn signature_detects_source_change(t: &Track, u: &Track)
    requires
        t.title@ == u.title@,
        t.artist@ == u.artist@,
        t.play_mode@ == u.play_mode@,
        t.playing == u.playing,
        t.source_id@ != u.source_id@,
    ensures
        spec_track_signature(Some(t)) != spec_track_signature(Some(u)),
{
    let rest = "|"@ + t.title@ + "|"@ + t.artist@ + "|"@ + bool_text(t.playing) + "|"@ + t.play_mode@;
    assert(spec_track_signature(Some(t)) =~= t.source_id@ + rest);
    assert(spec_track_signature(Some(u)) =~= u.source_id@ + rest);
    if spec_track_signature(Some(t)) == spec_track_signature(Some(u)) {
        lemma_prefix_cancel(t.source_id@, u.source_id@, rest);
    }
}

/// A missing track has the empty signature, and any shown track a non-empty one.
pub proof fn signature_empty_iff_no_track(t: Option<&Track>)
    ensures
        (spec_track_signature(t).len() == 0) == (t is None),
{
    reveal_strlit("|");
}

/// The signature to emit after a poll of the watcher: the new one when it
/// differs from the last one emitted.
pub fn watch_update(last: &String, signature: String) -> (r: Option<String>)
    ensures
        match r {
            Some(s) => s@ == signature@ && signature@ != last@,
            None => signature@ == last@,
        },
{
    if signature != *last {
        Some(signature)
    } else {
        None
    }
}

/// The signature last emitted by the watcher after polls that read these
/// signatures, in order; empty before any emission.
pub open spec fn last_emitted(sigs: Seq<Seq<char>>) -> Seq<char>
    decreases sigs.len(),
{
    if sigs.len() == 0 {
        Seq::empty()
    } else {
        let l = last_emitted(sigs.drop_last());
        if sigs.last() != l {
            sigs.last()
        } else {
            l
        }
    }
}

/// The poll at index `k` emits: `watch_update` on the last emitted signature
/// and the signature read gives something.
pub open spec fn emits_at(sigs: Seq<Seq<char>>, k: int) -> bool {
    sigs[k] != last_emitted(sigs.take(k))
}

/// One poll of the watcher keeps `last_emitted` as `watch_update` does: the
/// poll emits exactly when its signature differs from the last emitted one,
/// and the signature it emits becomes the last emitted one.
pub proof fn watcher_step(sigs: Seq<Seq<char>>, k: int)
    requires
        0 <= k < sigs.len(),
    ensures
        emits_at(sigs, k) <==> sigs[k] != last_emitted(sigs.take(k)),
        last_emitted(sigs.take(k + 1)) == if emits_at(sigs, k) {
            sigs[k]
        } else {
            last_emitted(sigs.take(k))
        },
{
    assert(sigs.take(k + 1).drop_last() =~= sigs.take(k));
    assert(sigs.take(k + 1).last() == sigs[k]);
}

proof fn lemma_last_after(sigs: Seq<Seq<char>>, k: int, n: int)
    requires
        0 <= k < n <= sigs.len(),
        emits_at(sigs, k),
        forall|l: int| k < l < n ==> !emits_at(sigs, l),
    ensures
        last_emitted(sigs.take(n)) == sigs[k],
    decreases n - k,
{
    assert(sigs.take(n).drop_last() =~= sigs.take(n - 1));
    assert(sigs.take(n).last() == sigs[n - 1]);
    if n - 1 > k {
        lemma_last_after(sigs, k, n - 1);
        assert(!emits_at(sigs, n - 1));
    }
}

/// Over any run of polls, two emissions in a row never carry the same
/// signature, and nothing is emitted while every signature read so far is
/// empty (no session has been shown).
pub proof fn emissions_never_repeat(sigs: Seq<Seq<char>>, k: int, m: int)
    requires
        0 <= k < m < sigs.len(),
        emits_at(sigs, k),
        emits_at(sigs, m),
        forall|l: int| k < l < m ==> !emits_at(sigs, l),
    ensures
        sigs[k] != sigs[m],
{
    lemma_last_after(sigs, k, m);
}

/// Nothing is emitted while every signature read so far is empty.
pub proof fn nothing_emitted_before_a_session(sigs: Seq<Seq<char>>, k: int)
    requires
        0 <= k < sigs.len(),
        forall|l: int| 0 <= l <= k ==> (#[trigger] sigs[l]).len() == 0,
    ensures
        !emits_at(sigs, k),
        last_emitted(sigs.take(k + 1)).len() == 0,
    decreases k,
{
    assert(sigs.take(k + 1).drop_last() =~= sigs.take(k));
    assert(sigs.take(k + 1).last() == sigs[k]);
    if k > 0 {
        nothing_emitted_before_a_session(sigs, k - 1);
    }
    assert(sigs[k] =~= last_emitted(sigs.take(k)));
}

/// The error when no session can be controlled: it says whether the filter
/// was limited to selected players.
pub open spec fn spec_no_session_message(selected_only: bool) -> Seq<char> {
    if selected_only {
        "指定的播放器当前没有可控制媒体会话"@
    } else {
        "没有可控制的媒体会话"@
    }
}

pub fn no_session_message(selected_only: bool) -> (s: String)
    ensures
        s@ == spec_no_session_message(selected_only),
{
    if selected_only {
        string_of("指定的播放器当前没有可控制媒体会话")
    } else {
        string_of("没有可控制的媒体会话")
    }
}

// ---------------------------------------------------------------------------
// Play-mode commands
// ---------------------------------------------------------------------------

/// One command sent to a media session.
#[derive(Clone, Copy, Debug, PartialEq, Eq)]
pub enum MediaCommand {
    /// Turn shuffling on or off.
    SetShuffle(bool),
    /// Repeat the current track (`true`) or nothing (`false`).
    SetRepeatTrack(bool),
}

/// The two commands that put a session in a play mode, in order, and the
/// name of the mode for error messages.
pub struct MediaModePlan {
    pub first: MediaCommand,
    pub second: MediaCommand,
    pub label: String,
}

/// The commands for a mode: `single` stops shuffling then repeats the track;
/// `shuffle` stops repeating then shuffles; `sequence` stops shuffling then
/// stops repeating. Any other mode is refused.
pub open spec fn spec_media_mode_plan(mode: Seq<char>) -> Option<(MediaCommand, MediaCommand, Seq<char>)> {
    if mode == "single"@ {
        Some((MediaCommand::SetShuffle(false), MediaCommand::SetRepeatTrack(true), "单曲循环"@))
    } else if mode == "shuffle"@ {
        Some((MediaCommand::SetRepeatTrack(false), MediaCommand::SetShuffle(true), "随机播放"@))
    } else if mode == "sequence"@ {
        Some((MediaCommand::SetShuffle(false), MediaCommand::SetRepeatTrack(false), "顺序播放"@))
    } else {
        None
    }
}

/// The message for a mode that is not one of the three.
pub open spec fn unknown_mode_message() -> Seq<char> {
    "未知播放模式"@
}

pub fn media_mode_plan(mode: &str) -> (r: Result<MediaModePlan, String>)
    ensures
        match r {
            Ok(p) => spec_media_mode_plan(mode@) == Some((p.first, p.second, p.label@)),
            Err(e) => spec_media_mode_plan(mode@) is None && e@ == unknown_mode_message(),
        },
{
    if crate::text::str_equals(mode, "single") {
        Ok(
            MediaModePlan {
                first: MediaCommand::SetShuffle(false),
                second: MediaCommand::SetRepeatTrack(true),
                label: string_of("单曲循环"),
            },
        )
    } else if crate::text::str_equals(mode, "shuffle") {
        Ok(
            MediaModePlan {
                first: MediaCommand::SetRepeatTrack(false),
                second: MediaCommand::SetShuffle(true),
                label: string_of("随机播放"),
            },
        )
    } else if crate::text::str_equals(mode, "sequence") {
        Ok(
            MediaModePlan {
                first: MediaCommand::SetShuffle(false),
                second: MediaCommand::SetRepeatTrack(false),
                label: string_of("顺序播放"),
            },
        )
    } else {
        Err(string_of("未知播放模式"))
    }
}

/// The outcome of one command: accepted, or refused with a message naming the mode.
pub fn command_outcome(accepted: bool, label: &str) -> (r: Result<(), String>)
    ensures
        match r {
            Ok(()) => accepted,
            Err(e) => !accepted && e@ == "当前播放器不支持"@ + label@,
        },
{
    if accepted {
        Ok(())
    } else {
        let mut e = string_of("当前播放器不支持");
        e.append(label);
        Err(e)
    }
}


/// The preferred music apps are the players whose normalized id contains
/// `netease`, `cloudmusic` (NetEase Cloud Music), `qishui` or `luna` (Qishui
/// Music): such a session scores at least 1 and outranks any session of
/// another player that plays alike.
pub proof fn music_apps_outrank_others(a: Seq<char>, b: Seq<char>, playing: bool)
    requires
        has_infix(normalized(a), "netease"@) || has_infix(normalized(a), "cloudmusic"@) || has_infix(
            normalized(a),
            "qishui"@,
        ) || has_infix(normalized(a), "luna"@),
        !has_infix(normalized(b), "netease"@),
        !has_infix(normalized(b), "cloudmusic"@),
        !has_infix(normalized(b), "qishui"@),
        !has_infix(normalized(b), "luna"@),
    ensures
        spec_session_score(a, false) >= 1,
        spec_session_score(a, playing) > spec_session_score(b, playing),
        spec_session_score(b, playing) == (if playing { 2int } else { 0int }),
{
}

/// Shuffling decides the play mode before repeating does: the mode is
/// `shuffle` exactly when shuffling, `single` exactly when repeating the
/// track without shuffling, and `sequence` otherwise.
pub proof fn shuffle_decides_play_mode(shuffled: bool, repeat_track: bool)
    ensures
        (play_mode_name(shuffled, repeat_track) == "shuffle"@) == shuffled,
        (play_mode_name(shuffled, repeat_track) == "single"@) == (!shuffled && repeat_track),
        (play_mode_name(shuffled, repeat_track) == "sequence"@) == (!shuffled && !repeat_track),
{
    reveal_strlit("shuffle");
    reveal_strlit("single");
    reveal_strlit("sequence");
    assert("shuffle"@.len() != "single"@.len());
    assert("shuffle"@.len() != "sequence"@.len());
    assert("single"@.len() != "sequence"@.len());
}

} // verus!
