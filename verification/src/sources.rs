//! The list of media sources offered for selection: sessions merged by
//! normalized source id, then ordered playing first and by name.
use vstd::prelude::*;
use crate::media::{normalize_source_id, normalized, source_name, spec_source_name};
use crate::text::{chars_of, trim, trim_chars};

verus! {

broadcast use vstd::string::group_string_axioms;

/// Names what `str::to_lowercase` returns for a string: its Unicode lowercase
/// mapping, in which a character may become several and a capital sigma
/// depends on its neighbours (final sigma). It depends on the string alone
/// (the mapping is not locale sensitive).
pub uninterp spec fn unicode_lowercase(s: Seq<char>) -> Seq<char>;

/// `str::to_lowercase`.
#[verifier::external_body]
fn to_lowercase(s: &str) -> (r: String)
    ensures
        r@ == unicode_lowercase(s@),
{
    s.to_lowercase()
}

/// One session as the source list reads it.
pub struct SessionEntry {
    pub source_id: String,
    pub playing: bool,
    pub title: String,
    pub artist: String,
}

/// A media source offered for selection.
pub struct MediaSource {
    pub id: String,
    pub name: String,
    pub playing: bool,
    pub title: String,
    pub artist: String,
}

/// What a session entry holds.
pub struct EntryView {
    pub source_id: Seq<char>,
    pub playing: bool,
    pub title: Seq<char>,
    pub artist: Seq<char>,
}

/// What a media source holds.
pub struct SourceView {
    pub id: Seq<char>,
    pub name: Seq<char>,
    pub playing: bool,
    pub title: Seq<char>,
    pub artist: Seq<char>,
}

impl View for SessionEntry {
    type V = EntryView;

    open spec fn view(&self) -> EntryView {
        EntryView { source_id: self.source_id@, playing: self.playing, title: self.title@, artist: self.artist@ }
    }
}

impl View for MediaSource {
    type V = SourceView;

    open spec fn view(&self) -> SourceView {
        SourceView { id: self.id@, name: self.name@, playing: self.playing, title: self.title@, artist: self.artist@ }
    }
}

pub open spec fn entry_views(s: Seq<SessionEntry>) -> Seq<EntryView> {
    s.map_values(|e: SessionEntry| e@)
}

pub open spec fn source_views(s: Seq<MediaSource>) -> Seq<SourceView> {
    s.map_values(|m: MediaSource| m@)
}

// ---------------------------------------------------------------------------
// Merging sessions by source
// ---------------------------------------------------------------------------

/// The first index at or after `from` of a source whose normalized id is `n`, or -1.
pub open spec fn first_match(acc: Seq<SourceView>, n: Seq<char>, from: int) -> int
    decreases acc.len() - from,
{
    if from < 0 || from >= acc.len() {
        -1
    } else if normalized(acc[from].id) == n {
        from
    } else {
        first_match(acc, n, from + 1)
    }
}

/// Adds one session to the sources seen so far. A session with a blank id is
/// skipped. A session of a source already listed updates its playing flag,
/// title and artist when it plays or the listed one has no title. Any other
/// session adds a source named after its id.
pub open spec fn merge_entry(acc: Seq<SourceView>, e: EntryView) -> Seq<SourceView> {
    if trim(e.source_id).len() == 0 {
        acc
    } else {
        let j = first_match(acc, normalized(e.source_id), 0);
        if j >= 0 {
            if e.playing || acc[j].title.len() == 0 {
                acc.update(
                    j,
                    SourceView { playing: e.playing, title: e.title, artist: e.artist, ..acc[j] },
                )
            } else {
                acc
            }
        } else {
            acc.push(
                SourceView {
                    id: e.source_id,
                    name: spec_source_name(e.source_id),
                    playing: e.playing,
                    title: e.title,
                    artist: e.artist,
                },
            )
        }
    }
}

/// The sources of a list of sessions, in the order each source first appears.
pub open spec fn merge_sources(entries: Seq<EntryView>) -> Seq<SourceView>
    decreases entries.len(),
{
    if entries.len() == 0 {
        Seq::empty()
    } else {
        merge_entry(merge_sources(entries.drop_last()), entries.last())
    }
}

fn copy_string(s: &String) -> (r: String)
    ensures
        r@ == s@,
{
    s.clone()
}

fn find_source(acc: &Vec<MediaSource>, n: &String) -> (r: Option<usize>)
    ensures
        match r {
            Some(j) => j < acc.len() && first_match(source_views(acc@), n@, 0) == j,
            None => first_match(source_views(acc@), n@, 0) == -1,
        },
{
    let ghost v = source_views(acc@);
    for i in 0..acc.len()
        invariant
            v == source_views(acc@),
            first_match(v, n@, 0) == first_match(v, n@, i as int),
    {
        let m = normalize_source_id(acc[i].id.as_str());
        if m == *n {
            return Some(i);
        }
    }
    None
}

/// Merges the sessions into sources; see `merge_sources`.
pub fn merge_sessions(entries: &Vec<SessionEntry>) -> (r: Vec<MediaSource>)
    ensures
        source_views(r@) == merge_sources(entry_views(entries@)),
{
    let mut acc: Vec<MediaSource> = Vec::new();
    for i in 0..entries.len()
        invariant
            source_views(acc@) == merge_sources(entry_views(entries@.take(i as int))),
    {
        let e = &entries[i];
        let ghost before = source_views(acc@);
        proof {
            assert(entry_views(entries@.take(i + 1)).drop_last() == entry_views(entries@.take(i as int)));
            assert(entry_views(entries@.take(i + 1)).last() == e@);
        }
        let id_chars = chars_of(e.source_id.as_str());
        let trimmed = trim_chars(&id_chars);
        if trimmed.len() > 0 {
            let n = normalize_source_id(e.source_id.as_str());
            match find_source(&acc, &n) {
                Some(j) => {
                    if e.playing || acc[j].title.as_str().is_empty() {
                        let updated = MediaSource {
                            id: copy_string(&acc[j].id),
                            name: copy_string(&acc[j].name),
                            playing: e.playing,
                            title: copy_string(&e.title),
                            artist: copy_string(&e.artist),
                        };
                        acc.set(j, updated);
                        assert(source_views(acc@) =~= before.update(
                            j as int,
                            SourceView { playing: e.playing, title: e@.title, artist: e@.artist, ..before[j as int] },
                        ));
                    }
                },
                None => {
                    let name = source_name(e.source_id.as_str());
                    acc.push(
                        MediaSource {
                            id: copy_string(&e.source_id),
                            name,
                            playing: e.playing,
                            title: copy_string(&e.title),
                            artist: copy_string(&e.artist),
                        },
                    );
                    assert(source_views(acc@) =~= before.push(acc@.last()@));
                },
            }
        }
    }
    assert(entries@.take(entries.len() as int) == entries@);
    acc
}


// ---------------------------------------------------------------------------
// Ordering the sources
// ---------------------------------------------------------------------------

/// `a` comes strictly before `b` in code-point order, which is the order `str`
/// comparison gives (UTF-8 preserves the order of code points).
pub open spec fn lex_less(a: Seq<char>, b: Seq<char>) -> bool
    decreases a.len(),
{
    if a.len() == 0 {
        b.len() > 0
    } else if b.len() == 0 {
        false
    } else if a[0] != b[0] {
        a[0] < b[0]
    } else {
        lex_less(a.drop_first(), b.drop_first())
    }
}

fn chars_lex_less(a: &Vec<char>, b: &Vec<char>) -> (r: bool)
    ensures
        r == lex_less(a@, b@),
{
    let mut i: usize = 0;
    assert(a@.skip(0) == a@);
    assert(b@.skip(0) == b@);
    while i < a.len() && i < b.len()
        invariant
            i <= a.len(),
            i <= b.len(),
            lex_less(a@, b@) == lex_less(a@.skip(i as int), b@.skip(i as int)),
        decreases a.len() - i,
    {
        if a[i] != b[i] {
            return a[i] < b[i];
        }
        assert(a@.skip(i as int).drop_first() == a@.skip(i + 1));
        assert(b@.skip(i as int).drop_first() == b@.skip(i + 1));
        i = i + 1;
    }
    i == a.len() && i < b.len()
}

/// Source `a` is listed before source `b`: playing sources first, then by
/// lower-cased name.
pub open spec fn precedes(a: SourceView, b: SourceView) -> bool {
    ||| a.playing && !b.playing
    ||| a.playing == b.playing && lex_less(unicode_lowercase(a.name), unicode_lowercase(b.name))
}

fn source_precedes(a: &MediaSource, b: &MediaSource) -> (r: bool)
    ensures
        r == precedes(a@, b@),
{
    if a.playing != b.playing {
        return a.playing;
    }
    let la = to_lowercase(a.name.as_str());
    let lb = to_lowercase(b.name.as_str());
    let ca = chars_of(la.as_str());
    let cb = chars_of(lb.as_str());
    chars_lex_less(&ca, &cb)
}

/// Inserts `x` into `s` after every element it does not precede.
pub open spec fn insert_sorted(s: Seq<SourceView>, x: SourceView) -> Seq<SourceView>
    decreases s.len(),
{
    if s.len() == 0 {
        seq![x]
    } else if precedes(x, s.last()) {
        insert_sorted(s.drop_last(), x).push(s.last())
    } else {
        s.push(x)
    }
}

/// The sources in list order: a stable sort of `s` by `precedes`.
pub open spec fn sorted_sources(s: Seq<SourceView>) -> Seq<SourceView>
    decreases s.len(),
{
    if s.len() == 0 {
        Seq::empty()
    } else {
        insert_sorted(sorted_sources(s.drop_last()), s.last())
    }
}

proof fn lemma_insert_at(s: Seq<SourceView>, x: SourceView, j: int)
    requires
        0 <= j <= s.len(),
        j == 0 || !precedes(x, s[j - 1]),
        forall|k: int| j <= k < s.len() ==> precedes(x, #[trigger] s[k]),
    ensures
        insert_sorted(s, x) == s.take(j).push(x) + s.skip(j),
    decreases s.len(),
{
    if s.len() == 0 {
        assert(s.take(j).push(x) + s.skip(j) =~= seq![x]);
    } else if j == s.len() {
        assert(s.take(j).push(x) + s.skip(j) =~= s.push(x));
    } else {
        let t = s.drop_last();
        assert(precedes(x, s[s.len() - 1]));
        assert forall|k: int| j <= k < t.len() implies precedes(x, #[trigger] t[k]) by {
            assert(t[k] == s[k]);
        }
        if j > 0 {
            assert(t[j - 1] == s[j - 1]);
        }
        lemma_insert_at(t, x, j);
        assert(insert_sorted(s, x) =~= s.take(j).push(x) + s.skip(j));
    }
}

fn duplicate_source(m: &MediaSource) -> (r: MediaSource)
    ensures
        r@ == m@,
{
    MediaSource {
        id: copy_string(&m.id),
        name: copy_string(&m.name),
        playing: m.playing,
        title: copy_string(&m.title),
        artist: copy_string(&m.artist),
    }
}

/// Orders sources playing first, then by lower-cased name, keeping the order
/// of sources that compare equal; see `sorted_sources`.
pub fn sort_sources(v: &Vec<MediaSource>) -> (r: Vec<MediaSource>)
    ensures
        source_views(r@) == sorted_sources(source_views(v@)),
{
    let mut out: Vec<MediaSource> = Vec::new();
    for i in 0..v.len()
        invariant
            source_views(out@) == sorted_sources(source_views(v@.take(i as int))),
    {
        let x = duplicate_source(&v[i]);
        let ghost s = source_views(out@);
        let mut j = out.len();
        while j > 0 && source_precedes(&x, &out[j - 1])
            invariant
                j <= out.len(),
                s == source_views(out@),
                forall|k: int| j <= k < s.len() ==> precedes(x@, #[trigger] s[k]),
            decreases j,
        {
            j = j - 1;
        }
        proof {
            lemma_insert_at(s, x@, j as int);
            assert(source_views(v@.take(i + 1)).drop_last() == source_views(v@.take(i as int)));
            assert(source_views(v@.take(i + 1)).last() == x@);
        }
        out.insert(j, x);
        assert(source_views(out@) =~= s.take(j as int).push(x@) + s.skip(j as int));
    }
    assert(v@.take(v.len() as int) == v@);
    out
}

/// The sources to offer for a list of sessions: merged by source, then ordered.
pub fn list_sources_of(entries: &Vec<SessionEntry>) -> (r: Vec<MediaSource>)
    ensures
        source_views(r@) == sorted_sources(merge_sources(entry_views(entries@))),
{
    let merged = merge_sessions(entries);
    sort_sources(&merged)
}


// ---------------------------------------------------------------------------
// Laws of the source list
// ---------------------------------------------------------------------------

proof fn lemma_lex_irreflexive(a: Seq<char>)
    ensures
        !lex_less(a, a),
    decreases a.len(),
{
    if a.len() > 0 {
        lemma_lex_irreflexive(a.drop_first());
    }
}

proof fn lemma_lex_transitive(a: Seq<char>, b: Seq<char>, c: Seq<char>)
    requires
        lex_less(a, b),
        lex_less(b, c),
    ensures
        lex_less(a, c),
    decreases a.len(),
{
    if a.len() > 0 && b.len() > 0 && c.len() > 0 && a[0] == b[0] && b[0] == c[0] {
        lemma_lex_transitive(a.drop_first(), b.drop_first(), c.drop_first());
    }
}

proof fn lemma_lex_total(a: Seq<char>, b: Seq<char>)
    requires
        a != b,
    ensures
        lex_less(a, b) || lex_less(b, a),
    decreases a.len(),
{
    if a.len() > 0 && b.len() > 0 && a[0] == b[0] {
        if a.drop_first() == b.drop_first() {
            assert(a =~= seq![a[0]] + a.drop_first());
            assert(b =~= seq![b[0]] + b.drop_first());
        }
        lemma_lex_total(a.drop_first(), b.drop_first());
    } else if a.len() > 0 && b.len() > 0 {
    } else if a.len() == 0 && b.len() == 0 {
        assert(a =~= b);
    }
}

/// The same position in the list: playing alike and names lower-casing alike.
pub open spec fn same_rank(a: SourceView, b: SourceView) -> bool {
    a.playing == b.playing && unicode_lowercase(a.name) == unicode_lowercase(b.name)
}

/// `precedes` is a strict weak order: irreflexive, asymmetric, and two sources
/// that precede neither each other rank the same.
pub proof fn precedes_is_strict_weak_order(a: SourceView, b: SourceView, c: SourceView)
    ensures
        !precedes(a, a),
        precedes(a, b) ==> !precedes(b, a),
        precedes(a, b) && precedes(b, c) ==> precedes(a, c),
        !precedes(a, b) && !precedes(b, a) ==> same_rank(a, b),
{
    let la = unicode_lowercase(a.name);
    let lb = unicode_lowercase(b.name);
    let lc = unicode_lowercase(c.name);
    lemma_lex_irreflexive(la);
    if lex_less(la, lb) && lex_less(lb, la) {
        lemma_lex_transitive(la, lb, la);
    }
    if lex_less(la, lb) && lex_less(lb, lc) {
        lemma_lex_transitive(la, lb, lc);
    }
    if la != lb {
        lemma_lex_total(la, lb);
    }
}

proof fn lemma_not_precedes_transitive(a: SourceView, b: SourceView, c: SourceView)
    requires
        !precedes(a, b),
        !precedes(b, c),
    ensures
        !precedes(a, c),
{
    precedes_is_strict_weak_order(a, b, c);
    precedes_is_strict_weak_order(b, c, a);
    precedes_is_strict_weak_order(c, a, b);
    precedes_is_strict_weak_order(a, c, b);
    let la = unicode_lowercase(a.name);
    let lb = unicode_lowercase(b.name);
    let lc = unicode_lowercase(c.name);
    if precedes(a, c) {
        if lex_less(la, lc) && lex_less(lc, lb) {
            lemma_lex_transitive(la, lc, lb);
        }
        if lex_less(lb, la) && lex_less(la, lc) {
            lemma_lex_transitive(lb, la, lc);
        }
        if lex_less(lc, lb) && lex_less(lb, la) {
            lemma_lex_transitive(lc, lb, la);
        }
        if la != lb {
            lemma_lex_total(la, lb);
        }
        if lb != lc {
            lemma_lex_total(lb, lc);
        }
        lemma_lex_irreflexive(la);
        lemma_lex_irreflexive(lb);
    }
}

/// No source of `s` is preceded by one listed after it.
pub open spec fn in_list_order(s: Seq<SourceView>) -> bool {
    forall|i: int, j: int| 0 <= i < j < s.len() ==> !precedes(#[trigger] s[j], #[trigger] s[i])
}

proof fn lemma_insert_multiset(s: Seq<SourceView>, x: SourceView)
    ensures
        insert_sorted(s, x).to_multiset() == s.to_multiset().insert(x),
    decreases s.len(),
{
    broadcast use vstd::seq_lib::group_to_multiset_ensures;

    if s.len() == 0 {
        assert(seq![x] =~= Seq::<SourceView>::empty().push(x));
    } else if precedes(x, s.last()) {
        let t = s.drop_last();
        lemma_insert_multiset(t, x);
        assert(s =~= t.push(s.last()));
        assert(insert_sorted(s, x).to_multiset() =~= s.to_multiset().insert(x));
    }
}

proof fn lemma_insert_in_order(s: Seq<SourceView>, x: SourceView)
    requires
        in_list_order(s),
    ensures
        in_list_order(insert_sorted(s, x)),
    decreases s.len(),
{
    broadcast use vstd::seq_lib::group_to_multiset_ensures;

    if s.len() == 0 {
    } else if precedes(x, s.last()) {
        let t = s.drop_last();
        let l = s.last();
        assert(in_list_order(t)) by {
            assert forall|i: int, j: int| 0 <= i < j < t.len() implies !precedes(#[trigger] t[j], #[trigger] t[i]) by {
                assert(t[i] == s[i] && t[j] == s[j]);
            }
        }
        lemma_insert_in_order(t, x);
        lemma_insert_multiset(t, x);
        let u = insert_sorted(t, x);
        assert forall|k: int| 0 <= k < u.len() implies !precedes(l, #[trigger] u[k]) by {
            assert(u.contains(u[k]));
            assert(u.to_multiset().count(u[k]) > 0);
            if u[k] == x {
                precedes_is_strict_weak_order(x, l, l);
            } else {
                assert(t.to_multiset().count(u[k]) > 0);
                assert(t.contains(u[k]));
                let m = choose|m: int| 0 <= m < t.len() && t[m] == u[k];
                assert(s[m] == t[m]);
                assert(s[s.len() - 1] == l);
            }
        }
        let r = u.push(l);
        assert forall|i: int, j: int| 0 <= i < j < r.len() implies !precedes(#[trigger] r[j], #[trigger] r[i]) by {
            if j == r.len() - 1 {
                assert(r[j] == l);
                assert(r[i] == u[i]);
            } else {
                assert(r[i] == u[i] && r[j] == u[j]);
            }
        }
    } else {
        let r = s.push(x);
        assert forall|i: int, j: int| 0 <= i < j < r.len() implies !precedes(#[trigger] r[j], #[trigger] r[i]) by {
            if j == r.len() - 1 {
                if i < s.len() - 1 {
                    assert(!precedes(s[s.len() - 1], s[i]));
                    lemma_not_precedes_transitive(x, s[s.len() - 1], s[i]);
                }
            }
        }
    }
}

/// The source list is ordered: playing sources come first and, among sources
/// that play alike, names come in lower-cased order; and it holds exactly the
/// sources it was given.
pub proof fn sorted_sources_ordered_permutation(s: Seq<SourceView>)
    ensures
        in_list_order(sorted_sources(s)),
        sorted_sources(s).to_multiset() == s.to_multiset(),
    decreases s.len(),
{
    broadcast use vstd::seq_lib::group_to_multiset_ensures;

    if s.len() > 0 {
        let t = s.drop_last();
        sorted_sources_ordered_permutation(t);
        lemma_insert_in_order(sorted_sources(t), s.last());
        lemma_insert_multiset(sorted_sources(t), s.last());
        assert(s =~= t.push(s.last()));
    }
}

proof fn lemma_first_match(acc: Seq<SourceView>, n: Seq<char>, from: int)
    requires
        0 <= from,
    ensures
        first_match(acc, n, from) == -1 ==> forall|k: int|
            from <= k < acc.len() ==> normalized(#[trigger] acc[k].id) != n,
        first_match(acc, n, from) != -1 ==> from <= first_match(acc, n, from) < acc.len()
            && normalized(acc[first_match(acc, n, from)].id) == n,
    decreases acc.len() - from,
{
    if from < acc.len() && normalized(acc[from].id) != n {
        lemma_first_match(acc, n, from + 1);
    }
}

/// Every listed source has a non-blank id, and no two listed sources have the
/// same normalized id.
pub open spec fn sources_distinct(m: Seq<SourceView>) -> bool {
    &&& forall|i: int| 0 <= i < m.len() ==> trim(#[trigger] m[i].id).len() > 0
    &&& forall|i: int, j: int|
        0 <= i < j < m.len() ==> normalized(#[trigger] m[i].id) != normalized(#[trigger] m[j].id)
}

/// Merging lists each player once: every source has a non-blank id, no two
/// share a normalized id, and every session with a non-blank id belongs to
/// one of the sources.
pub proof fn merged_sources_distinct_and_complete(entries: Seq<EntryView>)
    ensures
        sources_distinct(merge_sources(entries)),
        forall|i: int|
            0 <= i < entries.len() && trim(#[trigger] entries[i].source_id).len() > 0 ==> exists|k: int|
                0 <= k < merge_sources(entries).len() && normalized(merge_sources(entries)[k].id)
                    == normalized(entries[i].source_id),
    decreases entries.len(),
{
    if entries.len() > 0 {
        let t = entries.drop_last();
        let e = entries.last();
        merged_sources_distinct_and_complete(t);
        let acc = merge_sources(t);
        let r = merge_sources(entries);
        assert(r == merge_entry(acc, e));
        let n = normalized(e.source_id);
        lemma_first_match(acc, n, 0);
        // what is in `acc` stays in `r` with the same id
        assert(r.len() >= acc.len());
        assert forall|k: int| 0 <= k < acc.len() implies #[trigger] r[k].id == acc[k].id by {
        }
        assert(sources_distinct(r)) by {
            assert forall|i: int, j: int|
                0 <= i < j < r.len() implies normalized(#[trigger] r[i].id) != normalized(#[trigger] r[j].id) by {
                if j >= acc.len() {
                    assert(r[i].id == acc[i].id);
                }
            }
        }
        assert forall|i: int|
            0 <= i < entries.len() && trim(#[trigger] entries[i].source_id).len() > 0 implies exists|k: int|
                0 <= k < r.len() && normalized(r[k].id) == normalized(entries[i].source_id) by {
            if i < t.len() {
                assert(t[i] == entries[i]);
                let k = choose|k: int| 0 <= k < acc.len() && normalized(acc[k].id) == normalized(t[i].source_id);
                assert(r[k].id == acc[k].id);
            } else {
                assert(entries[i] == e);
                let j = first_match(acc, n, 0);
                if j != -1 {
                    assert(r[j].id == acc[j].id);
                } else {
                    assert(r[acc.len() as int].id == e.source_id);
                }
            }
        }
    }
}


/// A playing session of a player that is already listed takes the player's
/// source over: afterwards the source plays and shows the session's title and
/// artist, whatever title it showed before; it keeps its id and name, no
/// source is added, and every other source is unchanged.
pub proof fn playing_session_takes_over_its_source(entries: Seq<EntryView>, e: EntryView, j: int)
    requires
        e.playing,
        0 <= j < merge_sources(entries).len(),
        normalized(merge_sources(entries)[j].id) == normalized(e.source_id),
    ensures
        merge_sources(entries.push(e)).len() == merge_sources(entries).len(),
        merge_sources(entries.push(e))[j].playing,
        merge_sources(entries.push(e))[j].title == e.title,
        merge_sources(entries.push(e))[j].artist == e.artist,
        merge_sources(entries.push(e))[j].id == merge_sources(entries)[j].id,
        merge_sources(entries.push(e))[j].name == merge_sources(entries)[j].name,
        forall|k: int|
            0 <= k < merge_sources(entries).len() && k != j ==> #[trigger] merge_sources(entries.push(e))[k]
                == merge_sources(entries)[k],
{
    let acc = merge_sources(entries);
    assert(entries.push(e).drop_last() =~= entries);
    assert(merge_sources(entries.push(e)) == merge_entry(acc, e));
    merged_sources_distinct_and_complete(entries);
    let n = normalized(e.source_id);
    assert(trim(acc[j].id).len() > 0);
    assert(normalized(acc[j].id).len() == trim(acc[j].id).len());
    assert(n.len() == trim(e.source_id).len());
    lemma_first_match(acc, n, 0);
    let f = first_match(acc, n, 0);
    if f == -1 {
        assert(normalized(acc[j].id) != n);
    }
    if f != j {
        if f < j {
            assert(normalized(acc[f].id) != normalized(acc[j].id));
        } else {
            assert(normalized(acc[j].id) != normalized(acc[f].id));
        }
    }
}

} // verus!
