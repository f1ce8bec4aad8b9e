//! Launcher entries: which paths may be launched, the entry shown for an
//! added application, the icon extraction script and the icon data URL, and
//! the checks and outcome of launching an application.
use vstd::prelude::*;
use std::collections::hash_map::DefaultHasher;
use std::hash::Hasher;
use base64::Engine;
use vstd::std_specs::hash::DefaultHasherAdditionalSpecFns;
use crate::text::{
    ascii_lower_seq, chars_of, hex16, hex_digits, push_char, push_chars, push_signed_decimal,
    same_ignoring_ascii_case, signed_decimal, string_from_chars, string_of,
};

verus! {

broadcast use vstd::string::group_string_axioms;

// ---------------------------------------------------------------------------
// Windows paths
// ---------------------------------------------------------------------------

/// A path separator on Windows.
pub open spec fn is_separator(c: char) -> bool {
    c == '/' || c == '\\'
}

/// A separator between components: in a verbatim (`\\?\`) path only `\`.
pub open spec fn is_sep_in(c: char, verbatim: bool) -> bool {
    if verbatim {
        c == '\\'
    } else {
        is_separator(c)
    }
}

/// The end of the component of `p` that starts at `from`: the position of its
/// next separator, or the end of `p`.
pub open spec fn component_end(p: Seq<char>, from: int, verbatim: bool) -> int
    decreases p.len() - from,
{
    if from < 0 || from >= p.len() {
        p.len() as int
    } else if is_sep_in(p[from], verbatim) {
        from
    } else {
        component_end(p, from + 1, verbatim)
    }
}

/// `s` begins with a drive prefix such as `C:`.
pub open spec fn has_drive(s: Seq<char>) -> bool {
    s.len() >= 2 && (('a' <= s[0] <= 'z') || ('A' <= s[0] <= 'Z')) && s[1] == ':'
}

/// The prefix of a Windows path as `std::path` parses it: its length, and
/// whether the path is verbatim. A path that begins with two separators has
/// the prefix `\\?\UNC\server\share` (verbatim; up to the end of the share, or
/// of the server when the share is empty), `\\?\name` (verbatim, `\\?\C:`
/// among them; up to the end of the name), `\\.\device` (up to the end of the
/// device), or `\\server\share` when both are non-empty (up to the end of the
/// share); any other such path has none. Otherwise a leading `C:` is the
/// prefix. In the markers `\\`, `?\`, `.\` and `UNC\` either separator counts;
/// the names of a verbatim prefix end only at `\`.
pub open spec fn prefix_info(p: Seq<char>) -> (int, bool) {
    if p.len() >= 2 && is_separator(p[0]) && is_separator(p[1]) {
        if p.len() >= 4 && p[2] == '?' && is_separator(p[3]) {
            if p.len() >= 8 && p[4] == 'U' && p[5] == 'N' && p[6] == 'C' && is_separator(p[7]) {
                let s_end = component_end(p, 8, true);
                if s_end >= p.len() {
                    (p.len() as int, true)
                } else {
                    let sh_end = component_end(p, s_end + 1, true);
                    if sh_end > s_end + 1 {
                        (sh_end, true)
                    } else {
                        (s_end, true)
                    }
                }
            } else {
                (component_end(p, 4, true), true)
            }
        } else if p.len() >= 4 && p[2] == '.' && is_separator(p[3]) {
            (component_end(p, 4, false), false)
        } else {
            let s_end = component_end(p, 2, false);
            if s_end >= p.len() {
                (0, false)
            } else {
                let sh_end = component_end(p, s_end + 1, false);
                if s_end > 2 && sh_end > s_end + 1 {
                    (sh_end, false)
                } else {
                    (0, false)
                }
            }
        }
    } else if has_drive(p) {
        (2, false)
    } else {
        (0, false)
    }
}

/// `p` ends in a `.` component (the path is `.` or ends with a separator and `.`).
pub open spec fn ends_in_dot_component(p: Seq<char>) -> bool {
    p.len() > 0 && p[p.len() - 1] == '.' && (p.len() == 1 || is_separator(p[p.len() - 2]))
}

/// `p` without trailing separators and, outside verbatim paths, trailing `.`
/// components, which the components of a path do not count.
pub open spec fn strip_tail(p: Seq<char>, verbatim: bool) -> Seq<char>
    decreases p.len(),
{
    if p.len() > 0 && (is_sep_in(p[p.len() - 1], verbatim) || (!verbatim && ends_in_dot_component(p))) {
        strip_tail(p.drop_last(), verbatim)
    } else {
        p
    }
}

/// Where the last component of `q` starts: just after its last separator.
pub open spec fn last_component_start(q: Seq<char>, verbatim: bool) -> int
    decreases q.len(),
{
    if q.len() == 0 {
        0
    } else if is_sep_in(q[q.len() - 1], verbatim) {
        q.len() as int
    } else {
        last_component_start(q.drop_last(), verbatim)
    }
}

/// The file name of what follows a path's prefix: its last component, after
/// dropping trailing separators (and, outside verbatim paths, `.`
/// components); none when that is empty, `.` or `..`.
pub open spec fn tail_name(r: Seq<char>, verbatim: bool) -> Option<Seq<char>> {
    let q = strip_tail(r, verbatim);
    let name = q.skip(last_component_start(q, verbatim));
    if name.len() == 0 || name == seq!['.'] || name == seq!['.', '.'] {
        None
    } else {
        Some(name)
    }
}

/// The file name of a Windows path (`Path::file_name`): the last component
/// after its prefix; none for a path that is only a prefix and a root.
pub open spec fn file_name(p: Seq<char>) -> Option<Seq<char>> {
    let (k, verbatim) = prefix_info(p);
    tail_name(p.skip(k), verbatim)
}

/// The position of the last `.` in `s`, or -1.
pub open spec fn last_dot(s: Seq<char>) -> int
    decreases s.len(),
{
    if s.len() == 0 {
        -1
    } else if s[s.len() - 1] == '.' {
        s.len() - 1
    } else {
        last_dot(s.drop_last())
    }
}

/// The extension of a file name: what follows its last `.`, unless that `.`
/// is its first character or it has none.
pub open spec fn name_extension(name: Seq<char>) -> Option<Seq<char>> {
    let d = last_dot(name);
    if d <= 0 {
        None
    } else {
        Some(name.skip(d + 1))
    }
}

/// The stem of a file name: what precedes its last `.`, or the whole name
/// when it has no extension.
pub open spec fn name_stem(name: Seq<char>) -> Seq<char> {
    let d = last_dot(name);
    if d <= 0 {
        name
    } else {
        name.take(d)
    }
}

/// The extension of a path (`Path::extension`).
pub open spec fn path_extension(p: Seq<char>) -> Option<Seq<char>> {
    match file_name(p) {
        Some(n) => name_extension(n),
        None => None,
    }
}

/// The stem of a path (`Path::file_stem`).
pub open spec fn path_stem(p: Seq<char>) -> Option<Seq<char>> {
    match file_name(p) {
        Some(n) => Some(name_stem(n)),
        None => None,
    }
}

fn sep_in(c: char, verbatim: bool) -> (b: bool)
    ensures
        b == is_sep_in(c, verbatim),
{
    if verbatim {
        c == '\\'
    } else {
        c == '/' || c == '\\'
    }
}

fn component_end_at(v: &Vec<char>, from: usize, verbatim: bool) -> (r: usize)
    requires
        from <= v.len(),
    ensures
        r as int == component_end(v@, from as int, verbatim),
        from <= r <= v.len(),
{
    let mut i = from;
    while i < v.len() && !sep_in(v[i], verbatim)
        invariant
            from <= i <= v.len(),
            component_end(v@, from as int, verbatim) == component_end(v@, i as int, verbatim),
        decreases v.len() - i,
    {
        i = i + 1;
    }
    i
}

fn prefix_of(v: &Vec<char>) -> (r: (usize, bool))
    ensures
        (r.0 as int, r.1) == prefix_info(v@),
        r.0 <= v.len(),
{
    let n = v.len();
    let sep0 = n >= 2 && sep_in(v[0], false) && sep_in(v[1], false);
    if sep0 {
        if n >= 4 && v[2] == '?' && sep_in(v[3], false) {
            if n >= 8 && v[4] == 'U' && v[5] == 'N' && v[6] == 'C' && sep_in(v[7], false) {
                let s_end = component_end_at(v, 8, true);
                if s_end >= n {
                    (n, true)
                } else {
                    let sh_end = component_end_at(v, s_end + 1, true);
                    if sh_end > s_end + 1 {
                        (sh_end, true)
                    } else {
                        (s_end, true)
                    }
                }
            } else {
                (component_end_at(v, 4, true), true)
            }
        } else if n >= 4 && v[2] == '.' && sep_in(v[3], false) {
            (component_end_at(v, 4, false), false)
        } else {
            let s_end = component_end_at(v, 2, false);
            if s_end >= n {
                (0, false)
            } else {
                let sh_end = component_end_at(v, s_end + 1, false);
                if s_end > 2 && sh_end > s_end + 1 {
                    (sh_end, false)
                } else {
                    (0, false)
                }
            }
        }
    } else if n >= 2 && (('a' <= v[0] && v[0] <= 'z') || ('A' <= v[0] && v[0] <= 'Z')) && v[1] == ':' {
        (2, false)
    } else {
        (0, false)
    }
}

fn tail_name_chars(v: &Vec<char>, verbatim: bool) -> (r: Option<Vec<char>>)
    ensures
        match r {
            Some(n) => tail_name(v@, verbatim) == Some(n@),
            None => tail_name(v@, verbatim) is None,
        },
{
    let mut j = v.len();
    assert(v@.take(j as int) == v@);
    loop
        invariant
            j <= v.len(),
            strip_tail(v@, verbatim) == strip_tail(v@.take(j as int), verbatim),
        ensures
            strip_tail(v@, verbatim) == v@.take(j as int),
        decreases j,
    {
        if j > 0 && (sep_in(v[j - 1], verbatim) || (!verbatim && v[j - 1] == '.' && (j == 1 || sep_in(
            v[j - 2],
            false,
        )))) {
            assert(v@.take(j as int).drop_last() == v@.take(j - 1));
            j = j - 1;
        } else {
            break;
        }
    }
    let ghost q = v@.take(j as int);
    let mut k = j;
    assert(q.take(k as int) == q);
    loop
        invariant
            k <= j <= v.len(),
            q == v@.take(j as int),
            last_component_start(q, verbatim) == last_component_start(q.take(k as int), verbatim),
        ensures
            last_component_start(q, verbatim) == k,
        decreases k,
    {
        if k > 0 && !sep_in(v[k - 1], verbatim) {
            assert(q.take(k as int).drop_last() == q.take(k - 1));
            k = k - 1;
        } else {
            break;
        }
    }
    let mut name: Vec<char> = Vec::new();
    let mut m = k;
    while m < j
        invariant
            k <= m <= j <= v.len(),
            name@ == v@.subrange(k as int, m as int),
        decreases j - m,
    {
        assert(v@.subrange(k as int, m + 1) == v@.subrange(k as int, m as int).push(v@[m as int]));
        name.push(v[m]);
        m = m + 1;
    }
    assert(q.skip(k as int) =~= name@);
    let n = name.len();
    if n == 0 || (n == 1 && name[0] == '.') || (n == 2 && name[0] == '.' && name[1] == '.') {
        proof {
            if n == 1 {
                assert(name@ =~= seq!['.']);
            }
            if n == 2 {
                assert(name@ =~= seq!['.', '.']);
            }
        }
        None
    } else {
        proof {
            if name@ == seq!['.'] {
                assert(name@[0] == '.');
            }
        }
        Some(name)
    }
}

fn file_name_chars(v: &Vec<char>) -> (r: Option<Vec<char>>)
    ensures
        match r {
            Some(n) => file_name(v@) == Some(n@),
            None => file_name(v@) is None,
        },
{
    let (k, verbatim) = prefix_of(v);
    let rest = tail_from(v, k);
    tail_name_chars(&rest, verbatim)
}

fn last_dot_index(s: &Vec<char>) -> (r: Option<usize>)
    ensures
        match r {
            Some(d) => d < s.len() && last_dot(s@) == d,
            None => last_dot(s@) == -1,
        },
{
    let mut i = s.len();
    assert(s@.take(i as int) == s@);
    while i > 0
        invariant
            i <= s.len(),
            last_dot(s@) == last_dot(s@.take(i as int)),
        decreases i,
    {
        if s[i - 1] == '.' {
            return Some(i - 1);
        }
        assert(s@.take(i as int).drop_last() == s@.take(i - 1));
        i = i - 1;
    }
    None
}

fn tail_from(s: &Vec<char>, from: usize) -> (r: Vec<char>)
    requires
        from <= s.len(),
    ensures
        r@ == s@.skip(from as int),
{
    let mut r: Vec<char> = Vec::new();
    let mut i = from;
    while i < s.len()
        invariant
            from <= i <= s.len(),
            r@ == s@.subrange(from as int, i as int),
        decreases s.len() - i,
    {
        assert(s@.subrange(from as int, i + 1) == s@.subrange(from as int, i as int).push(s@[i as int]));
        r.push(s[i]);
        i = i + 1;
    }
    r
}

fn head_to(s: &Vec<char>, to: usize) -> (r: Vec<char>)
    requires
        to <= s.len(),
    ensures
        r@ == s@.take(to as int),
{
    let mut r: Vec<char> = Vec::new();
    for i in 0..to
        invariant
            to <= s.len(),
            r@ == s@.take(i as int),
    {
        assert(s@.take(i + 1) == s@.take(i as int).push(s@[i as int]));
        r.push(s[i]);
    }
    r
}

fn extension_chars(path: &str) -> (r: Option<Vec<char>>)
    ensures
        match r {
            Some(e) => path_extension(path@) == Some(e@),
            None => path_extension(path@) is None,
        },
{
    let v = chars_of(path);
    match file_name_chars(&v) {
        None => None,
        Some(name) => match last_dot_index(&name) {
            Some(d) if d > 0 => Some(tail_from(&name, d + 1)),
            _ => None,
        },
    }
}

/// The stem of a path's file name (`Path::file_stem`), if it has a file name.
pub fn file_stem(path: &str) -> (r: Option<String>)
    ensures
        match r {
            Some(s) => path_stem(path@) == Some(s@),
            None => path_stem(path@) is None,
        },
{
    let v = chars_of(path);
    match file_name_chars(&v) {
        None => None,
        Some(name) => match last_dot_index(&name) {
            Some(d) if d > 0 => {
                let h = head_to(&name, d);
                Some(string_from_chars(&h))
            },
            _ => Some(string_from_chars(&name)),
        },
    }
}

/// A path may be launched: its extension is `exe` or `lnk` in any ASCII case.
pub open spec fn launchable(p: Seq<char>) -> bool {
    match path_extension(p) {
        Some(e) => ascii_lower_seq(e) == ascii_lower_seq("exe"@) || ascii_lower_seq(e)
            == ascii_lower_seq("lnk"@),
        None => false,
    }
}

/// Whether a path names an executable or a shortcut.
pub fn is_launcher_path(path: &str) -> (b: bool)
    ensures
        b == launchable(path@),
{
    match extension_chars(path) {
        None => false,
        Some(e) => {
            let exe = chars_of("exe");
            let lnk = chars_of("lnk");
            same_ignoring_ascii_case(&e, &exe) || same_ignoring_ascii_case(&e, &lnk)
        },
    }
}

// ---------------------------------------------------------------------------
// Entries
// ---------------------------------------------------------------------------

/// An application added to the launcher.
pub struct AppEntry {
    pub id: String,
    pub name: String,
    pub path: String,
    /// `data:image/png;base64,...`, or empty when no icon could be extracted.
    pub icon: String,
}

/// What the front end learns of a path dragged onto the launcher.
pub struct DragPathInfo {
    pub is_file: bool,
    pub is_directory: bool,
    pub can_add_app: bool,
}

/// A dragged path can be added when it is a file that may be launched.
pub fn drag_path_info(path: &str, is_file: bool, is_directory: bool) -> (d: DragPathInfo)
    ensures
        d.is_file == is_file,
        d.is_directory == is_directory,
        d.can_add_app == (is_file && launchable(path@)),
{
    let can_add_app = is_file && is_launcher_path(path);
    DragPathInfo { is_file, is_directory, can_add_app }
}

/// A path of those being added is kept when it is a file that may be launched.
pub fn keeps_app_path(path: &str, is_file: bool) -> (b: bool)
    ensures
        b == (is_file && launchable(path@)),
{
    is_file && is_launcher_path(path)
}

/// The UTF-8 bytes of a string.
pub open spec fn utf8(s: Seq<char>) -> Seq<u8> {
    vstd::utf8::encode_utf8(s)
}

/// The hash of a path: `DefaultHasher` fed the path as `str` hashing feeds it,
/// that is its UTF-8 bytes and then the byte `0xff`.
pub open spec fn path_hash_value(p: Seq<char>) -> u64 {
    DefaultHasher::spec_finish(seq![utf8(p), seq![0xffu8]])
}

/// The path's hash as 16 lower-case hexadecimal digits.
pub open spec fn spec_hash_path(p: Seq<char>) -> Seq<char> {
    hex_digits(path_hash_value(p) as nat, 16)
}

/// The hash of a path in hexadecimal, used for entry ids and icon file names.
pub fn hash_path(path: &str) -> (s: String)
    ensures
        s@ == spec_hash_path(path@),
{
    let mut h = DefaultHasher::new();
    let bytes = path.as_bytes();
    h.write(bytes);
    let end: [u8; 1] = [0xff];
    let end_slice: &[u8] = end.as_slice();
    assert(end_slice@ =~= seq![0xffu8]);
    h.write(end_slice);
    assert(h@ =~= seq![utf8(path@), seq![0xffu8]]);
    hex16(h.finish())
}

/// The entry for an added application: id `app-` and the path's hash, name
/// the file stem (or "应用" without one), and the extracted icon.
pub fn app_entry(path: &str, icon: String) -> (e: AppEntry)
    ensures
        e.id@ == "app-"@ + spec_hash_path(path@),
        e.name@ == (match path_stem(path@) {
            Some(s) => s,
            None => "应用"@,
        }),
        e.path@ == path@,
        e.icon@ == icon@,
{
    let mut id = string_of("app-");
    let h = hash_path(path);
    id.append(h.as_str());
    let name = match file_stem(path) {
        Some(s) => s,
        None => string_of("应用"),
    };
    AppEntry { id, name, path: string_of(path), icon }
}

// ---------------------------------------------------------------------------
// Icons
// ---------------------------------------------------------------------------

/// `s` with each `'` doubled, as PowerShell quotes it inside `'...'`.
pub open spec fn ps_escaped(s: Seq<char>) -> Seq<char>
    decreases s.len(),
{
    if s.len() == 0 {
        Seq::empty()
    } else if s[s.len() - 1] == '\'' {
        ps_escaped(s.drop_last()) + seq!['\'', '\'']
    } else {
        ps_escaped(s.drop_last()).push(s[s.len() - 1])
    }
}

/// Escapes a string for a single-quoted PowerShell literal.
pub fn ps_escape(s: &str) -> (r: String)
    ensures
        r@ == ps_escaped(s@),
{
    let v = chars_of(s);
    let mut r = String::new();
    for i in 0..v.len()
        invariant
            v@ == s@,
            r@ == ps_escaped(v@.take(i as int)),
    {
        assert(v@.take(i + 1).drop_last() == v@.take(i as int));
        if v[i] == '\'' {
            push_char(&mut r, '\'');
            push_char(&mut r, '\'');
        } else {
            push_char(&mut r, v[i]);
        }
    }
    assert(v@.take(v.len() as int) == v@);
    r
}

/// Every `'` of `r` comes in a pair `''`, so that `r` stays inside a
/// PowerShell single-quoted literal: each maximal run of quotes is even.
pub open spec fn quotes_paired(r: Seq<char>) -> bool
    decreases r.len(),
{
    if r.len() == 0 {
        true
    } else if r[0] != '\'' {
        quotes_paired(r.skip(1))
    } else {
        r.len() >= 2 && r[1] == '\'' && quotes_paired(r.skip(2))
    }
}

/// How PowerShell reads the body of a single-quoted literal: `''` is one `'`.
pub open spec fn ps_unescaped(r: Seq<char>) -> Seq<char>
    decreases r.len(),
{
    if r.len() == 0 {
        r
    } else if r.len() >= 2 && r[0] == '\'' && r[1] == '\'' {
        seq!['\''] + ps_unescaped(r.skip(2))
    } else {
        seq![r[0]] + ps_unescaped(r.skip(1))
    }
}

proof fn lemma_paired_concat(a: Seq<char>, b: Seq<char>)
    requires
        quotes_paired(a),
        quotes_paired(b),
    ensures
        quotes_paired(a + b),
        ps_unescaped(a + b) == ps_unescaped(a) + ps_unescaped(b),
    decreases a.len(),
{
    if a.len() == 0 {
        assert(a + b =~= b);
        assert(ps_unescaped(a) =~= Seq::<char>::empty());
        assert(ps_unescaped(a) + ps_unescaped(b) =~= ps_unescaped(b));
    } else if a[0] != '\'' {
        assert((a + b).skip(1) =~= a.skip(1) + b);
        lemma_paired_concat(a.skip(1), b);
        assert((a + b)[0] == a[0]);
        assert(ps_unescaped(a + b) =~= seq![a[0]] + ps_unescaped(a.skip(1) + b));
        assert(ps_unescaped(a + b) =~= ps_unescaped(a) + ps_unescaped(b));
    } else {
        assert((a + b).skip(2) =~= a.skip(2) + b);
        lemma_paired_concat(a.skip(2), b);
        assert((a + b)[0] == a[0] && (a + b)[1] == a[1]);
        assert(ps_unescaped(a + b) =~= seq!['\''] + ps_unescaped(a.skip(2) + b));
        assert(ps_unescaped(a + b) =~= ps_unescaped(a) + ps_unescaped(b));
    }
}

/// The escape keeps a string inside a single-quoted PowerShell literal and
/// PowerShell reads back exactly the string: every quote of the result is
/// paired, unescaping gives the string back, and a string without quotes is
/// left as it is.
pub proof fn ps_escape_round_trip(s: Seq<char>)
    ensures
        quotes_paired(ps_escaped(s)),
        ps_unescaped(ps_escaped(s)) == s,
        !s.contains('\'') ==> ps_escaped(s) == s,
    decreases s.len(),
{
    if s.len() > 0 {
        let t = s.drop_last();
        let c = s[s.len() - 1];
        ps_escape_round_trip(t);
        let piece = if c == '\'' {
            seq!['\'', '\'']
        } else {
            seq![c]
        };
        assert(ps_escaped(s) == ps_escaped(t) + piece) by {
            if c != '\'' {
                assert(ps_escaped(t).push(c) =~= ps_escaped(t) + seq![c]);
            }
        }
        assert(piece.skip(piece.len() as int) =~= Seq::<char>::empty());
        if c == '\'' {
            assert(piece.skip(2) =~= Seq::<char>::empty());
            assert(quotes_paired(piece.skip(2)));
            assert(ps_unescaped(piece.skip(2)) =~= Seq::<char>::empty());
            assert(piece[0] == '\'' && piece[1] == '\'' && piece.len() == 2);
            assert(quotes_paired(piece));
            assert(ps_unescaped(piece) =~= seq!['\'']);
        } else {
            assert(piece.skip(1) =~= Seq::<char>::empty());
            assert(quotes_paired(piece.skip(1)));
            assert(ps_unescaped(piece.skip(1)) =~= Seq::<char>::empty());
            assert(piece[0] == c && piece.len() == 1);
            assert(quotes_paired(piece));
            assert(ps_unescaped(piece) =~= seq![c]);
        }
        lemma_paired_concat(ps_escaped(t), piece);
        assert(t + seq![c] =~= s);
        if !s.contains('\'') {
            assert(!t.contains('\'')) by {
                if t.contains('\'') {
                    let i = choose|i: int| 0 <= i < t.len() && t[i] == '\'';
                    assert(s[i] == t[i]);
                }
            }
            assert(s[s.len() - 1] == c);
            assert(ps_escaped(t).push(c) =~= s);
        }
    } else {
        assert(ps_unescaped(ps_escaped(s)) =~= s);
    }
}

/// The name of the cached icon file of a path.
pub fn icon_file_name(path: &str) -> (s: String)
    ensures
        s@ == spec_hash_path(path@) + "-j.png"@,
{
    let mut s = hash_path(path);
    s.append("-j.png");
    s
}

/// The script text before the escaped application path.
pub const ICON_SCRIPT_HEAD: &'static str = "$ErrorActionPreference='SilentlyContinue'\n$p='";

/// The script text between the escaped application path and the escaped output path.
pub const ICON_SCRIPT_MIDDLE: &'static str = "'\nif ([System.IO.Path]::GetExtension($p).ToLower() -eq '.lnk') {\n  $ws = New-Object -ComObject WScript.Shell\n  $sc = $ws.CreateShortcut($p)\n  if ($sc -and $sc.TargetPath) { $p = $sc.TargetPath }\n}\nAdd-Type -AssemblyName System.Drawing\n$def = @'\nusing System;\nusing System.Runtime.InteropServices;\npublic class DBanIcon {\n  [DllImport(\"user32.dll\", CharSet=CharSet.Unicode)]\n  public static extern uint PrivateExtractIcons(string lpszFile, int nIconIndex, int cxIcon, int cyIcon, IntPtr[] phicon, int[] piconid, uint nIcons, uint flags);\n  [DllImport(\"user32.dll\")] public static extern bool DestroyIcon(IntPtr hIcon);\n}\n'@\nAdd-Type -TypeDefinition $def\nforeach ($s in 256,96,48,32) {\n  $h = New-Object 'IntPtr[]' 1\n  $id = New-Object 'int[]' 1\n  $n = [DBanIcon]::PrivateExtractIcons($p, 0, $s, $s, $h, $id, 1, 0)\n  if ($n -gt 0 -and $h[0] -ne [IntPtr]::Zero) {\n    $i = [System.Drawing.Icon]::FromHandle($h[0])\n    $i.ToBitmap().Save('";

/// The script text after the escaped output path.
pub const ICON_SCRIPT_TAIL: &'static str = "', [System.Drawing.Imaging.ImageFormat]::Png)\n    [DBanIcon]::DestroyIcon($h[0]) | Out-Null\n    break\n  }\n}";

/// The PowerShell script that saves the largest icon of an application (or
/// of a shortcut's target) as a PNG file at `out_path`.
pub fn icon_script(path: &str, out_path: &str) -> (s: String)
    ensures
        s@ == ICON_SCRIPT_HEAD@ + ps_escaped(path@) + ICON_SCRIPT_MIDDLE@ + ps_escaped(out_path@)
            + ICON_SCRIPT_TAIL@,
{
    let mut s = string_of(ICON_SCRIPT_HEAD);
    let p = ps_escape(path);
    s.append(p.as_str());
    s.append(ICON_SCRIPT_MIDDLE);
    let o = ps_escape(out_path);
    s.append(o.as_str());
    s.append(ICON_SCRIPT_TAIL);
    s
}

/// The character of a 6-bit value in the standard base64 alphabet `A-Za-z0-9+/`.
pub open spec fn base64_char(v: int) -> char {
    if v < 26 {
        (65 + v) as char
    } else if v < 52 {
        (97 + v - 26) as char
    } else if v < 62 {
        (48 + v - 52) as char
    } else if v == 62 {
        '+'
    } else {
        '/'
    }
}

/// Standard padded base64: every three bytes, read as a 24-bit number, give
/// four characters of six bits each, most significant first; a last group of
/// one or two bytes is filled with zero bits and its missing characters are `=`.
pub open spec fn base64_standard(b: Seq<u8>) -> Seq<char>
    decreases b.len(),
{
    if b.len() == 0 {
        Seq::empty()
    } else if b.len() == 1 {
        let n = b[0] as int * 65536;
        seq![base64_char(n / 262144), base64_char((n / 4096) % 64), '=', '=']
    } else if b.len() == 2 {
        let n = b[0] as int * 65536 + b[1] as int * 256;
        seq![base64_char(n / 262144), base64_char((n / 4096) % 64), base64_char((n / 64) % 64), '=']
    } else {
        let n = b[0] as int * 65536 + b[1] as int * 256 + b[2] as int;
        seq![base64_char(n / 262144), base64_char((n / 4096) % 64), base64_char((n / 64) % 64), base64_char(n % 64)]
            + base64_standard(b.skip(3))
    }
}

/// `base64::engine::general_purpose::STANDARD.encode`: the standard padded
/// base64 text of the bytes.
#[verifier::external_body]
fn base64_encode(bytes: &[u8]) -> (s: String)
    requires
        bytes@.len() <= usize::MAX / 2,
    ensures
        s@ == base64_standard(bytes@),
{
    base64::engine::general_purpose::STANDARD.encode(bytes)
}

/// The data URL of a PNG icon.
pub fn icon_data_url(png: &[u8]) -> (s: String)
    requires
        png@.len() <= usize::MAX / 2,
    ensures
        s@ == "data:image/png;base64,"@ + base64_standard(png@),
{
    let mut s = string_of("data:image/png;base64,");
    let b = base64_encode(png);
    s.append(b.as_str());
    s
}

// ---------------------------------------------------------------------------
// Launching
// ---------------------------------------------------------------------------

/// Why a launch was refused before it was tried.
pub open spec fn launch_refusal(path: Seq<char>, path_is_file: bool, file_path: Option<Seq<char>>, file_is_file: bool) -> Option<Seq<char>> {
    if !path_is_file {
        Some("应用路径不存在"@)
    } else if !launchable(path) {
        Some("只允许启动 .exe 或 .lnk 文件"@)
    } else if file_path is Some && !file_is_file {
        Some("文件不存在或不可访问"@)
    } else {
        None
    }
}

/// Checks a launch request: the application must be an existing file that may
/// be launched, and a file to open with it must exist. On success, the
/// parameters to pass: the file path in double quotes, which keeps a path
/// with spaces one argument (Windows file names cannot hold `"`).
pub fn plan_launch(path: &str, path_is_file: bool, file_path: Option<&str>, file_is_file: bool) -> (r: Result<
    Option<String>,
    String,
>)
    ensures
        match r {
            Ok(params) => launch_refusal(
                path@,
                path_is_file,
                match file_path {
                    Some(f) => Some(f@),
                    None => None,
                },
                file_is_file,
            ) is None && match (params, file_path) {
                (Some(p), Some(f)) => p@ == seq!['"'] + f@ + seq!['"'],
                (None, None) => true,
                _ => false,
            },
            Err(e) => launch_refusal(
                path@,
                path_is_file,
                match file_path {
                    Some(f) => Some(f@),
                    None => None,
                },
                file_is_file,
            ) == Some(e@),
        },
{
    if !path_is_file {
        return Err(string_of("应用路径不存在"));
    }
    if !is_launcher_path(path) {
        return Err(string_of("只允许启动 .exe 或 .lnk 文件"));
    }
    match file_path {
        Some(f) => {
            if !file_is_file {
                return Err(string_of("文件不存在或不可访问"));
            }
            let mut p = String::new();
            push_char(&mut p, '"');
            p.append(f);
            push_char(&mut p, '"');
            assert(p@ =~= seq!['"'] + f@ + seq!['"']);
            Ok(Some(p))
        },
        None => Ok(None),
    }
}

/// The outcome of `ShellExecuteW`: a code above 32 is success, any other
/// code is reported.
pub fn launch_outcome(code: i64) -> (r: Result<(), String>)
    ensures
        match r {
            Ok(()) => code > 32,
            Err(e) => code <= 32 && e@ == "Windows 无法启动该应用（错误码 "@ + signed_decimal(code as int)
                + "）"@,
        },
{
    if code <= 32 {
        let mut e = string_of("Windows 无法启动该应用（错误码 ");
        push_signed_decimal(&mut e, code);
        e.append("）");
        Err(e)
    } else {
        Ok(())
    }
}


/// Only executables and shortcuts are launched: a path is launchable exactly
/// when it has an extension that, with its ASCII letters lower-cased, is
/// `exe` or `lnk`; an existing file with any other extension, or none, is
/// refused with "只允许启动 .exe 或 .lnk 文件".
pub proof fn only_exe_and_lnk_launch(p: Seq<char>, file_path: Option<Seq<char>>, file_is_file: bool)
    ensures
        launchable(p) == (path_extension(p) matches Some(e) && (ascii_lower_seq(e) == "exe"@
            || ascii_lower_seq(e) == "lnk"@)),
        !launchable(p) ==> launch_refusal(p, true, file_path, file_is_file) == Some(
            "只允许启动 .exe 或 .lnk 文件"@,
        ),
{
    reveal_strlit("exe");
    reveal_strlit("lnk");
    assert(ascii_lower_seq("exe"@) =~= "exe"@);
    assert(ascii_lower_seq("lnk"@) =~= "lnk"@);
}

} // verus!
