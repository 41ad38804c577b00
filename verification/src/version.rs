//! Version extraction and rewriting.
//!
//! A package's authoritative version comes from an ordered fallback chain:
//! a version-declaration source file (`const Version = "1.2.3"`, the
//! identifier matched case-insensitively, an optional leading `v` accepted
//! and dropped), then the version-control tag listing (a `<module>/<semver>`
//! tag preferred, a bare `<semver>` tag accepted), then the default `0.0.0`.
//!
//! A version core is `<digits>.<digits>.<digits>`, optionally followed by
//! `-<pre-release>` and `+<build>` made of letters, digits, dots and dashes.

use vstd::prelude::*;

use crate::text::{is_digit, is_ver_ident,
    digit_end, digit_run, is_space, space_char, space_end, space_run, split_lines,
    split_lines_spec, starts_with, str_starts_with, trim, trim_spec, ver_ident_end, ver_ident_run,
};

verus! {

/// `c` equals the (lowercase letter) `lo`, ignoring ASCII case.
pub open spec fn eq_ci(c: char, lo: char) -> bool {
    c == lo || c as u32 + 32 == lo as u32
}

/// The lowercase keyword `kw` occurs at position `i` of `s`, ignoring case.
pub open spec fn kw_ci_at(s: Seq<char>, i: int, kw: Seq<char>) -> bool {
    0 <= i && i + kw.len() <= s.len() && (forall|j: int|
        0 <= j < kw.len() ==> eq_ci(s[i + j], kw[j]))
}

fn eq_ci_exec(c: char, lo: char) -> (r: bool)
    ensures
        r == eq_ci(c, lo),
{
    c == lo || (c as u64) + 32 == (lo as u64)
}

fn kw_ci_exec(s: &str, n: usize, i: usize, kw: &str, kwn: usize) -> (r: bool)
    requires
        n == s@.len(),
        i <= n,
        kwn == kw@.len(),
    ensures
        r == kw_ci_at(s@, i as int, kw@),
{
    if n - i < kwn {
        return false;
    }
    let mut j: usize = 0;
    while j < kwn
        invariant
            j <= kwn,
            i + kwn <= n,
            n == s@.len(),
            kwn == kw@.len(),
            forall|k: int| 0 <= k < j ==> eq_ci(s@[i + k], kw@[k]),
        decreases kwn - j,
    {
        if !eq_ci_exec(s.get_char(i + j), kw.get_char(j)) {
            return false;
        }
        j = j + 1;
    }
    true
}

/// End of a version core starting at `i`, or `None` when no core (followed
/// only by characters a version may not contain) starts there.
pub open spec fn ver_core_end(s: Seq<char>, i: int) -> Option<int> {
    let d1 = digit_end(s, i);
    if d1 > i && d1 < s.len() && s[d1] == '.' {
        let d2 = digit_end(s, d1 + 1);
        if d2 > d1 + 1 && d2 < s.len() && s[d2] == '.' {
            let d3 = digit_end(s, d2 + 1);
            if d3 > d2 + 1 {
                let q = if d3 < s.len() && s[d3] == '-' {
                    let e = ver_ident_end(s, d3 + 1);
                    if e > d3 + 1 {
                        Some(e)
                    } else {
                        None::<int>
                    }
                } else {
                    Some(d3)
                };
                match q {
                    Some(q2) => if q2 < s.len() && s[q2] == '+' {
                        let e2 = ver_ident_end(s, q2 + 1);
                        if e2 > q2 + 1 {
                            Some(e2)
                        } else {
                            None
                        }
                    } else {
                        Some(q2)
                    },
                    None => None,
                }
            } else {
                None
            }
        } else {
            None
        }
    } else {
        None
    }
}

pub fn ver_core_run(s: &str, n: usize, i: usize) -> (r: Option<usize>)
    requires
        n == s@.len(),
        i <= n,
    ensures
        match r {
            Some(e) => ver_core_end(s@, i as int) == Some(e as int) && i <= e <= n,
            None => ver_core_end(s@, i as int) is None,
        },
{
    let d1 = digit_run(s, n, i);
    if !(d1 > i && d1 < n) {
        return None;
    }
    if s.get_char(d1) != '.' {
        return None;
    }
    let d2 = digit_run(s, n, d1 + 1);
    if !(d2 > d1 + 1 && d2 < n) {
        return None;
    }
    if s.get_char(d2) != '.' {
        return None;
    }
    let d3 = digit_run(s, n, d2 + 1);
    if !(d3 > d2 + 1) {
        return None;
    }
    let q: usize;
    if d3 < n && s.get_char(d3) == '-' {
        let e = ver_ident_run(s, n, d3 + 1);
        if !(e > d3 + 1) {
            return None;
        }
        q = e;
    } else {
        q = d3;
    }
    if q < n && s.get_char(q) == '+' {
        let e2 = ver_ident_run(s, n, q + 1);
        if !(e2 > q + 1) {
            return None;
        }
        return Some(e2);
    }
    Some(q)
}

/// A whole string that is a version core with an optional leading `v`;
/// the core (without the `v`) is returned.
pub open spec fn anchored_version(t: Seq<char>) -> Option<Seq<char>> {
    let st: int = if t.len() > 0 && t[0] == 'v' {
        1
    } else {
        0
    };
    match ver_core_end(t, st) {
        Some(e) => if e == t.len() {
            Some(t.subrange(st, e))
        } else {
            None
        },
        None => None,
    }
}

pub fn anchored_version_exec(t: &str) -> (r: Option<String>)
    ensures
        r.deep_view() == anchored_version(t@),
{
    let n = t.unicode_len();
    let st: usize = if n > 0 && t.get_char(0) == 'v' {
        1
    } else {
        0
    };
    match ver_core_run(t, n, st) {
        Some(e) => {
            if e == n {
                Some(t.substring_char(st, e).to_owned())
            } else {
                None
            }
        },
        None => None,
    }
}

/// A whole string that is a version core, with nothing around it.
pub open spec fn is_version_core(v: Seq<char>) -> bool {
    v.len() > 0 && ver_core_end(v, 0) == Some(v.len() as int)
}

/// A version core embedded in a larger string, followed by a quote, is
/// matched exactly: the core ends where the embedded text ends.
pub proof fn lemma_ver_core_embedded(s: Seq<char>, base: int, v: Seq<char>)
    requires
        is_version_core(v),
        0 <= base,
        base + v.len() < s.len(),
        forall|j: int| 0 <= j < v.len() ==> s[base + j] == #[trigger] v[j],
        s[base + v.len()] == '"',
    ensures
        ver_core_end(s, base) == Some(base + v.len()),
{
    let n = v.len() as int;
    let d1 = crate::text::digit_end(v, 0);
    crate::text::lemma_digit_end_chars(v, 0);
    assert(d1 > 0 && d1 < n && v[d1] == '.');
    assert forall|t: int| base <= t < base + d1 implies is_digit(s[t]) by {
        assert(s[t] == v[t - base]);
    }
    assert(s[base + d1] == v[d1]);
    crate::text::lemma_digit_end_local(s, base, base + d1);
    let d2 = crate::text::digit_end(v, d1 + 1);
    crate::text::lemma_digit_end_chars(v, d1 + 1);
    assert(d2 > d1 + 1 && d2 < n && v[d2] == '.');
    assert forall|t: int| base + d1 + 1 <= t < base + d2 implies is_digit(s[t]) by {
        assert(s[t] == v[t - base]);
    }
    assert(s[base + d2] == v[d2]);
    crate::text::lemma_digit_end_local(s, base + d1 + 1, base + d2);
    let d3 = crate::text::digit_end(v, d2 + 1);
    crate::text::lemma_digit_end_chars(v, d2 + 1);
    assert(d3 > d2 + 1);
    assert forall|t: int| base + d2 + 1 <= t < base + d3 implies is_digit(s[t]) by {
        assert(s[t] == v[t - base]);
    }
    if d3 < n {
        assert(!is_digit(v[d3]));
        assert(s[base + d3] == v[d3]);
    }
    crate::text::lemma_digit_end_local(s, base + d2 + 1, base + d3);
    let q: int = if d3 < n && v[d3] == '-' {
        let e = crate::text::ver_ident_end(v, d3 + 1);
        crate::text::lemma_ver_ident_end_chars(v, d3 + 1);
        assert(e > d3 + 1);
        assert forall|t: int| base + d3 + 1 <= t < base + e implies is_ver_ident(s[t]) by {
            assert(s[t] == v[t - base]);
        }
        if e < n {
            assert(s[base + e] == v[e]);
        }
        crate::text::lemma_ver_ident_end_local(s, base + d3 + 1, base + e);
        e
    } else {
        d3
    };
    if q < n {
        assert(s[base + q] == v[q]);
    }
    if q < n && v[q] == '+' {
        let e2 = crate::text::ver_ident_end(v, q + 1);
        crate::text::lemma_ver_ident_end_chars(v, q + 1);
        assert(e2 > q + 1);
        assert(e2 == n);
        assert forall|t: int| base + q + 1 <= t < base + e2 implies is_ver_ident(s[t]) by {
            assert(s[t] == v[t - base]);
        }
        crate::text::lemma_ver_ident_end_local(s, base + q + 1, base + e2);
        assert(ver_core_end(s, base) == Some(base + n));
    } else {
        assert(q == n);
        assert(ver_core_end(s, base) == Some(base + n));
    }
}

/// One character of a matched keyword, for instantiating the match.
pub proof fn lemma_kw_ci_char(s: Seq<char>, i: int, kw: Seq<char>, j: int)
    requires
        kw_ci_at(s, i, kw),
        0 <= j < kw.len(),
    ensures
        eq_ci(s[i + j], kw[j]),
{
}

/// An assignment match starts with `const` or `var`, so its first
/// character is a `c` or a `v` of either case.
pub proof fn lemma_assign_head(s: Seq<char>, i: int)
    requires
        assign_at(s, i) is Some,
    ensures
        eq_ci(s[i], 'c') || eq_ci(s[i], 'v'),
{
    reveal_strlit("const");
    reveal_strlit("var");
    if kw_ci_at(s, i, "const"@) {
        lemma_kw_ci_char(s, i, "const"@, 0);
        assert(s[i + 0] == s[i]);
    } else {
        assert(kw_ci_at(s, i, "var"@));
        lemma_kw_ci_char(s, i, "var"@, 0);
        assert(s[i + 0] == s[i]);
    }
}

/// Scanning for the leftmost assignment may skip any match-free span.
pub proof fn lemma_first_assign_skip(s: Seq<char>, p: int, q: int)
    requires
        0 <= p <= q <= s.len(),
        forall|i: int| p <= i < q ==> #[trigger] assign_at(s, i) is None,
    ensures
        first_assign(s, p) == first_assign(s, q),
    decreases q - p,
{
    if p < q {
        lemma_first_assign_skip(s, p + 1, q);
    }
}

/// The version a tag line yields for `module`: a `<module>/<core>` tag is
/// preferred, a bare version tag accepted; the line is trimmed first.
pub open spec fn tag_version(raw: Seq<char>, module: Seq<char>) -> Option<Seq<char>> {
    let t = trim_spec(raw);
    let pref = module + "/"@;
    if starts_with(t, pref) && anchored_version(
        t.subrange(pref.len() as int, t.len() as int),
    ) is Some {
        anchored_version(t.subrange(pref.len() as int, t.len() as int))
    } else {
        anchored_version(t)
    }
}

pub fn tag_version_exec(raw: &str, module: &str) -> (r: Option<String>)
    ensures
        r.deep_view() == tag_version(raw@, module@),
{
    proof {
        reveal_strlit("/");
    }
    let t = trim(raw);
    let tn = t.unicode_len();
    let pref = String::from_str(module).concat("/");
    let prefn = pref.as_str().unicode_len();
    if str_starts_with(t, pref.as_str()) {
        let stripped = t.substring_char(prefn, tn);
        let r = anchored_version_exec(stripped);
        if r.is_some() {
            return r;
        }
    }
    anchored_version_exec(t)
}

/// The first tag line, in the given order, that yields a version.
pub open spec fn first_tag(lines: Seq<Seq<char>>, i: int, module: Seq<char>) -> Option<Seq<char>>
    decreases lines.len() - i,
{
    if 0 <= i < lines.len() {
        if tag_version(lines[i], module) is Some {
            tag_version(lines[i], module)
        } else {
            first_tag(lines, i + 1, module)
        }
    } else {
        None
    }
}

/// The version the whole tag listing yields for `module`.
pub open spec fn tags_version_spec(tags: Seq<char>, module: Seq<char>) -> Option<Seq<char>> {
    first_tag(split_lines_spec(tags), 0, module)
}

pub fn tags_version_exec(tags: &str, module: &str) -> (r: Option<String>)
    ensures
        r.deep_view() == tags_version_spec(tags@, module@),
{
    let lines = split_lines(tags);
    let ghost lv = lines.deep_view();
    let mut i: usize = 0;
    proof {
        assert(lv.len() == lines@.len());
    }
    while i < lines.len()
        invariant
            i <= lines.len(),
            lv == lines.deep_view(),
            lv.len() == lines@.len(),
            lv == split_lines_spec(tags@),
            first_tag(lv, 0, module@) == first_tag(lv, i as int, module@),
        decreases lines.len() - i,
    {
        proof {
            assert(lines@[i as int].deep_view() == lv[i as int]);
        }
        let r = tag_version_exec(lines[i].as_str(), module);
        if r.is_some() {
            return r;
        }
        i = i + 1;
    }
    None
}

/// A version assignment `(const|var) version = "v?<core>"` matched at
/// position `i` (keywords case-insensitive): the index after the opening
/// quote, the start of the core (after an optional `v`), and the index of
/// the closing quote.
pub open spec fn assign_at(s: Seq<char>, i: int) -> Option<(int, int, int)> {
    let k = if kw_ci_at(s, i, "const"@) {
        Some(i + "const"@.len())
    } else if kw_ci_at(s, i, "var"@) {
        Some(i + "var"@.len())
    } else {
        None::<int>
    };
    match k {
        Some(k2) => if k2 < s.len() && is_space(s[k2]) {
            let j = space_end(s, k2);
            if kw_ci_at(s, j, "version"@) {
                let j2 = space_end(s, j + "version"@.len());
                if j2 < s.len() && s[j2] == '=' {
                    let j3 = space_end(s, j2 + 1);
                    if j3 < s.len() && s[j3] == '"' {
                        let slot = j3 + 1;
                        let cap: int = if slot < s.len() && (s[slot] == 'v' || s[slot] == 'V') {
                            slot + 1
                        } else {
                            slot
                        };
                        match ver_core_end(s, cap) {
                            Some(e) => if e < s.len() && s[e] == '"' {
                                Some((slot, cap, e))
                            } else {
                                None
                            },
                            None => None,
                        }
                    } else {
                        None
                    }
                } else {
                    None
                }
            } else {
                None
            }
        } else {
            None
        },
        None => None,
    }
}

pub fn assign_at_exec(s: &str, n: usize, i: usize) -> (r: Option<(usize, usize, usize)>)
    requires
        n == s@.len(),
        i <= n,
    ensures
        match r {
            Some(m) => assign_at(s@, i as int) == Some((m.0 as int, m.1 as int, m.2 as int))
                && m.0 <= m.1 <= m.2 < n,
            None => assign_at(s@, i as int) is None,
        },
{
    proof {
        reveal_strlit("const");
        reveal_strlit("var");
        reveal_strlit("version");
    }
    let k2: usize;
    if kw_ci_exec(s, n, i, "const", 5) {
        k2 = i + 5;
    } else if kw_ci_exec(s, n, i, "var", 3) {
        k2 = i + 3;
    } else {
        return None;
    }
    if !(k2 < n && space_char(s.get_char(k2))) {
        return None;
    }
    let j = space_run(s, n, k2);
    if !kw_ci_exec(s, n, j, "version", 7) {
        return None;
    }
    let j2 = space_run(s, n, j + 7);
    if !(j2 < n && s.get_char(j2) == '=') {
        return None;
    }
    let j3 = space_run(s, n, j2 + 1);
    if !(j3 < n && s.get_char(j3) == '"') {
        return None;
    }
    let slot = j3 + 1;
    let cap: usize = if slot < n && (s.get_char(slot) == 'v' || s.get_char(slot) == 'V') {
        slot + 1
    } else {
        slot
    };
    if cap > n {
        return None;
    }
    match ver_core_run(s, n, cap) {
        Some(e) => {
            if e < n && s.get_char(e) == '"' {
                Some((slot, cap, e))
            } else {
                None
            }
        },
        None => None,
    }
}

/// The leftmost version assignment in `s`.
pub open spec fn first_assign(s: Seq<char>, i: int) -> Option<(int, int, int)>
    decreases s.len() - i,
{
    if 0 <= i < s.len() {
        if assign_at(s, i) is Some {
            assign_at(s, i)
        } else {
            first_assign(s, i + 1)
        }
    } else {
        None
    }
}

pub fn first_assign_exec(s: &str) -> (r: Option<(usize, usize, usize)>)
    ensures
        match r {
            Some(m) => first_assign(s@, 0) == Some((m.0 as int, m.1 as int, m.2 as int)) && m.0
                <= m.1 <= m.2 < s@.len(),
            None => first_assign(s@, 0) is None,
        },
{
    let n = s.unicode_len();
    let mut i: usize = 0;
    while i < n
        invariant
            i <= n,
            n == s@.len(),
            first_assign(s@, 0) == first_assign(s@, i as int),
        decreases n - i,
    {
        let r = assign_at_exec(s, n, i);
        if r.is_some() {
            return r;
        }
        i = i + 1;
    }
    None
}

/// The version the version-declaration file yields: the core captured by
/// the leftmost assignment, without any leading `v`.
pub open spec fn extract_version_spec(s: Seq<char>) -> Option<Seq<char>> {
    match first_assign(s, 0) {
        Some(m) => Some(s.subrange(m.1, m.2)),
        None => None,
    }
}

pub fn extract_version_exec(s: &str) -> (r: Option<String>)
    ensures
        r.deep_view() == extract_version_spec(s@),
{
    match first_assign_exec(s) {
        Some((_slot, cap, e)) => Some(s.substring_char(cap, e).to_owned()),
        None => None,
    }
}

/// The file created when no version-declaration file exists yet.
pub open spec fn boilerplate(v: Seq<char>) -> Seq<char> {
    "package main\n\n// Version is the current version of the module.\nconst Version = \""@ + v
        + "\"\n"@
}

pub fn boilerplate_exec(v: &str) -> (r: String)
    ensures
        r@ == boilerplate(v@),
{
    String::from_str(
        "package main\n\n// Version is the current version of the module.\nconst Version = \"",
    ).concat(v).concat("\"\n")
}

/// The file with the version literal of its first assignment replaced by
/// `v`; a file with no assignment is left unchanged.
pub open spec fn update_content_spec(s: Seq<char>, v: Seq<char>) -> Seq<char> {
    match first_assign(s, 0) {
        Some(m) => s.subrange(0, m.0) + v + s.subrange(m.2, s.len() as int),
        None => s,
    }
}

pub fn update_content_exec(s: &str, v: &str) -> (r: String)
    ensures
        r@ == update_content_spec(s@, v@),
{
    let n = s.unicode_len();
    match first_assign_exec(s) {
        Some((slot, _cap, e)) => {
            let out = s.substring_char(0, slot).to_owned().concat(v).concat(
                s.substring_char(e, n),
            );
            out
        },
        None => s.to_owned(),
    }
}

/// The view of an optional borrowed string.
pub open spec fn opt_view(o: Option<&str>) -> Option<Seq<char>> {
    match o {
        Some(s) => Some(s@),
        None => None,
    }
}

/// The resolved version: the version file wins, then the tag listing,
/// then the default `0.0.0`.  `None` stands for an absent file or an
/// unavailable version-control tool.
pub open spec fn get_version_spec(
    vg: Option<Seq<char>>,
    tags: Option<Seq<char>>,
    module: Seq<char>,
) -> Seq<char> {
    if vg is Some && extract_version_spec(vg->0) is Some {
        extract_version_spec(vg->0)->0
    } else if tags is Some && tags_version_spec(tags->0, module) is Some {
        tags_version_spec(tags->0, module)->0
    } else {
        "0.0.0"@
    }
}

} // verus!
