//! Character classes, runs, trimming and line splitting over strings.
//!
//! The manifest grammar is line-oriented; every scanning primitive the
//! parsers need is defined here twice: a spec function over `Seq<char>`
//! that states what the value is, and an executable function proved to
//! return exactly that value.

use vstd::prelude::*;

verus! {

/// Blank space as the manifest grammar understands it.
pub open spec fn is_space(c: char) -> bool {
    c == ' ' || c == '\t' || c == '\n' || c == '\r' || c == '\u{000B}' || c == '\u{000C}'
}

pub open spec fn is_digit(c: char) -> bool {
    48 <= c as u32 && c as u32 <= 57
}

/// Characters of a toolchain version number: digits and dots.
pub open spec fn is_num_dot(c: char) -> bool {
    is_digit(c) || c == '.'
}

pub open spec fn is_alpha(c: char) -> bool {
    (97 <= c as u32 && c as u32 <= 122) || (65 <= c as u32 && c as u32 <= 90)
}

/// Characters of a pre-release or build identifier in a version.
pub open spec fn is_ver_ident(c: char) -> bool {
    is_alpha(c) || is_digit(c) || c == '.' || c == '-'
}

pub fn space_char(c: char) -> (r: bool)
    ensures
        r == is_space(c),
{
    c == ' ' || c == '\t' || c == '\n' || c == '\r' || c == '\u{000B}' || c == '\u{000C}'
}

pub fn digit_char(c: char) -> (r: bool)
    ensures
        r == is_digit(c),
{
    let u = c as u32;
    48 <= u && u <= 57
}

pub fn num_dot_char(c: char) -> (r: bool)
    ensures
        r == is_num_dot(c),
{
    digit_char(c) || c == '.'
}

pub fn ver_ident_char(c: char) -> (r: bool)
    ensures
        r == is_ver_ident(c),
{
    let u = c as u32;
    (97 <= u && u <= 122) || (65 <= u && u <= 90) || digit_char(c) || c == '.' || c == '-'
}

/// End of the maximal run of blank space starting at `i`.
pub open spec fn space_end(s: Seq<char>, i: int) -> int
    decreases s.len() - i,
{
    if 0 <= i < s.len() && is_space(s[i]) {
        space_end(s, i + 1)
    } else {
        i
    }
}

/// End of the maximal run of non-space characters starting at `i`.
pub open spec fn token_end(s: Seq<char>, i: int) -> int
    decreases s.len() - i,
{
    if 0 <= i < s.len() && !is_space(s[i]) {
        token_end(s, i + 1)
    } else {
        i
    }
}

/// End of the maximal run of digits starting at `i`.
pub open spec fn digit_end(s: Seq<char>, i: int) -> int
    decreases s.len() - i,
{
    if 0 <= i < s.len() && is_digit(s[i]) {
        digit_end(s, i + 1)
    } else {
        i
    }
}

/// End of the maximal run of digits and dots starting at `i`.
pub open spec fn num_dot_end(s: Seq<char>, i: int) -> int
    decreases s.len() - i,
{
    if 0 <= i < s.len() && is_num_dot(s[i]) {
        num_dot_end(s, i + 1)
    } else {
        i
    }
}

/// End of the maximal run of version-identifier characters starting at `i`.
pub open spec fn ver_ident_end(s: Seq<char>, i: int) -> int
    decreases s.len() - i,
{
    if 0 <= i < s.len() && is_ver_ident(s[i]) {
        ver_ident_end(s, i + 1)
    } else {
        i
    }
}

pub fn space_run(s: &str, n: usize, i: usize) -> (r: usize)
    requires
        n == s@.len(),
        i <= n,
    ensures
        r == space_end(s@, i as int),
        i <= r <= n,
{
    let mut j = i;
    while j < n && space_char(s.get_char(j))
        invariant
            i <= j <= n,
            n == s@.len(),
            space_end(s@, i as int) == space_end(s@, j as int),
        decreases n - j,
    {
        j = j + 1;
    }
    assert(space_end(s@, j as int) == j);
    j
}

pub fn token_run(s: &str, n: usize, i: usize) -> (r: usize)
    requires
        n == s@.len(),
        i <= n,
    ensures
        r == token_end(s@, i as int),
        i <= r <= n,
{
    let mut j = i;
    while j < n && !space_char(s.get_char(j))
        invariant
            i <= j <= n,
            n == s@.len(),
            token_end(s@, i as int) == token_end(s@, j as int),
        decreases n - j,
    {
        j = j + 1;
    }
    assert(token_end(s@, j as int) == j);
    j
}

pub fn digit_run(s: &str, n: usize, i: usize) -> (r: usize)
    requires
        n == s@.len(),
        i <= n,
    ensures
        r == digit_end(s@, i as int),
        i <= r <= n,
{
    let mut j = i;
    while j < n && digit_char(s.get_char(j))
        invariant
            i <= j <= n,
            n == s@.len(),
            digit_end(s@, i as int) == digit_end(s@, j as int),
        decreases n - j,
    {
        j = j + 1;
    }
    assert(digit_end(s@, j as int) == j);
    j
}

pub fn num_dot_run(s: &str, n: usize, i: usize) -> (r: usize)
    requires
        n == s@.len(),
        i <= n,
    ensures
        r == num_dot_end(s@, i as int),
        i <= r <= n,
{
    let mut j = i;
    while j < n && num_dot_char(s.get_char(j))
        invariant
            i <= j <= n,
            n == s@.len(),
            num_dot_end(s@, i as int) == num_dot_end(s@, j as int),
        decreases n - j,
    {
        j = j + 1;
    }
    assert(num_dot_end(s@, j as int) == j);
    j
}

pub fn ver_ident_run(s: &str, n: usize, i: usize) -> (r: usize)
    requires
        n == s@.len(),
        i <= n,
    ensures
        r == ver_ident_end(s@, i as int),
        i <= r <= n,
{
    let mut j = i;
    while j < n && ver_ident_char(s.get_char(j))
        invariant
            i <= j <= n,
            n == s@.len(),
            ver_ident_end(s@, i as int) == ver_ident_end(s@, j as int),
        decreases n - j,
    {
        j = j + 1;
    }
    assert(ver_ident_end(s@, j as int) == j);
    j
}

/// `l` begins with `p`.
pub open spec fn starts_with(l: Seq<char>, p: Seq<char>) -> bool {
    l.len() >= p.len() && (forall|j: int| 0 <= j < p.len() ==> l[j] == p[j])
}

pub fn str_starts_with(l: &str, p: &str) -> (r: bool)
    ensures
        r == starts_with(l@, p@),
{
    let nl = l.unicode_len();
    let np = p.unicode_len();
    if nl < np {
        return false;
    }
    let mut j: usize = 0;
    while j < np
        invariant
            j <= np,
            np <= nl,
            nl == l@.len(),
            np == p@.len(),
            forall|k: int| 0 <= k < j ==> l@[k] == p@[k],
        decreases np - j,
    {
        if l.get_char(j) != p.get_char(j) {
            return false;
        }
        j = j + 1;
    }
    true
}

pub fn str_eq(a: &str, b: &str) -> (r: bool)
    ensures
        r == (a@ == b@),
{
    let na = a.unicode_len();
    let nb = b.unicode_len();
    if na != nb {
        return false;
    }
    let mut j: usize = 0;
    while j < na
        invariant
            j <= na,
            na == a@.len(),
            na == b@.len(),
            forall|k: int| 0 <= k < j ==> a@[k] == b@[k],
        decreases na - j,
    {
        if a.get_char(j) != b.get_char(j) {
            assert(a@ != b@);
            return false;
        }
        j = j + 1;
    }
    assert(a@ =~= b@);
    true
}

/// Start of the maximal run of blank space that ends at `i`, scanning left.
pub open spec fn rspace_start(s: Seq<char>, i: int) -> int
    decreases i,
{
    if 0 < i <= s.len() && is_space(s[i - 1]) {
        rspace_start(s, i - 1)
    } else {
        i
    }
}

pub proof fn lemma_rspace_start(s: Seq<char>, i: int)
    requires
        0 <= i <= s.len(),
    ensures
        0 <= rspace_start(s, i) <= i,
    decreases i,
{
    if 0 < i && is_space(s[i - 1]) {
        lemma_rspace_start(s, i - 1);
    }
}

/// The line with leading and trailing blank space removed.
pub open spec fn trim_spec(s: Seq<char>) -> Seq<char> {
    let lo = space_end(s, 0);
    let hi = rspace_start(s, s.len() as int);
    if lo <= hi {
        s.subrange(lo, hi)
    } else {
        Seq::empty()
    }
}

pub fn trim<'a>(s: &'a str) -> (r: &'a str)
    ensures
        r@ == trim_spec(s@),
{
    let n = s.unicode_len();
    let lo = space_run(s, n, 0);
    let mut hi = n;
    while lo < hi && space_char(s.get_char(hi - 1))
        invariant
            lo <= hi <= n,
            n == s@.len(),
            lo == space_end(s@, 0),
            rspace_start(s@, n as int) == rspace_start(s@, hi as int),
        decreases hi,
    {
        hi = hi - 1;
    }
    proof {
        lemma_rspace_start(s@, hi as int);
        if lo < hi {
            assert(!is_space(s@[hi - 1]));
            assert(rspace_start(s@, hi as int) == hi);
        } else {
            // lo == hi: the whole tail from hi is space, and everything up to
            // lo is space, so the trimmed line is empty either way.
            assert(rspace_start(s@, hi as int) <= hi);
        }
    }
    let r = s.substring_char(lo, hi);
    proof {
        let lo_s = space_end(s@, 0);
        let hi_s = rspace_start(s@, s@.len() as int);
        if lo < hi {
            assert(r@ =~= trim_spec(s@));
        } else {
            assert(hi_s <= hi);
            if lo_s <= hi_s {
                assert(r@ =~= s@.subrange(lo_s, hi_s));
            } else {
                assert(r@ =~= Seq::<char>::empty());
            }
        }
    }
    r
}

/// The lines of `s`, split at every newline character.
pub open spec fn line_break(s: Seq<char>, i: int) -> int
    decreases s.len() - i,
{
    if 0 <= i < s.len() && s[i] != '\n' {
        line_break(s, i + 1)
    } else {
        i
    }
}

pub open spec fn split_from(s: Seq<char>, i: int) -> Seq<Seq<char>>
    decreases s.len() - i,
{
    if 0 <= i <= s.len() {
        let e = line_break(s, i);
        if i <= e < s.len() {
            seq![s.subrange(i, e)] + split_from(s, e + 1)
        } else if i <= e && e == s.len() {
            seq![s.subrange(i, e)]
        } else {
            Seq::empty()
        }
    } else {
        Seq::empty()
    }
}

pub open spec fn split_lines_spec(s: Seq<char>) -> Seq<Seq<char>> {
    split_from(s, 0)
}

pub fn split_lines(s: &str) -> (r: Vec<String>)
    ensures
        r.deep_view() == split_lines_spec(s@),
{
    let n = s.unicode_len();
    let mut r: Vec<String> = Vec::new();
    let mut i: usize = 0;
    loop
        invariant
            i <= n,
            n == s@.len(),
            r.deep_view() + split_from(s@, i as int) =~= split_from(s@, 0),
        decreases n - i,
    {
        let mut e = i;
        while e < n && s.get_char(e) != '\n'
            invariant
                i <= e <= n,
                n == s@.len(),
                line_break(s@, i as int) == line_break(s@, e as int),
            decreases n - e,
        {
            e = e + 1;
        }
        assert(line_break(s@, i as int) == e);
        let line = s.substring_char(i, e).to_owned();
        let ghost old_deep = r.deep_view();
        r.push(line);
        proof {
            assert(r.deep_view() =~= old_deep.push(line@));
        }
        if e < n {
            proof {
                assert(split_from(s@, i as int) =~= seq![s@.subrange(i as int, e as int)]
                    + split_from(s@, e + 1));
                assert(r.deep_view() + split_from(s@, e + 1) =~= split_from(s@, 0));
            }
            i = e + 1;
        } else {
            proof {
                assert(split_from(s@, i as int) =~= seq![s@.subrange(i as int, e as int)]);
                assert(r.deep_view() + Seq::<Seq<char>>::empty() =~= split_from(s@, 0));
                assert(r.deep_view() =~= split_from(s@, 0));
            }
            return r;
        }
    }
}

/// What a digit run looks like: every character before its end is a
/// digit, the character at its end (if any) is not.
pub proof fn lemma_digit_end_chars(s: Seq<char>, i: int)
    requires
        0 <= i <= s.len(),
    ensures
        i <= digit_end(s, i) <= s.len(),
        forall|j: int| i <= j < digit_end(s, i) ==> is_digit(s[j]),
        digit_end(s, i) < s.len() ==> !is_digit(s[digit_end(s, i)]),
    decreases s.len() - i,
{
    if i < s.len() && is_digit(s[i]) {
        lemma_digit_end_chars(s, i + 1);
    }
}

/// A digit run's end is determined by those same local facts.
pub proof fn lemma_digit_end_local(s: Seq<char>, i: int, e: int)
    requires
        0 <= i <= e <= s.len(),
        forall|j: int| i <= j < e ==> is_digit(s[j]),
        e < s.len() ==> !is_digit(s[e]),
    ensures
        digit_end(s, i) == e,
    decreases e - i,
{
    if i < e {
        lemma_digit_end_local(s, i + 1, e);
    }
}

/// What a version-identifier run looks like.
pub proof fn lemma_ver_ident_end_chars(s: Seq<char>, i: int)
    requires
        0 <= i <= s.len(),
    ensures
        i <= ver_ident_end(s, i) <= s.len(),
        forall|j: int| i <= j < ver_ident_end(s, i) ==> is_ver_ident(s[j]),
        ver_ident_end(s, i) < s.len() ==> !is_ver_ident(s[ver_ident_end(s, i)]),
    decreases s.len() - i,
{
    if i < s.len() && is_ver_ident(s[i]) {
        lemma_ver_ident_end_chars(s, i + 1);
    }
}

/// A version-identifier run's end is determined by those local facts.
pub proof fn lemma_ver_ident_end_local(s: Seq<char>, i: int, e: int)
    requires
        0 <= i <= e <= s.len(),
        forall|j: int| i <= j < e ==> is_ver_ident(s[j]),
        e < s.len() ==> !is_ver_ident(s[e]),
    ensures
        ver_ident_end(s, i) == e,
    decreases e - i,
{
    if i < e {
        lemma_ver_ident_end_local(s, i + 1, e);
    }
}

/// Two blank-separated tokens starting at `i`: a token, at least one
/// blank, a second token; anything after the second token is ignored.
pub open spec fn match_two_tokens(l: Seq<char>, i: int) -> Option<(Seq<char>, Seq<char>)> {
    let e1 = token_end(l, i);
    let j2 = space_end(l, e1);
    let e2 = token_end(l, j2);
    if i >= 0 && e1 > i && j2 > e1 && e2 > j2 {
        Some((l.subrange(i, e1), l.subrange(j2, e2)))
    } else {
        None
    }
}

/// One token starting at `i`.
pub open spec fn match_one_token(l: Seq<char>, i: int) -> Option<Seq<char>> {
    let e1 = token_end(l, i);
    if i >= 0 && e1 > i {
        Some(l.subrange(i, e1))
    } else {
        None
    }
}

pub fn match_two_tokens_exec(l: &str, n: usize, i: usize) -> (r: Option<(String, String)>)
    requires
        n == l@.len(),
        i <= n,
    ensures
        r.deep_view() == match_two_tokens(l@, i as int),
{
    let e1 = token_run(l, n, i);
    if e1 == i {
        return None;
    }
    let j2 = space_run(l, n, e1);
    if j2 == e1 {
        return None;
    }
    let e2 = token_run(l, n, j2);
    if e2 == j2 {
        return None;
    }
    Some((l.substring_char(i, e1).to_owned(), l.substring_char(j2, e2).to_owned()))
}

pub fn one_token_exec(l: &str, n: usize, i: usize) -> (r: Option<String>)
    requires
        n == l@.len(),
        i <= n,
    ensures
        r.deep_view() == match_one_token(l@, i as int),
{
    let e1 = token_run(l, n, i);
    if e1 == i {
        return None;
    }
    Some(l.substring_char(i, e1).to_owned())
}

/// Index just after the last `/` in `s`, or `0` when there is none.
pub open spec fn after_last_slash(s: Seq<char>, i: int) -> int
    decreases i,
{
    if 0 < i <= s.len() {
        if s[i - 1] == '/' {
            i
        } else {
            after_last_slash(s, i - 1)
        }
    } else {
        0
    }
}

/// The final path segment of `s`: everything after the last `/`.
pub open spec fn last_segment(s: Seq<char>) -> Seq<char> {
    s.subrange(after_last_slash(s, s.len() as int), s.len() as int)
}

} // verus!
