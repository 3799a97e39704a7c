use vstd::prelude::*;

verus! {

use vstd::string::StrSliceExecFns;

/// First index at or after `from` where `c` occurs in `s`, if any.
pub open spec fn spec_find(s: Seq<char>, from: int, c: char) -> Option<int>
    decreases s.len() - from,
{
    if from < 0 || from >= s.len() {
        None
    } else if s[from] == c {
        Some(from)
    } else {
        spec_find(s, from + 1, c)
    }
}

pub proof fn lemma_find(s: Seq<char>, from: int, c: char)
    requires
        0 <= from,
    ensures
        match spec_find(s, from, c) {
            Some(j) => from <= j < s.len() && s[j] == c && (forall|k: int|
                from <= k < j ==> s[k] != c),
            None => forall|k: int| from <= k < s.len() ==> s[k] != c,
        },
    decreases s.len() - from,
{
    if from < 0 || from >= s.len() {
    } else if s[from] == c {
    } else {
        lemma_find(s, from + 1, c);
    }
}

/// First occurrence of `c` in `s` at or after `from`.
pub fn find_char(s: &str, from: usize, c: char) -> (r: Option<usize>)
    ensures
        match r {
            Some(j) => spec_find(s@, from as int, c) == Some(j as int),
            None => spec_find(s@, from as int, c) is None,
        },
{
    let n = s.unicode_len();
    let mut i = from;
    while i < n
        invariant
            from <= i,
            n == s@.len(),
            spec_find(s@, from as int, c) == spec_find(s@, i as int, c),
        decreases n - i,
    {
        if s.get_char(i) == c {
            return Some(i);
        }
        i += 1;
    }
    None
}

pub open spec fn is_ws(c: char) -> bool {
    c == ' ' || c == '\t' || c == '\n' || c == '\r'
}

/// First index at or after `from` holding a whitespace character.
pub open spec fn spec_find_ws(s: Seq<char>, from: int) -> Option<int>
    decreases s.len() - from,
{
    if from < 0 || from >= s.len() {
        None
    } else if is_ws(s[from]) {
        Some(from)
    } else {
        spec_find_ws(s, from + 1)
    }
}

pub proof fn lemma_find_ws(s: Seq<char>, from: int)
    ensures
        match spec_find_ws(s, from) {
            Some(j) => from <= j < s.len() && is_ws(s[j]),
            None => true,
        },
    decreases s.len() - from,
{
    if from < 0 || from >= s.len() {
    } else if is_ws(s[from]) {
    } else {
        lemma_find_ws(s, from + 1);
    }
}

pub fn find_ws(s: &str, from: usize) -> (r: Option<usize>)
    ensures
        match r {
            Some(j) => spec_find_ws(s@, from as int) == Some(j as int),
            None => spec_find_ws(s@, from as int) is None,
        },
{
    let n = s.unicode_len();
    let mut i = from;
    while i < n
        invariant
            from <= i,
            n == s@.len(),
            spec_find_ws(s@, from as int) == spec_find_ws(s@, i as int),
        decreases n - i,
    {
        let ch = s.get_char(i);
        if ch == ' ' || ch == '\t' || ch == '\n' || ch == '\r' {
            return Some(i);
        }
        i += 1;
    }
    None
}

/// Character-for-character equality of two string slices.
pub fn str_eq(a: &str, b: &str) -> (r: bool)
    ensures
        r == (a@ == b@),
{
    let na = a.unicode_len();
    let nb = b.unicode_len();
    if na != nb {
        return false;
    }
    let mut i: usize = 0;
    while i < na
        invariant
            i <= na,
            na == a@.len(),
            nb == b@.len(),
            na == nb,
            forall|k: int| 0 <= k < i ==> a@[k] == b@[k],
        decreases na - i,
    {
        if a.get_char(i) != b.get_char(i) {
            return false;
        }
        i += 1;
    }
    proof {
        assert(a@ =~= b@);
    }
    true
}

/// `n` occurs verbatim in `h` starting at position `i`.
pub open spec fn match_at(h: Seq<char>, n: Seq<char>, i: int) -> bool {
    &&& 0 <= i
    &&& i + n.len() <= h.len()
    &&& h.subrange(i, i + n.len() as int) == n
}

/// First position at or after `from` where `n` occurs in `h`.
pub open spec fn spec_find_sub(h: Seq<char>, n: Seq<char>, from: int) -> Option<int>
    decreases h.len() - from + 1,
{
    if from < 0 || from + n.len() > h.len() {
        None
    } else if match_at(h, n, from) {
        Some(from)
    } else {
        spec_find_sub(h, n, from + 1)
    }
}

pub proof fn lemma_find_sub(h: Seq<char>, n: Seq<char>, from: int)
    ensures
        match spec_find_sub(h, n, from) {
            Some(j) => from <= j && j + n.len() <= h.len() && match_at(h, n, j),
            None => true,
        },
    decreases h.len() - from + 1,
{
    if from < 0 || from + n.len() > h.len() {
    } else if match_at(h, n, from) {
    } else {
        lemma_find_sub(h, n, from + 1);
    }
}

fn match_at_exec(h: &str, n: &str, i: usize) -> (r: bool)
    requires
        i + n@.len() <= h@.len(),
    ensures
        r == match_at(h@, n@, i as int),
{
    let m = n.unicode_len();
    let nh = h.unicode_len();
    let mut k: usize = 0;
    while k < m
        invariant
            k <= m,
            m == n@.len(),
            nh == h@.len(),
            i + m <= h@.len(),
            forall|t: int| 0 <= t < k ==> h@[i + t] == n@[t],
        decreases m - k,
    {
        if h.get_char(i + k) != n.get_char(k) {
            proof {
                assert(h@.subrange(i as int, i + n@.len() as int)[k as int] != n@[k as int]);
            }
            return false;
        }
        k += 1;
    }
    proof {
        assert(h@.subrange(i as int, i + n@.len() as int) =~= n@);
    }
    true
}

/// First occurrence of `n` inside `h`, scanning from the start.
pub fn find_sub(h: &str, n: &str) -> (r: Option<usize>)
    ensures
        match r {
            Some(j) => spec_find_sub(h@, n@, 0) == Some(j as int),
            None => spec_find_sub(h@, n@, 0) is None,
        },
{
    let nh = h.unicode_len();
    let nn = n.unicode_len();
    if nn > nh {
        return None;
    }
    if nn == 0 {
        proof {
            assert(h@.subrange(0, 0) =~= n@);
        }
        return Some(0);
    }
    let mut i: usize = 0;
    while i <= nh - nn
        invariant
            nh == h@.len(),
            nn == n@.len(),
            0 < nn <= nh,
            i <= nh - nn + 1,
            spec_find_sub(h@, n@, 0) == spec_find_sub(h@, n@, i as int),
        decreases nh - nn - i + 1,
    {
        if match_at_exec(h, n, i) {
            return Some(i);
        }
        i += 1;
    }
    None
}

/// The lower-case code of a character: ASCII letters fold, all else is unchanged.
pub open spec fn lower_code(c: char) -> int {
    if 65 <= c as int && c as int <= 90 {
        c as int + 32
    } else {
        c as int
    }
}

/// Case-insensitive character equality (ASCII folding).
pub open spec fn eq_ci(a: char, b: char) -> bool {
    lower_code(a) == lower_code(b)
}

fn eq_ci_exec(a: char, b: char) -> (r: bool)
    ensures
        r == eq_ci(a, b),
{
    let ua = a as u32;
    let ub = b as u32;
    let la = if 65 <= ua && ua <= 90 {
        ua + 32
    } else {
        ua
    };
    let lb = if 65 <= ub && ub <= 90 {
        ub + 32
    } else {
        ub
    };
    la == lb
}

/// `n` occurs at position `i` of `h` up to ASCII case.
pub open spec fn ci_match_at(h: Seq<char>, n: Seq<char>, i: int) -> bool {
    &&& 0 <= i
    &&& i + n.len() <= h.len()
    &&& forall|k: int| 0 <= k < n.len() ==> eq_ci(h[i + k], n[k])
}

/// `h` contains `n` as a substring up to ASCII case.
pub open spec fn contains_ci(h: Seq<char>, n: Seq<char>) -> bool {
    exists|i: int| ci_match_at(h, n, i)
}

fn ci_match_at_exec(h: &str, n: &str, i: usize) -> (r: bool)
    requires
        i + n@.len() <= h@.len(),
    ensures
        r == ci_match_at(h@, n@, i as int),
{
    let m = n.unicode_len();
    let nh = h.unicode_len();
    let mut k: usize = 0;
    while k < m
        invariant
            k <= m,
            m == n@.len(),
            nh == h@.len(),
            i + m <= h@.len(),
            forall|t: int| 0 <= t < k ==> eq_ci(h@[i + t], n@[t]),
        decreases m - k,
    {
        if !eq_ci_exec(h.get_char(i + k), n.get_char(k)) {
            return false;
        }
        k += 1;
    }
    true
}

/// Case-insensitive substring search.
pub fn contains_ci_exec(h: &str, n: &str) -> (r: bool)
    ensures
        r == contains_ci(h@, n@),
{
    let nh = h.unicode_len();
    let nn = n.unicode_len();
    if nn > nh {
        proof {
            assert(forall|i: int| !ci_match_at(h@, n@, i));
        }
        return false;
    }
    if nn == 0 {
        proof {
            assert(ci_match_at(h@, n@, 0));
        }
        return true;
    }
    let mut i: usize = 0;
    while i <= nh - nn
        invariant
            nh == h@.len(),
            nn == n@.len(),
            0 < nn <= nh,
            i <= nh - nn + 1,
            forall|t: int| 0 <= t < i ==> !ci_match_at(h@, n@, t),
        decreases nh - nn - i + 1,
    {
        if ci_match_at_exec(h, n, i) {
            return true;
        }
        i += 1;
    }
    proof {
        assert(forall|t: int| t > nh - nn ==> !ci_match_at(h@, n@, t));
    }
    false
}

/// Two queries are case-equivalent when they fold to the same characters.
pub open spec fn case_equiv(a: Seq<char>, b: Seq<char>) -> bool {
    a.len() == b.len() && forall|k: int| 0 <= k < a.len() ==> eq_ci(a[k], b[k])
}

/// Case-insensitive containment cannot tell case-equivalent needles apart.
pub proof fn lemma_contains_ci_case_equiv(h: Seq<char>, a: Seq<char>, b: Seq<char>)
    requires
        case_equiv(a, b),
    ensures
        contains_ci(h, a) == contains_ci(h, b),
{
    if contains_ci(h, a) {
        let i = choose|i: int| ci_match_at(h, a, i);
        assert(ci_match_at(h, b, i));
    }
    if contains_ci(h, b) {
        let i = choose|i: int| ci_match_at(h, b, i);
        assert(ci_match_at(h, a, i));
    }
}

/// Lexicographic order on character sequences, by code point.
pub open spec fn lex_le(a: Seq<char>, b: Seq<char>) -> bool
    decreases a.len(),
{
    if a.len() == 0 {
        true
    } else if b.len() == 0 {
        false
    } else if (a[0] as int) < (b[0] as int) {
        true
    } else if (a[0] as int) > (b[0] as int) {
        false
    } else {
        lex_le(a.drop_first(), b.drop_first())
    }
}

pub proof fn lemma_lex_le_total(a: Seq<char>, b: Seq<char>)
    ensures
        lex_le(a, b) || lex_le(b, a),
    decreases a.len(),
{
    if a.len() == 0 || b.len() == 0 {
    } else if (a[0] as int) == (b[0] as int) {
        lemma_lex_le_total(a.drop_first(), b.drop_first());
    }
}

pub proof fn lemma_lex_le_trans(a: Seq<char>, b: Seq<char>, c: Seq<char>)
    requires
        lex_le(a, b),
        lex_le(b, c),
    ensures
        lex_le(a, c),
    decreases a.len(),
{
    if a.len() == 0 {
    } else if b.len() == 0 || c.len() == 0 {
    } else if (a[0] as int) == (b[0] as int) && (b[0] as int) == (c[0] as int) {
        lemma_lex_le_trans(a.drop_first(), b.drop_first(), c.drop_first());
    }
}

/// Lexicographic comparison of two string slices.
pub fn str_le(a: &str, b: &str) -> (r: bool)
    ensures
        r == lex_le(a@, b@),
{
    let na = a.unicode_len();
    let nb = b.unicode_len();
    let mut i: usize = 0;
    proof {
        assert(a@.skip(0) =~= a@);
        assert(b@.skip(0) =~= b@);
    }
    loop
        invariant
            i <= na,
            i <= nb,
            na == a@.len(),
            nb == b@.len(),
            lex_le(a@, b@) == lex_le(a@.skip(i as int), b@.skip(i as int)),
        decreases na - i,
    {
        if i >= na {
            proof {
                assert(a@.skip(i as int).len() == 0);
            }
            return true;
        }
        if i >= nb {
            proof {
                assert(b@.skip(i as int).len() == 0);
                assert(a@.skip(i as int).len() > 0);
            }
            return false;
        }
        let ca = a.get_char(i) as u32;
        let cb = b.get_char(i) as u32;
        proof {
            assert(a@.skip(i as int)[0] == a@[i as int]);
            assert(b@.skip(i as int)[0] == b@[i as int]);
        }
        if ca < cb {
            return true;
        }
        if ca > cb {
            return false;
        }
        proof {
            assert(a@.skip(i as int).drop_first() =~= a@.skip(i as int + 1));
            assert(b@.skip(i as int).drop_first() =~= b@.skip(i as int + 1));
        }
        i += 1;
    }
}

} // verus!
