//! Verified string utilities shared by the adapters and the renderers.
//!
//! Every executable function here carries an exact contract over the
//! character-sequence view of its inputs; the spec functions are the
//! vocabulary in which the adapters' and renderers' own contracts are
//! stated.

use vstd::prelude::*;

verus! {

/// The whitespace characters the adapters recognise when trimming and
/// tokenising tool output (the ASCII whitespace set).
pub open spec fn is_space_char(c: char) -> bool {
    c == ' ' || c == '\t' || c == '\n' || c == '\r' || c == '\u{b}' || c == '\u{c}'
}

/// Longest suffix of `s` that does not start with a character satisfying `p`.
pub open spec fn drop_leading(s: Seq<char>, p: spec_fn(char) -> bool) -> Seq<char>
    decreases s.len(),
{
    if s.len() > 0 && p(s[0]) {
        drop_leading(s.drop_first(), p)
    } else {
        s
    }
}

/// Longest prefix of `s` that does not end with a character satisfying `p`.
pub open spec fn drop_trailing(s: Seq<char>, p: spec_fn(char) -> bool) -> Seq<char>
    decreases s.len(),
{
    if s.len() > 0 && p(s.last()) {
        drop_trailing(s.drop_last(), p)
    } else {
        s
    }
}

/// `s` with every leading and trailing character satisfying `p` removed.
pub open spec fn trim_by(s: Seq<char>, p: spec_fn(char) -> bool) -> Seq<char> {
    drop_trailing(drop_leading(s, p), p)
}

/// Longest suffix of `s` that does not start with the character `q`.
pub open spec fn drop_leading_char(s: Seq<char>, q: char) -> Seq<char>
    decreases s.len(),
{
    if s.len() > 0 && s[0] == q {
        drop_leading_char(s.drop_first(), q)
    } else {
        s
    }
}

/// Longest prefix of `s` that does not end with the character `q`.
pub open spec fn drop_trailing_char(s: Seq<char>, q: char) -> Seq<char>
    decreases s.len(),
{
    if s.len() > 0 && s.last() == q {
        drop_trailing_char(s.drop_last(), q)
    } else {
        s
    }
}

/// `s` with every leading and trailing occurrence of the character `q`
/// removed.
pub open spec fn trim_quote(s: Seq<char>, q: char) -> Seq<char> {
    drop_trailing_char(drop_leading_char(s, q), q)
}

proof fn lemma_drop_leading_char_range(s: Seq<char>, q: char, k: int)
    requires
        0 <= k <= s.len(),
        forall|j: int| 0 <= j < k ==> s[j] == q,
        k == s.len() || s[k] != q,
    ensures
        drop_leading_char(s, q) == s.skip(k),
    decreases k,
{
    if k == 0 {
        assert(s.skip(0) =~= s);
    } else {
        lemma_drop_leading_char_range(s.drop_first(), q, k - 1);
        assert(s.drop_first().skip(k - 1) =~= s.skip(k));
    }
}

proof fn lemma_drop_trailing_char_range(s: Seq<char>, q: char, k: int)
    requires
        0 <= k <= s.len(),
        forall|j: int| k <= j < s.len() ==> s[j] == q,
        k == 0 || s[k - 1] != q,
    ensures
        drop_trailing_char(s, q) == s.take(k),
    decreases s.len() - k,
{
    if k == s.len() {
        assert(s.take(k) =~= s);
    } else {
        lemma_drop_trailing_char_range(s.drop_last(), q, k);
        assert(s.drop_last().take(k) =~= s.take(k));
    }
}

proof fn lemma_trim_quote_range(s: Seq<char>, q: char, start: int, end: int)
    requires
        0 <= start <= end <= s.len(),
        forall|j: int| 0 <= j < start ==> s[j] == q,
        forall|j: int| end <= j < s.len() ==> s[j] == q,
        start == s.len() || s[start] != q,
        end == start || s[end - 1] != q,
    ensures
        trim_quote(s, q) == s.subrange(start, end),
{
    lemma_drop_leading_char_range(s, q, start);
    let mid = s.skip(start);
    lemma_drop_trailing_char_range(mid, q, end - start);
    assert(mid.take(end - start) =~= s.subrange(start, end));
}

/// `s` with leading and trailing whitespace removed.
pub open spec fn trim_ws(s: Seq<char>) -> Seq<char> {
    trim_by(s, |c: char| is_space_char(c))
}

proof fn lemma_drop_leading_range(s: Seq<char>, p: spec_fn(char) -> bool, k: int)
    requires
        0 <= k <= s.len(),
        forall|j: int| 0 <= j < k ==> p(s[j]),
        k == s.len() || !p(s[k]),
    ensures
        drop_leading(s, p) == s.skip(k),
    decreases k,
{
    if k == 0 {
        assert(s.skip(0) =~= s);
    } else {
        lemma_drop_leading_range(s.drop_first(), p, k - 1);
        assert(s.drop_first().skip(k - 1) =~= s.skip(k));
    }
}

proof fn lemma_drop_trailing_range(s: Seq<char>, p: spec_fn(char) -> bool, k: int)
    requires
        0 <= k <= s.len(),
        forall|j: int| k <= j < s.len() ==> p(s[j]),
        k == 0 || !p(s[k - 1]),
    ensures
        drop_trailing(s, p) == s.take(k),
    decreases s.len() - k,
{
    if k == s.len() {
        assert(s.take(k) =~= s);
    } else {
        lemma_drop_trailing_range(s.drop_last(), p, k);
        assert(s.drop_last().take(k) =~= s.take(k));
    }
}

/// The two boundary indices that realise `trim_by`: the trimmed string is
/// exactly `s.subrange(start, end)`.
proof fn lemma_trim_by_range(s: Seq<char>, p: spec_fn(char) -> bool, start: int, end: int)
    requires
        0 <= start <= end <= s.len(),
        forall|j: int| 0 <= j < start ==> p(s[j]),
        forall|j: int| end <= j < s.len() ==> p(s[j]),
        start == s.len() || !p(s[start]),
        end == start || !p(s[end - 1]),
    ensures
        trim_by(s, p) == s.subrange(start, end),
{
    lemma_drop_leading_range(s, p, start);
    let mid = s.skip(start);
    lemma_drop_trailing_range(mid, p, end - start);
    assert(mid.take(end - start) =~= s.subrange(start, end));
}

/// Whether `c` is in the adapters' whitespace set.
pub fn is_space(c: char) -> (r: bool)
    ensures
        r == is_space_char(c),
{
    c == ' ' || c == '\t' || c == '\n' || c == '\r' || c == '\u{b}' || c == '\u{c}'
}

/// Trim leading and trailing whitespace from `s`.
pub fn trim_str(s: &str) -> (r: String)
    ensures
        r@ == trim_ws(s@),
{
    let len = s.unicode_len();
    let mut start: usize = 0;
    while start < len && is_space(s.get_char(start))
        invariant
            0 <= start <= len == s@.len(),
            forall|j: int| 0 <= j < start ==> is_space_char(s@[j]),
        decreases len - start,
    {
        start = start + 1;
    }
    let mut end: usize = len;
    while end > start && is_space(s.get_char(end - 1))
        invariant
            start <= end <= len == s@.len(),
            forall|j: int| end <= j < s@.len() ==> is_space_char(s@[j]),
        decreases end,
    {
        end = end - 1;
    }
    proof {
        lemma_trim_by_range(s@, |c: char| is_space_char(c), start as int, end as int);
    }
    String::from_str(s.substring_char(start, end))
}

/// Trim every leading and trailing occurrence of the character `q` from `s`.
pub fn trim_char(s: &str, q: char) -> (r: String)
    ensures
        r@ == trim_quote(s@, q),
{
    let len = s.unicode_len();
    let mut start: usize = 0;
    while start < len && s.get_char(start) == q
        invariant
            0 <= start <= len == s@.len(),
            forall|j: int| 0 <= j < start ==> s@[j] == q,
        decreases len - start,
    {
        start = start + 1;
    }
    let mut end: usize = len;
    while end > start && s.get_char(end - 1) == q
        invariant
            start <= end <= len == s@.len(),
            forall|j: int| end <= j < s@.len() ==> s@[j] == q,
        decreases end,
    {
        end = end - 1;
    }
    proof {
        lemma_trim_quote_range(s@, q, start as int, end as int);
    }
    String::from_str(s.substring_char(start, end))
}

/// Character-wise equality of two string slices.
pub fn str_eq(a: &str, b: &str) -> (r: bool)
    ensures
        r == (a@ == b@),
{
    let alen = a.unicode_len();
    let blen = b.unicode_len();
    if alen != blen {
        assert(a@ != b@);
        return false;
    }
    let mut i: usize = 0;
    while i < alen
        invariant
            0 <= i <= alen,
            alen == a@.len() == b@.len(),
            forall|j: int| 0 <= j < i ==> a@[j] == b@[j],
        decreases alen - i,
    {
        if a.get_char(i) != b.get_char(i) {
            return false;
        }
        i = i + 1;
    }
    assert(a@ =~= b@);
    true
}

/// `p` is a prefix of `s`.
pub open spec fn starts_with(s: Seq<char>, p: Seq<char>) -> bool {
    p.len() <= s.len() && s.take(p.len() as int) == p
}

/// Whether the string `s` starts with the prefix `p`.
pub fn str_starts_with(s: &str, p: &str) -> (r: bool)
    ensures
        r == starts_with(s@, p@),
{
    let plen = p.unicode_len();
    if plen > s.unicode_len() {
        return false;
    }
    let mut i: usize = 0;
    while i < plen
        invariant
            0 <= i <= plen,
            plen == p@.len() <= s@.len(),
            forall|j: int| 0 <= j < i ==> s@[j] == p@[j],
        decreases plen - i,
    {
        if s.get_char(i) != p.get_char(i) {
            assert(s@.take(plen as int)[i as int] != p@[i as int]);
            return false;
        }
        i = i + 1;
    }
    assert(s@.take(plen as int) =~= p@);
    true
}

/// The decimal digit `d` as a character, for `d < 10`.
pub open spec fn digit_char(d: int) -> char {
    if d == 0 {
        '0'
    } else if d == 1 {
        '1'
    } else if d == 2 {
        '2'
    } else if d == 3 {
        '3'
    } else if d == 4 {
        '4'
    } else if d == 5 {
        '5'
    } else if d == 6 {
        '6'
    } else if d == 7 {
        '7'
    } else if d == 8 {
        '8'
    } else {
        '9'
    }
}

/// The usual decimal rendering of `n`, without sign or padding.
pub open spec fn dec_str(n: int) -> Seq<char>
    decreases n,
{
    if n < 10 {
        seq![digit_char(n)]
    } else {
        dec_str(n / 10).push(digit_char(n % 10))
    }
}

fn digit_str(d: usize) -> (r: &'static str)
    requires
        d < 10,
    ensures
        r@ =~= seq![digit_char(d as int)],
{
    proof {
        reveal_strlit("0");
        reveal_strlit("1");
        reveal_strlit("2");
        reveal_strlit("3");
        reveal_strlit("4");
        reveal_strlit("5");
        reveal_strlit("6");
        reveal_strlit("7");
        reveal_strlit("8");
        reveal_strlit("9");
    }
    match d {
        0 => "0",
        1 => "1",
        2 => "2",
        3 => "3",
        4 => "4",
        5 => "5",
        6 => "6",
        7 => "7",
        8 => "8",
        _ => "9",
    }
}

/// Render `n` in decimal.
pub fn fmt_usize(n: usize) -> (r: String)
    ensures
        r@ == dec_str(n as int),
    decreases n,
{
    if n < 10 {
        String::from_str(digit_str(n))
    } else {
        let mut s = fmt_usize(n / 10);
        s.append(digit_str(n % 10));
        assert(s@ =~= dec_str(n as int));
        s
    }
}

/// Length of the run of non-whitespace characters of `s` starting at `i`.
pub open spec fn token_len(s: Seq<char>, i: int) -> int
    decreases s.len() - i,
{
    if i < 0 || i >= s.len() || is_space_char(s[i]) {
        0
    } else {
        1 + token_len(s, i + 1)
    }
}

proof fn lemma_token_len_bounds(s: Seq<char>, i: int)
    requires
        0 <= i <= s.len(),
    ensures
        0 <= token_len(s, i) <= s.len() - i,
    decreases s.len() - i,
{
    if i < s.len() && !is_space_char(s[i]) {
        lemma_token_len_bounds(s, i + 1);
    }
}

/// The whitespace-separated tokens of `s` from position `i` on.
pub open spec fn tokens_from(s: Seq<char>, i: int) -> Seq<Seq<char>>
    decreases s.len() - i when 0 <= i via tokens_from_decreases
{
    if i >= s.len() {
        Seq::empty()
    } else if is_space_char(s[i]) {
        tokens_from(s, i + 1)
    } else {
        seq![s.subrange(i, i + token_len(s, i))] + tokens_from(s, i + token_len(s, i))
    }
}

#[via_fn]
proof fn tokens_from_decreases(s: Seq<char>, i: int) {
    if 0 <= i < s.len() && !is_space_char(s[i]) {
        lemma_token_len_bounds(s, i);
        lemma_token_len_bounds(s, i + 1);
        assert(token_len(s, i) == 1 + token_len(s, i + 1));
    }
}

/// The whitespace-separated tokens of `s`.
pub open spec fn ws_tokens(s: Seq<char>) -> Seq<Seq<char>> {
    tokens_from(s, 0)
}

proof fn lemma_token_len_run(s: Seq<char>, i: int, j: int)
    requires
        0 <= i <= j <= s.len(),
        forall|k: int| i <= k < j ==> !is_space_char(s[k]),
        j == s.len() || is_space_char(s[j]),
    ensures
        token_len(s, i) == j - i,
    decreases j - i,
{
    if i < j {
        lemma_token_len_run(s, i + 1, j);
    }
}

/// Split `s` into whitespace-separated tokens.
pub fn split_ws(s: &str) -> (r: Vec<String>)
    ensures
        r.deep_view() == ws_tokens(s@),
{
    let len = s.unicode_len();
    let mut out: Vec<String> = Vec::new();
    let mut i: usize = 0;
    while i < len
        invariant
            0 <= i <= len == s@.len(),
            ws_tokens(s@) == out.deep_view() + tokens_from(s@, i as int),
        decreases len - i,
    {
        if is_space(s.get_char(i)) {
            i = i + 1;
        } else {
            let mut j: usize = i + 1;
            while j < len && !is_space(s.get_char(j))
                invariant
                    i < j <= len == s@.len(),
                    !is_space_char(s@[i as int]),
                    forall|k: int| i <= k < j ==> !is_space_char(s@[k]),
                decreases len - j,
            {
                j = j + 1;
            }
            proof {
                lemma_token_len_run(s@, i as int, j as int);
            }
            let tok = String::from_str(s.substring_char(i, j));
            out.push(tok);
            proof {
                assert(out.deep_view() =~= out.deep_view().subrange(
                    0,
                    out.deep_view().len() - 1,
                ).push(tok@));
            }
            i = j;
        }
    }
    assert(out.deep_view() =~= out.deep_view() + tokens_from(s@, i as int));
    out
}

/// Index of the first occurrence of `c` in `s` at or after position 0, or
/// the length of `s` when `c` does not occur.
pub open spec fn index_of_from(s: Seq<char>, c: char, i: int) -> int
    decreases s.len() - i,
{
    if i < 0 || i >= s.len() {
        s.len() as int
    } else if s[i] == c {
        i
    } else {
        index_of_from(s, c, i + 1)
    }
}

/// Index of the first occurrence of `c` in `s`, or `s.len()`.
pub open spec fn index_of_char(s: Seq<char>, c: char) -> int {
    index_of_from(s, c, 0)
}

proof fn lemma_index_of_from_found(s: Seq<char>, c: char, i: int, j: int)
    requires
        0 <= i <= j <= s.len(),
        forall|k: int| i <= k < j ==> s[k] != c,
        j == s.len() || s[j] == c,
    ensures
        index_of_from(s, c, i) == j,
    decreases j - i,
{
    if i < j {
        lemma_index_of_from_found(s, c, i + 1, j);
    }
}

/// Position of the first occurrence of `c` in `s`, or `None`.
pub fn find_char(s: &str, c: char) -> (r: Option<usize>)
    ensures
        match r {
            Some(i) => index_of_char(s@, c) == i as int && i < s@.len(),
            None => index_of_char(s@, c) == s@.len(),
        },
{
    let len = s.unicode_len();
    let mut i: usize = 0;
    while i < len
        invariant
            0 <= i <= len == s@.len(),
            forall|k: int| 0 <= k < i ==> s@[k] != c,
        decreases len - i,
    {
        if s.get_char(i) == c {
            proof {
                lemma_index_of_from_found(s@, c, 0, i as int);
            }
            return Some(i);
        }
        i = i + 1;
    }
    proof {
        lemma_index_of_from_found(s@, c, 0, len as int);
    }
    None
}

/// `sub` occurs contiguously somewhere in `s`.
pub open spec fn has_substring(s: Seq<char>, sub: Seq<char>) -> bool {
    exists|i: int|
        0 <= i <= s.len() - sub.len() && #[trigger] s.subrange(i, i + sub.len()) == sub
}

/// Whether `sub` occurs contiguously in `s`.
pub fn str_contains(s: &str, sub: &str) -> (r: bool)
    ensures
        r == has_substring(s@, sub@),
{
    let slen = s.unicode_len();
    let sublen = sub.unicode_len();
    if sublen > slen {
        return false;
    }
    let mut i: usize = 0;
    while i <= slen - sublen
        invariant
            0 <= i <= slen - sublen + 1,
            sublen <= slen,
            slen == s@.len(),
            sublen == sub@.len(),
            forall|k: int|
                0 <= k < i ==> #[trigger] s@.subrange(k, k + sub@.len()) != sub@,
        decreases slen - sublen + 1 - i,
    {
        let mut j: usize = 0;
        let mut matched = true;
        while j < sublen
            invariant
                0 <= j <= sublen,
                i + sublen <= slen,
                slen == s@.len(),
                sublen == sub@.len(),
                matched == (forall|k: int| 0 <= k < j ==> s@[i + k] == sub@[k]),
            decreases sublen - j,
        {
            if s.get_char(i + j) != sub.get_char(j) {
                matched = false;
                assert(s@[i + j as int] != sub@[j as int]);
                j = sublen;
            } else {
                j = j + 1;
            }
        }
        if matched {
            assert(s@.subrange(i as int, i + sub@.len()) =~= sub@);
            return true;
        } else {
            assert(s@.subrange(i as int, i + sub@.len()) != sub@) by {
                let w = choose|k: int| 0 <= k < sub@.len() && s@[i + k] != sub@[k];
                assert(s@.subrange(i as int, i + sub@.len())[w] != sub@[w]);
            }
        }
        i = i + 1;
    }
    assert(forall|k: int|
        0 <= k <= s@.len() - sub@.len() ==> #[trigger] s@.subrange(k, k + sub@.len()) != sub@);
    false
}

/// `s` with every occurrence of the character `c` replaced by `rep`.
pub open spec fn replace_char_seq(s: Seq<char>, c: char, rep: Seq<char>) -> Seq<char>
    decreases s.len(),
{
    if s.len() == 0 {
        s
    } else {
        replace_char_seq(s.drop_last(), c, rep) + (if s.last() == c {
            rep
        } else {
            seq![s.last()]
        })
    }
}

/// Replace every occurrence of the character `c` in `s` with `rep`.
pub fn replace_char(s: &str, c: char, rep: &str) -> (r: String)
    ensures
        r@ == replace_char_seq(s@, c, rep@),
{
    let len = s.unicode_len();
    let mut out = String::new();
    let mut i: usize = 0;
    while i < len
        invariant
            0 <= i <= len == s@.len(),
            out@ == replace_char_seq(s@.take(i as int), c, rep@),
        decreases len - i,
    {
        if s.get_char(i) == c {
            out.append(rep);
        } else {
            out.append(s.substring_char(i, i + 1));
        }
        proof {
            assert(s@.take(i + 1).drop_last() =~= s@.take(i as int));
            assert(s@.take(i + 1).last() == s@[i as int]);
            if s@[i as int] != c {
                assert(s@.subrange(i as int, i + 1) =~= seq![s@[i as int]]);
            }
        }
        i = i + 1;
    }
    assert(s@.take(len as int) =~= s@);
    out
}

/// Lexicographic order on character sequences by code point, the order in
/// which repository paths are listed.
pub open spec fn lex_le(a: Seq<char>, b: Seq<char>) -> bool
    decreases a.len(),
{
    if a.len() == 0 {
        true
    } else if b.len() == 0 {
        false
    } else if a[0] == b[0] {
        lex_le(a.drop_first(), b.drop_first())
    } else {
        (a[0] as u32) < (b[0] as u32)
    }
}

/// Whether `a` is lexicographically at most `b`.
pub fn str_le(a: &str, b: &str) -> (r: bool)
    ensures
        r == lex_le(a@, b@),
{
    let alen = a.unicode_len();
    let blen = b.unicode_len();
    let mut i: usize = 0;
    proof {
        assert(a@.skip(0) =~= a@);
        assert(b@.skip(0) =~= b@);
    }
    while i < alen && i < blen
        invariant
            0 <= i <= alen,
            0 <= i <= blen,
            alen == a@.len(),
            blen == b@.len(),
            forall|k: int| 0 <= k < i ==> a@[k] == b@[k],
            lex_le(a@, b@) == lex_le(a@.skip(i as int), b@.skip(i as int)),
        decreases alen - i,
    {
        let ca = a.get_char(i);
        let cb = b.get_char(i);
        if ca != cb {
            return (ca as u32) < (cb as u32);
        }
        proof {
            assert(a@.skip(i as int).drop_first() =~= a@.skip(i + 1));
            assert(b@.skip(i as int).drop_first() =~= b@.skip(i + 1));
        }
        i = i + 1;
    }
    r_le_end(a, b, i)
}

fn r_le_end(a: &str, b: &str, i: usize) -> (r: bool)
    requires
        i <= a@.len(),
        i <= b@.len(),
        i == a@.len() || i == b@.len(),
        lex_le(a@, b@) == lex_le(a@.skip(i as int), b@.skip(i as int)),
    ensures
        r == lex_le(a@, b@),
{
    let alen = a.unicode_len();
    alen == i
}

/// Distinct characters have distinct code points, and equal ones equal
/// code points.
proof fn lemma_char_code(c1: char, c2: char)
    ensures
        c1 == c2 <==> (c1 as u32) == (c2 as u32),
{
}

/// A vector's deep view is its element views, index for index.
pub proof fn lemma_deep_view_split<T: DeepView>(v: Vec<T>)
    ensures
        v.deep_view().len() == v@.len(),
        forall|i: int| 0 <= i < v@.len() ==> #[trigger] v.deep_view()[i] == v@[i].deep_view(),
{
}

/// Pushing onto a vector pushes onto its deep view.
pub proof fn lemma_deep_view_push<T: DeepView>(pre: Vec<T>, post: Vec<T>, x: T)
    requires
        post@ == pre@.push(x),
    ensures
        post.deep_view() == pre.deep_view().push(x.deep_view()),
{
    lemma_deep_view_split(pre);
    lemma_deep_view_split(post);
    assert forall|j: int| 0 <= j < post@.len() implies post.deep_view()[j]
        == pre.deep_view().push(x.deep_view())[j] by {
        assert(post.deep_view()[j] == post@[j].deep_view());
        if j < pre@.len() {
            assert(post@[j] == pre@[j]);
            assert(pre.deep_view()[j] == pre@[j].deep_view());
        } else {
            assert(post@[j] == x);
        }
    }
    assert(post.deep_view() =~= pre.deep_view().push(x.deep_view()));
}

/// Taking a subrange of a vector takes the same subrange of its deep view.
pub proof fn lemma_deep_view_subrange<T: DeepView>(pre: Vec<T>, post: Vec<T>, a: int, b: int)
    requires
        0 <= a <= b <= pre@.len(),
        post@ == pre@.subrange(a, b),
    ensures
        post.deep_view() == pre.deep_view().subrange(a, b),
{
    lemma_deep_view_split(pre);
    lemma_deep_view_split(post);
    assert forall|j: int| 0 <= j < post@.len() implies post.deep_view()[j]
        == pre.deep_view().subrange(a, b)[j] by {
        assert(post.deep_view()[j] == post@[j].deep_view());
        assert(post@[j] == pre@[a + j]);
        assert(pre.deep_view()[a + j] == pre@[a + j].deep_view());
    }
    assert(post.deep_view() =~= pre.deep_view().subrange(a, b));
}

/// Copy a vector of strings, element for element.
pub fn clone_string_vec(v: &Vec<String>) -> (r: Vec<String>)
    ensures
        r.deep_view() == v.deep_view(),
{
    let mut out: Vec<String> = Vec::new();
    let mut i: usize = 0;
    while i < v.len()
        invariant
            0 <= i <= v@.len(),
            out@.len() == i,
            forall|j: int| 0 <= j < i ==> out.deep_view()[j] == v.deep_view()[j],
        decreases v@.len() - i,
    {
        out.push(v[i].clone());
        i = i + 1;
    }
    assert(out.deep_view() =~= v.deep_view());
    out
}

/// The strings of `parts` joined with `sep` between them.
pub open spec fn join_sep(parts: Seq<Seq<char>>, sep: Seq<char>) -> Seq<char>
    decreases parts.len(),
{
    if parts.len() == 0 {
        Seq::empty()
    } else if parts.len() == 1 {
        parts[0]
    } else {
        join_sep(parts.drop_last(), sep) + sep + parts.last()
    }
}

/// Join strings with a separator.
pub fn join_strings(parts: &Vec<String>, sep: &str) -> (r: String)
    ensures
        r@ == join_sep(parts.deep_view(), sep@),
{
    let mut out = String::new();
    let mut i: usize = 0;
    proof {
        assert(parts.deep_view().take(0) =~= Seq::<Seq<char>>::empty());
    }
    while i < parts.len()
        invariant
            0 <= i <= parts@.len(),
            out@ == join_sep(parts.deep_view().take(i as int), sep@),
        decreases parts@.len() - i,
    {
        if i > 0 {
            out.append(sep);
        }
        out.append(parts[i].as_str());
        proof {
            lemma_deep_view_split(*parts);
            let ps = parts.deep_view();
            assert(ps.take(i + 1).drop_last() =~= ps.take(i as int));
            assert(ps.take(i + 1).last() == ps[i as int]);
            if i == 0 {
                assert(out@ =~= join_sep(ps.take(1), sep@));
            } else {
                assert(out@ =~= join_sep(ps.take(i + 1), sep@));
            }
        }
        i = i + 1;
    }
    assert(parts.deep_view().take(i as int) =~= parts.deep_view());
    out
}

/// The lexicographic order is total.
pub proof fn lemma_lex_le_total(a: Seq<char>, b: Seq<char>)
    ensures
        lex_le(a, b) || lex_le(b, a),
    decreases a.len(),
{
    if a.len() == 0 {
    } else if b.len() == 0 {
        assert(lex_le(b, a));
    } else if a[0] == b[0] {
        lemma_lex_le_total(a.drop_first(), b.drop_first());
        assert(lex_le(a, b) == lex_le(a.drop_first(), b.drop_first()));
        assert(lex_le(b, a) == lex_le(b.drop_first(), a.drop_first()));
    } else {
        lemma_char_code(a[0], b[0]);
    }
}

/// The lexicographic order is transitive.
pub proof fn lemma_lex_le_trans(a: Seq<char>, b: Seq<char>, c: Seq<char>)
    requires
        lex_le(a, b),
        lex_le(b, c),
    ensures
        lex_le(a, c),
    decreases a.len(),
{
    if a.len() == 0 || b.len() == 0 || c.len() == 0 {
    } else {
        lemma_char_code(a[0], b[0]);
        lemma_char_code(b[0], c[0]);
        lemma_char_code(a[0], c[0]);
        if a[0] == b[0] && b[0] == c[0] {
            lemma_lex_le_trans(a.drop_first(), b.drop_first(), c.drop_first());
        }
    }
}

/// `x` inserted into `s` after every entry that is lexicographically at
/// most `x`.
pub open spec fn insert_str_sorted(x: Seq<char>, s: Seq<Seq<char>>) -> Seq<Seq<char>>
    decreases s.len(),
{
    if s.len() == 0 {
        seq![x]
    } else if lex_le(s[0], x) {
        seq![s[0]] + insert_str_sorted(x, s.drop_first())
    } else {
        seq![x] + s
    }
}

/// The strings of `s` in lexicographic order, stably.
pub open spec fn sort_strs(s: Seq<Seq<char>>) -> Seq<Seq<char>>
    decreases s.len(),
{
    if s.len() == 0 {
        s
    } else {
        insert_str_sorted(s.last(), sort_strs(s.drop_last()))
    }
}

proof fn lemma_insert_str_sorted_splice(x: Seq<char>, s: Seq<Seq<char>>, idx: int)
    requires
        0 <= idx <= s.len(),
        forall|k: int| 0 <= k < idx ==> lex_le(#[trigger] s[k], x),
        idx == s.len() || !lex_le(s[idx], x),
    ensures
        insert_str_sorted(x, s) == s.take(idx) + seq![x] + s.skip(idx),
    decreases idx,
{
    if s.len() == 0 {
        assert(s.take(0) + seq![x] + s.skip(0) =~= seq![x]);
    } else if idx == 0 {
        assert(s.take(0) + seq![x] + s.skip(0) =~= seq![x] + s);
    } else {
        lemma_insert_str_sorted_splice(x, s.drop_first(), idx - 1);
        assert(s.drop_first().take(idx - 1) =~= s.take(idx).drop_first());
        assert(s.drop_first().skip(idx - 1) =~= s.skip(idx));
        assert(seq![s[0]] + (s.take(idx).drop_first() + seq![x] + s.skip(idx)) =~= s.take(idx)
            + seq![x] + s.skip(idx));
    }
}

/// Sort a vector of strings lexicographically, ascending and stably.
pub fn sort_strings(v: Vec<String>) -> (r: Vec<String>)
    ensures
        r.deep_view() == sort_strs(v.deep_view()),
{
    let ghost orig = v.deep_view();
    let mut rest = v;
    let mut out: Vec<String> = Vec::new();
    proof {
        assert(out.deep_view() =~= Seq::<Seq<char>>::empty());
        assert(orig.take(0) =~= Seq::<Seq<char>>::empty());
        assert(rest.deep_view() =~= orig.skip(0));
    }
    while rest.len() > 0
        invariant
            rest@.len() <= orig.len(),
            rest.deep_view() == orig.skip(orig.len() - rest@.len()),
            out.deep_view() == sort_strs(orig.take(orig.len() - rest@.len())),
        decreases rest@.len(),
    {
        let ghost done = orig.len() - rest@.len();
        let ghost pre = rest;
        proof {
            assert(rest.deep_view()[0] == orig[done]);
        }
        let x = rest.remove(0);
        proof {
            lemma_deep_view_split(pre);
            lemma_deep_view_split(rest);
            assert forall|j: int| 0 <= j < rest@.len() implies rest.deep_view()[j] == orig.skip(
                done + 1,
            )[j] by {
                assert(pre@.remove(0)[j] == pre@[j + 1]);
                assert(rest.deep_view()[j] == rest@[j].deep_view());
                assert(pre.deep_view()[j + 1] == pre@[j + 1].deep_view());
                assert(orig.skip(done)[j + 1] == orig[done + 1 + j]);
                assert(orig.skip(done + 1)[j] == orig[done + 1 + j]);
            }
            assert(rest.deep_view() =~= orig.skip(done + 1));
            assert(x@ == orig[done]);
        }
        let mut idx: usize = 0;
        while idx < out.len() && str_le(out[idx].as_str(), x.as_str())
            invariant
                0 <= idx <= out@.len(),
                forall|k: int| 0 <= k < idx ==> lex_le(#[trigger] out.deep_view()[k], x@),
            decreases out@.len() - idx,
        {
            proof {
                lemma_deep_view_split(out);
            }
            idx = idx + 1;
        }
        let ghost old_deep = out.deep_view();
        let ghost pre_out = out;
        proof {
            lemma_deep_view_split(out);
            if idx < out@.len() {
                assert(out.deep_view()[idx as int] == out@[idx as int]@);
            }
        }
        out.insert(idx, x);
        proof {
            lemma_insert_str_sorted_splice(x@, old_deep, idx as int);
            lemma_deep_view_split(pre_out);
            lemma_deep_view_split(out);
            let spliced = old_deep.take(idx as int) + seq![x@] + old_deep.skip(idx as int);
            assert forall|j: int| 0 <= j < out@.len() implies out.deep_view()[j] == spliced[j] by {
                assert(out.deep_view()[j] == out@[j].deep_view());
                assert(out@[j] == pre_out@.insert(idx as int, x)[j]);
                if j < idx {
                    assert(pre_out@.insert(idx as int, x)[j] == pre_out@[j]);
                    assert(pre_out.deep_view()[j] == pre_out@[j].deep_view());
                } else if j == idx {
                    assert(pre_out@.insert(idx as int, x)[j] == x);
                } else {
                    assert(pre_out@.insert(idx as int, x)[j] == pre_out@[j - 1]);
                    assert(pre_out.deep_view()[j - 1] == pre_out@[j - 1].deep_view());
                }
            }
            assert(out.deep_view() =~= spliced);
            assert(orig.take(done + 1).drop_last() =~= orig.take(done));
            assert(orig.take(done + 1).last() == x@);
        }
    }
    assert(orig.take(orig.len() - rest@.len()) =~= orig);
    out
}

/// `s` with every element equal to its predecessor removed: what remains
/// after removing adjacent duplicates, keeping the first of each run.
pub open spec fn dedup_adjacent(s: Seq<Seq<char>>) -> Seq<Seq<char>>
    decreases s.len(),
{
    if s.len() <= 1 {
        s
    } else if s.last() == s[s.len() - 2] {
        dedup_adjacent(s.drop_last())
    } else {
        dedup_adjacent(s.drop_last()).push(s.last())
    }
}

proof fn lemma_dedup_adjacent_last(s: Seq<Seq<char>>)
    requires
        s.len() > 0,
    ensures
        dedup_adjacent(s).len() > 0,
        dedup_adjacent(s).last() == s.last(),
    decreases s.len(),
{
    if s.len() > 1 && s.last() == s[s.len() - 2] {
        lemma_dedup_adjacent_last(s.drop_last());
        assert(s.drop_last().last() == s[s.len() - 2]);
    }
}

/// Remove adjacent duplicate strings, keeping the first of each run.
pub fn dedup_strings(v: &Vec<String>) -> (r: Vec<String>)
    ensures
        r.deep_view() == dedup_adjacent(v.deep_view()),
{
    let mut out: Vec<String> = Vec::new();
    let mut i: usize = 0;
    proof {
        assert(v.deep_view().take(0) =~= Seq::<Seq<char>>::empty());
        assert(out.deep_view() =~= dedup_adjacent(v.deep_view().take(0)));
    }
    while i < v.len()
        invariant
            0 <= i <= v@.len(),
            out.deep_view() == dedup_adjacent(v.deep_view().take(i as int)),
        decreases v@.len() - i,
    {
        proof {
            lemma_deep_view_split(*v);
            assert(v.deep_view().take(i + 1).drop_last() =~= v.deep_view().take(i as int));
            assert(v.deep_view().take(i + 1).last() == v.deep_view()[i as int]);
            if i > 0 {
                lemma_dedup_adjacent_last(v.deep_view().take(i as int));
                assert(v.deep_view().take(i as int).last() == v.deep_view()[i - 1]);
            }
        }
        let keep: bool = if out.len() == 0 {
            true
        } else {
            proof {
                lemma_deep_view_split(out);
            }
            let last_idx: usize = out.len() - 1;
            !str_eq(out[last_idx].as_str(), v[i].as_str())
        };
        if keep {
            let ghost pre = out;
            out.push(v[i].clone());
            proof {
                lemma_deep_view_push(pre, out, v@[i as int]);
            }
        }
        i = i + 1;
    }
    assert(v.deep_view().take(i as int) =~= v.deep_view());
    out
}

} // verus!
