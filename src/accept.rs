//! The `Accept-Encoding` request header: its grammar, and the coding a
//! client prefers.
//!
//! A header is a comma-separated list of elements. An element is a coding
//! token, optionally followed by `;q=` and a quality value, with optional
//! spaces or tabs around the parts; an element that is only whitespace is
//! skipped. A quality is `0`, `1`, `0.` with up to three digits, or `1.` with
//! up to three zeros; it is kept in thousandths. A missing quality is 1.
//! Tokens are compared without regard to ASCII case and are kept in lower case.
use crate::coding::{Coding, Selection};
use crate::header_map::{byte_views, join, join_values};
use vstd::prelude::*;

verus! {

/// Optional whitespace: a space or a tab.
pub open spec fn is_ows(b: u8) -> bool {
    b == 32 || b == 9
}

pub open spec fn is_digit(b: u8) -> bool {
    48 <= b && b <= 57
}

/// A byte of an HTTP token.
pub open spec fn is_tchar(b: u8) -> bool {
    ||| (97 <= b && b <= 122)
    ||| (65 <= b && b <= 90)
    ||| is_digit(b)
    ||| b == 33 || b == 35 || b == 36 || b == 37 || b == 38 || b == 39
    ||| b == 42 || b == 43 || b == 45 || b == 46 || b == 94 || b == 95
    ||| b == 96 || b == 124 || b == 126
}

/// ASCII lower case of a byte.
pub open spec fn lower(b: u8) -> u8 {
    if 65 <= b && b <= 90 {
        (b + 32) as u8
    } else {
        b
    }
}

/// The lower-cased bytes of `s[a..b]`.
pub open spec fn lower_range(s: Seq<u8>, a: int, b: int) -> Seq<u8> {
    Seq::new((b - a) as nat, |k: int| lower(s[a + k]))
}

/// The first index from `i` on, below `end`, that is not whitespace.
pub open spec fn skip_ows(s: Seq<u8>, i: int, end: int) -> int
    decreases end - i,
{
    if 0 <= i < end && is_ows(s[i]) {
        skip_ows(s, i + 1, end)
    } else {
        i
    }
}

/// The first index from `i` on, below `end`, that does not belong to a token.
pub open spec fn token_end(s: Seq<u8>, i: int, end: int) -> int
    decreases end - i,
{
    if 0 <= i < end && is_tchar(s[i]) {
        token_end(s, i + 1, end)
    } else {
        i
    }
}

/// The place value of the `k`-th fractional digit of a quality, in thousandths.
pub open spec fn place(k: int) -> int {
    if k == 0 {
        100
    } else if k == 1 {
        10
    } else {
        1
    }
}

/// Up to `3 - k` digits from `i`: their value in thousandths and where they end.
pub open spec fn fraction(s: Seq<u8>, i: int, end: int, k: int) -> (int, int)
    decreases 3 - k,
{
    if 0 <= k < 3 && 0 <= i < end && is_digit(s[i]) {
        let (v, e) = fraction(s, i + 1, end, k + 1);
        ((s[i] - 48) * place(k) + v, e)
    } else {
        (0, i)
    }
}

/// Up to `3 - k` zeros from `i`: where they end.
pub open spec fn zeros(s: Seq<u8>, i: int, end: int, k: int) -> int
    decreases 3 - k,
{
    if 0 <= k < 3 && 0 <= i < end && s[i] == 48 {
        zeros(s, i + 1, end, k + 1)
    } else {
        i
    }
}

/// A quality value from `i`: its value in thousandths and where it ends.
pub open spec fn quality(s: Seq<u8>, i: int, end: int) -> Option<(int, int)> {
    if 0 <= i < end && s[i] == 48 {
        if i + 1 < end && s[i + 1] == 46 {
            Some(fraction(s, i + 2, end, 0))
        } else {
            Some((0, i + 1))
        }
    } else if 0 <= i < end && s[i] == 49 {
        if i + 1 < end && s[i + 1] == 46 {
            Some((1000, zeros(s, i + 2, end, 0)))
        } else {
            Some((1000, i + 1))
        }
    } else {
        None
    }
}

/// The element `s[start..end]`: `None` where it breaks the grammar,
/// `Some(None)` where it is only whitespace, else its coding and quality.
pub open spec fn element(s: Seq<u8>, start: int, end: int) -> Option<Option<(Seq<u8>, int)>> {
    let a = skip_ows(s, start, end);
    if a >= end {
        Some(None)
    } else {
        let b = token_end(s, a, end);
        let tok = lower_range(s, a, b);
        let c = skip_ows(s, b, end);
        if b == a {
            None
        } else if c >= end {
            Some(Some((tok, 1000)))
        } else if s[c] != 59 {
            None
        } else {
            let d = skip_ows(s, c + 1, end);
            if d < end && d + 1 < end && (s[d] == 113 || s[d] == 81) && s[d + 1] == 61 {
                match quality(s, d + 2, end) {
                    Some((q, f)) => if skip_ows(s, f, end) >= end {
                        Some(Some((tok, q)))
                    } else {
                        None
                    },
                    None => None,
                }
            } else {
                None
            }
        }
    }
}

fn exec_skip_ows(s: &[u8], i: usize, end: usize) -> (r: usize)
    requires
        i <= end <= s@.len(),
    ensures
        r == skip_ows(s@, i as int, end as int),
        i <= r <= end,
{
    let mut j = i;
    while j < end && (s[j] == 32 || s[j] == 9)
        invariant
            i <= j <= end <= s@.len(),
            skip_ows(s@, j as int, end as int) == skip_ows(s@, i as int, end as int),
        decreases end - j,
    {
        j = j + 1;
    }
    j
}

fn exec_tchar(b: u8) -> (r: bool)
    ensures
        r == is_tchar(b),
{
    (97 <= b && b <= 122) || (65 <= b && b <= 90) || (48 <= b && b <= 57) || b == 33 || b == 35
        || b == 36 || b == 37 || b == 38 || b == 39 || b == 42 || b == 43 || b == 45 || b == 46
        || b == 94 || b == 95 || b == 96 || b == 124 || b == 126
}

fn exec_token_end(s: &[u8], i: usize, end: usize) -> (r: usize)
    requires
        i <= end <= s@.len(),
    ensures
        r == token_end(s@, i as int, end as int),
        i <= r <= end,
{
    let mut j = i;
    while j < end && exec_tchar(s[j])
        invariant
            i <= j <= end <= s@.len(),
            token_end(s@, j as int, end as int) == token_end(s@, i as int, end as int),
        decreases end - j,
    {
        j = j + 1;
    }
    j
}

fn exec_fraction(s: &[u8], i: usize, end: usize, k: usize) -> (r: (u16, usize))
    requires
        i <= end <= s@.len(),
        k <= 3,
    ensures
        (r.0 as int, r.1 as int) == fraction(s@, i as int, end as int, k as int),
        r.0 < 1000,
        i <= r.1 <= end,
    decreases 3 - k,
{
    if k < 3 && i < end && 48 <= s[i] && s[i] <= 57 {
        let (v, e) = exec_fraction(s, i + 1, end, k + 1);
        let p: u16 = if k == 0 {
            100
        } else if k == 1 {
            10
        } else {
            1
        };
        proof {
            if k == 0 {
                assert(v < 100) by { lemma_fraction_bound(s@, (i + 1) as int, end as int, 1); }
            } else if k == 1 {
                assert(v < 10) by { lemma_fraction_bound(s@, (i + 1) as int, end as int, 2); }
            } else {
                assert(v == 0);
            }
        }
        ((s[i] - 48) as u16 * p + v, e)
    } else {
        (0, i)
    }
}

proof fn lemma_fraction_bound(s: Seq<u8>, i: int, end: int, k: int)
    requires
        1 <= k <= 3,
    ensures
        k == 1 ==> fraction(s, i, end, k).0 < 100,
        k == 2 ==> fraction(s, i, end, k).0 < 10,
        k == 3 ==> fraction(s, i, end, k).0 == 0,
    decreases 3 - k,
{
    if k < 3 {
        lemma_fraction_bound(s, i + 1, end, k + 1);
    }
}

fn exec_zeros(s: &[u8], i: usize, end: usize, k: usize) -> (r: usize)
    requires
        i <= end <= s@.len(),
        k <= 3,
    ensures
        r == zeros(s@, i as int, end as int, k as int),
        i <= r <= end,
    decreases 3 - k,
{
    if k < 3 && i < end && s[i] == 48 {
        exec_zeros(s, i + 1, end, k + 1)
    } else {
        i
    }
}

fn exec_quality(s: &[u8], i: usize, end: usize) -> (r: Option<(u16, usize)>)
    requires
        i <= end <= s@.len(),
    ensures
        match quality(s@, i as int, end as int) {
            Some((q, f)) => r matches Some(x) && x.0 as int == q && x.1 as int == f,
            None => r is None,
        },
        r matches Some(x) ==> x.0 <= 1000 && i <= x.1 <= end,
{
    if i < end && s[i] == 48 {
        if i + 1 < end && s[i + 1] == 46 {
            Some(exec_fraction(s, i + 2, end, 0))
        } else {
            Some((0, i + 1))
        }
    } else if i < end && s[i] == 49 {
        if i + 1 < end && s[i + 1] == 46 {
            Some((1000, exec_zeros(s, i + 2, end, 0)))
        } else {
            Some((1000, i + 1))
        }
    } else {
        None
    }
}

/// The view of a parsed element.
pub open spec fn element_view(e: Option<(Vec<u8>, u16)>) -> Option<(Seq<u8>, int)> {
    match e {
        Some((t, q)) => Some((t@, q as int)),
        None => None,
    }
}

fn exec_lower_range(s: &[u8], a: usize, b: usize) -> (r: Vec<u8>)
    requires
        a <= b <= s@.len(),
    ensures
        r@ == lower_range(s@, a as int, b as int),
{
    let mut r: Vec<u8> = Vec::new();
    let mut j = a;
    while j < b
        invariant
            a <= j <= b <= s@.len(),
            r@ =~= lower_range(s@, a as int, j as int),
        decreases b - j,
    {
        let c = s[j];
        let l = if 65 <= c && c <= 90 {
            c + 32
        } else {
            c
        };
        r.push(l);
        j = j + 1;
        assert(r@ =~= lower_range(s@, a as int, j as int));
    }
    r
}

fn exec_element(s: &[u8], start: usize, end: usize) -> (r: Option<Option<(Vec<u8>, u16)>>)
    requires
        start <= end <= s@.len(),
    ensures
        match element(s@, start as int, end as int) {
            Some(e) => r matches Some(x) && element_view(x) == e,
            None => r is None,
        },
        r matches Some(Some(x)) ==> x.1 <= 1000,
{
    let a = exec_skip_ows(s, start, end);
    if a >= end {
        return Some(None);
    }
    let b = exec_token_end(s, a, end);
    if b == a {
        return None;
    }
    let tok = exec_lower_range(s, a, b);
    let c = exec_skip_ows(s, b, end);
    if c >= end {
        return Some(Some((tok, 1000)));
    }
    if s[c] != 59 {
        return None;
    }
    let d = exec_skip_ows(s, c + 1, end);
    if d < end && d + 1 < end && (s[d] == 113 || s[d] == 81) && s[d + 1] == 61 {
        match exec_quality(s, d + 2, end) {
            Some((q, f)) => {
                if exec_skip_ows(s, f, end) >= end {
                    Some(Some((tok, q)))
                } else {
                    None
                }
            },
            None => None,
        }
    } else {
        None
    }
}

/// The first comma at or after `i`, or the end of the header.
pub open spec fn next_comma(s: Seq<u8>, i: int) -> int
    decreases s.len() - i,
{
    if 0 <= i < s.len() && s[i] != 44 {
        next_comma(s, i + 1)
    } else {
        i
    }
}

proof fn lemma_next_comma_bounds(s: Seq<u8>, i: int)
    requires
        0 <= i <= s.len(),
    ensures
        i <= next_comma(s, i) <= s.len(),
        next_comma(s, i) < s.len() ==> s[next_comma(s, i)] == 44,
    decreases s.len() - i,
{
    if i < s.len() && s[i] != 44 {
        lemma_next_comma_bounds(s, i + 1);
    }
}

/// The (coding, quality) pairs of the elements from `i` on, in order, with
/// empty elements left out; `None` where one of them breaks the grammar.
pub open spec fn parse_from(s: Seq<u8>, i: int) -> Option<Seq<(Seq<u8>, int)>>
    decreases s.len() - i,
    via parse_from_decreases
{
    if 0 <= i <= s.len() {
        let c = next_comma(s, i);
        match element(s, i, c) {
            None => None,
            Some(e) => {
                let rest = if c < s.len() {
                    parse_from(s, c + 1)
                } else {
                    Some(Seq::empty())
                };
                match rest {
                    None => None,
                    Some(r) => match e {
                        Some(x) => Some(seq![x] + r),
                        None => Some(r),
                    },
                }
            },
        }
    } else {
        Some(Seq::empty())
    }
}

#[via_fn]
proof fn parse_from_decreases(s: Seq<u8>, i: int) {
    if 0 <= i <= s.len() {
        lemma_next_comma_bounds(s, i);
    }
}

/// The parsed `Accept-Encoding` header.
pub open spec fn parse_accept(s: Seq<u8>) -> Option<Seq<(Seq<u8>, int)>> {
    parse_from(s, 0)
}

/// The element the client prefers: the first of those with the highest
/// quality, among those with a quality above zero.
pub open spec fn preferred(l: Seq<(Seq<u8>, int)>) -> Option<(Seq<u8>, int)>
    decreases l.len(),
{
    if l.len() == 0 {
        None
    } else {
        let x = l[0];
        let rest = preferred(l.drop_first());
        if x.1 > 0 && (rest is None || x.1 >= rest->Some_0.1) {
            Some(x)
        } else {
            rest
        }
    }
}

/// The coding a lower-case token names, if it is one of those supported.
pub open spec fn coding_of(tok: Seq<u8>) -> Option<Coding> {
    if tok == Coding::Gzip.token_bytes() {
        Some(Coding::Gzip)
    } else if tok == Coding::Deflate.token_bytes() {
        Some(Coding::Deflate)
    } else if tok == Coding::Brotli.token_bytes() {
        Some(Coding::Brotli)
    } else {
        None
    }
}

/// What content negotiation selects for a request whose `Accept-Encoding`
/// header is `accept`: the client's preferred coding where the header is
/// present, follows the grammar, and prefers a supported coding; else the
/// body is left as it is.
pub open spec fn negotiated(accept: Option<Seq<u8>>) -> Selection {
    match accept {
        Some(s) => match parse_accept(s) {
            Some(l) => match preferred(l) {
                Some(p) => match coding_of(p.0) {
                    Some(c) => Selection::Encode(c),
                    None => Selection::Identity,
                },
                None => Selection::Identity,
            },
            None => Selection::Identity,
        },
        None => Selection::Identity,
    }
}

/// The view of a list of parsed elements.
pub open spec fn prefs_view(v: Seq<(Vec<u8>, u16)>) -> Seq<(Seq<u8>, int)> {
    Seq::new(v.len(), |k: int| (v[k].0@, v[k].1 as int))
}

pub open spec fn prepend(acc: Seq<(Seq<u8>, int)>, r: Option<Seq<(Seq<u8>, int)>>) -> Option<
    Seq<(Seq<u8>, int)>,
> {
    match r {
        Some(x) => Some(acc + x),
        None => None,
    }
}

fn exec_next_comma(s: &[u8], i: usize) -> (r: usize)
    requires
        i <= s@.len(),
    ensures
        r == next_comma(s@, i as int),
        i <= r <= s@.len(),
{
    let mut j = i;
    while j < s.len() && s[j] != 44
        invariant
            i <= j <= s@.len(),
            next_comma(s@, j as int) == next_comma(s@, i as int),
        decreases s@.len() - j,
    {
        j = j + 1;
    }
    j
}

/// Parses an `Accept-Encoding` header into its (coding, quality) pairs, in
/// thousandths; `None` where the header breaks the grammar.
pub fn parse_accept_encoding(header: &[u8]) -> (r: Option<Vec<(Vec<u8>, u16)>>)
    ensures
        match parse_accept(header@) {
            Some(l) => r matches Some(v) && prefs_view(v@) == l,
            None => r is None,
        },
        r matches Some(v) ==> forall|k: int| 0 <= k < v@.len() ==> #[trigger] v@[k].1 <= 1000,
{
    let mut out: Vec<(Vec<u8>, u16)> = Vec::new();
    let mut i: usize = 0;
    loop
        invariant
            i <= header@.len(),
            parse_accept(header@) == prepend(prefs_view(out@), parse_from(header@, i as int)),
            forall|k: int| 0 <= k < out@.len() ==> #[trigger] out@[k].1 <= 1000,
        decreases header@.len() - i,
    {
        let c = exec_next_comma(header, i);
        let ghost before = out@;
        let ghost mut added: Seq<(Seq<u8>, int)> = Seq::empty();
        match exec_element(header, i, c) {
            None => {
                return None;
            },
            Some(e) => {
                if let Some(x) = e {
                    out.push(x);
                    proof {
                        added = seq![(x.0@, x.1 as int)];
                    }
                }
            },
        }
        assert(prefs_view(out@) =~= prefs_view(before) + added);
        if c < header.len() {
            assert(prepend(prefs_view(out@), parse_from(header@, c + 1)) =~= prepend(
                prefs_view(before),
                parse_from(header@, i as int),
            )) by {
                match parse_from(header@, c + 1) {
                    Some(r) => {
                        assert(prefs_view(before) + (added + r) =~= prefs_view(before) + added + r);
                    },
                    None => {},
                }
            }
            i = c + 1;
        } else {
            assert(prefs_view(out@) + Seq::empty() =~= prefs_view(out@));
            return Some(out);
        }
    }
}

/// The coding token the client prefers among parsed (coding, quality) pairs:
/// the first of those with the highest quality above zero.
pub fn preferred_encoding(prefs: &Vec<(Vec<u8>, u16)>) -> (r: Option<Vec<u8>>)
    ensures
        match preferred(prefs_view(prefs@)) {
            Some(p) => r matches Some(t) && t@ == p.0,
            None => r is None,
        },
{
    let ghost all = prefs_view(prefs@);
    let mut best: Option<usize> = None;
    let mut k = prefs.len();
    while k > 0
        invariant
            k <= prefs@.len(),
            all == prefs_view(prefs@),
            match preferred(all.subrange(k as int, all.len() as int)) {
                Some(p) => best matches Some(b) && k <= b < prefs@.len() && all[b as int] == p,
                None => best is None,
            },
        decreases k,
    {
        k = k - 1;
        let q = prefs[k].1;
        let take = match best {
            None => q > 0,
            Some(b) => q > 0 && q >= prefs[b].1,
        };
        if take {
            best = Some(k);
        }
        assert(all.subrange(k as int, all.len() as int).drop_first() =~= all.subrange(
            k + 1,
            all.len() as int,
        ));
    }
    assert(all.subrange(0, all.len() as int) =~= all);
    match best {
        Some(b) => {
            let t = prefs[b].0.clone();
            assert(t@ =~= prefs@[b as int].0@);
            Some(t)
        },
        None => None,
    }
}

fn bytes_equal(a: &[u8], b: &[u8]) -> (r: bool)
    ensures
        r == (a@ == b@),
{
    if a.len() != b.len() {
        return false;
    }
    let mut i: usize = 0;
    while i < a.len()
        invariant
            a@.len() == b@.len(),
            i <= a@.len(),
            forall|j: int| 0 <= j < i ==> a@[j] == b@[j],
        decreases a@.len() - i,
    {
        if a[i] != b[i] {
            return false;
        }
        i = i + 1;
    }
    assert(a@ =~= b@);
    true
}

fn exec_coding_of(tok: &[u8]) -> (r: Option<Coding>)
    ensures
        r == coding_of(tok@),
{
    if bytes_equal(tok, Coding::Gzip.token_vec().as_slice()) {
        Some(Coding::Gzip)
    } else if bytes_equal(tok, Coding::Deflate.token_vec().as_slice()) {
        Some(Coding::Deflate)
    } else if bytes_equal(tok, Coding::Brotli.token_vec().as_slice()) {
        Some(Coding::Brotli)
    } else {
        None
    }
}

/// The bytes of a header that may be absent.
pub open spec fn optional_view(accept: Option<&[u8]>) -> Option<Seq<u8>> {
    match accept {
        Some(s) => Some(s@),
        None => None,
    }
}

/// Content negotiation: what a request whose `Accept-Encoding` header is
/// `accept` (absent: `None`) selects for the response body.
pub fn negotiate(accept: Option<&[u8]>) -> (r: Selection)
    ensures
        r == negotiated(optional_view(accept)),
{
    match accept {
        None => Selection::Identity,
        Some(s) => match parse_accept_encoding(s) {
            None => Selection::Identity,
            Some(prefs) => match preferred_encoding(&prefs) {
                None => Selection::Identity,
                Some(tok) => match exec_coding_of(tok.as_slice()) {
                    Some(c) => Selection::Encode(c),
                    None => Selection::Identity,
                },
            },
        },
    }
}

/// The request's `Accept-Encoding` header from all its lines: absent where
/// there are none, else the lines joined by `", "`.
pub fn accept_header(lines: &Vec<Vec<u8>>) -> (r: Option<Vec<u8>>)
    ensures
        lines@.len() == 0 ==> r is None,
        lines@.len() > 0 ==> (r matches Some(v) && v@ == join(byte_views(lines@))),
{
    if lines.len() == 0 {
        None
    } else {
        Some(join_values(lines))
    }
}

} // verus!
