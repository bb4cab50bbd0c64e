use vstd::prelude::*;
use crate::text::{chars_of, push_str, string_from_chars};

verus! {

/// The first index from `i` on at which `p` occurs in `s`.
pub open spec fn first_from(s: Seq<char>, p: Seq<char>, i: int) -> Option<int>
    decreases s.len() + 1 - i,
{
    if i < 0 || i + p.len() > s.len() {
        None
    } else if s.subrange(i, i + p.len()) == p {
        Some(i)
    } else {
        first_from(s, p, i + 1)
    }
}

/// The first index at or after `from` that holds `&`, else the length.
pub open spec fn value_end(s: Seq<char>, from: int) -> int
    decreases s.len() - from,
{
    if from >= s.len() {
        s.len() as int
    } else if s[from] == '&' {
        from
    } else {
        value_end(s, from + 1)
    }
}

/// The first `key=value` of `s` with its value masked as `key=***`.
pub open spec fn redact(s: Seq<char>, key: Seq<char>) -> Seq<char> {
    let pattern = key + "="@;
    match first_from(s, pattern, 0) {
        Some(start) => {
            let end = value_end(s, start + pattern.len());
            s.take(start) + pattern + "***"@ + s.skip(end)
        },
        None => s,
    }
}

/// A query string with the values of sensitive parameters masked.
pub open spec fn sanitized(q: Seq<char>) -> Seq<char> {
    redact(redact(redact(redact(q, "api_key"@), "token"@), "password"@), "secret"@)
}

/// Whether `p` occurs in `s` at `i`.
fn matches_at(s: &Vec<char>, p: &Vec<char>, i: usize) -> (r: bool)
    requires
        i + p.len() <= s.len(),
    ensures
        r == (s@.subrange(i as int, i + p.len()) == p@),
{
    let mut k: usize = 0;
    while k < p.len()
        invariant
            i + p.len() <= s.len(),
            k <= p.len(),
            forall|m: int| 0 <= m < k ==> s@[i + m] == p@[m],
        decreases p.len() - k,
    {
        if s[i + k] != p[k] {
            let ghost sub = s@.subrange(i as int, i + p.len());
            assert(sub[k as int] == s@[i + k]);
            assert(sub[k as int] != p@[k as int]);
            return false;
        }
        k += 1;
    }
    assert(s@.subrange(i as int, i + p.len()) =~= p@);
    true
}

/// The first index at which `p` occurs in `s`.
fn find(s: &Vec<char>, p: &Vec<char>) -> (r: Option<usize>)
    ensures
        match r {
            Some(k) => first_from(s@, p@, 0) == Some(k as int),
            None => first_from(s@, p@, 0) is None,
        },
{
    if p.len() == 0 {
        assert(s@.subrange(0, 0) =~= p@);
        return Some(0);
    }
    if p.len() > s.len() {
        return None;
    }
    let mut i: usize = 0;
    while i <= s.len() - p.len()
        invariant
            1 <= p.len() <= s.len(),
            i <= s.len() - p.len() + 1,
            first_from(s@, p@, 0) == first_from(s@, p@, i as int),
        decreases s.len() + 1 - i,
    {
        if matches_at(s, p, i) {
            return Some(i);
        }
        i += 1;
    }
    None
}

/// Whether `p` occurs anywhere in `s`.
pub(crate) fn find_text(s: &Vec<char>, p: &str) -> (r: bool)
    ensures
        r == (first_from(s@, p@, 0) is Some),
{
    let pv = chars_of(p);
    find(s, &pv).is_some()
}

/// Appends `src[a..b]` to `r`.
fn push_range(r: &mut Vec<char>, src: &Vec<char>, a: usize, b: usize)
    requires
        a <= b <= src.len(),
    ensures
        final(r)@ == old(r)@ + src@.subrange(a as int, b as int),
{
    let ghost head = r@;
    let mut j: usize = a;
    while j < b
        invariant
            a <= j <= b <= src.len(),
            r@ == head + src@.subrange(a as int, j as int),
        decreases b - j,
    {
        r.push(src[j]);
        assert(src@.subrange(a as int, j as int).push(src@[j as int]) =~= src@.subrange(a as int, j + 1));
        j += 1;
    }
}

/// The first index at or after `from` that holds `&`, else the length.
fn find_value_end(s: &Vec<char>, from: usize) -> (r: usize)
    requires
        from <= s.len(),
    ensures
        r == value_end(s@, from as int),
        from <= r <= s.len(),
{
    let mut end = from;
    while end < s.len() && s[end] != '&'
        invariant
            from <= end <= s.len(),
            value_end(s@, from as int) == value_end(s@, end as int),
        decreases s.len() - end,
    {
        end += 1;
    }
    end
}

proof fn lemma_first_from_bound(s: Seq<char>, p: Seq<char>, i: int)
    ensures
        first_from(s, p, i) matches Some(k) ==> i <= k && k + p.len() <= s.len(),
    decreases s.len() + 1 - i,
{
    if !(i < 0 || i + p.len() > s.len()) && s.subrange(i, i + p.len()) != p {
        lemma_first_from_bound(s, p, i + 1);
    }
}

/// Masks the first `key=value` of `s`.
fn redact_key(s: &Vec<char>, key: &str) -> (r: Vec<char>)
    ensures
        r@ == redact(s@, key@),
{
    let mut pattern_s = String::new();
    push_str(&mut pattern_s, key);
    push_str(&mut pattern_s, "=");
    let pattern = chars_of(pattern_s.as_str());
    match find(s, &pattern) {
        None => s.clone(),
        Some(start) => {
            proof {
                lemma_first_from_bound(s@, pattern@, 0);
                assert(first_from(s@, pattern@, 0) == Some(start as int));
                assert(start + pattern@.len() <= s@.len());
            }
            let total = s.len();
            let plen = pattern.len();
            assert(start + plen <= total);
            let value_start = start + plen;
            let end = find_value_end(s, value_start);
            let masked = chars_of("***");
            let mut r: Vec<char> = Vec::new();
            push_range(&mut r, s, 0, start);
            push_range(&mut r, &pattern, 0, pattern.len());
            push_range(&mut r, &masked, 0, masked.len());
            push_range(&mut r, s, end, s.len());
            assert(s@.subrange(0, start as int) =~= s@.take(start as int));
            assert(pattern@.subrange(0, pattern.len() as int) =~= pattern@);
            assert(masked@.subrange(0, masked.len() as int) =~= masked@);
            assert(s@.subrange(end as int, s.len() as int) =~= s@.skip(end as int));
            assert(r@ =~= s@.take(start as int) + pattern@ + "***"@ + s@.skip(end as int));
            r
        },
    }
}

/// Sanitize a query string to hide sensitive values: the first value of each of
/// `api_key`, `token`, `password` and `secret` is replaced by `***`.
pub fn sanitize_query(query: &str) -> (r: String)
    ensures
        r@ == (if query@.len() == 0 { Seq::<char>::empty() } else { sanitized(query@) }),
{
    let q = chars_of(query);
    if q.len() == 0 {
        return String::new();
    }
    let a = redact_key(&q, "api_key");
    let b = redact_key(&a, "token");
    let c = redact_key(&b, "password");
    let d = redact_key(&c, "secret");
    string_from_chars(&d)
}

} // verus!
