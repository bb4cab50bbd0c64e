use vstd::prelude::*;
use crate::parser::views_of;
use crate::text::{chars_of, lower_of, lowercase};

verus! {

/// Lexicographic order of character sequences, by code point.
pub open spec fn seq_lt(a: Seq<char>, b: Seq<char>) -> bool
    decreases a.len(),
{
    if a.len() == 0 {
        b.len() > 0
    } else if b.len() == 0 {
        false
    } else if a[0] != b[0] {
        a[0] < b[0]
    } else {
        seq_lt(a.drop_first(), b.drop_first())
    }
}

/// Strictly ascending, hence without repeats.
pub open spec fn strictly_sorted(s: Seq<Seq<char>>) -> bool {
    forall|i: int, j: int| 0 <= i < j < s.len() ==> seq_lt(#[trigger] s[i], #[trigger] s[j])
}

/// Whether `name` starts with `prefix`, both taken in lower case.
pub open spec fn matches_prefix(name: Seq<char>, prefix: Seq<char>) -> bool {
    let n = lower_of(name);
    let p = lower_of(prefix);
    p.len() <= n.len() && n.take(p.len() as int) == p
}

proof fn lemma_lt_trans(a: Seq<char>, b: Seq<char>, c: Seq<char>)
    requires
        seq_lt(a, b),
        seq_lt(b, c),
    ensures
        seq_lt(a, c),
    decreases a.len(),
{
    if a.len() > 0 && b.len() > 0 && c.len() > 0 && a[0] == b[0] && b[0] == c[0] {
        lemma_lt_trans(a.drop_first(), b.drop_first(), c.drop_first());
    }
}

proof fn lemma_lt_total(a: Seq<char>, b: Seq<char>)
    ensures
        a == b || seq_lt(a, b) || seq_lt(b, a),
        !(seq_lt(a, b) && seq_lt(b, a)),
        !seq_lt(a, a),
    decreases a.len(),
{
    if a.len() > 0 && b.len() > 0 && a[0] == b[0] {
        lemma_lt_total(a.drop_first(), b.drop_first());
        if a.drop_first() == b.drop_first() {
            assert(a =~= seq![a[0]] + a.drop_first());
            assert(b =~= seq![b[0]] + b.drop_first());
        }
    } else if a.len() == 0 && b.len() == 0 {
        assert(a =~= b);
    }
    if a.len() > 0 {
        lemma_lt_total(a.drop_first(), a.drop_first());
    }
}

/// `a` before `b` in code-point order.
fn less(a: &Vec<char>, b: &Vec<char>) -> (r: bool)
    ensures
        r == seq_lt(a@, b@),
{
    let mut i: usize = 0;
    assert(a@.skip(0) =~= a@);
    assert(b@.skip(0) =~= b@);
    while i < a.len() && i < b.len() && a[i] == b[i]
        invariant
            i <= a.len(),
            i <= b.len(),
            seq_lt(a@, b@) == seq_lt(a@.skip(i as int), b@.skip(i as int)),
        decreases a.len() - i,
    {
        assert(a@.skip(i as int).drop_first() =~= a@.skip(i + 1));
        assert(b@.skip(i as int).drop_first() =~= b@.skip(i + 1));
        i += 1;
    }
    if i == a.len() {
        i < b.len()
    } else if i == b.len() {
        false
    } else {
        a[i] < b[i]
    }
}

/// Whether `name` starts with the lower-cased prefix `lp`.
fn has_prefix(name: &String, lp: &Vec<char>) -> (r: bool)
    ensures
        r == (lp@.len() <= lower_of(name@).len() && lower_of(name@).take(lp@.len() as int) == lp@),
{
    let ln = chars_of(lowercase(name.as_str()).as_str());
    if lp.len() > ln.len() {
        return false;
    }
    let mut i: usize = 0;
    while i < lp.len()
        invariant
            ln@ == lower_of(name@),
            lp.len() <= ln.len(),
            i <= lp.len(),
            forall|k: int| 0 <= k < i ==> ln@[k] == lp@[k],
        decreases lp.len() - i,
    {
        if ln[i] != lp[i] {
            assert(ln@.take(lp@.len() as int)[i as int] != lp@[i as int]);
            return false;
        }
        i += 1;
    }
    assert(ln@.take(lp@.len() as int) =~= lp@);
    true
}

/// The distinct names among `names` that start with `prefix` (case-insensitive), in
/// ascending order, at most `limit` of them.
pub fn complete_names(names: &Vec<String>, prefix: &str, limit: usize) -> (r: Vec<String>)
    ensures
        exists|all: Seq<Seq<char>>|
            #![trigger strictly_sorted(all)]
            {
                &&& strictly_sorted(all)
                &&& forall|x: Seq<char>| all.contains(x) <==> (exists|i: int|
                    0 <= i < names.len() && #[trigger] names@[i]@ == x && matches_prefix(x, prefix@))
                &&& views_of(r@) == all.take(if all.len() <= limit { all.len() as int } else { limit as int })
            },
{
    let lp = chars_of(lowercase(prefix).as_str());
    let mut sorted: Vec<Vec<char>> = Vec::new();
    let mut texts: Vec<String> = Vec::new();
    let mut i: usize = 0;
    while i < names.len()
        invariant
            i <= names.len(),
            lp@ == lower_of(prefix@),
            sorted.len() == texts.len(),
            forall|k: int| 0 <= k < sorted.len() ==> #[trigger] sorted@[k]@ == texts@[k]@,
            strictly_sorted(views_of(texts@)),
            forall|x: Seq<char>| views_of(texts@).contains(x) <==> (exists|j: int|
                0 <= j < i && #[trigger] names@[j]@ == x && matches_prefix(x, prefix@)),
        decreases names.len() - i,
    {
        let ghost s = views_of(texts@);
        let name = &names[i];
        if has_prefix(name, &lp) {
            let x = chars_of(name.as_str());
            let mut p: usize = 0;
            while p < sorted.len() && less(&sorted[p], &x)
                invariant
                    p <= sorted.len(),
                    sorted.len() == texts.len(),
                    forall|k: int| 0 <= k < sorted.len() ==> #[trigger] sorted@[k]@ == texts@[k]@,
                    s == views_of(texts@),
                    forall|k: int| 0 <= k < p ==> seq_lt(#[trigger] s[k], x@),
                decreases sorted.len() - p,
            {
                p += 1;
            }
            proof {
                if p < s.len() {
                    assert(s[p as int] == sorted@[p as int]@);
                    lemma_lt_total(s[p as int], x@);
                    assert forall|k: int| p < k < s.len() implies seq_lt(x@, #[trigger] s[k]) by {
                        assert(seq_lt(s[p as int], s[k]));
                        if s[p as int] != x@ {
                            lemma_lt_trans(x@, s[p as int], s[k]);
                        }
                    }
                }
            }
            let dup = p < sorted.len() && !less(&x, &sorted[p]);
            if !dup {
                proof {
                    if p < s.len() {
                        assert(s[p as int] == sorted@[p as int]@);
                        lemma_lt_total(s[p as int], x@);
                    }
                }
                let t = name.clone();
                sorted.insert(p, x);
                texts.insert(p, t);
                assert(views_of(texts@) =~= s.insert(p as int, name@));
                assert(strictly_sorted(views_of(texts@))) by {
                    let n = views_of(texts@);
                    assert forall|a: int, b: int| 0 <= a < b < n.len() implies seq_lt(#[trigger] n[a], #[trigger] n[b]) by {
                        if b == p {
                        } else if a == p {
                            if b > p + 1 {
                                assert(n[b] == s[b - 1]);
                            }
                        } else {
                            let a0 = if a < p { a } else { a - 1 };
                            let b0 = if b < p { b } else { b - 1 };
                            assert(n[a] == s[a0] && n[b] == s[b0]);
                        }
                    }
                }
                assert forall|x2: Seq<char>| views_of(texts@).contains(x2) <==> (exists|j: int|
                    0 <= j < i + 1 && #[trigger] names@[j]@ == x2 && matches_prefix(x2, prefix@)) by {
                    if views_of(texts@).contains(x2) {
                        let q = choose|q: int| 0 <= q < views_of(texts@).len() && views_of(texts@)[q] == x2;
                        if q != p {
                            let q0 = if q < p { q } else { q - 1 };
                            assert(s[q0] == x2);
                            assert(s.contains(x2));
                        }
                    }
                    if exists|j: int| 0 <= j < i + 1 && #[trigger] names@[j]@ == x2 && matches_prefix(x2, prefix@) {
                        let j = choose|j: int| 0 <= j < i + 1 && #[trigger] names@[j]@ == x2 && matches_prefix(x2, prefix@);
                        if j < i {
                            assert(s.contains(x2));
                            let q0 = choose|q0: int| 0 <= q0 < s.len() && s[q0] == x2;
                            let q = if q0 < p { q0 } else { q0 + 1 };
                            assert(views_of(texts@)[q] == x2);
                        } else {
                            assert(views_of(texts@)[p as int] == x2);
                        }
                    }
                }
            } else {
                proof {
                    assert(s[p as int] == sorted@[p as int]@);
                    lemma_lt_total(s[p as int], x@);
                    assert(s[p as int] == x@);
                }
                assert forall|x2: Seq<char>| views_of(texts@).contains(x2) <==> (exists|j: int|
                    0 <= j < i + 1 && #[trigger] names@[j]@ == x2 && matches_prefix(x2, prefix@)) by {
                    if exists|j: int| 0 <= j < i + 1 && #[trigger] names@[j]@ == x2 && matches_prefix(x2, prefix@) {
                        let j = choose|j: int| 0 <= j < i + 1 && #[trigger] names@[j]@ == x2 && matches_prefix(x2, prefix@);
                        if j == i {
                            assert(s[p as int] == x2);
                        }
                    }
                }
            }
        } else {
            assert forall|x2: Seq<char>| views_of(texts@).contains(x2) <==> (exists|j: int|
                0 <= j < i + 1 && #[trigger] names@[j]@ == x2 && matches_prefix(x2, prefix@)) by {
                if exists|j: int| 0 <= j < i + 1 && #[trigger] names@[j]@ == x2 && matches_prefix(x2, prefix@) {
                    let j = choose|j: int| 0 <= j < i + 1 && #[trigger] names@[j]@ == x2 && matches_prefix(x2, prefix@);
                    if j == i {
                        assert(!matches_prefix(names@[i as int]@, prefix@));
                    }
                }
            }
        }
        i += 1;
    }
    let ghost all = views_of(texts@);
    texts.truncate(limit);
    assert(views_of(texts@) =~= all.take(if all.len() <= limit { all.len() as int } else { limit as int }));
    texts
}

} // verus!
