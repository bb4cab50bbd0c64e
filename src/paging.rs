use vstd::prelude::*;

verus! {

/// The default page size.
pub const DEFAULT_PAGE_SIZE: usize = 100;

/// The largest page size a caller may ask for.
pub const MAX_PAGE_SIZE: usize = 1000;

pub open spec fn min_nat(a: nat, b: nat) -> nat {
    if a <= b {
        a
    } else {
        b
    }
}

/// The number of pages needed for `total` items, `page_size` per page.
pub open spec fn pages_needed(total: nat, page_size: nat) -> nat
    recommends
        page_size >= 1,
{
    (total + page_size - 1) as nat / page_size
}

/// Number of items before a 1-based page; page 0 is read as page 1.
pub open spec fn offset_of(page: nat, page_size: nat) -> nat {
    if page == 0 {
        0
    } else {
        ((page - 1) as nat) * page_size
    }
}

/// Index of the first item of a 1-based page, clipped to the length.
pub open spec fn page_start(len: nat, page: nat, page_size: nat) -> nat {
    min_nat(offset_of(page, page_size), len)
}

/// Index one past the last item of a 1-based page, clipped to the length.
pub open spec fn page_end(len: nat, page: nat, page_size: nat) -> nat {
    min_nat(page_start(len, page, page_size) + page_size, len)
}

/// The items of a 1-based page.
pub open spec fn page_of<A>(s: Seq<A>, page: nat, page_size: nat) -> Seq<A> {
    s.subrange(
        page_start(s.len(), page, page_size) as int,
        page_end(s.len(), page, page_size) as int,
    )
}

/// Pages `1..=k` one after another.
pub open spec fn pages_upto<A>(s: Seq<A>, page_size: nat, k: nat) -> Seq<A>
    decreases k,
{
    if k == 0 {
        seq![]
    } else {
        pages_upto(s, page_size, (k - 1) as nat) + page_of(s, k, page_size)
    }
}

/// The page asked for: 1 when absent, never below 1.
pub fn normalize_page(page: Option<usize>) -> (r: usize)
    ensures
        r == (match page {
            Some(p) => if p >= 1 { p } else { 1 },
            None => 1,
        }),
        r >= 1,
{
    match page {
        Some(p) => if p >= 1 {
            p
        } else {
            1
        },
        None => 1,
    }
}

/// The page size asked for: the default when absent, clamped to `1..=MAX_PAGE_SIZE`.
pub fn normalize_page_size(page_size: Option<usize>) -> (r: usize)
    ensures
        r == (match page_size {
            Some(s) => if s < 1 { 1 } else if s > MAX_PAGE_SIZE { MAX_PAGE_SIZE } else { s },
            None => DEFAULT_PAGE_SIZE,
        }),
        1 <= r <= MAX_PAGE_SIZE,
{
    match page_size {
        Some(s) => if s < 1 {
            1
        } else if s > MAX_PAGE_SIZE {
            MAX_PAGE_SIZE
        } else {
            s
        },
        None => DEFAULT_PAGE_SIZE,
    }
}

/// Number of pages for `total` matches.
pub fn total_pages(total: usize, page_size: usize) -> (r: usize)
    requires
        page_size >= 1,
    ensures
        r == pages_needed(total as nat, page_size as nat),
{
    let q = total / page_size;
    if total % page_size == 0 {
        proof {
            assert((total + page_size - 1) as nat / (page_size as nat) == q) by (nonlinear_arith)
                requires
                    total % page_size == 0,
                    q == total / page_size,
                    page_size >= 1,
            ;
        }
        q
    } else {
        proof {
            assert(q < usize::MAX) by (nonlinear_arith)
                requires
                    total % page_size != 0,
                    q == total / page_size,
                    page_size >= 1,
                    total <= usize::MAX,
            ;
            assert((total + page_size - 1) as nat / (page_size as nat) == q + 1) by (nonlinear_arith)
                requires
                    total % page_size != 0,
                    q == total / page_size,
                    page_size >= 1,
            ;
        }
        q + 1
    }
}

/// Whether pages follow the one returned.
pub fn has_more(page: usize, total_pages: usize) -> (r: bool)
    ensures
        r == (page < total_pages),
{
    page < total_pages
}

/// Offset of the first row of a 1-based page; `None` where it does not fit a `usize`.
pub fn page_offset(page: usize, page_size: usize) -> (r: Option<usize>)
    ensures
        match r {
            Some(o) => o == offset_of(page as nat, page_size as nat),
            None => offset_of(page as nat, page_size as nat) > usize::MAX,
        },
{
    if page == 0 {
        return Some(0);
    }
    (page - 1).checked_mul(page_size)
}

/// Bounds `[start, end)` of a 1-based page within `len` items.
pub fn page_bounds(len: usize, page: usize, page_size: usize) -> (r: (usize, usize))
    ensures
        r.0 == page_start(len as nat, page as nat, page_size as nat),
        r.1 == page_end(len as nat, page as nat, page_size as nat),
{
    let start = match page_offset(page, page_size) {
        Some(o) => if o < len {
            o
        } else {
            len
        },
        None => len,
    };
    let end = if len - start < page_size {
        len
    } else {
        start + page_size
    };
    (start, end)
}

proof fn lemma_pages_upto<A>(s: Seq<A>, page_size: nat, k: nat)
    requires
        page_size >= 1,
    ensures
        pages_upto(s, page_size, k) == s.take(min_nat(k * page_size, s.len()) as int),
    decreases k,
{
    if k == 0 {
        assert(s.take(0) =~= Seq::<A>::empty());
    } else {
        lemma_pages_upto(s, page_size, (k - 1) as nat);
        let a = ((k - 1) as nat) * page_size;
        assert(k * page_size == a + page_size) by (nonlinear_arith)
            requires
                a == ((k - 1) as nat) * page_size,
                k >= 1,
        ;
        if a >= s.len() {
            assert(page_of(s, k, page_size) =~= Seq::<A>::empty());
            assert(s.take(min_nat(a, s.len()) as int) + page_of(s, k, page_size) =~= s.take(
                min_nat(k * page_size, s.len()) as int,
            ));
        } else {
            assert(page_start(s.len(), k, page_size) == a);
            assert(s.take(a as int) + s.subrange(a as int, min_nat(a + page_size, s.len()) as int)
                =~= s.take(min_nat(a + page_size, s.len()) as int));
        }
    }
}

/// Reading pages `1..=pages_needed` one after another gives back every item, in order.
pub proof fn law_pages_concat<A>(s: Seq<A>, page_size: nat)
    requires
        page_size >= 1,
    ensures
        pages_upto(s, page_size, pages_needed(s.len(), page_size)) == s,
{
    let k = pages_needed(s.len(), page_size);
    lemma_pages_upto(s, page_size, k);
    assert(k * page_size >= s.len()) by (nonlinear_arith)
        requires
            k == (s.len() + page_size - 1) as nat / page_size,
            page_size >= 1,
    ;
    assert(s.take(s.len() as int) =~= s);
}

} // verus!
