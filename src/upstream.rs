use vstd::prelude::*;
use vstd::string::*;
use crate::errors::ErrorCode;
use crate::sanitize::first_from;
use crate::text::{chars_of, push_str};

verus! {

/// The upstream catalog's address.
pub const SCRYFALL_API_BASE: &'static str = "https://api.scryfall.com";

/// The most ids one collection request may carry.
pub const COLLECTION_CHUNK: usize = 75;

/// Whether a byte is left as it is by percent-encoding.
pub open spec fn unreserved(b: u8) -> bool {
    (48 <= b <= 57) || (65 <= b <= 90) || (97 <= b <= 122) || b == 45 || b == 46 || b == 95 || b == 126
}

/// The upper-case hexadecimal digit for `d < 16`.
pub open spec fn hex_upper(d: u8) -> char {
    if d < 10 {
        ((d + 48) as u8) as char
    } else {
        ((d + 55) as u8) as char
    }
}

/// Percent-encoding: unreserved bytes stay, every other byte becomes `%XY`.
pub open spec fn percent_encoded(b: Seq<u8>) -> Seq<char>
    decreases b.len(),
{
    if b.len() == 0 {
        seq![]
    } else {
        let x = b.last();
        percent_encoded(b.drop_last()) + if unreserved(x) {
            seq![x as char]
        } else {
            seq!['%', hex_upper(x / 16), hex_upper(x % 16)]
        }
    }
}

/// Relies on `urlencoding::encode`: every byte but ASCII letters, digits and `-._~`
/// becomes `%` and two upper-case hexadecimal digits.
#[verifier::external_body]
fn url_encode(s: &str) -> (r: String)
    ensures
        r@ == percent_encoded(s.spec_bytes()),
{
    urlencoding::encode(s).into_owned()
}

/// How an upstream HTTP status is read.
#[derive(Debug, Clone, Copy, PartialEq, Eq, Structural)]
pub enum ResponseClass {
    /// 2xx.
    Success,
    /// 404: the card does not exist.
    NotFound,
    /// Any other status: an upstream error.
    Failure,
}

/// 2xx is success, 404 is absence, anything else is an error.
pub fn classify_status(status: u16) -> (r: ResponseClass)
    ensures
        r == (if 200 <= status <= 299 {
            ResponseClass::Success
        } else if status == 404 {
            ResponseClass::NotFound
        } else {
            ResponseClass::Failure
        }),
{
    if 200 <= status && status <= 299 {
        ResponseClass::Success
    } else if status == 404 {
        ResponseClass::NotFound
    } else {
        ResponseClass::Failure
    }
}

/// The page to fetch after one whose `has_more` and `next_page` are given.
pub fn next_page_url(has_more: bool, next_page: Option<String>) -> (r: Option<String>)
    ensures
        has_more ==> r == next_page,
        !has_more ==> r is None,
{
    if has_more {
        next_page
    } else {
        None
    }
}

/// The first page of an upstream search.
pub fn search_url(query: &str) -> (r: String)
    ensures
        r@ == SCRYFALL_API_BASE@ + "/cards/search?q="@ + percent_encoded(query.spec_bytes()),
{
    let encoded = url_encode(query);
    let mut s = String::new();
    push_str(&mut s, SCRYFALL_API_BASE);
    push_str(&mut s, "/cards/search?q=");
    push_str(&mut s, encoded.as_str());
    s
}

/// The address of one card, from the id's text.
pub fn card_url(id_text: &str) -> (r: String)
    ensures
        r@ == SCRYFALL_API_BASE@ + "/cards/"@ + id_text@,
{
    let mut s = String::new();
    push_str(&mut s, SCRYFALL_API_BASE);
    push_str(&mut s, "/cards/");
    push_str(&mut s, id_text);
    s
}

/// The address of a lookup by name, fuzzy or exact.
pub fn named_url(name: &str, fuzzy: bool) -> (r: String)
    ensures
        r@ == SCRYFALL_API_BASE@ + (if fuzzy { "/cards/named?fuzzy="@ } else { "/cards/named?exact="@ })
            + percent_encoded(name.spec_bytes()),
{
    let encoded = url_encode(name);
    let mut s = String::new();
    push_str(&mut s, SCRYFALL_API_BASE);
    if fuzzy {
        push_str(&mut s, "/cards/named?fuzzy=");
    } else {
        push_str(&mut s, "/cards/named?exact=");
    }
    push_str(&mut s, encoded.as_str());
    s
}

/// Bounds `[start, end)` of the collection requests for `len` ids, `chunk` per request:
/// consecutive, covering `0..len` in order, each full but the last.
pub fn collection_chunks(len: usize, chunk: usize) -> (r: Vec<(usize, usize)>)
    requires
        chunk >= 1,
    ensures
        len == 0 <==> r.len() == 0,
        r.len() > 0 ==> r@[0].0 == 0 && r@[r.len() - 1].1 == len,
        forall|k: int| 0 <= k < r.len() ==> #[trigger] r@[k].0 < r@[k].1 <= r@[k].0 + chunk,
        forall|k: int| 0 <= k < r.len() - 1 ==> #[trigger] r@[k].1 == r@[k + 1].0 && r@[k].1 - r@[k].0 == chunk,
{
    let mut r: Vec<(usize, usize)> = Vec::new();
    let mut start: usize = 0;
    while start < len
        invariant
            chunk >= 1,
            start <= len,
            r.len() == 0 <==> start == 0,
            r.len() > 0 ==> r@[0].0 == 0 && r@[r.len() - 1].1 == start,
            forall|k: int| 0 <= k < r.len() ==> #[trigger] r@[k].0 < r@[k].1 <= r@[k].0 + chunk,
            forall|k: int| 0 <= k < r.len() - 1 ==> #[trigger] r@[k].1 == r@[k + 1].0 && r@[k].1 - r@[k].0 == chunk,
            r.len() > 0 && start < len ==> r@[r.len() - 1].1 - r@[r.len() - 1].0 == chunk,
        decreases len - start,
    {
        let end = if len - start <= chunk {
            len
        } else {
            start + chunk
        };
        r.push((start, end));
        start = end;
    }
    r
}

/// Whether `p` occurs anywhere in `s`.
fn mentions(s: &str, p: &str) -> (r: bool)
    ensures
        r == (first_from(s@, p@, 0) is Some),
{
    let sv = chars_of(s);
    let pv = chars_of(p);
    let mut i: usize = 0;
    if pv.len() > sv.len() {
        proof {
            assert(first_from(s@, p@, 0) is None);
        }
        return false;
    }
    while i <= sv.len() - pv.len()
        invariant
            sv@ == s@,
            pv@ == p@,
            pv.len() <= sv.len(),
            i <= sv.len() - pv.len() + 1,
            first_from(s@, p@, 0) == first_from(s@, p@, i as int),
        decreases sv.len() - pv.len() + 1 - i,
    {
        let mut k: usize = 0;
        let mut same = true;
        while k < pv.len()
            invariant
                i + pv.len() <= sv.len(),
                k <= pv.len(),
                same == forall|m: int| 0 <= m < k ==> sv@[i + m] == pv@[m],
            decreases pv.len() - k,
        {
            if sv[i + k] != pv[k] {
                same = false;
            }
            k += 1;
        }
        if same {
            assert(sv@.subrange(i as int, i + pv.len()) =~= pv@);
            return true;
        } else {
            proof {
                let m = choose|m: int| 0 <= m < pv.len() && sv@[i + m] != pv@[m];
                assert(sv@.subrange(i as int, i + pv.len())[m] != pv@[m]);
            }
        }
        i += 1;
    }
    false
}

/// The response code for a failed request, read from its error text: upstream and breaker
/// failures first, then store failures, else an internal error.
pub fn failure_code(message: &str) -> (r: ErrorCode)
    ensures
        r == (if first_from(message@, "Scryfall API error"@, 0) is Some
            || first_from(message@, "Scryfall API unavailable"@, 0) is Some
            || first_from(message@, "Circuit breaker"@, 0) is Some {
            ErrorCode::ScryfallApiError
        } else if first_from(message@, "database"@, 0) is Some
            || first_from(message@, "connection"@, 0) is Some
            || first_from(message@, "pool"@, 0) is Some {
            ErrorCode::DatabaseError
        } else {
            ErrorCode::InternalError
        }),
{
    if mentions(message, "Scryfall API error") || mentions(message, "Scryfall API unavailable")
        || mentions(message, "Circuit breaker") {
        ErrorCode::ScryfallApiError
    } else if mentions(message, "database") || mentions(message, "connection") || mentions(
        message,
        "pool",
    ) {
        ErrorCode::DatabaseError
    } else {
        ErrorCode::InternalError
    }
}

} // verus!
