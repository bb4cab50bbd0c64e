use vstd::prelude::*;
use std::io::Read;
use crate::parser::views_of;

verus! {

/// Records per upsert batch.
pub const BATCH_SIZE: usize = 500;

/// Fewest cards a load must import to count as sound.
pub const MIN_IMPORTED: usize = 1000;

/// Attempts of an upstream call inside the loader.
pub const MAX_RETRIES: u32 = 3;

/// Wait before the second attempt; each later wait doubles.
pub const INITIAL_RETRY_DELAY_MS: u64 = 1000;

/// `serde_json::Value`: the decoded records, carried through unopened.
#[verifier::external_type_specification]
#[verifier::external_body]
pub struct ExJsonValue(serde_json::Value);

/// The number of elements of the JSON array in `b`, or `None` where `b` is not one.
pub uninterp spec fn json_array_len(b: Seq<u8>) -> Option<nat>;

/// The bytes that gzip-decoding `b` gives, or `None` where `b` is not gzip data.
pub uninterp spec fn gunzip_of(b: Seq<u8>) -> Option<Seq<u8>>;

/// Relies on `serde_json::from_slice` into a `Vec<serde_json::Value>`; the error is kept as text.
#[verifier::external_body]
fn parse_json_array(b: &[u8]) -> (r: Result<Vec<serde_json::Value>, String>)
    ensures
        match json_array_len(b@) {
            Some(n) => r matches Ok(v) && v@.len() == n,
            None => r is Err,
        },
{
    serde_json::from_slice::<Vec<serde_json::Value>>(b).map_err(|e| e.to_string())
}

/// Relies on `flate2::read::GzDecoder`, read to the end; the error is kept as text.
#[verifier::external_body]
fn gunzip(b: &[u8]) -> (r: Result<Vec<u8>, String>)
    ensures
        match gunzip_of(b@) {
            Some(d) => r matches Ok(v) && v@ == d,
            None => r is Err,
        },
{
    let mut out = Vec::new();
    match flate2::read::GzDecoder::new(b).read_to_end(&mut out) {
        Ok(_) => Ok(out),
        Err(e) => Err(e.to_string()),
    }
}

/// Why a bulk load failed.
#[derive(Debug, Clone, PartialEq, Eq)]
pub enum BulkError {
    /// The catalog lists no entry of the configured type; the types it does list.
    TypeNotFound(Vec<String>),
    /// The download was empty.
    EmptyDownload,
    /// The bytes are neither a JSON array nor gzip data; the decode error.
    NotGzip(String, String),
    /// The bytes are gzip data whose content is not a JSON array; both parse errors.
    Undecodable(String, String),
    /// The array holds no record.
    EmptyArray,
    /// Fewer cards than `MIN_IMPORTED` were imported; how many were.
    TooFewCards(usize),
}

/// The index of the first catalog entry of type `wanted`.
pub fn select_bulk_type(types: &Vec<String>, wanted: &str) -> (r: Result<usize, BulkError>)
    ensures
        match r {
            Ok(i) => i < types.len() && types@[i as int]@ == wanted@ && forall|j: int|
                0 <= j < i ==> types@[j]@ != wanted@,
            Err(e) => (e matches BulkError::TypeNotFound(ts) && views_of(ts@) == views_of(types@))
                && forall|j: int|
                0 <= j < types.len() ==> types@[j]@ != wanted@,
        },
{
    let mut i: usize = 0;
    while i < types.len()
        invariant
            i <= types.len(),
            forall|j: int| 0 <= j < i ==> types@[j]@ != wanted@,
        decreases types.len() - i,
    {
        if crate::text::same_text(types[i].as_str(), wanted) {
            return Ok(i);
        }
        i += 1;
    }
    Err(BulkError::TypeNotFound(copy_strings(types)))
}

/// A copy of a list of strings.
fn copy_strings(v: &Vec<String>) -> (r: Vec<String>)
    ensures
        views_of(r@) == views_of(v@),
{
    let mut r: Vec<String> = Vec::new();
    let mut i: usize = 0;
    while i < v.len()
        invariant
            i <= v.len(),
            views_of(r@) == views_of(v@.take(i as int)),
        decreases v.len() - i,
    {
        let ghost before = r@;
        let c = v[i].clone();
        assert(c@ == v@[i as int]@);
        r.push(c);
        assert(v@.take(i + 1) =~= v@.take(i as int).push(v@[i as int]));
        assert(views_of(r@) =~= views_of(before).push(c@));
        assert(views_of(v@.take(i + 1)) =~= views_of(v@.take(i as int)).push(v@[i as int]@));
        i += 1;
    }
    assert(v@.take(v.len() as int) =~= v@);
    r
}

/// Decode a download: as a JSON array first, else as gzip data holding one.
pub fn decode_bulk(bytes: &Vec<u8>) -> (r: Result<Vec<serde_json::Value>, BulkError>)
    ensures
        match json_array_len(bytes@) {
            Some(n) => r matches Ok(v) && v@.len() == n,
            None => match gunzip_of(bytes@) {
                None => r matches Err(BulkError::NotGzip(_, _)),
                Some(d) => match json_array_len(d) {
                    Some(n) => r matches Ok(v) && v@.len() == n,
                    None => r matches Err(BulkError::Undecodable(_, _)),
                },
            },
        },
{
    let direct_error = match parse_json_array(bytes.as_slice()) {
        Ok(values) => return Ok(values),
        Err(e) => e,
    };
    let inflated = match gunzip(bytes.as_slice()) {
        Ok(d) => d,
        Err(e) => return Err(BulkError::NotGzip(direct_error, e)),
    };
    match parse_json_array(inflated.as_slice()) {
        Ok(values) => Ok(values),
        Err(e) => Err(BulkError::Undecodable(direct_error, e)),
    }
}

/// `|a - b|`.
pub open spec fn abs_diff(a: int, b: int) -> int {
    if a >= b {
        a - b
    } else {
        b - a
    }
}

pub open spec fn abs(a: int) -> int {
    if a >= 0 {
        a
    } else {
        -a
    }
}

/// Check a download's size: an empty download is an error; otherwise whether its size
/// differs from the advertised one by more than a tenth (a warning only).
pub fn check_download_size(actual: usize, expected: i64) -> (r: Result<bool, BulkError>)
    ensures
        actual == 0 ==> r == Err::<bool, BulkError>(BulkError::EmptyDownload),
        actual > 0 ==> r == Ok::<bool, BulkError>(10 * abs_diff(actual as int, expected as int) > abs(expected as int)),
{
    if actual == 0 {
        return Err(BulkError::EmptyDownload);
    }
    let a = actual as i128;
    let e = expected as i128;
    let diff = if a >= e {
        a - e
    } else {
        e - a
    };
    let size = if e >= 0 {
        e
    } else {
        -e
    };
    Ok(10 * diff > size)
}

/// What an import has counted so far.
#[derive(Debug, Clone, Copy)]
pub struct ImportProgress {
    /// Records in the decoded array.
    pub total: usize,
    /// Cards written by finished batches.
    pub imported: usize,
    /// Records that could not be turned into a card.
    pub failed: usize,
    /// Cards waiting in the current batch.
    pub pending: usize,
}

impl ImportProgress {
    /// Counts never pass the number of records, and a batch never passes its size.
    pub open spec fn wf(&self) -> bool {
        &&& self.imported + self.failed + self.pending <= self.total
        &&& self.pending <= BATCH_SIZE
    }

    /// Records not yet counted.
    pub open spec fn remaining(&self) -> nat {
        (self.total - self.imported - self.failed - self.pending) as nat
    }

    /// Start counting an array of `total` records; an empty array is an error.
    pub fn new(total: usize) -> (r: Result<Self, BulkError>)
        ensures
            total == 0 ==> r == Err::<Self, BulkError>(BulkError::EmptyArray),
            total > 0 ==> (r matches Ok(p) && p.wf() && p.total == total && p.imported == 0
                && p.failed == 0 && p.pending == 0),
    {
        if total == 0 {
            return Err(BulkError::EmptyArray);
        }
        Ok(ImportProgress { total, imported: 0, failed: 0, pending: 0 })
    }

    /// A record became a card and joined the batch; `true` when the batch is full and is to
    /// be written now.
    pub fn card_ok(&mut self) -> (flush: bool)
        requires
            old(self).wf(),
            old(self).remaining() > 0,
            old(self).pending < BATCH_SIZE,
        ensures
            final(self).wf(),
            *final(self) == (ImportProgress { pending: (old(self).pending + 1) as usize, ..*old(self) }),
            flush == (final(self).pending == BATCH_SIZE),
    {
        self.pending = self.pending + 1;
        self.pending == BATCH_SIZE
    }

    /// A record could not be turned into a card; it is counted and skipped.
    pub fn card_failed(&mut self)
        requires
            old(self).wf(),
            old(self).remaining() > 0,
        ensures
            final(self).wf(),
            *final(self) == (ImportProgress { failed: (old(self).failed + 1) as usize, ..*old(self) }),
    {
        self.failed = self.failed + 1;
    }

    /// The pending batch was written.
    pub fn batch_stored(&mut self)
        requires
            old(self).wf(),
        ensures
            final(self).wf(),
            *final(self) == (ImportProgress {
                imported: (old(self).imported + old(self).pending) as usize,
                pending: 0,
                ..*old(self)
            }),
    {
        self.imported = self.imported + self.pending;
        self.pending = 0;
    }

    /// The verdict once every batch is written: too few cards fail the load; otherwise the
    /// count of imported cards, and whether more than a tenth of the records failed.
    pub fn finish(&self) -> (r: Result<(usize, bool), BulkError>)
        requires
            self.wf(),
            self.pending == 0,
        ensures
            self.imported < MIN_IMPORTED ==> r == Err::<(usize, bool), BulkError>(BulkError::TooFewCards(self.imported)),
            self.imported >= MIN_IMPORTED ==> r == Ok::<(usize, bool), BulkError>((self.imported, self.failed > self.total / 10)),
    {
        if self.imported < MIN_IMPORTED {
            return Err(BulkError::TooFewCards(self.imported));
        }
        Ok((self.imported, self.failed > self.total / 10))
    }
}

/// Whole hours in `secs` seconds, rounded toward zero.
pub open spec fn whole_hours(secs: int) -> int {
    if secs >= 0 {
        secs / 3600
    } else {
        -((-secs) / 3600)
    }
}

/// Whether a load is due: always with no cards; with cards, once `ttl_hours` whole hours
/// have passed since the last import; never with cards but no import on record.
/// Times are seconds since the epoch.
pub fn should_load(has_cards: bool, last_import: Option<i64>, now: i64, ttl_hours: u32) -> (r: bool)
    ensures
        r == (!has_cards || match last_import {
            Some(t) => whole_hours(now - t) >= ttl_hours,
            None => false,
        }),
{
    if !has_cards {
        return true;
    }
    match last_import {
        Some(t) => {
            let secs = now as i128 - t as i128;
            let hours = if secs >= 0 {
                secs / 3600
            } else {
                -((-secs) / 3600)
            };
            hours >= ttl_hours as i128
        },
        None => false,
    }
}

/// Whether upstream's snapshot is newer than the last import: strictly later, or no import
/// on record. Times are seconds since the epoch.
pub fn upstream_updated(last_import: Option<i64>, upstream_updated_at: i64) -> (r: bool)
    ensures
        r == match last_import {
            Some(t) => upstream_updated_at > t,
            None => true,
        },
{
    match last_import {
        Some(t) => upstream_updated_at > t,
        None => true,
    }
}

/// `2^n`.
pub open spec fn pow2(n: nat) -> nat
    decreases n,
{
    if n == 0 {
        1
    } else {
        2 * pow2((n - 1) as nat)
    }
}

/// What to do after an attempt of a retried call.
#[derive(Debug, Clone, Copy, PartialEq, Eq, Structural)]
pub enum RetryAction {
    /// The attempt succeeded: hand its result back.
    Finish,
    /// Wait this many milliseconds, then try again.
    Retry(u64),
    /// The last attempt failed: hand its error back.
    GiveUp,
}

/// The wait before attempt `attempt + 1`, held at the largest `u64`.
pub open spec fn backoff_ms(attempt: nat) -> nat {
    let d = (INITIAL_RETRY_DELAY_MS as nat) * pow2((attempt - 1) as nat);
    if d > u64::MAX {
        u64::MAX as nat
    } else {
        d
    }
}

/// After attempt number `attempt` (from 1) of at most `max_attempts`: finish on success,
/// give up once the attempts are spent, else wait 1 s, 2 s, 4 s, ... and retry.
pub fn retry_with_backoff(attempt: u32, max_attempts: u32, succeeded: bool) -> (r: RetryAction)
    requires
        attempt >= 1,
    ensures
        r == (if succeeded {
            RetryAction::Finish
        } else if attempt >= max_attempts {
            RetryAction::GiveUp
        } else {
            RetryAction::Retry(backoff_ms(attempt as nat) as u64)
        }),
{
    if succeeded {
        return RetryAction::Finish;
    }
    if attempt >= max_attempts {
        return RetryAction::GiveUp;
    }
    let mut delay: u64 = INITIAL_RETRY_DELAY_MS;
    let mut k: u32 = 1;
    while k < attempt
        invariant
            1 <= k <= attempt,
            delay as nat == backoff_ms(k as nat),
        decreases attempt - k,
    {
        proof {
            assert(pow2(k as nat) == 2 * pow2((k - 1) as nat));
        }
        delay = delay.saturating_add(delay);
        k += 1;
    }
    RetryAction::Retry(delay)
}

} // verus!
