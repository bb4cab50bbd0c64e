use vstd::prelude::*;
use vstd::hash_map::{HashMapWithView, StringHashMap};
use crate::complete::{complete_names, matches_prefix, strictly_sorted};
use crate::parser::views_of;

verus! {

/// A card as the store keeps it: the upstream record verbatim, the name derived from it,
/// and bookkeeping times (seconds since the epoch).
#[derive(Debug)]
pub struct StoredCard {
    pub id: u128,
    pub name: String,
    pub raw_json: String,
    pub created_at: i64,
    pub updated_at: i64,
}

/// A card to upsert.
#[derive(Debug)]
pub struct NewCard {
    pub id: u128,
    pub name: String,
    pub raw_json: String,
}

/// The mathematical form of a stored card.
pub ghost struct CardRow {
    pub id: u128,
    pub name: Seq<char>,
    pub raw: Seq<char>,
    pub created_at: i64,
    pub updated_at: i64,
}

/// The mathematical form of a card to upsert.
pub ghost struct NewRow {
    pub id: u128,
    pub name: Seq<char>,
    pub raw: Seq<char>,
}

pub open spec fn row(c: StoredCard) -> CardRow {
    CardRow { id: c.id, name: c.name@, raw: c.raw_json@, created_at: c.created_at, updated_at: c.updated_at }
}

pub open spec fn new_row(c: NewCard) -> NewRow {
    NewRow { id: c.id, name: c.name@, raw: c.raw_json@ }
}

pub open spec fn rows(m: Map<u128, StoredCard>) -> Map<u128, CardRow> {
    m.map_values(|c: StoredCard| row(c))
}

pub open spec fn new_rows(b: Seq<NewCard>) -> Seq<NewRow> {
    b.map_values(|c: NewCard| new_row(c))
}

/// The cards after upserting `batch` at `now`, in order: a new id is inserted with both
/// times at `now`; a known id has its record replaced, keeps `created_at`, and has
/// `updated_at` bumped to `now` (never moved back, should the clock have gone back).
pub open spec fn upsert_rows(m: Map<u128, CardRow>, batch: Seq<NewRow>, now: i64) -> Map<u128, CardRow>
    decreases batch.len(),
{
    if batch.len() == 0 {
        m
    } else {
        let prev = upsert_rows(m, batch.drop_last(), now);
        let c = batch.last();
        let created = if prev.contains_key(c.id) { prev[c.id].created_at } else { now };
        let updated = if prev.contains_key(c.id) && prev[c.id].updated_at > now {
            prev[c.id].updated_at
        } else {
            now
        };
        prev.insert(c.id, CardRow { id: c.id, name: c.name, raw: c.raw, created_at: created, updated_at: updated })
    }
}

/// The stored cards of `ids`, each once, in the order of their first request; absent ids
/// left out.
pub open spec fn found_rows(m: Map<u128, CardRow>, ids: Seq<u128>) -> Seq<CardRow>
    decreases ids.len(),
{
    if ids.len() == 0 {
        seq![]
    } else {
        let p = found_rows(m, ids.drop_last());
        if m.contains_key(ids.last()) && !ids.drop_last().contains(ids.last()) {
            p.push(m[ids.last()])
        } else {
            p
        }
    }
}

/// A result-set cache entry.
#[derive(Debug)]
pub struct ResultSetEntry {
    pub ids: Vec<u128>,
    pub ttl_hours: i32,
    pub last_accessed: i64,
}

/// The mathematical form of a result-set entry.
pub ghost struct ResultSetRow {
    pub ids: Seq<u128>,
    pub ttl_hours: i32,
    pub last_accessed: i64,
}

pub open spec fn rs_row(e: ResultSetEntry) -> ResultSetRow {
    ResultSetRow { ids: e.ids@, ttl_hours: e.ttl_hours, last_accessed: e.last_accessed }
}

pub open spec fn rs_rows(m: Map<Seq<char>, ResultSetEntry>) -> Map<Seq<char>, ResultSetRow> {
    m.map_values(|e: ResultSetEntry| rs_row(e))
}

/// The result sets after storing `ids` under `fp` at `now`.
pub open spec fn put_rs(
    m: Map<Seq<char>, ResultSetRow>,
    fp: Seq<char>,
    ids: Seq<u128>,
    ttl_hours: i32,
    now: i64,
) -> Map<Seq<char>, ResultSetRow> {
    m.insert(fp, ResultSetRow { ids, ttl_hours, last_accessed: now })
}

/// Whether an entry is expired at `now`: its last access plus its time-to-live lies
/// before `now`.
pub open spec fn expired(e: ResultSetRow, now: i64) -> bool {
    e.last_accessed as int + e.ttl_hours as int * 3600 < now as int
}

/// Whether an entry was last read more than `hours` before `now`.
pub open spec fn idle_for(e: ResultSetRow, hours: i64, now: i64) -> bool {
    e.last_accessed as int + hours as int * 3600 < now as int
}

/// What a read of `fp` at `now` returns, and the result sets after it: a live entry is
/// returned and its access time refreshed; an expired one is a miss and is evicted.
pub open spec fn get_rs(m: Map<Seq<char>, ResultSetRow>, fp: Seq<char>, now: i64) -> (
    Option<(Seq<u128>, i32)>,
    Map<Seq<char>, ResultSetRow>,
) {
    if m.contains_key(fp) && !expired(m[fp], now) {
        (
            Some((m[fp].ids, m[fp].ttl_hours)),
            m.insert(fp, ResultSetRow { last_accessed: now, ..m[fp] }),
        )
    } else if m.contains_key(fp) {
        (None, m.remove(fp))
    } else {
        (None, m)
    }
}

/// The result sets left after evicting those idle for more than `hours` at `now`.
pub open spec fn gc_rs(m: Map<Seq<char>, ResultSetRow>, hours: i64, now: i64) -> Map<Seq<char>, ResultSetRow> {
    m.restrict(m.dom().filter(|k: Seq<char>| !idle_for(m[k], hours, now)))
}

/// One line of the import log.
#[derive(Debug)]
pub struct ImportRecord {
    pub total_cards: i32,
    pub source: String,
    pub imported_at: i64,
}

/// A store kept in memory for the card, autocompletion, result-set and import-log parts
/// of the store contract: cards by id, the result-set cache by fingerprint, and the
/// append-only import log. It runs no predicate search and no fuzzy name search.
pub struct MemoryStore {
    cards: HashMapWithView<u128, StoredCard>,
    /// Every stored id, so that the cards can be visited.
    card_ids: Vec<u128>,
    result_sets: StringHashMap<ResultSetEntry>,
    /// Every fingerprint ever stored, so that eviction can visit them all.
    fingerprints: Vec<String>,
    imports: Vec<ImportRecord>,
}

pub open spec fn ids_match(m: Map<u128, StoredCard>) -> bool {
    forall|k: u128| #[trigger] m.contains_key(k) ==> m[k].id == k
}

pub open spec fn ids_listed(m: Map<u128, StoredCard>, ids: Seq<u128>) -> bool {
    &&& forall|k: u128| #[trigger] m.contains_key(k) ==> ids.contains(k)
    &&& forall|i: int| 0 <= i < ids.len() ==> m.contains_key(#[trigger] ids[i])
}

/// The names of the cards in `m`.
pub open spec fn stored_names(m: Map<u128, CardRow>) -> Set<Seq<char>> {
    Set::new(|x: Seq<char>| exists|k: u128| m.contains_key(k) && m[k].name == x)
}

pub open spec fn index_covers(m: Map<Seq<char>, ResultSetEntry>, fps: Seq<String>) -> bool {
    forall|k: Seq<char>| #[trigger] m.contains_key(k) ==> exists|i: int| 0 <= i < fps.len() && fps[i]@ == k
}

fn copy_string(s: &String) -> (r: String)
    ensures
        r@ == s@,
{
    s.clone()
}

fn copy_ids(v: &Vec<u128>) -> (r: Vec<u128>)
    ensures
        r@ == v@,
{
    let mut r: Vec<u128> = Vec::new();
    let mut i: usize = 0;
    while i < v.len()
        invariant
            i <= v.len(),
            r@ == v@.take(i as int),
        decreases v.len() - i,
    {
        r.push(v[i]);
        assert(v@.take(i as int).push(v@[i as int]) =~= v@.take(i + 1));
        i += 1;
    }
    assert(v@.take(v.len() as int) =~= v@);
    r
}

impl MemoryStore {
    pub closed spec fn card_rows(&self) -> Map<u128, CardRow> {
        rows(self.cards@)
    }

    pub closed spec fn result_set_rows(&self) -> Map<Seq<char>, ResultSetRow> {
        rs_rows(self.result_sets@)
    }

    pub closed spec fn import_times(&self) -> Seq<i64> {
        self.imports@.map_values(|r: ImportRecord| r.imported_at)
    }

    /// Every stored card sits under its own id, and every stored fingerprint is listed.
    pub closed spec fn wf(&self) -> bool {
        &&& ids_match(self.cards@)
        &&& ids_listed(self.cards@, self.card_ids@)
        &&& index_covers(self.result_sets@, self.fingerprints@)
    }

    /// An empty store.
    pub fn new() -> (r: Self)
        ensures
            r.wf(),
            r.card_rows() == Map::<u128, CardRow>::empty(),
            r.result_set_rows() == Map::<Seq<char>, ResultSetRow>::empty(),
            r.import_times() == Seq::<i64>::empty(),
    {
        let r = MemoryStore {
            cards: HashMapWithView::new(),
            card_ids: Vec::new(),
            result_sets: StringHashMap::new(),
            fingerprints: Vec::new(),
            imports: Vec::new(),
        };
        assert(r.card_rows() =~= Map::<u128, CardRow>::empty());
        assert(r.result_set_rows() =~= Map::<Seq<char>, ResultSetRow>::empty());
        assert(r.import_times() =~= Seq::<i64>::empty());
        r
    }

    /// Upsert a batch of cards at `now`, in order.
    pub fn upsert_cards(&mut self, batch: &Vec<NewCard>, now: i64)
        requires
            old(self).wf(),
        ensures
            final(self).wf(),
            final(self).card_rows() == upsert_rows(old(self).card_rows(), new_rows(batch@), now),
            final(self).result_set_rows() == old(self).result_set_rows(),
            final(self).import_times() == old(self).import_times(),
    {
        let ghost start = self.card_rows();
        let mut i: usize = 0;
        assert(new_rows(batch@).take(0) =~= Seq::<NewRow>::empty());
        while i < batch.len()
            invariant
                self.wf(),
                i <= batch.len(),
                self.card_rows() == upsert_rows(start, new_rows(batch@).take(i as int), now),
                self.result_set_rows() == old(self).result_set_rows(),
                self.result_sets@ == old(self).result_sets@,
                self.fingerprints@ == old(self).fingerprints@,
                self.import_times() == old(self).import_times(),
                start == old(self).card_rows(),
            decreases batch.len() - i,
        {
            let c = &batch[i];
            let (created, updated) = match self.cards.get(&c.id) {
                Some(existing) => (
                    existing.created_at,
                    if existing.updated_at > now {
                        existing.updated_at
                    } else {
                        now
                    },
                ),
                None => (now, now),
            };
            let stored = StoredCard {
                id: c.id,
                name: copy_string(&c.name),
                raw_json: copy_string(&c.raw_json),
                created_at: created,
                updated_at: updated,
            };
            let ghost before = self.cards@;
            let ghost ids_before = self.card_ids@;
            if !self.cards.contains_key(&c.id) {
                self.card_ids.push(c.id);
            }
            self.cards.insert(c.id, stored);
            assert(ids_listed(self.cards@, self.card_ids@)) by {
                assert forall|k: u128| #[trigger] self.cards@.contains_key(k) implies self.card_ids@.contains(k) by {
                    if k == c.id {
                        if before.contains_key(k) {
                            assert(ids_before.contains(k));
                            let j = choose|j: int| 0 <= j < ids_before.len() && ids_before[j] == k;
                            assert(self.card_ids@[j] == k);
                        } else {
                            assert(self.card_ids@[self.card_ids@.len() - 1] == k);
                        }
                    } else {
                        assert(before.contains_key(k));
                        assert(ids_before.contains(k));
                        let j = choose|j: int| 0 <= j < ids_before.len() && ids_before[j] == k;
                        assert(self.card_ids@[j] == k);
                    }
                }
                assert forall|j: int| 0 <= j < self.card_ids@.len() implies self.cards@.contains_key(#[trigger] self.card_ids@[j]) by {
                    if j < ids_before.len() {
                        assert(self.card_ids@[j] == ids_before[j]);
                        assert(before.contains_key(ids_before[j]));
                    }
                }
            }
            proof {
                assert(new_rows(batch@).take(i + 1).drop_last() =~= new_rows(batch@).take(i as int));
                assert(rows(self.cards@) =~= rows(before).insert(c.id, row(stored)));
            }
            i += 1;
        }
        assert(new_rows(batch@).take(batch.len() as int) =~= new_rows(batch@));
    }

    /// The card with id `id`, if stored.
    pub fn get_card(&self, id: u128) -> (r: Option<StoredCard>)
        requires
            self.wf(),
        ensures
            match r {
                Some(c) => self.card_rows().contains_key(id) && row(c) == self.card_rows()[id],
                None => !self.card_rows().contains_key(id),
            },
    {
        match self.cards.get(&id) {
            Some(c) => Some(
                StoredCard {
                    id: c.id,
                    name: copy_string(&c.name),
                    raw_json: copy_string(&c.raw_json),
                    created_at: c.created_at,
                    updated_at: c.updated_at,
                },
            ),
            None => None,
        }
    }

    /// The stored cards among `ids`, each once, in the order of their first request;
    /// absent ids are left out.
    pub fn get_cards(&self, ids: &Vec<u128>) -> (r: Vec<StoredCard>)
        requires
            self.wf(),
        ensures
            r@.map_values(|c: StoredCard| row(c)) == found_rows(self.card_rows(), ids@),
            forall|a: int, b: int| 0 <= a < b < r.len() ==> r@[a].id != r@[b].id,
    {
        let mut r: Vec<StoredCard> = Vec::new();
        let mut i: usize = 0;
        assert(ids@.take(0) =~= Seq::<u128>::empty());
        assert(r@.map_values(|c: StoredCard| row(c)) =~= Seq::<CardRow>::empty());
        while i < ids.len()
            invariant
                self.wf(),
                i <= ids.len(),
                r@.map_values(|c: StoredCard| row(c)) == found_rows(self.card_rows(), ids@.take(i as int)),
                forall|k: int| 0 <= k < r.len() ==> ids@.take(i as int).contains(#[trigger] r@[k].id),
                forall|a: int, b: int| 0 <= a < b < r.len() ==> r@[a].id != r@[b].id,
            decreases ids.len() - i,
        {
            assert(ids@.take(i + 1).drop_last() =~= ids@.take(i as int));
            assert(ids@.take(i + 1).last() == ids@[i as int]);
            let ghost before = r@;
            let mut seen = false;
            let mut j: usize = 0;
            while j < i
                invariant
                    j <= i < ids.len(),
                    seen == exists|q: int| 0 <= q < j && ids@[q] == ids@[i as int],
                decreases i - j,
            {
                if ids[j] == ids[i] {
                    seen = true;
                }
                j += 1;
            }
            assert(seen == ids@.take(i as int).contains(ids@[i as int])) by {
                if seen {
                    let q = choose|q: int| 0 <= q < i && ids@[q] == ids@[i as int];
                    assert(ids@.take(i as int)[q] == ids@[i as int]);
                }
                if ids@.take(i as int).contains(ids@[i as int]) {
                    let q = choose|q: int| 0 <= q < i && ids@.take(i as int)[q] == ids@[i as int];
                    assert(ids@[q] == ids@[i as int]);
                }
            }
            if !seen {
                match self.get_card(ids[i]) {
                    Some(c) => {
                        r.push(c);
                        assert(r@.map_values(|c: StoredCard| row(c)) =~= before.map_values(|c: StoredCard| row(c)).push(row(c)));
                        assert(forall|k: int| 0 <= k < before.len() ==> before[k].id != c.id);
                    },
                    None => {},
                }
            }
            assert forall|k: int| 0 <= k < r.len() implies ids@.take(i + 1).contains(#[trigger] r@[k].id) by {
                if k < before.len() {
                    assert(ids@.take(i as int).contains(r@[k].id));
                    let q = choose|q: int| 0 <= q < i && ids@.take(i as int)[q] == r@[k].id;
                    assert(ids@.take(i + 1)[q] == r@[k].id);
                } else {
                    assert(ids@.take(i + 1)[i as int] == r@[k].id);
                }
            }
            i += 1;
        }
        assert(ids@.take(ids.len() as int) =~= ids@);
        r
    }

    /// The names of the stored cards, each card once.
    pub fn names(&self) -> (r: Vec<String>)
        requires
            self.wf(),
        ensures
            forall|x: Seq<char>| #[trigger] stored_names(self.card_rows()).contains(x) <==> views_of(r@).contains(x),
    {
        let mut r: Vec<String> = Vec::new();
        let mut i: usize = 0;
        while i < self.card_ids.len()
            invariant
                self.wf(),
                i <= self.card_ids.len(),
                r.len() == i,
                forall|j: int| 0 <= j < i ==> self.cards@.contains_key(self.card_ids@[j])
                    && #[trigger] r@[j]@ == self.cards@[self.card_ids@[j]].name@,
            decreases self.card_ids.len() - i,
        {
            let id = self.card_ids[i];
            assert(self.cards@.contains_key(self.card_ids@[i as int]));
            match self.cards.get(&id) {
                Some(c) => {
                    r.push(copy_string(&c.name));
                },
                None => {},
            }
            i += 1;
        }
        assert forall|x: Seq<char>| #[trigger] stored_names(self.card_rows()).contains(x) <==> views_of(r@).contains(x) by {
            if stored_names(self.card_rows()).contains(x) {
                let k = choose|k: u128| self.card_rows().contains_key(k) && self.card_rows()[k].name == x;
                assert(self.cards@.contains_key(k));
                assert(self.card_ids@.contains(k));
                let j = choose|j: int| 0 <= j < self.card_ids@.len() && self.card_ids@[j] == k;
                assert(views_of(r@)[j] == x);
            }
            if views_of(r@).contains(x) {
                let i = choose|i: int| 0 <= i < views_of(r@).len() && views_of(r@)[i] == x;
                let k = self.card_ids@[i];
                assert(self.card_rows().contains_key(k) && self.card_rows()[k].name == x);
            }
        }
        r
    }

    /// Distinct names of stored cards that start with `prefix` (case-insensitive), in
    /// ascending order, at most `limit` of them.
    pub fn autocomplete(&self, prefix: &str, limit: usize) -> (r: Vec<String>)
        requires
            self.wf(),
        ensures
            exists|all: Seq<Seq<char>>|
                #![trigger strictly_sorted(all)]
                {
                    &&& strictly_sorted(all)
                    &&& forall|x: Seq<char>| all.contains(x) <==> (stored_names(self.card_rows()).contains(x)
                        && matches_prefix(x, prefix@))
                    &&& views_of(r@) == all.take(if all.len() <= limit { all.len() as int } else { limit as int })
                },
    {
        let names = self.names();
        let r = complete_names(&names, prefix, limit);
        proof {
            let all = choose|all: Seq<Seq<char>>|
                #![trigger strictly_sorted(all)]
                {
                    &&& strictly_sorted(all)
                    &&& forall|x: Seq<char>| all.contains(x) <==> (exists|i: int|
                        0 <= i < names.len() && #[trigger] names@[i]@ == x && matches_prefix(x, prefix@))
                    &&& views_of(r@) == all.take(if all.len() <= limit { all.len() as int } else { limit as int })
                };
            assert forall|x: Seq<char>| all.contains(x) <==> (stored_names(self.card_rows()).contains(x)
                && matches_prefix(x, prefix@)) by {
                if all.contains(x) {
                    let i = choose|i: int| 0 <= i < names.len() && #[trigger] names@[i]@ == x && matches_prefix(x, prefix@);
                    assert(views_of(names@)[i] == x);
                    assert(views_of(names@).contains(x));
                }
                if stored_names(self.card_rows()).contains(x) && matches_prefix(x, prefix@) {
                    assert(views_of(names@).contains(x));
                    let i = choose|i: int| 0 <= i < views_of(names@).len() && views_of(names@)[i] == x;
                    assert(names@[i]@ == x);
                }
            }
        }
        r
    }

    /// Number of stored cards.
    pub fn card_count(&self) -> (r: usize)
        ensures
            r == self.card_rows().len(),
    {
        assert(self.card_rows().dom() =~= self.cards@.dom());
        self.cards.len()
    }

    /// Whether any card is stored.
    pub fn any_cards(&self) -> (r: bool)
        ensures
            r == (self.card_rows().len() > 0),
    {
        self.card_count() > 0
    }

    /// Store `ids` under the fingerprint `fp` at `now`, replacing any entry.
    pub fn put_result_set(&mut self, fp: &str, ids: &Vec<u128>, ttl_hours: i32, now: i64)
        requires
            old(self).wf(),
        ensures
            final(self).result_set_rows() == put_rs(old(self).result_set_rows(), fp@, ids@, ttl_hours, now),
            final(self).card_rows() == old(self).card_rows(),
            final(self).wf(),
            final(self).import_times() == old(self).import_times(),
    {
        let entry = ResultSetEntry { ids: copy_ids(ids), ttl_hours, last_accessed: now };
        let ghost before = self.result_sets@;
        assert(index_covers(before, old(self).fingerprints@));
        if !self.result_sets.contains_key(fp) {
            self.fingerprints.push(fp.to_owned());
            assert(self.fingerprints@[self.fingerprints.len() - 1]@ == fp@);
        }
        assert(forall|k: Seq<char>| #[trigger] before.contains_key(k) ==> exists|i: int|
            0 <= i < self.fingerprints.len() && self.fingerprints@[i]@ == k) by {
            assert forall|k: Seq<char>| #[trigger] before.contains_key(k) implies exists|i: int|
                0 <= i < self.fingerprints.len() && self.fingerprints@[i]@ == k by {
                let i = choose|i: int| 0 <= i < old(self).fingerprints.len() && old(self).fingerprints@[i]@ == k;
                assert(self.fingerprints@[i] == old(self).fingerprints@[i]);
            }
        }
        self.result_sets.insert(fp.to_owned(), entry);
        assert(index_covers(self.result_sets@, self.fingerprints@)) by {
            assert forall|k: Seq<char>| #[trigger] self.result_sets@.contains_key(k) implies exists|i: int|
                0 <= i < self.fingerprints@.len() && self.fingerprints@[i]@ == k by {
                if k == fp@ && !before.contains_key(fp@) {
                    assert(self.fingerprints@[self.fingerprints.len() - 1]@ == fp@);
                } else {
                    assert(before.contains_key(k));
                    let i = choose|i: int| 0 <= i < old(self).fingerprints@.len() && old(self).fingerprints@[i]@ == k;
                    assert(self.fingerprints@[i] == old(self).fingerprints@[i]);
                }
            }
        }
        assert(rs_rows(self.result_sets@) =~= rs_rows(before).insert(fp@, rs_row(entry)));
    }

    /// The ids and time-to-live stored under `fp`; a read refreshes the access time, and an
    /// expired entry is a miss that is evicted.
    pub fn get_result_set(&mut self, fp: &str, now: i64) -> (r: Option<(Vec<u128>, i32)>)
        requires
            old(self).wf(),
        ensures
            match (r, get_rs(old(self).result_set_rows(), fp@, now).0) {
                (Some((v, t)), Some((ids, ttl))) => v@ == ids && t == ttl,
                (None, None) => true,
                _ => false,
            },
            final(self).result_set_rows() == get_rs(old(self).result_set_rows(), fp@, now).1,
            final(self).card_rows() == old(self).card_rows(),
            final(self).wf(),
            final(self).import_times() == old(self).import_times(),
    {
        let found = match self.result_sets.get(fp) {
            Some(e) => Some((copy_ids(&e.ids), e.ttl_hours, e.last_accessed)),
            None => None,
        };
        match found {
            Some((ids, ttl, last)) if (last as i128) + (ttl as i128) * 3600 < now as i128 => {
                let ghost before = self.result_sets@;
                assert(index_covers(before, self.fingerprints@));
                self.result_sets.remove(fp);
                assert(rs_rows(self.result_sets@) =~= rs_rows(before).remove(fp@));
                assert(index_covers(self.result_sets@, self.fingerprints@)) by {
                    assert forall|k: Seq<char>| #[trigger] self.result_sets@.contains_key(k) implies exists|i: int|
                        0 <= i < self.fingerprints@.len() && self.fingerprints@[i]@ == k by {
                        assert(before.contains_key(k));
                        let i = choose|i: int| 0 <= i < self.fingerprints@.len() && self.fingerprints@[i]@ == k;
                        assert(self.fingerprints@[i]@ == k);
                    }
                }
                None
            },
            Some((ids, ttl, _)) => {
                let entry = ResultSetEntry { ids: copy_ids(&ids), ttl_hours: ttl, last_accessed: now };
                let ghost before = self.result_sets@;
                self.result_sets.insert(fp.to_owned(), entry);
                assert(rs_rows(self.result_sets@) =~= rs_rows(before).insert(fp@, rs_row(entry)));
                Some((ids, ttl))
            },
            None => None,
        }
    }

    /// Evict the result sets last read more than `older_than_hours` before `now`; the
    /// answer is zero exactly when nothing was evicted.
    pub fn gc_result_sets(&mut self, older_than_hours: i64, now: i64) -> (r: usize)
        requires
            old(self).wf(),
        ensures
            final(self).result_set_rows() == gc_rs(old(self).result_set_rows(), older_than_hours, now),
            (r == 0) <==> (final(self).result_set_rows() == old(self).result_set_rows()),
            final(self).card_rows() == old(self).card_rows(),
            final(self).wf(),
            final(self).import_times() == old(self).import_times(),
    {
        let ghost start = self.result_sets@;
        let ghost old_rows = rs_rows(start);
        let mut removed: usize = 0;
        let mut i: usize = 0;
        while i < self.fingerprints.len()
            invariant
                self.wf(),
                self.fingerprints@ == old(self).fingerprints@,
                self.cards@ == old(self).cards@,
                self.card_ids@ == old(self).card_ids@,
                self.imports@ == old(self).imports@,
                start == old(self).result_sets@,
                old_rows == rs_rows(start),
                i <= self.fingerprints.len(),
                forall|k: Seq<char>| #[trigger] self.result_sets@.contains_key(k) ==> start.contains_key(k)
                    && self.result_sets@[k] == start[k] && !(idle_for(old_rows[k], older_than_hours, now)
                    && exists|j: int| 0 <= j < i && self.fingerprints@[j]@ == k),
                forall|k: Seq<char>| #[trigger] start.contains_key(k) && !self.result_sets@.contains_key(k)
                    ==> idle_for(old_rows[k], older_than_hours, now),
                forall|j: int| 0 <= j < i ==> #[trigger] self.fingerprints@[j]@ == self.fingerprints@[j]@
                    && (start.contains_key(self.fingerprints@[j]@) && !idle_for(old_rows[self.fingerprints@[j]@], older_than_hours, now)
                    ==> self.result_sets@.contains_key(self.fingerprints@[j]@)),
                forall|k: Seq<char>| #[trigger] start.contains_key(k) && !idle_for(old_rows[k], older_than_hours, now)
                    ==> self.result_sets@.contains_key(k),
                (removed == 0) <==> (self.result_sets@ == start),
            decreases old(self).fingerprints.len() - i,
        {
            let key = &self.fingerprints[i];
            let stale = match self.result_sets.get(key.as_str()) {
                Some(e) => (e.last_accessed as i128) + (older_than_hours as i128) * 3600 < now as i128,
                None => false,
            };
            if stale {
                let k = key.clone();
                let ghost before = self.result_sets@;
                assert(index_covers(before, self.fingerprints@));
                self.result_sets.remove(k.as_str());
                assert(index_covers(self.result_sets@, self.fingerprints@)) by {
                    assert forall|q: Seq<char>| #[trigger] self.result_sets@.contains_key(q) implies exists|m: int|
                        0 <= m < self.fingerprints@.len() && self.fingerprints@[m]@ == q by {
                        assert(before.contains_key(q));
                        let m = choose|m: int| 0 <= m < self.fingerprints@.len() && self.fingerprints@[m]@ == q;
                        assert(self.fingerprints@[m]@ == q);
                    }
                }
                assert(!self.result_sets@.contains_key(k@));
                assert(start.contains_key(k@));
                assert(self.result_sets@ != start);
                if removed < usize::MAX {
                    removed = removed + 1;
                }
            }
            i += 1;
        }
        assert(rs_rows(self.result_sets@) =~= gc_rs(old_rows, older_than_hours, now)) by {
            assert forall|k: Seq<char>| #[trigger] start.contains_key(k) && idle_for(old_rows[k], older_than_hours, now)
                implies !self.result_sets@.contains_key(k) by {
                let j = choose|j: int| 0 <= j < self.fingerprints.len() && self.fingerprints@[j]@ == k;
            }
        }
        assert((self.result_sets@ == start) ==> (rs_rows(self.result_sets@) == old_rows));
        assert((rs_rows(self.result_sets@) == old_rows) ==> (self.result_sets@ == start)) by {
            if rs_rows(self.result_sets@) == old_rows {
                assert(self.result_sets@.dom() =~= start.dom()) by {
                    assert(rs_rows(self.result_sets@).dom() == self.result_sets@.dom());
                    assert(old_rows.dom() == start.dom());
                }
                assert(self.result_sets@ =~= start);
            }
        }
        removed
    }

    /// Number of result-set entries.
    pub fn result_set_count(&self) -> (r: usize)
        ensures
            r == self.result_set_rows().len(),
    {
        assert(self.result_set_rows().dom() =~= self.result_sets@.dom());
        self.result_sets.len()
    }

    /// Append a line to the import log.
    pub fn record_import(&mut self, total: i32, source: &str, now: i64)
        requires
            old(self).wf(),
        ensures
            final(self).import_times() == old(self).import_times().push(now),
            final(self).card_rows() == old(self).card_rows(),
            final(self).result_set_rows() == old(self).result_set_rows(),
            final(self).wf(),
    {
        let ghost before = self.imports@;
        self.imports.push(ImportRecord { total_cards: total, source: source.to_owned(), imported_at: now });
        assert(self.import_times() =~= before.map_values(|r: ImportRecord| r.imported_at).push(now));
    }

    /// When the last import was recorded.
    pub fn last_import_timestamp(&self) -> (r: Option<i64>)
        ensures
            self.import_times().len() == 0 ==> r is None,
            self.import_times().len() > 0 ==> r == Some(self.import_times().last()),
    {
        let n = self.imports.len();
        if n == 0 {
            None
        } else {
            Some(self.imports[n - 1].imported_at)
        }
    }
}

proof fn lemma_upsert_dom(m: Map<u128, CardRow>, b: Seq<NewRow>, now: i64)
    ensures
        upsert_rows(m, b, now).dom() == m.dom().union(Set::new(|k: u128| exists|j: int| 0 <= j < b.len() && b[j].id == k)),
    decreases b.len(),
{
    let ids = Set::new(|k: u128| exists|j: int| 0 <= j < b.len() && b[j].id == k);
    if b.len() == 0 {
        assert(upsert_rows(m, b, now).dom() =~= m.dom().union(ids));
    } else {
        let p = b.drop_last();
        lemma_upsert_dom(m, p, now);
        let pids = Set::new(|k: u128| exists|j: int| 0 <= j < p.len() && p[j].id == k);
        assert(ids =~= pids.insert(b.last().id)) by {
            assert forall|k: u128| ids.contains(k) implies #[trigger] pids.insert(b.last().id).contains(k) by {
                let j = choose|j: int| 0 <= j < b.len() && b[j].id == k;
                if j < b.len() - 1 {
                    assert(p[j].id == k);
                }
            }
            assert forall|k: u128| pids.insert(b.last().id).contains(k) implies #[trigger] ids.contains(k) by {
                if k == b.last().id {
                    assert(b[b.len() - 1].id == k);
                } else {
                    let j = choose|j: int| 0 <= j < p.len() && p[j].id == k;
                    assert(b[j].id == k);
                }
            }
        }
        assert(upsert_rows(m, b, now).dom() =~= m.dom().union(ids));
    }
}

/// After an upsert, a card of the batch that no later entry of the batch overrides is
/// stored under its id with its name and record.
pub proof fn law_upsert_then_get(m: Map<u128, CardRow>, b: Seq<NewRow>, now: i64, i: int)
    requires
        0 <= i < b.len(),
        forall|j: int| i < j < b.len() ==> b[j].id != b[i].id,
    ensures
        upsert_rows(m, b, now).contains_key(b[i].id),
        upsert_rows(m, b, now)[b[i].id].id == b[i].id,
        upsert_rows(m, b, now)[b[i].id].name == b[i].name,
        upsert_rows(m, b, now)[b[i].id].raw == b[i].raw,
        upsert_rows(m, b, now)[b[i].id].updated_at >= now,
    decreases b.len(),
{
    if i < b.len() - 1 {
        let p = b.drop_last();
        law_upsert_then_get(m, p, now, i);
    }
}

/// Upserting a card twice in one batch leaves the same cards as upserting it once.
pub proof fn law_upsert_idempotent(m: Map<u128, CardRow>, c: NewRow, now: i64)
    ensures
        upsert_rows(m, seq![c, c], now) == upsert_rows(m, seq![c], now),
{
    let one = seq![c];
    let two = seq![c, c];
    assert(two.drop_last() =~= one);
    assert(one.drop_last() =~= Seq::<NewRow>::empty());
    assert(upsert_rows(m, two, now) =~= upsert_rows(m, one, now));
}

/// Loading the same batch a second time stores no new card: the count is unchanged.
pub proof fn law_reload_keeps_count(m: Map<u128, CardRow>, b: Seq<NewRow>, t1: i64, t2: i64)
    ensures
        upsert_rows(upsert_rows(m, b, t1), b, t2).dom() == upsert_rows(m, b, t1).dom(),
        upsert_rows(upsert_rows(m, b, t1), b, t2).len() == upsert_rows(m, b, t1).len(),
{
    let first = upsert_rows(m, b, t1);
    lemma_upsert_dom(m, b, t1);
    lemma_upsert_dom(first, b, t2);
    let ids = Set::new(|k: u128| exists|j: int| 0 <= j < b.len() && b[j].id == k);
    assert(first.dom().union(ids) =~= first.dom());
}

/// A result set read back before its time-to-live has run out returns the stored ids and
/// time-to-live.
pub proof fn law_put_then_get(
    m: Map<Seq<char>, ResultSetRow>,
    fp: Seq<char>,
    ids: Seq<u128>,
    ttl_hours: i32,
    t0: i64,
    t1: i64,
)
    requires
        !expired(ResultSetRow { ids, ttl_hours, last_accessed: t0 }, t1),
    ensures
        get_rs(put_rs(m, fp, ids, ttl_hours, t0), fp, t1).0 == Some((ids, ttl_hours)),
{
}

} // verus!
