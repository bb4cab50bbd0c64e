use vstd::prelude::*;
use crate::parser::views_of;
use crate::sanitize::{find_text, first_from};
use crate::text::{chars_of, is_ws, string_from_chars, whitespace};

verus! {

/// Leading whitespace removed.
pub open spec fn ltrim(s: Seq<char>) -> Seq<char>
    decreases s.len(),
{
    if s.len() > 0 && is_ws(s[0]) {
        ltrim(s.drop_first())
    } else {
        s
    }
}

/// Trailing whitespace removed.
pub open spec fn rtrim(s: Seq<char>) -> Seq<char>
    decreases s.len(),
{
    if s.len() > 0 && is_ws(s.last()) {
        rtrim(s.drop_last())
    } else {
        s
    }
}

/// Whitespace removed at both ends.
pub open spec fn trim_ws(s: Seq<char>) -> Seq<char> {
    rtrim(ltrim(s))
}

/// Index of the first line feed at or after `i`, else the length.
pub open spec fn first_nl(s: Seq<char>, i: int) -> int
    decreases s.len() - i,
{
    if i < 0 || i >= s.len() {
        s.len() as int
    } else if s[i] == '\n' {
        i
    } else {
        first_nl(s, i + 1)
    }
}

/// A line without the carriage return that may end it.
pub open spec fn strip_cr(l: Seq<char>) -> Seq<char> {
    if l.len() > 0 && l.last() == '\r' {
        l.drop_last()
    } else {
        l
    }
}

/// The lines of `s` from `pos` on: split at line feeds, a carriage return before a line
/// feed dropped, no empty line after a final line feed.
pub open spec fn lines_from(s: Seq<char>, pos: int) -> Seq<Seq<char>>
    decreases s.len() - pos,
{
    if pos < 0 || pos >= s.len() {
        seq![]
    } else {
        let e = first_nl(s, pos);
        if pos <= e < s.len() {
            seq![strip_cr(s.subrange(pos, e))] + lines_from(s, e + 1)
        } else {
            seq![s.subrange(pos, s.len() as int)]
        }
    }
}

pub open spec fn mentions(t: Seq<char>, p: Seq<char>) -> bool {
    first_from(t, p, 0) is Some
}

/// The splitter's state between lines.
pub ghost struct SplitState {
    pub stmts: Seq<Seq<char>>,
    pub current: Seq<char>,
    pub in_function: bool,
    pub in_dollar: bool,
}

/// One line of a migration script: comment lines are skipped; a line ending in `;` ends
/// the statement unless a function body or a `$$` quote is open; a function ends at a
/// `language ...;` line.
pub open spec fn split_step(st: SplitState, line: Seq<char>) -> SplitState {
    let t = trim_ws(line);
    if t.len() >= 2 && t[0] == '-' && t[1] == '-' {
        st
    } else {
        let inf = st.in_function || mentions(t, "CREATE OR REPLACE FUNCTION"@) || mentions(t, "CREATE FUNCTION"@);
        let ind = if mentions(t, "$$"@) { !st.in_dollar } else { st.in_dollar };
        let cur = st.current + line + seq!['\n'];
        let ends = t.len() > 0 && t.last() == ';';
        if ends && !inf && !ind {
            SplitState { stmts: st.stmts.push(trim_ws(cur)), current: seq![], in_function: inf, in_dollar: ind }
        } else if inf && mentions(t, "language"@) && ends {
            SplitState { stmts: st.stmts.push(trim_ws(cur)), current: seq![], in_function: false, in_dollar: ind }
        } else {
            SplitState { stmts: st.stmts, current: cur, in_function: inf, in_dollar: ind }
        }
    }
}

pub open spec fn run_lines(st: SplitState, lines: Seq<Seq<char>>) -> SplitState
    decreases lines.len(),
{
    if lines.len() == 0 {
        st
    } else {
        run_lines(split_step(st, lines[0]), lines.drop_first())
    }
}

/// The statements of a migration script.
pub open spec fn statements_of(sql: Seq<char>) -> Seq<Seq<char>> {
    let st = run_lines(
        SplitState { stmts: seq![], current: seq![], in_function: false, in_dollar: false },
        lines_from(sql, 0),
    );
    if trim_ws(st.current).len() > 0 {
        st.stmts.push(trim_ws(st.current))
    } else {
        st.stmts
    }
}

/// `v[a..b]` with whitespace removed at both ends.
fn trimmed(v: &Vec<char>, a: usize, b: usize) -> (r: Vec<char>)
    requires
        a <= b <= v.len(),
    ensures
        r@ == trim_ws(v@.subrange(a as int, b as int)),
{
    let ghost s = v@.subrange(a as int, b as int);
    let mut lo = a;
    while lo < b && whitespace(v[lo])
        invariant
            a <= lo <= b <= v.len(),
            ltrim(s) == ltrim(v@.subrange(lo as int, b as int)),
        decreases b - lo,
    {
        assert(v@.subrange(lo as int, b as int).drop_first() =~= v@.subrange(lo + 1, b as int));
        lo += 1;
    }
    assert(ltrim(v@.subrange(lo as int, b as int)) == v@.subrange(lo as int, b as int));
    let mut hi = b;
    while hi > lo && whitespace(v[hi - 1])
        invariant
            a <= lo <= hi <= b <= v.len(),
            rtrim(ltrim(s)) == rtrim(v@.subrange(lo as int, hi as int)),
        decreases hi - lo,
    {
        assert(v@.subrange(lo as int, hi as int).drop_last() =~= v@.subrange(lo as int, hi - 1));
        hi -= 1;
    }
    let mut r: Vec<char> = Vec::new();
    let mut i = lo;
    while i < hi
        invariant
            lo <= i <= hi <= v.len(),
            r@ == v@.subrange(lo as int, i as int),
        decreases hi - i,
    {
        r.push(v[i]);
        assert(v@.subrange(lo as int, i as int).push(v@[i as int]) =~= v@.subrange(lo as int, i + 1));
        i += 1;
    }
    r
}

proof fn lemma_first_nl_bound(s: Seq<char>, i: int)
    requires
        0 <= i <= s.len(),
    ensures
        i <= first_nl(s, i) <= s.len(),
        first_nl(s, i) < s.len() ==> s[first_nl(s, i)] == '\n',
    decreases s.len() - i,
{
    if i < s.len() && s[i] != '\n' {
        lemma_first_nl_bound(s, i + 1);
    }
}

/// Split a migration script into statements, keeping function bodies and `$$`-quoted
/// text whole.
pub fn split_sql_statements(sql: &str) -> (r: Vec<String>)
    ensures
        views_of(r@) == statements_of(sql@),
{
    let s = chars_of(sql);
    let ghost init = SplitState { stmts: seq![], current: seq![], in_function: false, in_dollar: false };
    let mut stmts: Vec<String> = Vec::new();
    let mut current: Vec<char> = Vec::new();
    let mut in_function = false;
    let mut in_dollar = false;
    let mut pos: usize = 0;
    assert(views_of(stmts@) =~= Seq::<Seq<char>>::empty());
    assert(current@ =~= Seq::<char>::empty());
    while pos < s.len()
        invariant
            s@ == sql@,
            pos <= s.len(),
            run_lines(
                SplitState { stmts: views_of(stmts@), current: current@, in_function, in_dollar },
                lines_from(s@, pos as int),
            ) == run_lines(init, lines_from(s@, 0)),
        decreases s.len() - pos,
    {
        let ghost st = SplitState { stmts: views_of(stmts@), current: current@, in_function, in_dollar };
        let mut e = pos;
        while e < s.len() && s[e] != '\n'
            invariant
                pos <= e <= s.len(),
                first_nl(s@, pos as int) == first_nl(s@, e as int),
            decreases s.len() - e,
        {
            e += 1;
        }
        proof {
            lemma_first_nl_bound(s@, pos as int);
        }
        let end = if e < s.len() && e > pos && s[e - 1] == '\r' {
            e - 1
        } else {
            e
        };
        let ghost line = s@.subrange(pos as int, end as int);
        proof {
            if e < s.len() {
                assert(strip_cr(s@.subrange(pos as int, e as int)) == line) by {
                    if e > pos && s@[e - 1] == '\r' {
                        assert(s@.subrange(pos as int, e as int).drop_last() =~= line);
                    }
                }
                assert(lines_from(s@, pos as int) == seq![line] + lines_from(s@, e + 1));
            } else {
                assert(lines_from(s@, pos as int) == seq![line]);
                assert(lines_from(s@, e as int) =~= Seq::<Seq<char>>::empty());
            }
            assert((seq![line] + lines_from(s@, e + 1)).drop_first() =~= lines_from(s@, e + 1));
        }
        let t = trimmed(&s, pos, end);
        let comment = t.len() >= 2 && t[0] == '-' && t[1] == '-';
        if !comment {
            let inf = in_function || find_text(&t, "CREATE OR REPLACE FUNCTION") || find_text(
                &t,
                "CREATE FUNCTION",
            );
            let ind = if find_text(&t, "$$") {
                !in_dollar
            } else {
                in_dollar
            };
            let ghost old_current = current@;
            let mut i = pos;
            while i < end
                invariant
                    pos <= i <= end <= s.len(),
                    current@ == old_current + s@.subrange(pos as int, i as int),
                decreases end - i,
            {
                current.push(s[i]);
                assert(s@.subrange(pos as int, i as int).push(s@[i as int]) =~= s@.subrange(pos as int, i + 1));
                i += 1;
            }
            current.push('\n');
            assert(current@ =~= old_current + line + seq!['\n']);
            let ends = t.len() > 0 && t[t.len() - 1] == ';';
            if ends && !inf && !ind {
                let stmt = trimmed(&current, 0, current.len());
                assert(current@.subrange(0, current@.len() as int) =~= current@);
                let ghost before = views_of(stmts@);
                stmts.push(string_from_chars(&stmt));
                assert(views_of(stmts@) =~= before.push(stmt@));
                current = Vec::new();
                in_function = inf;
            } else if inf && find_text(&t, "language") && ends {
                let stmt = trimmed(&current, 0, current.len());
                assert(current@.subrange(0, current@.len() as int) =~= current@);
                let ghost before = views_of(stmts@);
                stmts.push(string_from_chars(&stmt));
                assert(views_of(stmts@) =~= before.push(stmt@));
                current = Vec::new();
                in_function = false;
            } else {
                in_function = inf;
            }
            in_dollar = ind;
        }
        proof {
            assert(SplitState { stmts: views_of(stmts@), current: current@, in_function, in_dollar } == split_step(st, line));
        }
        pos = if e < s.len() {
            e + 1
        } else {
            e
        };
    }
    assert(lines_from(s@, pos as int) =~= Seq::<Seq<char>>::empty());
    let rest = trimmed(&current, 0, current.len());
    assert(current@.subrange(0, current@.len() as int) =~= current@);
    if rest.len() > 0 {
        let ghost before = views_of(stmts@);
        stmts.push(string_from_chars(&rest));
        assert(views_of(stmts@) =~= before.push(rest@));
    }
    stmts
}

/// The schema of the SQL store: the three tables, the `updated_at` trigger, the change of
/// `cmc` to a double, and the indexes for the common filters.
pub const MIGRATION_SQL: &'static str = "-- Cards, the result-set cache and the import log.
CREATE TABLE IF NOT EXISTS cards (
    id UUID PRIMARY KEY,
    oracle_id UUID,
    name TEXT NOT NULL,
    mana_cost TEXT,
    cmc NUMERIC,
    type_line TEXT,
    oracle_text TEXT,
    colors TEXT[],
    color_identity TEXT[],
    set_code TEXT,
    set_name TEXT,
    collector_number TEXT,
    rarity TEXT,
    power TEXT,
    toughness TEXT,
    loyalty TEXT,
    keywords TEXT[],
    prices JSONB,
    image_uris JSONB,
    card_faces JSONB,
    legalities JSONB,
    released_at DATE,
    raw_json JSONB NOT NULL,
    created_at TIMESTAMP NOT NULL DEFAULT NOW(),
    updated_at TIMESTAMP NOT NULL DEFAULT NOW()
);

CREATE INDEX IF NOT EXISTS idx_cards_name ON cards (name);
CREATE INDEX IF NOT EXISTS idx_cards_name_lower ON cards (LOWER(name));
CREATE INDEX IF NOT EXISTS idx_cards_oracle_id ON cards (oracle_id);
CREATE INDEX IF NOT EXISTS idx_cards_name_fts ON cards USING GIN (to_tsvector('english', name));
CREATE INDEX IF NOT EXISTS idx_cards_oracle_fts ON cards USING GIN (to_tsvector('english', COALESCE(oracle_text, '')));
CREATE INDEX IF NOT EXISTS idx_cards_colors ON cards USING GIN (colors);
CREATE INDEX IF NOT EXISTS idx_cards_color_identity ON cards USING GIN (color_identity);

CREATE TABLE IF NOT EXISTS query_cache (
    query_hash TEXT PRIMARY KEY,
    card_ids UUID[] NOT NULL,
    ttl_hours INTEGER NOT NULL,
    last_accessed TIMESTAMP NOT NULL DEFAULT NOW()
);

CREATE INDEX IF NOT EXISTS idx_query_cache_last_accessed ON query_cache (last_accessed);

CREATE TABLE IF NOT EXISTS bulk_data_metadata (
    id SERIAL PRIMARY KEY,
    total_cards INTEGER NOT NULL,
    source TEXT NOT NULL,
    imported_at TIMESTAMP NOT NULL DEFAULT NOW()
);

CREATE OR REPLACE FUNCTION touch_updated_at() RETURNS TRIGGER AS $$
BEGIN
    NEW.updated_at = NOW();
    RETURN NEW;
END;
$$ language 'plpgsql';

DROP TRIGGER IF EXISTS cards_touch_updated_at ON cards;
CREATE TRIGGER cards_touch_updated_at BEFORE UPDATE ON cards
    FOR EACH ROW EXECUTE FUNCTION touch_updated_at();

-- The mana value is fractional for a few cards.
ALTER TABLE cards ALTER COLUMN cmc TYPE DOUBLE PRECISION;

-- Indexes for the common filter combinations.
CREATE INDEX IF NOT EXISTS idx_cards_colors_type ON cards USING GIN (colors, to_tsvector('english', COALESCE(type_line, '')));
CREATE INDEX IF NOT EXISTS idx_cards_cmc_colors ON cards (cmc, colors);
CREATE INDEX IF NOT EXISTS idx_cards_set_rarity ON cards (set_code, rarity);
CREATE INDEX IF NOT EXISTS idx_cards_set_collector ON cards (set_code, collector_number);
";

/// The statements of the schema, in order.
pub fn migration_statements() -> (r: Vec<String>)
    ensures
        views_of(r@) == statements_of(MIGRATION_SQL@),
{
    split_sql_statements(MIGRATION_SQL)
}

} // verus!
