use vstd::prelude::*;
use vstd::string::*;
use crate::text::{chars_of, is_ws, lower_of, lowercase, same_text, string_from_chars, whitespace};

verus! {

/// Comparison operator of a filter.
#[derive(Debug, Clone, Copy, PartialEq, Eq, Structural)]
pub enum Operator {
    Equal,
    NotEqual,
    GreaterThan,
    LessThan,
    GreaterThanOrEqual,
    LessThanOrEqual,
    Contains,
    Regex,
}

impl Operator {
    /// Whether the operator only makes sense on a number.
    pub open spec fn is_ordering(self) -> bool {
        self is GreaterThan || self is LessThan || self is GreaterThanOrEqual
            || self is LessThanOrEqual
    }

    /// The operator as it is written in a query (`:` for contains, `~` for regex).
    pub fn symbol(&self) -> (r: &'static str)
        ensures
            r@ == self.spec_symbol(),
    {
        match self {
            Operator::Equal => "=",
            Operator::NotEqual => "!=",
            Operator::GreaterThan => ">",
            Operator::LessThan => "<",
            Operator::GreaterThanOrEqual => ">=",
            Operator::LessThanOrEqual => "<=",
            Operator::Contains => ":",
            Operator::Regex => "~",
        }
    }

    pub open spec fn spec_symbol(self) -> Seq<char> {
        match self {
            Operator::Equal => "="@,
            Operator::NotEqual => "!="@,
            Operator::GreaterThan => ">"@,
            Operator::LessThan => "<"@,
            Operator::GreaterThanOrEqual => ">="@,
            Operator::LessThanOrEqual => "<="@,
            Operator::Contains => ":"@,
            Operator::Regex => "~"@,
        }
    }
}

/// A leaf of the query tree: `field operator value`.
#[derive(Debug, Clone, PartialEq)]
pub struct Filter {
    pub field: String,
    pub operator: Operator,
    pub value: String,
}

/// A boolean query tree.
#[derive(Debug)]
pub enum QueryNode {
    And(Vec<QueryNode>),
    Or(Vec<QueryNode>),
    Not(Box<QueryNode>),
    Filter(Filter),
}

/// The mathematical form of a query tree.
pub ghost enum Node {
    And(Seq<Node>),
    Or(Seq<Node>),
    Not(Box<Node>),
    Leaf(Seq<char>, Operator, Seq<char>),
}

pub open spec fn node_view(n: QueryNode) -> Node
    decreases n,
{
    match n {
        QueryNode::And(v) => Node::And(
            Seq::new(v.len() as nat, |i: int| if 0 <= i < v.len() { node_view(v[i]) } else { Node::And(seq![]) }),
        ),
        QueryNode::Or(v) => Node::Or(
            Seq::new(v.len() as nat, |i: int| if 0 <= i < v.len() { node_view(v[i]) } else { Node::And(seq![]) }),
        ),
        QueryNode::Not(b) => Node::Not(Box::new(node_view(*b))),
        QueryNode::Filter(f) => Node::Leaf(f.field@, f.operator, f.value@),
    }
}

impl View for QueryNode {
    type V = Node;

    open spec fn view(&self) -> Node {
        node_view(*self)
    }
}

// ---------------------------------------------------------------------------
// Tokenizer
// ---------------------------------------------------------------------------

/// State of the tokenizer after reading a prefix of the query.
pub ghost struct TokState {
    pub toks: Seq<Seq<char>>,
    pub cur: Seq<char>,
    pub in_quotes: bool,
}

/// The tokens so far, with the pending one closed if it is not empty.
pub open spec fn flushed(toks: Seq<Seq<char>>, cur: Seq<char>) -> Seq<Seq<char>> {
    if cur.len() > 0 {
        toks.push(cur)
    } else {
        toks
    }
}

/// One character of input: quotes toggle quoting and stay in the token; an unquoted
/// space ends a token; an unquoted parenthesis ends a token and is a token of its own.
pub open spec fn tok_step(st: TokState, ch: char) -> TokState {
    if ch == '"' {
        TokState { toks: st.toks, cur: st.cur.push(ch), in_quotes: !st.in_quotes }
    } else if is_ws(ch) && !st.in_quotes {
        TokState { toks: flushed(st.toks, st.cur), cur: seq![], in_quotes: false }
    } else if (ch == '(' || ch == ')') && !st.in_quotes {
        TokState { toks: flushed(st.toks, st.cur).push(seq![ch]), cur: seq![], in_quotes: false }
    } else {
        TokState { toks: st.toks, cur: st.cur.push(ch), in_quotes: st.in_quotes }
    }
}

pub open spec fn tok_run(s: Seq<char>) -> TokState
    decreases s.len(),
{
    if s.len() == 0 {
        TokState { toks: seq![], cur: seq![], in_quotes: false }
    } else {
        tok_step(tok_run(s.drop_last()), s.last())
    }
}

/// The tokens of a query.
pub open spec fn tokens_of(s: Seq<char>) -> Seq<Seq<char>> {
    let st = tok_run(s);
    flushed(st.toks, st.cur)
}

pub open spec fn views_of(v: Seq<String>) -> Seq<Seq<char>> {
    v.map_values(|t: String| t@)
}

// ---------------------------------------------------------------------------
// Grammar
// ---------------------------------------------------------------------------

pub open spec fn is_word(tok: Seq<char>, w: Seq<char>) -> bool {
    lower_of(tok) == w
}

pub open spec fn is_close(tok: Seq<char>) -> bool {
    tok == seq![')']
}

pub open spec fn is_open(tok: Seq<char>) -> bool {
    tok == seq!['(']
}

/// Joins a right operand onto an `or` chain, flattening the chain.
pub open spec fn join_or(left: Node, right: Node) -> Node {
    match left {
        Node::Or(v) => Node::Or(v.push(right)),
        _ => Node::Or(seq![left, right]),
    }
}

/// Index of the first `:` in `t`, if any.
pub open spec fn first_colon(t: Seq<char>) -> Option<int> {
    if exists|i: int| 0 <= i < t.len() && t[i] == ':' {
        Some(choose|i: int| 0 <= i < t.len() && t[i] == ':' && forall|j: int| 0 <= j < i ==> t[j] != ':')
    } else {
        None
    }
}

/// Leading and trailing double quotes removed.
pub open spec fn trim_quotes(s: Seq<char>) -> Seq<char>
    decreases s.len(),
{
    if s.len() > 0 && s[0] == '"' {
        trim_quotes(s.drop_first())
    } else if s.len() > 0 && s.last() == '"' {
        trim_quotes(s.drop_last())
    } else {
        s
    }
}

/// The operator at the head of what follows `field:`, and the value after it.
pub open spec fn op_and_value(s: Seq<char>) -> (Operator, Seq<char>) {
    if s.len() >= 2 && s[0] == '>' && s[1] == '=' {
        (Operator::GreaterThanOrEqual, s.skip(2))
    } else if s.len() >= 2 && s[0] == '<' && s[1] == '=' {
        (Operator::LessThanOrEqual, s.skip(2))
    } else if s.len() >= 1 && s[0] == '>' {
        (Operator::GreaterThan, s.skip(1))
    } else if s.len() >= 1 && s[0] == '<' {
        (Operator::LessThan, s.skip(1))
    } else if s.len() >= 2 && s[0] == '!' && s[1] == '=' {
        (Operator::NotEqual, s.skip(2))
    } else if s.len() >= 1 && s[0] == '=' {
        (Operator::Equal, s.skip(1))
    } else if s.len() > 2 && s[0] == '/' && s.last() == '/' {
        (Operator::Regex, s.subrange(1, s.len() - 1))
    } else {
        (Operator::Contains, s)
    }
}

/// The canonical name of a field: aliases are matched without regard to case.
pub open spec fn canonical_field(f: Seq<char>) -> Seq<char> {
    let l = lower_of(f);
    if l == "c"@ {
        "color"@
    } else if l == "id"@ || l == "identity"@ {
        "color_identity"@
    } else if l == "t"@ || l == "type_line"@ {
        "type"@
    } else if l == "o"@ || l == "oracle_text"@ {
        "oracle"@
    } else if l == "s"@ {
        "set"@
    } else if l == "r"@ {
        "rarity"@
    } else if l == "pow"@ {
        "power"@
    } else if l == "tou"@ {
        "toughness"@
    } else if l == "loy"@ {
        "loyalty"@
    } else if l == "mana"@ {
        "cmc"@
    } else {
        f
    }
}

/// The filter that a single token stands for.
pub open spec fn filter_of(tok: Seq<char>) -> Node {
    match first_colon(tok) {
        Some(i) => {
            let (op, v) = op_and_value(tok.skip(i + 1));
            Node::Leaf(canonical_field(tok.take(i)), op, trim_quotes(v))
        },
        None => Node::Leaf("name"@, Operator::Contains, trim_quotes(tok)),
    }
}

/// `term := '(' expr ')' | ('not' | '-') term | filter`
pub open spec fn sp_term(ts: Seq<Seq<char>>, pos: nat) -> Option<(Node, nat)>
    decreases ts.len() - pos, 1nat,
{
    if pos >= ts.len() {
        None
    } else if is_open(ts[pos as int]) {
        match sp_or(ts, pos + 1) {
            Some((e, p)) => if p < ts.len() && is_close(ts[p as int]) {
                Some((e, p + 1))
            } else {
                Some((e, p))
            },
            None => None,
        }
    } else if is_word(ts[pos as int], "not"@) || ts[pos as int] == seq!['-'] {
        match sp_term(ts, pos + 1) {
            Some((t, p)) => Some((Node::Not(Box::new(t)), p)),
            None => None,
        }
    } else {
        Some((filter_of(ts[pos as int]), pos + 1))
    }
}

/// The rest of an `and` chain, after the terms in `terms`.
pub open spec fn sp_and_rest(ts: Seq<Seq<char>>, terms: Seq<Node>, pos: nat) -> Option<(Node, nat)>
    decreases ts.len() - pos, 2nat,
{
    if pos >= ts.len() || is_close(ts[pos as int]) || is_word(ts[pos as int], "or"@) {
        if terms.len() == 1 {
            Some((terms[0], pos))
        } else {
            Some((Node::And(terms), pos))
        }
    } else {
        let start = if is_word(ts[pos as int], "and"@) { pos + 1 } else { pos };
        match sp_term(ts, start) {
            Some((t, p)) => if pos < p <= ts.len() {
                sp_and_rest(ts, terms.push(t), p)
            } else {
                None
            },
            None => None,
        }
    }
}

/// `and := term ( ['and'] term )*`
pub open spec fn sp_and(ts: Seq<Seq<char>>, pos: nat) -> Option<(Node, nat)>
    decreases ts.len() - pos, 3nat,
{
    match sp_term(ts, pos) {
        Some((t, p)) => if pos < p <= ts.len() {
            sp_and_rest(ts, seq![t], p)
        } else {
            None
        },
        None => None,
    }
}

/// The rest of an `or` chain whose left part is `left`.
pub open spec fn sp_or_rest(ts: Seq<Seq<char>>, left: Node, pos: nat) -> Option<(Node, nat)>
    decreases ts.len() - pos, 4nat,
{
    if pos < ts.len() && is_word(ts[pos as int], "or"@) {
        match sp_and(ts, pos + 1) {
            Some((r, p)) => if pos < p <= ts.len() {
                sp_or_rest(ts, join_or(left, r), p)
            } else {
                None
            },
            None => None,
        }
    } else {
        Some((left, pos))
    }
}

/// `or := and ( 'or' and )*`
pub open spec fn sp_or(ts: Seq<Seq<char>>, pos: nat) -> Option<(Node, nat)>
    decreases ts.len() - pos, 5nat,
{
    match sp_and(ts, pos) {
        Some((l, p)) => if pos < p <= ts.len() {
            sp_or_rest(ts, l, p)
        } else {
            None
        },
        None => None,
    }
}

/// The tree that a query parses to, or `None` where it does not parse.
pub open spec fn parse_spec(q: Seq<char>) -> Option<Node> {
    match sp_or(tokens_of(q), 0) {
        Some((n, _)) => Some(n),
        None => None,
    }
}

/// Why a query could not be parsed.
#[derive(Debug, Clone, Copy, PartialEq, Eq, Structural)]
pub enum ParseError {
    /// The query ended where a term was expected.
    UnexpectedEnd,
}

pub struct QueryParser {
    tokens: Vec<String>,
    position: usize,
}

impl QueryParser {
    pub closed spec fn toks(&self) -> Seq<Seq<char>> {
        views_of(self.tokens@)
    }

    pub closed spec fn pos(&self) -> nat {
        self.position as nat
    }

    pub open spec fn wf(&self) -> bool {
        self.pos() <= self.toks().len()
    }

    pub fn new(query: &str) -> (r: Self)
        ensures
            r.toks() == tokens_of(query@),
            r.pos() == 0,
    {
        let tokens = Self::tokenize(query);
        QueryParser { tokens, position: 0 }
    }

    /// Parse a query into a tree.
    pub fn parse(query: &str) -> (r: Result<QueryNode, ParseError>)
        ensures
            match parse_spec(query@) {
                Some(n) => r matches Ok(t) && t@ == n,
                None => r is Err,
            },
    {
        let mut parser = Self::new(query);
        parser.parse_expression()
    }

    /// Split a query into tokens.
    pub fn tokenize(query: &str) -> (r: Vec<String>)
        ensures
            views_of(r@) == tokens_of(query@),
    {
        let chars = chars_of(query);
        let mut tokens: Vec<String> = Vec::new();
        let mut current: Vec<char> = Vec::new();
        let mut in_quotes = false;
        let mut i: usize = 0;
        while i < chars.len()
            invariant
                chars@ == query@,
                i <= chars.len(),
                ({
                    let st = tok_run(query@.take(i as int));
                    &&& views_of(tokens@) == st.toks
                    &&& current@ == st.cur
                    &&& in_quotes == st.in_quotes
                }),
            decreases chars.len() - i,
        {
            let ch = chars[i];
            proof {
                assert(query@.take(i + 1).drop_last() =~= query@.take(i as int));
            }
            if ch == '"' {
                in_quotes = !in_quotes;
                current.push(ch);
            } else if !in_quotes && whitespace(ch) {
                if current.len() > 0 {
                    let t = string_from_chars(&current);
                    tokens.push(t);
                    current = Vec::new();
                }
                in_quotes = false;
            } else if !in_quotes && (ch == '(' || ch == ')') {
                if current.len() > 0 {
                    let t = string_from_chars(&current);
                    tokens.push(t);
                    current = Vec::new();
                }
                let mut one: Vec<char> = Vec::new();
                one.push(ch);
                let t = string_from_chars(&one);
                proof {
                    assert(one@ =~= seq![ch]);
                }
                tokens.push(t);
            } else {
                current.push(ch);
            }
            proof {
                assert(views_of(tokens@) =~= tok_run(query@.take(i + 1)).toks);
                assert(current@ =~= tok_run(query@.take(i + 1)).cur);
            }
            i += 1;
        }
        proof {
            assert(query@.take(chars.len() as int) =~= query@);
        }
        if current.len() > 0 {
            let t = string_from_chars(&current);
            tokens.push(t);
        }
        assert(views_of(tokens@) =~= tokens_of(query@));
        tokens
    }

    fn current(&self) -> (r: Option<&String>)
        ensures
            self.pos() < self.toks().len() ==> (r matches Some(t) && t@ == self.toks()[self.pos() as int]),
            self.pos() >= self.toks().len() ==> r is None,
    {
        if self.position < self.tokens.len() {
            Some(&self.tokens[self.position])
        } else {
            None
        }
    }

    fn advance(&mut self)
        requires
            old(self).pos() < old(self).toks().len(),
        ensures
            final(self).toks() == old(self).toks(),
            final(self).pos() == old(self).pos() + 1,
    {
        let n = self.tokens.len();
        assert(self.toks().len() == n);
        self.position += 1;
    }

    fn parse_expression(&mut self) -> (r: Result<QueryNode, ParseError>)
        requires
            old(self).wf(),
        ensures
            final(self).wf(),
            final(self).toks() == old(self).toks(),
            match sp_or(old(self).toks(), old(self).pos()) {
                Some((n, p)) => r matches Ok(t) && t@ == n && final(self).pos() == p,
                None => r is Err,
            },
            r is Ok ==> final(self).pos() > old(self).pos(),
        decreases old(self).toks().len() - old(self).pos(), 6nat,
    {
        self.parse_or()
    }

    fn parse_or(&mut self) -> (r: Result<QueryNode, ParseError>)
        requires
            old(self).wf(),
        ensures
            final(self).wf(),
            final(self).toks() == old(self).toks(),
            match sp_or(old(self).toks(), old(self).pos()) {
                Some((n, p)) => r matches Ok(t) && t@ == n && final(self).pos() == p,
                None => r is Err,
            },
            r is Ok ==> final(self).pos() > old(self).pos(),
        decreases old(self).toks().len() - old(self).pos(), 5nat,
    {
        let ghost ts = self.toks();
        let ghost start = self.pos();
        let mut left = match self.parse_and() {
            Ok(l) => l,
            Err(e) => return Err(e),
        };
        loop
            invariant
                self.wf(),
                self.toks() == ts,
                old(self).toks() == ts,
                old(self).pos() == start,
                start < self.pos(),
                sp_or(ts, start) == sp_or_rest(ts, left@, self.pos()),
            decreases ts.len() - self.pos(),
        {
            let is_or = match self.current() {
                Some(token) => {
                    let l = lowercase(token.as_str());
                    same_text(l.as_str(), "or")
                },
                None => false,
            };
            if !is_or {
                return Ok(left);
            }
            let ghost before = self.pos();
            self.advance();
            let right = match self.parse_and() {
                Ok(r) => r,
                Err(e) => return Err(e),
            };
            let ghost lv = left@;
            left = match left {
                QueryNode::Or(mut nodes) => {
                    nodes.push(right);
                    let joined = QueryNode::Or(nodes);
                    proof {
                        assert(joined@->Or_0 =~= lv->Or_0.push(right@));
                    }
                    joined
                },
                other => {
                    let mut v: Vec<QueryNode> = Vec::new();
                    v.push(other);
                    v.push(right);
                    let joined = QueryNode::Or(v);
                    proof {
                        assert(joined@->Or_0 =~= seq![lv, right@]);
                    }
                    joined
                },
            };
        }
    }

    fn parse_and(&mut self) -> (r: Result<QueryNode, ParseError>)
        requires
            old(self).wf(),
        ensures
            final(self).wf(),
            final(self).toks() == old(self).toks(),
            match sp_and(old(self).toks(), old(self).pos()) {
                Some((n, p)) => r matches Ok(t) && t@ == n && final(self).pos() == p,
                None => r is Err,
            },
            r is Ok ==> final(self).pos() > old(self).pos(),
        decreases old(self).toks().len() - old(self).pos(), 3nat,
    {
        let ghost ts = self.toks();
        let ghost start = self.pos();
        let mut terms: Vec<QueryNode> = Vec::new();
        let first = match self.parse_term() {
            Ok(t) => t,
            Err(e) => return Err(e),
        };
        terms.push(first);
        proof {
            assert(views_of_nodes(terms@) =~= seq![first@]);
        }
        loop
            invariant
                self.wf(),
                self.toks() == ts,
                old(self).toks() == ts,
                old(self).pos() == start,
                start < self.pos(),
                terms.len() >= 1,
                sp_and(ts, start) == sp_and_rest(ts, views_of_nodes(terms@), self.pos()),
            decreases ts.len() - self.pos(),
        {
            let (stop, is_and) = match self.current() {
                Some(token) => {
                    let l = lowercase(token.as_str());
                    (same_text(token.as_str(), ")") || same_text(l.as_str(), "or"), same_text(
                        l.as_str(),
                        "and",
                    ))
                },
                None => (true, false),
            };
            proof {
                reveal_strlit(")");
                assert(")"@ =~= seq![')']);
            }
            if stop {
                if terms.len() == 1 {
                    let ghost tv = views_of_nodes(terms@);
                    let t = terms.pop().unwrap();
                    assert(tv[0] == t@);
                    return Ok(t);
                }
                let node = QueryNode::And(terms);
                proof {
                    assert(node@->And_0 =~= views_of_nodes(terms@));
                }
                return Ok(node);
            }
            if is_and {
                self.advance();
            }
            let t = match self.parse_term() {
                Ok(t) => t,
                Err(e) => return Err(e),
            };
            let ghost before = views_of_nodes(terms@);
            terms.push(t);
            proof {
                assert(views_of_nodes(terms@) =~= before.push(t@));
            }
        }
    }

    fn parse_term(&mut self) -> (r: Result<QueryNode, ParseError>)
        requires
            old(self).wf(),
        ensures
            final(self).wf(),
            final(self).toks() == old(self).toks(),
            match sp_term(old(self).toks(), old(self).pos()) {
                Some((n, p)) => r matches Ok(t) && t@ == n && final(self).pos() == p,
                None => r is Err,
            },
            r is Ok ==> final(self).pos() > old(self).pos(),
        decreases old(self).toks().len() - old(self).pos(), 1nat,
    {
        let token = match self.current() {
            Some(t) => t.clone(),
            None => return Err(ParseError::UnexpectedEnd),
        };
        proof {
            reveal_strlit("(");
            reveal_strlit(")");
            reveal_strlit("-");
            assert("("@ =~= seq!['(']);
            assert(")"@ =~= seq![')']);
            assert("-"@ =~= seq!['-']);
        }
        if same_text(token.as_str(), "(") {
            self.advance();
            let expr = match self.parse_expression() {
                Ok(e) => e,
                Err(e) => return Err(e),
            };
            let close = match self.current() {
                Some(t) => same_text(t.as_str(), ")"),
                None => false,
            };
            if close {
                self.advance();
            }
            return Ok(expr);
        }
        let l = lowercase(token.as_str());
        if same_text(l.as_str(), "not") || same_text(token.as_str(), "-") {
            self.advance();
            let term = match self.parse_term() {
                Ok(t) => t,
                Err(e) => return Err(e),
            };
            return Ok(QueryNode::Not(Box::new(term)));
        }
        self.parse_filter()
    }

    fn parse_filter(&mut self) -> (r: Result<QueryNode, ParseError>)
        requires
            old(self).wf(),
        ensures
            final(self).wf(),
            final(self).toks() == old(self).toks(),
            old(self).pos() < old(self).toks().len() ==> (r matches Ok(t) && t@ == filter_of(
                old(self).toks()[old(self).pos() as int],
            ) && final(self).pos() == old(self).pos() + 1),
            old(self).pos() >= old(self).toks().len() ==> r is Err,
    {
        let token = match self.current() {
            Some(t) => t.clone(),
            None => return Err(ParseError::UnexpectedEnd),
        };
        self.advance();
        Ok(filter_from_token(token.as_str()))
    }
}

pub open spec fn views_of_nodes(v: Seq<QueryNode>) -> Seq<Node> {
    v.map_values(|t: QueryNode| t@)
}

/// The characters `v[a..b]`.
fn slice_chars(v: &Vec<char>, a: usize, b: usize) -> (r: Vec<char>)
    requires
        a <= b <= v.len(),
    ensures
        r@ == v@.subrange(a as int, b as int),
{
    let mut r: Vec<char> = Vec::new();
    let mut i = a;
    while i < b
        invariant
            a <= i <= b <= v.len(),
            r@ == v@.subrange(a as int, i as int),
        decreases b - i,
    {
        r.push(v[i]);
        assert(v@.subrange(a as int, i as int).push(v@[i as int]) =~= v@.subrange(a as int, i + 1));
        i += 1;
    }
    r
}

/// `v` with leading and trailing double quotes removed.
fn trim_quote_chars(v: &Vec<char>) -> (r: Vec<char>)
    ensures
        r@ == trim_quotes(v@),
{
    let mut a: usize = 0;
    assert(v@.subrange(0, v.len() as int) =~= v@);
    while a < v.len() && v[a] == '"'
        invariant
            a <= v.len(),
            trim_quotes(v@.subrange(a as int, v.len() as int)) == trim_quotes(v@),
        decreases v.len() - a,
    {
        assert(v@.subrange(a as int, v.len() as int).drop_first() =~= v@.subrange(a + 1, v.len() as int));
        a += 1;
    }
    let mut b: usize = v.len();
    while b > a && v[b - 1] == '"'
        invariant
            a <= b <= v.len(),
            a < b ==> v@[a as int] != '"',
            trim_quotes(v@.subrange(a as int, b as int)) == trim_quotes(v@),
        decreases b - a,
    {
        assert(v@.subrange(a as int, b as int).drop_last() =~= v@.subrange(a as int, b - 1));
        b -= 1;
    }
    slice_chars(v, a, b)
}

/// Splits the text after `field:` into its operator and value.
fn parse_operator_and_value(s: &Vec<char>) -> (r: (Operator, Vec<char>))
    ensures
        r.0 == op_and_value(s@).0,
        r.1@ == op_and_value(s@).1,
{
    let n = s.len();
    if n >= 2 && s[0] == '>' && s[1] == '=' {
        (Operator::GreaterThanOrEqual, slice_chars(s, 2, n))
    } else if n >= 2 && s[0] == '<' && s[1] == '=' {
        (Operator::LessThanOrEqual, slice_chars(s, 2, n))
    } else if n >= 1 && s[0] == '>' {
        (Operator::GreaterThan, slice_chars(s, 1, n))
    } else if n >= 1 && s[0] == '<' {
        (Operator::LessThan, slice_chars(s, 1, n))
    } else if n >= 2 && s[0] == '!' && s[1] == '=' {
        (Operator::NotEqual, slice_chars(s, 2, n))
    } else if n >= 1 && s[0] == '=' {
        (Operator::Equal, slice_chars(s, 1, n))
    } else if n > 2 && s[0] == '/' && s[n - 1] == '/' {
        (Operator::Regex, slice_chars(s, 1, n - 1))
    } else {
        (Operator::Contains, slice_chars(s, 0, n))
    }
}

/// The canonical name of a field, given as written.
pub fn normalize_field(field: &str) -> (r: String)
    ensures
        r@ == canonical_field(field@),
{
    let l = lowercase(field);
    let l = l.as_str();
    if same_text(l, "c") {
        "color".to_owned()
    } else if same_text(l, "id") || same_text(l, "identity") {
        "color_identity".to_owned()
    } else if same_text(l, "t") || same_text(l, "type_line") {
        "type".to_owned()
    } else if same_text(l, "o") || same_text(l, "oracle_text") {
        "oracle".to_owned()
    } else if same_text(l, "s") {
        "set".to_owned()
    } else if same_text(l, "r") {
        "rarity".to_owned()
    } else if same_text(l, "pow") {
        "power".to_owned()
    } else if same_text(l, "tou") {
        "toughness".to_owned()
    } else if same_text(l, "loy") {
        "loyalty".to_owned()
    } else if same_text(l, "mana") {
        "cmc".to_owned()
    } else {
        field.to_owned()
    }
}

/// The filter that one token stands for.
fn filter_from_token(tok: &str) -> (r: QueryNode)
    ensures
        r@ == filter_of(tok@),
{
    let chars = chars_of(tok);
    let mut i: usize = 0;
    while i < chars.len() && chars[i] != ':'
        invariant
            chars@ == tok@,
            i <= chars.len(),
            forall|j: int| 0 <= j < i ==> chars@[j] != ':',
        decreases chars.len() - i,
    {
        i += 1;
    }
    if i < chars.len() {
        proof {
            let c = choose|k: int| 0 <= k < tok@.len() && tok@[k] == ':' && forall|j: int| 0 <= j < k ==> tok@[j] != ':';
            assert(exists|k: int| 0 <= k < tok@.len() && tok@[k] == ':' && forall|j: int| 0 <= j < k ==> tok@[j] != ':') by {
                assert(0 <= i < tok@.len() && tok@[i as int] == ':' && forall|j: int| 0 <= j < i ==> tok@[j] != ':');
            }
            if c < i {
                assert(tok@[c] != ':');
            } else if c > i {
                assert(tok@[i as int] != ':');
            }
            assert(first_colon(tok@) == Some(i as int));
        }
        let field = string_from_chars(&slice_chars(&chars, 0, i));
        let rest = slice_chars(&chars, i + 1, chars.len());
        proof {
            assert(rest@ =~= tok@.skip(i + 1));
            assert(field@ =~= tok@.take(i as int));
        }
        let (operator, value) = parse_operator_and_value(&rest);
        let value = string_from_chars(&trim_quote_chars(&value));
        QueryNode::Filter(Filter { field: normalize_field(field.as_str()), operator, value })
    } else {
        proof {
            assert(first_colon(tok@) is None);
        }
        QueryNode::Filter(
            Filter {
                field: "name".to_owned(),
                operator: Operator::Contains,
                value: string_from_chars(&trim_quote_chars(&chars)),
            },
        )
    }
}

} // verus!
