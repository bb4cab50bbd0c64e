use vstd::prelude::*;
use vstd::string::*;
use crate::limits::QueryLimits;
use crate::parser::{node_view, views_of_nodes, Filter, Node, Operator, QueryNode};
use crate::text::{char_lower, chars_of, lower_char, lower_of, lowercase, same_text};

verus! {

/// Why a query was refused before or after parsing.
#[derive(Debug, Clone, Copy, PartialEq, Eq, Structural)]
pub enum ValidationError {
    /// The raw query is longer than the configured maximum.
    QueryTooLong,
    /// A `)` closes more groups than were opened.
    TooManyClosing,
    /// Some `(` is never closed.
    Unclosed,
    /// The tree is nested deeper than the configured maximum.
    TooDeep,
    /// The tree holds more `or` nodes than the configured maximum.
    TooManyOr,
    /// A filter names a field outside the allowed set.
    UnknownField,
    /// An ordering operator is applied to a text field.
    OrderingOnText,
    /// A color value holds a character that is not a color code.
    InvalidColor,
}

impl ValidationError {
    pub open spec fn spec_message(self) -> Seq<char> {
        match self {
            ValidationError::QueryTooLong => "Query too long"@,
            ValidationError::TooManyClosing => "Unbalanced parentheses: too many closing parentheses"@,
            ValidationError::Unclosed => "Unbalanced parentheses: unclosed parentheses"@,
            ValidationError::TooDeep => "Query too complex: nesting depth above the maximum"@,
            ValidationError::TooManyOr => "Query too complex: too many OR clauses"@,
            ValidationError::UnknownField => "Invalid field name"@,
            ValidationError::OrderingOnText => "Operator not valid for text field; numeric operators (>, <, >=, <=) only work with: cmc, power, toughness, loyalty"@,
            ValidationError::InvalidColor => "Invalid color code: valid colors are wubrgc"@,
        }
    }

    /// A human-readable description of the refusal.
    pub fn message(&self) -> (r: String)
        ensures
            r@ == self.spec_message(),
    {
        match self {
            ValidationError::QueryTooLong => "Query too long".to_owned(),
            ValidationError::TooManyClosing => "Unbalanced parentheses: too many closing parentheses".to_owned(),
            ValidationError::Unclosed => "Unbalanced parentheses: unclosed parentheses".to_owned(),
            ValidationError::TooDeep => "Query too complex: nesting depth above the maximum".to_owned(),
            ValidationError::TooManyOr => "Query too complex: too many OR clauses".to_owned(),
            ValidationError::UnknownField => "Invalid field name".to_owned(),
            ValidationError::OrderingOnText => "Operator not valid for text field; numeric operators (>, <, >=, <=) only work with: cmc, power, toughness, loyalty".to_owned(),
            ValidationError::InvalidColor => "Invalid color code: valid colors are wubrgc".to_owned(),
        }
    }
}

pub open spec fn max_nat(a: nat, b: nat) -> nat {
    if a >= b {
        a
    } else {
        b
    }
}

/// Nesting depth of a tree: a filter has depth one.
pub open spec fn depth(n: Node) -> nat
    decreases n,
{
    match n {
        Node::And(s) => 1 + depth_of_all(s, 0),
        Node::Or(s) => 1 + depth_of_all(s, 0),
        Node::Not(b) => 1 + depth(*b),
        Node::Leaf(..) => 1,
    }
}

/// The greatest depth among `s[i..]`, zero when there is none.
pub open spec fn depth_of_all(s: Seq<Node>, i: nat) -> nat
    decreases s, s.len() - i,
{
    if i >= s.len() {
        0
    } else {
        max_nat(depth(s[i as int]), depth_of_all(s, i + 1))
    }
}

/// Number of `or` nodes in a tree.
pub open spec fn or_count(n: Node) -> nat
    decreases n,
{
    match n {
        Node::And(s) => or_count_of_all(s, 0),
        Node::Or(s) => 1 + or_count_of_all(s, 0),
        Node::Not(b) => or_count(*b),
        Node::Leaf(..) => 0,
    }
}

/// Total number of `or` nodes in `s[i..]`.
pub open spec fn or_count_of_all(s: Seq<Node>, i: nat) -> nat
    decreases s, s.len() - i,
{
    if i >= s.len() {
        0
    } else {
        or_count(s[i as int]) + or_count_of_all(s, i + 1)
    }
}

/// The closed set of canonical field names.
pub open spec fn valid_field(f: Seq<char>) -> bool {
    ||| f == "name"@
    ||| f == "color"@
    ||| f == "color_identity"@
    ||| f == "type"@
    ||| f == "oracle"@
    ||| f == "set"@
    ||| f == "rarity"@
    ||| f == "power"@
    ||| f == "toughness"@
    ||| f == "loyalty"@
    ||| f == "cmc"@
}

/// Fields whose value is a list of color codes.
pub open spec fn color_field(f: Seq<char>) -> bool {
    f == "color"@ || f == "color_identity"@
}

pub open spec fn numeric_field(f: Seq<char>) -> bool {
    f == "cmc"@ || f == "power"@ || f == "toughness"@ || f == "loyalty"@
}

pub open spec fn color_code(c: char) -> bool {
    c == 'w' || c == 'u' || c == 'b' || c == 'r' || c == 'g' || c == 'c'
}

/// What is wrong with one filter, if anything; fields are compared in lower case.
pub open spec fn filter_fault(field: Seq<char>, op: Operator, value: Seq<char>) -> Option<ValidationError> {
    let f = lower_of(field);
    if !valid_field(f) {
        Some(ValidationError::UnknownField)
    } else if !numeric_field(f) && op.is_ordering() {
        Some(ValidationError::OrderingOnText)
    } else if color_field(f) && exists|i: int|
        0 <= i < value.len() && !color_code(char_lower(value[i])) {
        Some(ValidationError::InvalidColor)
    } else {
        None
    }
}

/// The first faulty filter of a tree, left to right.
pub open spec fn node_fault(n: Node) -> Option<ValidationError>
    decreases n,
{
    match n {
        Node::And(s) => children_fault(s, 0),
        Node::Or(s) => children_fault(s, 0),
        Node::Not(b) => node_fault(*b),
        Node::Leaf(f, op, v) => filter_fault(f, op, v),
    }
}

/// The first faulty filter among `s[i..]`.
pub open spec fn children_fault(s: Seq<Node>, i: nat) -> Option<ValidationError>
    decreases s, s.len() - i,
{
    if i >= s.len() {
        None
    } else {
        match node_fault(s[i as int]) {
            Some(e) => Some(e),
            None => children_fault(s, i + 1),
        }
    }
}

pub open spec fn as_result(f: Option<ValidationError>) -> Result<(), ValidationError> {
    match f {
        Some(e) => Err(e),
        None => Ok(()),
    }
}

/// The verdict on a parsed tree: depth first, then the `or` count, then the filters.
pub open spec fn ast_verdict(limits: QueryLimits, n: Node) -> Result<(), ValidationError> {
    if depth(n) > limits.max_nesting_depth {
        Err(ValidationError::TooDeep)
    } else if or_count(n) > limits.max_or_clauses {
        Err(ValidationError::TooManyOr)
    } else {
        as_result(node_fault(n))
    }
}

/// Open minus closed parentheses.
pub open spec fn balance(s: Seq<char>) -> int
    decreases s.len(),
{
    if s.len() == 0 {
        0
    } else {
        balance(s.drop_last()) + if s.last() == '(' {
            1int
        } else if s.last() == ')' {
            -1int
        } else {
            0int
        }
    }
}

/// The verdict on a raw query string of `byte_len` UTF-8 bytes, before parsing.
pub open spec fn string_verdict(limits: QueryLimits, byte_len: nat, q: Seq<char>) -> Result<(), ValidationError> {
    if byte_len > limits.max_query_length {
        Err(ValidationError::QueryTooLong)
    } else if exists|k: int| 0 <= k <= q.len() && balance(q.take(k)) < 0 {
        Err(ValidationError::TooManyClosing)
    } else if balance(q) != 0 {
        Err(ValidationError::Unclosed)
    } else {
        Ok(())
    }
}

pub struct QueryValidator {
    limits: QueryLimits,
}

impl QueryValidator {
    pub closed spec fn spec_limits(&self) -> QueryLimits {
        self.limits
    }

    pub fn new(limits: QueryLimits) -> (r: Self)
        ensures
            r.spec_limits() == limits,
    {
        QueryValidator { limits }
    }

    /// Get reference to query limits.
    pub fn limits(&self) -> (r: &QueryLimits)
        ensures
            *r == self.spec_limits(),
    {
        &self.limits
    }

    /// Validate a query string before parsing: its length in UTF-8 bytes, then its
    /// parentheses.
    pub fn validate_query_string(&self, query: &str) -> (r: Result<(), ValidationError>)
        ensures
            r == string_verdict(self.spec_limits(), query.spec_bytes().len(), query@),
    {
        let bytes = query.as_bytes();
        if bytes.len() > self.limits.max_query_length {
            return Err(ValidationError::QueryTooLong);
        }
        let chars = chars_of(query);
        let mut open: usize = 0;
        let mut i: usize = 0;
        assert(query@.take(0) =~= seq![]);
        while i < chars.len()
            invariant
                chars@ == query@,
                query.spec_bytes().len() <= self.spec_limits().max_query_length,
                i <= chars.len(),
                open <= i,
                open == balance(query@.take(i as int)),
                forall|k: int| 0 <= k <= i ==> balance(#[trigger] query@.take(k)) >= 0,
            decreases chars.len() - i,
        {
            assert(query@.take(i + 1).drop_last() =~= query@.take(i as int));
            if chars[i] == '(' {
                open += 1;
            } else if chars[i] == ')' {
                if open == 0 {
                    assert(query@.take(i + 1).last() == ')');
                    assert(balance(query@.take(i + 1)) < 0);
                    assert(exists|k: int| 0 <= k <= query@.len() && balance(query@.take(k)) < 0);
                    return Err(ValidationError::TooManyClosing);
                }
                open -= 1;
            }
            i += 1;
        }
        assert(query@.take(chars.len() as int) =~= query@);
        if open != 0 {
            return Err(ValidationError::Unclosed);
        }
        Ok(())
    }

    /// Validate a parsed tree against the limits, then each of its filters.
    pub fn validate_ast(&self, node: &QueryNode) -> (r: Result<(), ValidationError>)
        ensures
            r == ast_verdict(self.spec_limits(), node@),
    {
        if self.calculate_depth(node, self.limits.max_nesting_depth).is_none() {
            return Err(ValidationError::TooDeep);
        }
        if self.count_or_clauses(node, self.limits.max_or_clauses).is_none() {
            return Err(ValidationError::TooManyOr);
        }
        self.validate_node(node)
    }

    fn validate_node(&self, node: &QueryNode) -> (r: Result<(), ValidationError>)
        ensures
            r == as_result(node_fault(node@)),
        decreases node,
    {
        proof {
            lemma_node_children(*node);
        }
        match node {
            QueryNode::And(children) => self.validate_children(children),
            QueryNode::Or(children) => self.validate_children(children),
            QueryNode::Not(child) => self.validate_node(child),
            QueryNode::Filter(filter) => self.validate_filter(filter),
        }
    }

    fn validate_children(&self, children: &Vec<QueryNode>) -> (r: Result<(), ValidationError>)
        ensures
            r == as_result(children_fault(views_of_nodes(children@), 0)),
        decreases children,
    {
        let ghost s = views_of_nodes(children@);
        let mut i: usize = 0;
        while i < children.len()
            invariant
                s == views_of_nodes(children@),
                i <= children.len(),
                children_fault(s, 0) == children_fault(s, i as nat),
            decreases children.len() - i,
        {
            let res = self.validate_node(&children[i]);
            if res.is_err() {
                return res;
            }
            i += 1;
        }
        Ok(())
    }

    /// Validate a single filter: its field, its operator, and a color value.
    pub fn validate_filter(&self, filter: &Filter) -> (r: Result<(), ValidationError>)
        ensures
            r == as_result(filter_fault(filter.field@, filter.operator, filter.value@)),
    {
        let field = lowercase(filter.field.as_str());
        let f = field.as_str();
        if !is_valid_field(f) {
            return Err(ValidationError::UnknownField);
        }
        let numeric = same_text(f, "cmc") || same_text(f, "power") || same_text(f, "toughness")
            || same_text(f, "loyalty");
        if !numeric {
            match filter.operator {
                Operator::GreaterThan
                | Operator::LessThan
                | Operator::GreaterThanOrEqual
                | Operator::LessThanOrEqual => {
                    return Err(ValidationError::OrderingOnText);
                },
                _ => {},
            }
        }
        if same_text(f, "color") || same_text(f, "color_identity") {
            let v = chars_of(filter.value.as_str());
            let mut i: usize = 0;
            while i < v.len()
                invariant
                    v@ == filter.value@,
                    field@ == lower_of(filter.field@),
                    valid_field(field@),
                    !numeric_field(field@) ==> !filter.operator.is_ordering(),
                    color_field(field@),
                    i <= v.len(),
                    forall|j: int| 0 <= j < i ==> color_code(char_lower(#[trigger] v@[j])),
                decreases v.len() - i,
            {
                let c = lower_char(v[i]);
                if !(c == 'w' || c == 'u' || c == 'b' || c == 'r' || c == 'g' || c == 'c') {
                    assert(!color_code(char_lower(filter.value@[i as int])));
                    assert(exists|k: int| 0 <= k < filter.value@.len() && !color_code(char_lower(filter.value@[k])));
                    return Err(ValidationError::InvalidColor);
                }
                i += 1;
            }
        }
        Ok(())
    }

    /// The depth of `node` where it is at most `cap`, else `None`.
    fn calculate_depth(&self, node: &QueryNode, cap: usize) -> (r: Option<usize>)
        ensures
            r == (if depth(node@) <= cap { Some(depth(node@) as usize) } else { None::<usize> }),
        decreases node,
    {
        proof {
            lemma_node_children(*node);
        }
        if cap == 0 {
            return None;
        }
        let inner = match node {
            QueryNode::And(children) => self.deepest(children, cap - 1),
            QueryNode::Or(children) => self.deepest(children, cap - 1),
            QueryNode::Not(child) => self.calculate_depth(child, cap - 1),
            QueryNode::Filter(_) => Some(0),
        };
        match inner {
            Some(d) => Some(d + 1),
            None => None,
        }
    }

    /// The greatest depth among `children` where it is at most `cap`, else `None`.
    fn deepest(&self, children: &Vec<QueryNode>, cap: usize) -> (r: Option<usize>)
        ensures
            ({
                let d = depth_of_all(views_of_nodes(children@), 0);
                r == (if d <= cap { Some(d as usize) } else { None::<usize> })
            }),
        decreases children,
    {
        let ghost s = views_of_nodes(children@);
        let mut m: usize = 0;
        let mut i: usize = children.len();
        while i > 0
            invariant
                s == views_of_nodes(children@),
                i <= children.len(),
                m == depth_of_all(s, i as nat),
                m <= cap,
            decreases i,
        {
            i -= 1;
            match self.calculate_depth(&children[i], cap) {
                Some(d) => {
                    if d > m {
                        m = d;
                    }
                },
                None => {
                    proof {
                        lemma_depth_of_all_mono(s, 0, i as nat);
                    }
                    return None;
                },
            }
        }
        Some(m)
    }

    /// The number of `or` nodes of `node` where it is at most `cap`, else `None`.
    fn count_or_clauses(&self, node: &QueryNode, cap: usize) -> (r: Option<usize>)
        ensures
            r == (if or_count(node@) <= cap { Some(or_count(node@) as usize) } else { None::<usize> }),
        decreases node,
    {
        proof {
            lemma_node_children(*node);
        }
        match node {
            QueryNode::And(children) => self.count_or_children(children, cap),
            QueryNode::Or(children) => {
                if cap == 0 {
                    return None;
                }
                match self.count_or_children(children, cap - 1) {
                    Some(c) => Some(c + 1),
                    None => None,
                }
            },
            QueryNode::Not(child) => self.count_or_clauses(child, cap),
            QueryNode::Filter(_) => Some(0),
        }
    }

    /// The number of `or` nodes among `children` where it is at most `cap`, else `None`.
    fn count_or_children(&self, children: &Vec<QueryNode>, cap: usize) -> (r: Option<usize>)
        ensures
            ({
                let c = or_count_of_all(views_of_nodes(children@), 0);
                r == (if c <= cap { Some(c as usize) } else { None::<usize> })
            }),
        decreases children,
    {
        let ghost s = views_of_nodes(children@);
        let mut total: usize = 0;
        let mut i: usize = children.len();
        while i > 0
            invariant
                s == views_of_nodes(children@),
                i <= children.len(),
                total == or_count_of_all(s, i as nat),
                total <= cap,
            decreases i,
        {
            i -= 1;
            match self.count_or_clauses(&children[i], cap - total) {
                Some(c) => {
                    total = total + c;
                },
                None => {
                    proof {
                        lemma_or_count_of_all_mono(s, 0, i as nat);
                    }
                    return None;
                },
            }
        }
        Some(total)
    }
}

/// A tree with children views as the tree of their views.
proof fn lemma_node_children(n: QueryNode)
    ensures
        n matches QueryNode::And(v) ==> n@ == Node::And(views_of_nodes(v@)),
        n matches QueryNode::Or(v) ==> n@ == Node::Or(views_of_nodes(v@)),
        n matches QueryNode::Not(b) ==> n@ == Node::Not(Box::new(node_view(*b))),
{
    match n {
        QueryNode::And(v) => {
            assert(n@->And_0 =~= views_of_nodes(v@));
        },
        QueryNode::Or(v) => {
            assert(n@->Or_0 =~= views_of_nodes(v@));
        },
        _ => {},
    }
}

proof fn lemma_depth_of_all_mono(s: Seq<Node>, i: nat, j: nat)
    requires
        i <= j < s.len(),
    ensures
        depth_of_all(s, i) >= depth(s[j as int]),
    decreases j - i,
{
    if i < j {
        lemma_depth_of_all_mono(s, i + 1, j);
    }
}

proof fn lemma_or_count_of_all_mono(s: Seq<Node>, i: nat, j: nat)
    requires
        i <= j <= s.len(),
    ensures
        or_count_of_all(s, i) >= or_count_of_all(s, j),
    decreases j - i,
{
    if i < j {
        lemma_or_count_of_all_mono(s, i + 1, j);
    }
}

/// Whether a lower-case field name is in the allowed set.
fn is_valid_field(f: &str) -> (r: bool)
    ensures
        r == valid_field(f@),
{
    same_text(f, "name") || same_text(f, "color") || same_text(f, "color_identity") || same_text(
        f,
        "type",
    ) || same_text(f, "oracle") || same_text(f, "set") || same_text(f, "rarity") || same_text(
        f,
        "power",
    ) || same_text(f, "toughness") || same_text(f, "loyalty") || same_text(f, "cmc")
}

} // verus!
