use vstd::prelude::*;
use vstd::string::*;
use crate::parser::{node_view, views_of, views_of_nodes, Filter, Node, Operator, QueryNode};
use crate::text::{
    char_lower, chars_of, decimal, is_ws, lower_char, lower_of, lowercase, push_decimal, push_str,
    same_text, whitespace,
};

verus! {

/// `$n`, the placeholder of the `n`-th parameter.
pub open spec fn placeholder(n: nat) -> Seq<char> {
    "$"@ + decimal(n)
}

/// Text match against a column.
pub open spec fn text_search(col: Seq<char>, idx: nat, op: Operator) -> Seq<char> {
    match op {
        Operator::Equal => "LOWER("@ + col + ") = LOWER("@ + placeholder(idx) + ")"@,
        Operator::Contains => "to_tsvector('english', "@ + col + ") @@ plainto_tsquery('english', "@
            + placeholder(idx) + ")"@,
        Operator::Regex => col + " ~ "@ + placeholder(idx),
        _ => col + " ILIKE '%' || "@ + placeholder(idx) + " || '%'"@,
    }
}

/// The SQL comparison for an operator applied to a number.
pub open spec fn numeric_op(op: Operator) -> Seq<char> {
    match op {
        Operator::NotEqual => "!="@,
        Operator::GreaterThan => ">"@,
        Operator::LessThan => "<"@,
        Operator::GreaterThanOrEqual => ">="@,
        Operator::LessThanOrEqual => "<="@,
        _ => "="@,
    }
}

/// Numeric comparison of a column with a parameter.
pub open spec fn numeric_comparison(col: Seq<char>, idx: nat, op: Operator) -> Seq<char> {
    col + " "@ + numeric_op(op) + " "@ + placeholder(idx) + "::numeric"@
}

/// The upper-case color code of a lower-case letter, if it is one.
pub open spec fn color_letter(c: char) -> Option<char> {
    if c == 'w' {
        Some('W')
    } else if c == 'u' {
        Some('U')
    } else if c == 'b' {
        Some('B')
    } else if c == 'r' {
        Some('R')
    } else if c == 'g' {
        Some('G')
    } else if c == 'c' {
        Some('C')
    } else {
        None
    }
}

/// The first color code named in a value, whitespace and other characters skipped.
pub open spec fn first_color(v: Seq<char>) -> Option<char>
    decreases v.len(),
{
    if v.len() == 0 {
        None
    } else if !is_ws(v[0]) && color_letter(char_lower(v[0])) is Some {
        color_letter(char_lower(v[0]))
    } else {
        first_color(v.drop_first())
    }
}

/// The predicate that holds of a card with no color in `col`.
pub open spec fn no_color(col: Seq<char>) -> Seq<char> {
    "("@ + col + " IS NULL OR "@ + col + " = '{}')"@
}

/// Membership of a color code in a multi-valued column.
pub open spec fn color_membership(col: Seq<char>, idx: nat, op: Operator) -> Seq<char> {
    if op is NotEqual {
        "NOT ("@ + placeholder(idx) + " = ANY("@ + col + "))"@
    } else {
        placeholder(idx) + " = ANY("@ + col + ")"@
    }
}

/// The parameters of a color filter: its first color code, if any.
pub open spec fn color_params(v: Seq<char>) -> Seq<Seq<char>> {
    match first_color(v) {
        Some(c) => seq![seq![c]],
        None => seq![],
    }
}

/// A color filter on `col`: membership of the first code, or no color at all.
pub open spec fn color_text(col: Seq<char>, op: Operator, v: Seq<char>, idx: nat) -> Seq<char> {
    match first_color(v) {
        Some(_) => color_membership(col, idx, op),
        None => no_color(col),
    }
}

/// How a filter on a field is rendered.
pub enum FieldKind {
    Text(Seq<char>),
    Lowered(Seq<char>),
    Numeric(Seq<char>),
    Colors(Seq<char>),
}

pub open spec fn field_kind(f: Seq<char>) -> FieldKind {
    if f == "name"@ {
        FieldKind::Text("name"@)
    } else if f == "oracle"@ || f == "oracle_text"@ {
        FieldKind::Text("oracle_text"@)
    } else if f == "type"@ || f == "type_line"@ {
        FieldKind::Text("type_line"@)
    } else if f == "color"@ || f == "c"@ {
        FieldKind::Colors("colors"@)
    } else if f == "color_identity"@ || f == "id"@ || f == "identity"@ {
        FieldKind::Colors("color_identity"@)
    } else if f == "set"@ || f == "s"@ {
        FieldKind::Lowered("set_code"@)
    } else if f == "rarity"@ || f == "r"@ {
        FieldKind::Lowered("rarity"@)
    } else if f == "cmc"@ {
        FieldKind::Numeric("cmc"@)
    } else if f == "power"@ || f == "pow"@ {
        FieldKind::Numeric("power::numeric"@)
    } else if f == "toughness"@ || f == "tou"@ {
        FieldKind::Numeric("toughness::numeric"@)
    } else if f == "loyalty"@ || f == "loy"@ {
        FieldKind::Numeric("loyalty::numeric"@)
    } else {
        FieldKind::Text("name"@)
    }
}

/// The parameters that a filter adds.
pub open spec fn filter_params(f: Seq<char>, v: Seq<char>) -> Seq<Seq<char>> {
    match field_kind(f) {
        FieldKind::Lowered(_) => seq![lower_of(v)],
        FieldKind::Colors(_) => color_params(v),
        _ => seq![v],
    }
}

/// The predicate of a filter whose first parameter would be number `idx`.
pub open spec fn filter_text(f: Seq<char>, op: Operator, v: Seq<char>, idx: nat) -> Seq<char> {
    match field_kind(f) {
        FieldKind::Text(col) => text_search(col, idx, op),
        FieldKind::Lowered(col) => col + " = "@ + placeholder(idx),
        FieldKind::Numeric(col) => numeric_comparison(col, idx, op),
        FieldKind::Colors(col) => color_text(col, op, v, idx),
    }
}

/// The parameters of a tree, left to right.
pub open spec fn params_of(n: Node) -> Seq<Seq<char>>
    decreases n, 0nat,
{
    match n {
        Node::And(s) => params_all(s, 0),
        Node::Or(s) => params_all(s, 0),
        Node::Not(b) => params_of(*b),
        Node::Leaf(f, _, v) => filter_params(f, v),
    }
}

/// The parameters of `s[i..]`, left to right.
pub open spec fn params_all(s: Seq<Node>, i: nat) -> Seq<Seq<char>>
    decreases s, s.len() - i,
{
    if i >= s.len() {
        seq![]
    } else {
        params_of(s[i as int]) + params_all(s, i + 1)
    }
}

/// The predicate of a tree when `base` parameters come before it.
pub open spec fn clause_text(n: Node, base: nat) -> Seq<char>
    decreases n, 0nat,
{
    match n {
        Node::And(s) => "("@ + join_text(s, 0, base, " AND "@) + ")"@,
        Node::Or(s) => "("@ + join_text(s, 0, base, " OR "@) + ")"@,
        Node::Not(b) => "NOT ("@ + clause_text(*b, base) + ")"@,
        Node::Leaf(f, op, v) => filter_text(f, op, v, base + 1),
    }
}

/// The predicates of `s[i..]` joined by `sep`, numbered from `base`.
pub open spec fn join_text(s: Seq<Node>, i: nat, base: nat, sep: Seq<char>) -> Seq<char>
    decreases s, s.len() - i,
{
    if i >= s.len() {
        seq![]
    } else if i + 1 == s.len() {
        clause_text(s[i as int], base)
    } else {
        clause_text(s[i as int], base) + sep + join_text(
            s,
            i + 1,
            base + params_of(s[i as int]).len(),
            sep,
        )
    }
}

/// Appends the placeholder of parameter `n`.
fn push_placeholder(s: &mut String, n: usize)
    ensures
        final(s)@ == old(s)@ + placeholder(n as nat),
{
    push_str(s, "$");
    push_decimal(s, n);
    assert(final(s)@ =~= old(s)@ + placeholder(n as nat));
}

/// Text match for a column; `param_index` numbers the parameter.
pub fn build_text_search(field: &str, param_index: usize, operator: &Operator) -> (r: String)
    ensures
        r@ == text_search(field@, param_index as nat, *operator),
{
    let mut s = String::new();
    match operator {
        Operator::Equal => {
            push_str(&mut s, "LOWER(");
            push_str(&mut s, field);
            push_str(&mut s, ") = LOWER(");
            push_placeholder(&mut s, param_index);
            push_str(&mut s, ")");
        },
        Operator::Contains => {
            push_str(&mut s, "to_tsvector('english', ");
            push_str(&mut s, field);
            push_str(&mut s, ") @@ plainto_tsquery('english', ");
            push_placeholder(&mut s, param_index);
            push_str(&mut s, ")");
        },
        Operator::Regex => {
            push_str(&mut s, field);
            push_str(&mut s, " ~ ");
            push_placeholder(&mut s, param_index);
        },
        _ => {
            push_str(&mut s, field);
            push_str(&mut s, " ILIKE '%' || ");
            push_placeholder(&mut s, param_index);
            push_str(&mut s, " || '%'");
        },
    }
    assert(s@ =~= text_search(field@, param_index as nat, *operator));
    s
}

/// Numeric comparison of a column with a parameter.
pub fn build_numeric_comparison(field: &str, param_index: usize, operator: &Operator) -> (r: String)
    ensures
        r@ == numeric_comparison(field@, param_index as nat, *operator),
{
    let op = match operator {
        Operator::NotEqual => "!=",
        Operator::GreaterThan => ">",
        Operator::LessThan => "<",
        Operator::GreaterThanOrEqual => ">=",
        Operator::LessThanOrEqual => "<=",
        _ => "=",
    };
    let mut s = String::new();
    push_str(&mut s, field);
    push_str(&mut s, " ");
    push_str(&mut s, op);
    push_str(&mut s, " ");
    push_placeholder(&mut s, param_index);
    push_str(&mut s, "::numeric");
    assert(s@ =~= numeric_comparison(field@, param_index as nat, *operator));
    s
}

/// The first color code named in `value`.
fn first_color_code(value: &str) -> (r: Option<char>)
    ensures
        r == first_color(value@),
{
    let v = chars_of(value);
    let mut i: usize = 0;
    assert(value@.skip(0) =~= value@);
    while i < v.len()
        invariant
            v@ == value@,
            i <= v.len(),
            first_color(value@) == first_color(value@.skip(i as int)),
        decreases v.len() - i,
    {
        assert(value@.skip(i as int).drop_first() =~= value@.skip(i + 1));
        if !whitespace(v[i]) {
            let l = lower_char(v[i]);
            let code = if l == 'w' {
                Some('W')
            } else if l == 'u' {
                Some('U')
            } else if l == 'b' {
                Some('B')
            } else if l == 'r' {
                Some('R')
            } else if l == 'g' {
                Some('G')
            } else if l == 'c' {
                Some('C')
            } else {
                None
            };
            if code.is_some() {
                return code;
            }
        }
        i += 1;
    }
    None
}

/// Color membership against the column `column`; adds the first color code as a parameter.
fn build_color_membership(
    column: &str,
    value: &str,
    operator: &Operator,
    params: &mut Vec<String>,
) -> (r: String)
    requires
        old(params).len() < usize::MAX,
    ensures
        views_of(final(params)@) == views_of(old(params)@) + color_params(value@),
        r@ == color_text(column@, *operator, value@, (old(params).len() + 1) as nat),
{
    let param_index = params.len() + 1;
    let ghost before = views_of(params@);
    let mut s = String::new();
    match first_color_code(value) {
        None => {
            push_str(&mut s, "(");
            push_str(&mut s, column);
            push_str(&mut s, " IS NULL OR ");
            push_str(&mut s, column);
            push_str(&mut s, " = '{}')");
            assert(s@ =~= no_color(column@));
            assert(views_of(params@) =~= before + Seq::<Seq<char>>::empty());
        },
        Some(c) => {
            let mut p = String::new();
            crate::text::push_char(&mut p, c);
            params.push(p);
            assert(views_of(params@) =~= before + seq![seq![c]]);
            match operator {
                Operator::NotEqual => {
                    push_str(&mut s, "NOT (");
                    push_placeholder(&mut s, param_index);
                    push_str(&mut s, " = ANY(");
                    push_str(&mut s, column);
                    push_str(&mut s, "))");
                },
                _ => {
                    push_placeholder(&mut s, param_index);
                    push_str(&mut s, " = ANY(");
                    push_str(&mut s, column);
                    push_str(&mut s, ")");
                },
            }
            assert(s@ =~= color_membership(column@, param_index as nat, *operator));
        },
    }
    s
}

/// Predicate on the `colors` column.
pub fn build_color_clause(value: &str, operator: &Operator, params: &mut Vec<String>) -> (r: String)
    requires
        old(params).len() < usize::MAX,
    ensures
        views_of(final(params)@) == views_of(old(params)@) + color_params(value@),
        r@ == color_text("colors"@, *operator, value@, (old(params).len() + 1) as nat),
{
    build_color_membership("colors", value, operator, params)
}

/// Predicate on the `color_identity` column.
pub fn build_color_identity_clause(value: &str, operator: &Operator, params: &mut Vec<String>) -> (r: String)
    requires
        old(params).len() < usize::MAX,
    ensures
        views_of(final(params)@) == views_of(old(params)@) + color_params(value@),
        r@ == color_text("color_identity"@, *operator, value@, (old(params).len() + 1) as nat),
{
    build_color_membership("color_identity", value, operator, params)
}

/// The predicate of one filter; its parameters are appended to `params`.
pub fn build_filter_clause(filter: &Filter, params: &mut Vec<String>) -> (r: String)
    requires
        old(params).len() < usize::MAX,
    ensures
        views_of(final(params)@) == views_of(old(params)@) + filter_params(filter.field@, filter.value@),
        r@ == filter_text(filter.field@, filter.operator, filter.value@, (old(params).len() + 1) as nat),
{
    let param_index = params.len() + 1;
    let ghost before = views_of(params@);
    let f = filter.field.as_str();
    let (column, kind): (&str, u8) = if same_text(f, "name") {
        ("name", 0)
    } else if same_text(f, "oracle") || same_text(f, "oracle_text") {
        ("oracle_text", 0)
    } else if same_text(f, "type") || same_text(f, "type_line") {
        ("type_line", 0)
    } else if same_text(f, "color") || same_text(f, "c") {
        ("colors", 3)
    } else if same_text(f, "color_identity") || same_text(f, "id") || same_text(f, "identity") {
        ("color_identity", 3)
    } else if same_text(f, "set") || same_text(f, "s") {
        ("set_code", 1)
    } else if same_text(f, "rarity") || same_text(f, "r") {
        ("rarity", 1)
    } else if same_text(f, "cmc") {
        ("cmc", 2)
    } else if same_text(f, "power") || same_text(f, "pow") {
        ("power::numeric", 2)
    } else if same_text(f, "toughness") || same_text(f, "tou") {
        ("toughness::numeric", 2)
    } else if same_text(f, "loyalty") || same_text(f, "loy") {
        ("loyalty::numeric", 2)
    } else {
        ("name", 0)
    };
    let ghost k = field_kind(filter.field@);
    assert(kind == 0 ==> k == FieldKind::Text(column@));
    assert(kind == 1 ==> k == FieldKind::Lowered(column@));
    assert(kind == 2 ==> k == FieldKind::Numeric(column@));
    assert(kind == 3 ==> k == FieldKind::Colors(column@));
    if kind == 3 {
        return build_color_membership(column, filter.value.as_str(), &filter.operator, params);
    }
    if kind == 1 {
        let lowered = lowercase(filter.value.as_str());
        params.push(lowered);
        assert(views_of(params@) =~= before + seq![lower_of(filter.value@)]);
        let mut s = String::new();
        push_str(&mut s, column);
        push_str(&mut s, " = ");
        push_placeholder(&mut s, param_index);
        assert(s@ =~= column@ + " = "@ + placeholder(param_index as nat));
        return s;
    }
    params.push(filter.value.clone());
    assert(views_of(params@) =~= before + seq![filter.value@]);
    if kind == 2 {
        build_numeric_comparison(column, param_index, &filter.operator)
    } else {
        build_text_search(column, param_index, &filter.operator)
    }
}

/// The predicate of a tree; its parameters are appended to `params`.
pub fn build_where_clause_inner(node: &QueryNode, params: &mut Vec<String>) -> (r: String)
    requires
        old(params).len() + params_of(node@).len() < usize::MAX,
    ensures
        views_of(final(params)@) == views_of(old(params)@) + params_of(node@),
        r@ == clause_text(node@, old(params).len() as nat),
    decreases node, 0nat,
{
    proof {
        lemma_tree_children(*node);
    }
    match node {
        QueryNode::And(children) => {
            let mut s = String::new();
            push_str(&mut s, "(");
            let inner = build_joined(children, 0, " AND ", params);
            push_str(&mut s, inner.as_str());
            push_str(&mut s, ")");
            assert(s@ =~= "("@ + inner@ + ")"@);
            s
        },
        QueryNode::Or(children) => {
            let mut s = String::new();
            push_str(&mut s, "(");
            let inner = build_joined(children, 0, " OR ", params);
            push_str(&mut s, inner.as_str());
            push_str(&mut s, ")");
            assert(s@ =~= "("@ + inner@ + ")"@);
            s
        },
        QueryNode::Not(child) => {
            let inner = build_where_clause_inner(child, params);
            let mut s = String::new();
            push_str(&mut s, "NOT (");
            push_str(&mut s, inner.as_str());
            push_str(&mut s, ")");
            assert(s@ =~= "NOT ("@ + inner@ + ")"@);
            s
        },
        QueryNode::Filter(filter) => build_filter_clause(filter, params),
    }
}

/// The predicates of `children[i..]` joined by `sep`; their parameters are appended.
fn build_joined(children: &Vec<QueryNode>, i: usize, sep: &str, params: &mut Vec<String>) -> (r: String)
    requires
        i <= children.len(),
        old(params).len() + params_all(views_of_nodes(children@), i as nat).len() < usize::MAX,
    ensures
        views_of(final(params)@) == views_of(old(params)@) + params_all(views_of_nodes(children@), i as nat),
        r@ == join_text(views_of_nodes(children@), i as nat, old(params).len() as nat, sep@),
    decreases children, children.len() - i,
{
    let ghost s = views_of_nodes(children@);
    if i >= children.len() {
        assert(views_of(params@) =~= views_of(params@) + params_all(s, i as nat));
        return String::new();
    }
    let ghost before = views_of(params@);
    let ghost base = params.len() as nat;
    let first = build_where_clause_inner(&children[i], params);
    if i + 1 == children.len() {
        assert(params_all(s, (i + 1) as nat) =~= Seq::<Seq<char>>::empty());
        assert(views_of(params@) =~= before + params_all(s, i as nat));
        return first;
    }
    assert(views_of(params@).len() == params@.len());
    assert(params.len() == base + params_of(s[i as int]).len());
    let rest = build_joined(children, i + 1, sep, params);
    let mut r = first;
    push_str(&mut r, sep);
    push_str(&mut r, rest.as_str());
    assert(views_of(params@) =~= before + params_all(s, i as nat));
    r
}

/// Number of filters in a tree.
pub open spec fn leaf_count(n: Node) -> nat
    decreases n, 0nat,
{
    match n {
        Node::And(s) => leaves_all(s, 0),
        Node::Or(s) => leaves_all(s, 0),
        Node::Not(b) => leaf_count(*b),
        Node::Leaf(..) => 1,
    }
}

/// Number of filters in `s[i..]`.
pub open spec fn leaves_all(s: Seq<Node>, i: nat) -> nat
    decreases s, s.len() - i,
{
    if i >= s.len() {
        0
    } else {
        leaf_count(s[i as int]) + leaves_all(s, i + 1)
    }
}

proof fn lemma_params_le_leaves(n: Node)
    ensures
        params_of(n).len() <= leaf_count(n),
    decreases n, 0nat,
{
    match n {
        Node::And(s) => lemma_params_all_le_leaves(s, 0),
        Node::Or(s) => lemma_params_all_le_leaves(s, 0),
        Node::Not(b) => lemma_params_le_leaves(*b),
        Node::Leaf(..) => {},
    }
}

proof fn lemma_params_all_le_leaves(s: Seq<Node>, i: nat)
    ensures
        params_all(s, i).len() <= leaves_all(s, i),
    decreases s, s.len() - i,
{
    if i < s.len() {
        lemma_params_le_leaves(s[i as int]);
        lemma_params_all_le_leaves(s, i + 1);
    }
}

/// The predicate of a tree and its ordered parameters.
pub fn build_where_clause(node: &QueryNode) -> (r: (String, Vec<String>))
    requires
        leaf_count(node@) < usize::MAX,
    ensures
        r.0@ == clause_text(node@, 0),
        views_of(r.1@) == params_of(node@),
{
    proof {
        lemma_params_le_leaves(node@);
    }
    let mut params: Vec<String> = Vec::new();
    let clause = build_where_clause_inner(node, &mut params);
    assert(views_of(params@) =~= params_of(node@));
    (clause, params)
}

/// The number of filters of `node` where it is at most `cap`, else `None`.
fn count_leaves(node: &QueryNode, cap: usize) -> (r: Option<usize>)
    ensures
        r == (if leaf_count(node@) <= cap { Some(leaf_count(node@) as usize) } else { None::<usize> }),
    decreases node, 0nat,
{
    proof {
        lemma_tree_children(*node);
    }
    match node {
        QueryNode::And(children) => count_leaves_all(children, 0, cap),
        QueryNode::Or(children) => count_leaves_all(children, 0, cap),
        QueryNode::Not(child) => count_leaves(child, cap),
        QueryNode::Filter(_) => if cap >= 1 {
            Some(1)
        } else {
            None
        },
    }
}

/// The number of filters of `children[i..]` where it is at most `cap`, else `None`.
fn count_leaves_all(children: &Vec<QueryNode>, i: usize, cap: usize) -> (r: Option<usize>)
    requires
        i <= children.len(),
    ensures
        ({
            let c = leaves_all(views_of_nodes(children@), i as nat);
            r == (if c <= cap { Some(c as usize) } else { None::<usize> })
        }),
    decreases children, children.len() - i,
{
    if i >= children.len() {
        return Some(0);
    }
    let first = match count_leaves(&children[i], cap) {
        Some(c) => c,
        None => {
            return None;
        },
    };
    match count_leaves_all(children, i + 1, cap - first) {
        Some(rest) => Some(first + rest),
        None => None,
    }
}

/// Translate a tree whose filter count fits the parameter numbering; `None` only where
/// it does not (a tree of `usize::MAX` filters or more).
pub fn translate(node: &QueryNode) -> (r: Option<(String, Vec<String>)>)
    ensures
        r is Some <==> leaf_count(node@) < usize::MAX,
        r matches Some((c, p)) ==> c@ == clause_text(node@, 0) && views_of(p@) == params_of(node@),
{
    match count_leaves(node, (usize::MAX - 1) as usize) {
        Some(_) => Some(build_where_clause(node)),
        None => None,
    }
}

proof fn lemma_tree_children(n: QueryNode)
    ensures
        n matches QueryNode::And(v) ==> n@ == Node::And(views_of_nodes(v@)),
        n matches QueryNode::Or(v) ==> n@ == Node::Or(views_of_nodes(v@)),
        n matches QueryNode::Not(b) ==> n@ == Node::Not(Box::new(node_view(*b))),
        n matches QueryNode::Filter(f) ==> n@ == Node::Leaf(f.field@, f.operator, f.value@),
{
    match n {
        QueryNode::And(v) => {
            assert(n@->And_0 =~= views_of_nodes(v@));
        },
        QueryNode::Or(v) => {
            assert(n@->Or_0 =~= views_of_nodes(v@));
        },
        _ => {},
    }
}

/// The counting form of a search.
pub open spec fn count_sql_of(w: Seq<char>) -> Seq<char> {
    "SELECT COUNT(*) FROM cards WHERE "@ + w
}

/// The page form of a search: ordered by name, ties broken by id.
pub open spec fn page_sql_of(w: Seq<char>, page_size: nat, offset: nat) -> Seq<char> {
    "SELECT * FROM cards WHERE "@ + w + " ORDER BY name ASC, id ASC LIMIT "@ + decimal(page_size)
        + " OFFSET "@ + decimal(offset)
}

/// The full form of a search, with the row limit as the next parameter where there is one.
pub open spec fn search_sql_of(w: Seq<char>, limit_index: Option<nat>) -> Seq<char> {
    match limit_index {
        Some(i) => "SELECT * FROM cards WHERE "@ + w + " ORDER BY name ASC, id ASC LIMIT "@
            + placeholder(i),
        None => "SELECT * FROM cards WHERE "@ + w + " ORDER BY name ASC, id ASC"@,
    }
}

/// `SELECT COUNT(*) FROM cards WHERE <predicate>`.
pub fn count_sql(where_clause: &str) -> (r: String)
    ensures
        r@ == count_sql_of(where_clause@),
{
    let mut s = String::new();
    push_str(&mut s, "SELECT COUNT(*) FROM cards WHERE ");
    push_str(&mut s, where_clause);
    s
}

/// The query for one page of results.
pub fn page_sql(where_clause: &str, page_size: usize, offset: usize) -> (r: String)
    ensures
        r@ == page_sql_of(where_clause@, page_size as nat, offset as nat),
{
    let mut s = String::new();
    push_str(&mut s, "SELECT * FROM cards WHERE ");
    push_str(&mut s, where_clause);
    push_str(&mut s, " ORDER BY name ASC, id ASC LIMIT ");
    push_decimal(&mut s, page_size);
    push_str(&mut s, " OFFSET ");
    push_decimal(&mut s, offset);
    assert(s@ =~= page_sql_of(where_clause@, page_size as nat, offset as nat));
    s
}

/// The query for every match, at most `limit` of them; the limit goes into `params`.
pub fn search_sql(where_clause: &str, params: &mut Vec<String>, limit: Option<usize>) -> (r: String)
    requires
        old(params).len() < usize::MAX,
    ensures
        r@ == search_sql_of(
            where_clause@,
            match limit {
                Some(_) => Some((old(params).len() + 1) as nat),
                None => None,
            },
        ),
        match limit {
            Some(l) => views_of(final(params)@) == views_of(old(params)@).push(decimal(l as nat)),
            None => final(params)@ == old(params)@,
        },
{
    let mut s = String::new();
    push_str(&mut s, "SELECT * FROM cards WHERE ");
    push_str(&mut s, where_clause);
    match limit {
        Some(l) => {
            let index = params.len() + 1;
            let ghost before = views_of(params@);
            push_str(&mut s, " ORDER BY name ASC, id ASC LIMIT ");
            push_placeholder(&mut s, index);
            let mut p = String::new();
            push_decimal(&mut p, l);
            assert(p@ =~= decimal(l as nat));
            params.push(p);
            assert(views_of(params@) =~= before.push(decimal(l as nat)));
        },
        None => {
            push_str(&mut s, " ORDER BY name ASC, id ASC");
        },
    }
    assert(s@ =~= search_sql_of(
        where_clause@,
        match limit {
            Some(_) => Some((old(params).len() + 1) as nat),
            None => None,
        },
    ));
    s
}

/// Translating `a and b` yields the parameters of `a` followed by those of `b`; the
/// placeholders of `b` are numbered after the parameters of `a`.
pub proof fn law_and_params(a: Node, b: Node, base: nat)
    ensures
        params_of(Node::And(seq![a, b])) == params_of(a) + params_of(b),
        clause_text(Node::And(seq![a, b]), base) == "("@ + clause_text(a, base) + " AND "@
            + clause_text(b, base + params_of(a).len()) + ")"@,
{
    let s = seq![a, b];
    assert(params_all(s, 2) =~= Seq::<Seq<char>>::empty());
    assert(params_all(s, 1) =~= params_of(b));
    assert(params_all(s, 0) =~= params_of(a) + params_of(b));
    assert(join_text(s, 1, base + params_of(a).len(), " AND "@) == clause_text(b, base + params_of(a).len()));
    assert(join_text(s, 0, base, " AND "@) == clause_text(a, base) + " AND "@ + clause_text(b, base + params_of(a).len()));
    assert(clause_text(Node::And(s), base) =~= "("@ + clause_text(a, base) + " AND "@
        + clause_text(b, base + params_of(a).len()) + ")"@);
}

/// Negation keeps the parameter list and numbering of the negated tree.
pub proof fn law_not_params(a: Node, base: nat)
    ensures
        params_of(Node::Not(Box::new(a))) == params_of(a),
        clause_text(Node::Not(Box::new(a)), base) == "NOT ("@ + clause_text(a, base) + ")"@,
{
}

/// A color filter whose value names no color (an empty value in particular) becomes the
/// parenthesised "no color" predicate and takes no parameter.
pub proof fn law_empty_color(op: Operator, v: Seq<char>, base: nat)
    requires
        first_color(v) is None,
    ensures
        first_color(Seq::<char>::empty()) is None,
        clause_text(Node::Leaf("color"@, op, v), base) == no_color("colors"@),
        params_of(Node::Leaf("color"@, op, v)) == Seq::<Seq<char>>::empty(),
        no_color("colors"@) == "(colors IS NULL OR colors = '{}')"@,
{
    reveal_strlit("color");
    reveal_strlit("name");
    reveal_strlit("oracle");
    reveal_strlit("oracle_text");
    reveal_strlit("type");
    reveal_strlit("type_line");
    reveal_strlit("colors");
    reveal_strlit("(");
    reveal_strlit(" IS NULL OR ");
    reveal_strlit(" = '{}')");
    reveal_strlit("(colors IS NULL OR colors = '{}')");
    assert("color"@.len() == 5);
    assert("name"@.len() == 4 && "oracle"@.len() == 6 && "oracle_text"@.len() == 11);
    assert("type"@.len() == 4 && "type_line"@.len() == 9);
    assert(field_kind("color"@) == FieldKind::Colors("colors"@));
    assert(no_color("colors"@) =~= "(colors IS NULL OR colors = '{}')"@);
}

} // verus!
