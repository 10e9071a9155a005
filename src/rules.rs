//! The checks run over each SELECT node.
use vstd::prelude::*;
use crate::ast::{BinaryOperator, Expr, GroupByExpr, Select, expr_column, column_of_expr};
use crate::report::IncompleteJoinIssue;
use crate::resolver::{extract_group_by_values, extract_select_value, collect_tables, group_by_columns, projection_columns, table_refs, views};
use crate::schema::{DatabaseColumn, JoinRules, schema_of, str_set};

verus! {

/// Why a check could not examine a statement.
#[derive(Clone, Copy, Debug, PartialEq, Eq, Structural)]
pub enum RuleError {
    /// `GROUP BY ALL`, which the grouping resolution does not model.
    UnsupportedSyntax,
}

/// Whether a SELECT's `DISTINCT` is redundant: it has `DISTINCT`, a non-empty
/// grouping list, and every column it selects is a grouping key.
pub open spec fn redundant_distinct_spec(
    sel: Select,
    schema: Map<Seq<char>, Seq<String>>,
) -> Result<bool, RuleError> {
    if !sel.distinct {
        Ok(false)
    } else {
        match sel.group_by {
            GroupByExpr::All => Err(RuleError::UnsupportedSyntax),
            GroupByExpr::Expressions(es) => if es@.len() == 0 {
                Ok(false)
            } else {
                Ok(projection_columns(sel, schema).subset_of(group_by_columns(es@)))
            },
        }
    }
}

/// Whether every string of `a` occurs in `b`.
fn all_contained(a: &Vec<String>, b: &Vec<String>) -> (r: bool)
    ensures
        r == str_set(a@).subset_of(str_set(b@)),
{
    let mut i: usize = 0;
    while i < a.len()
        invariant
            i <= a.len(),
            forall|k: int| 0 <= k < i ==> str_set(b@).contains(#[trigger] a@[k]@),
        decreases a.len() - i,
    {
        let mut found = false;
        let mut j: usize = 0;
        while j < b.len()
            invariant
                j <= b.len(),
                i < a.len(),
                found ==> str_set(b@).contains(a@[i as int]@),
                !found ==> forall|k: int| 0 <= k < j ==> b@[k]@ != a@[i as int]@,
                forall|k: int| 0 <= k < i ==> str_set(b@).contains(#[trigger] a@[k]@),
            decreases b.len() - j,
        {
            if b[j] == a[i] {
                found = true;
                assert(str_set(b@).contains(b@[j as int]@));
            }
            j = j + 1;
        }
        if !found {
            assert(str_set(a@).contains(a@[i as int]@));
            assert(!str_set(b@).contains(a@[i as int]@)) by {
                if str_set(b@).contains(a@[i as int]@) {
                    let k = choose|k: int| 0 <= k < b@.len() && #[trigger] b@[k]@ == a@[i as int]@;
                }
            }
            return false;
        }
        i = i + 1;
    }
    assert forall|x: Seq<char>| str_set(a@).contains(x) implies str_set(b@).contains(x) by {
        let k = choose|k: int| 0 <= k < a@.len() && #[trigger] a@[k]@ == x;
    }
    true
}

/// Decides whether a SELECT's `DISTINCT` is redundant given its `GROUP BY`.
pub fn redudant_distinct(entries: &Vec<DatabaseColumn>, select: &Select) -> (r: Result<bool, RuleError>)
    ensures
        r == redundant_distinct_spec(*select, schema_of(entries@)),
{
    if !select.distinct {
        return Ok(false);
    }
    match &select.group_by {
        GroupByExpr::All => Err(RuleError::UnsupportedSyntax),
        GroupByExpr::Expressions(expressions) => {
            if expressions.len() == 0 {
                return Ok(false);
            }
            let select_values = extract_select_value(entries, select);
            let group_by_values = extract_group_by_values(expressions);
            Ok(all_contained(&select_values, &group_by_values))
        },
    }
}

/// `table.key`, the dotted name of a key column.
pub open spec fn qualified(table: Seq<char>, key: Seq<char>) -> Seq<char> {
    table + seq!['.'] + key
}

/// Whether an expression holds, anywhere in it, an equality between the
/// columns `x` and `y`, in either order.
pub open spec fn expr_has_eq(e: Expr, x: Seq<char>, y: Seq<char>) -> bool
    decreases e,
{
    match e {
        Expr::BinaryOp { left, op, right } => {
            ||| (op is Eq && ((expr_column(*left) == Some(x) && expr_column(*right) == Some(y)) || (
                expr_column(*left) == Some(y) && expr_column(*right) == Some(x))))
            ||| expr_has_eq(*left, x, y)
            ||| expr_has_eq(*right, x, y)
        },
        Expr::Nested(inner) => expr_has_eq(*inner, x, y),
        _ => false,
    }
}

/// Whether an optional predicate is present and equates `x` and `y`.
pub open spec fn pred_has_eq(p: Option<Expr>, x: Seq<char>, y: Seq<char>) -> bool {
    match p {
        Some(e) => expr_has_eq(e, x, y),
        None => false,
    }
}

/// Whether the WHERE predicate or an ON predicate of a SELECT equates `x` and `y`.
pub open spec fn select_has_eq(sel: Select, x: Seq<char>, y: Seq<char>) -> bool {
    ||| pred_has_eq(sel.selection, x, y)
    ||| exists|i: int, j: int|
        0 <= i < sel.from@.len() && 0 <= j < sel.from@[i].joins@.len() && pred_has_eq(
            (#[trigger] sel.from@[i].joins@[j]).constraint,
            x,
            y,
        )
}

/// Whether a rule declares a relationship between tables `a` and `b`.
pub open spec fn rule_names_pair(rule: JoinRules, a: Seq<char>, b: Seq<char>) -> bool {
    (rule.column1@ == a && rule.column2@ == b) || (rule.column1@ == b && rule.column2@ == a)
}

/// Whether a SELECT equates every pair of key columns that the rule declares.
pub open spec fn rule_satisfied(rule: JoinRules, sel: Select) -> bool {
    forall|i: int|
        0 <= i < rule.key1@.len() && i < rule.key2@.len() ==> select_has_eq(
            sel,
            qualified(rule.column1@, #[trigger] rule.key1@[i]@),
            qualified(rule.column2@, rule.key2@[i]@),
        )
}

/// Whether a pair of tables has a declared rule and the SELECT joins them by
/// none of the rules declared for them.
pub open spec fn pair_flagged(rules: Seq<JoinRules>, sel: Select, a: Seq<char>, b: Seq<char>) -> bool {
    &&& exists|k: int| 0 <= k < rules.len() && rule_names_pair(#[trigger] rules[k], a, b)
    &&& !exists|k: int| 0 <= k < rules.len() && rule_names_pair(#[trigger] rules[k], a, b) && rule_satisfied(rules[k], sel)
}

fn expr_has_equality(e: &Expr, x: &String, y: &String) -> (r: bool)
    ensures
        r == expr_has_eq(*e, x@, y@),
    decreases e,
{
    match e {
        Expr::BinaryOp { left, op, right } => {
            let direct = match op {
                BinaryOperator::Eq => {
                    match (column_of_expr(left), column_of_expr(right)) {
                        (Some(l), Some(r)) => (l == *x && r == *y) || (l == *y && r == *x),
                        _ => false,
                    }
                },
                BinaryOperator::Other => false,
            };
            direct || expr_has_equality(left, x, y) || expr_has_equality(right, x, y)
        },
        Expr::Nested(inner) => expr_has_equality(inner, x, y),
        _ => false,
    }
}

fn select_has_equality(sel: &Select, x: &String, y: &String) -> (r: bool)
    ensures
        r == select_has_eq(*sel, x@, y@),
{
    match &sel.selection {
        Some(e) => {
            if expr_has_equality(e, x, y) {
                return true;
            }
        },
        None => {},
    }
    let mut i: usize = 0;
    while i < sel.from.len()
        invariant
            i <= sel.from.len(),
            !pred_has_eq(sel.selection, x@, y@),
            forall|a: int, b: int|
                0 <= a < i && 0 <= b < sel.from@[a].joins@.len() ==> !pred_has_eq(
                    (#[trigger] sel.from@[a].joins@[b]).constraint,
                    x@,
                    y@,
                ),
        decreases sel.from.len() - i,
    {
        let joins = &sel.from[i].joins;
        let mut j: usize = 0;
        while j < joins.len()
            invariant
                i < sel.from.len(),
                joins == sel.from@[i as int].joins,
                j <= joins.len(),
                !pred_has_eq(sel.selection, x@, y@),
                forall|a: int, b: int|
                    0 <= a < i && 0 <= b < sel.from@[a].joins@.len() ==> !pred_has_eq(
                        (#[trigger] sel.from@[a].joins@[b]).constraint,
                        x@,
                        y@,
                    ),
                forall|b: int| 0 <= b < j ==> !pred_has_eq((#[trigger] joins@[b]).constraint, x@, y@),
            decreases joins.len() - j,
        {
            match &joins[j].constraint {
                Some(e) => {
                    if expr_has_equality(e, x, y) {
                        assert(sel.from@[i as int].joins@[j as int].constraint == Some(*e));
                        return true;
                    }
                },
                None => {},
            }
            j = j + 1;
        }
        i = i + 1;
    }
    false
}

fn qualify(table: &String, key: &String) -> (r: String)
    ensures
        r@ == qualified(table@, key@),
{
    let mut r = table.clone();
    r.append(".");
    r.append(key.as_str());
    proof {
        reveal_strlit(".");
    }
    r
}

fn rule_holds(rule: &JoinRules, sel: &Select) -> (r: bool)
    ensures
        r == rule_satisfied(*rule, *sel),
{
    let mut i: usize = 0;
    while i < rule.key1.len() && i < rule.key2.len()
        invariant
            forall|k: int|
                0 <= k < i ==> select_has_eq(
                    *sel,
                    qualified(rule.column1@, #[trigger] rule.key1@[k]@),
                    qualified(rule.column2@, rule.key2@[k]@),
                ),
            i <= rule.key1.len(),
            i <= rule.key2.len(),
        decreases rule.key1.len() - i,
    {
        let x = qualify(&rule.column1, &rule.key1[i]);
        let y = qualify(&rule.column2, &rule.key2[i]);
        if !select_has_equality(sel, &x, &y) {
            return false;
        }
        i = i + 1;
    }
    true
}

fn pair_is_flagged(rules: &Vec<JoinRules>, sel: &Select, a: &String, b: &String) -> (r: bool)
    ensures
        r == pair_flagged(rules@, *sel, a@, b@),
{
    let mut declared = false;
    let mut i: usize = 0;
    while i < rules.len()
        invariant
            i <= rules.len(),
            declared == exists|k: int| 0 <= k < i && rule_names_pair(#[trigger] rules@[k], a@, b@),
            !exists|k: int| 0 <= k < i && rule_names_pair(#[trigger] rules@[k], a@, b@) && rule_satisfied(rules@[k], *sel),
        decreases rules.len() - i,
    {
        let rule = &rules[i];
        let names = (rule.column1 == *a && rule.column2 == *b) || (rule.column1 == *b
            && rule.column2 == *a);
        if names {
            declared = true;
            if rule_holds(rule, sel) {
                return false;
            }
        }
        i = i + 1;
    }
    declared
}

/// The sequence without its repeats, first occurrences kept in order.
pub open spec fn dedup(s: Seq<Seq<char>>) -> Seq<Seq<char>>
    decreases s.len(),
{
    if s.len() == 0 {
        Seq::empty()
    } else if dedup(s.drop_last()).contains(s.last()) {
        dedup(s.drop_last())
    } else {
        dedup(s.drop_last()).push(s.last())
    }
}

/// The distinct tables that a SELECT names directly, in order of first
/// appearance.
pub fn distinct_tables(sel: &Select) -> (r: Vec<String>)
    ensures
        views(r@) == dedup(table_refs(sel.from@)),
{
    let tables = collect_tables(&sel.from);
    let ghost refs = views(tables@);
    let mut r: Vec<String> = Vec::new();
    let mut i: usize = 0;
    assert(views(r@) =~= dedup(refs.subrange(0, 0)));
    while i < tables.len()
        invariant
            i <= tables.len(),
            refs == views(tables@),
            views(r@) == dedup(refs.subrange(0, i as int)),
        decreases tables.len() - i,
    {
        let mut present = false;
        let mut j: usize = 0;
        while j < r.len()
            invariant
                j <= r.len(),
                i < tables.len(),
                present == exists|k: int| 0 <= k < j && r@[k]@ == tables@[i as int]@,
            decreases r.len() - j,
        {
            if r[j] == tables[i] {
                present = true;
            }
            j = j + 1;
        }
        let ghost before = r@;
        assert(refs.subrange(0, i + 1).drop_last() =~= refs.subrange(0, i as int));
        assert(refs[i as int] == tables@[i as int]@);
        if present {
            proof {
                let k = choose|k: int| 0 <= k < j && r@[k]@ == tables@[i as int]@;
                assert(views(r@)[k] == tables@[i as int]@);
            }
        } else {
            assert(!views(r@).contains(tables@[i as int]@)) by {
                if views(r@).contains(tables@[i as int]@) {
                    let k = choose|k: int| 0 <= k < views(r@).len() && views(r@)[k] == tables@[i as int]@;
                    assert(r@[k]@ == tables@[i as int]@);
                }
            }
            r.push(tables[i].clone());
            assert(views(r@) =~= views(before).push(tables@[i as int]@));
        }
        i = i + 1;
    }
    assert(refs.subrange(0, i as int) =~= refs);
    r
}

/// The flagged pairs `(ts[i], ts[k])` for `i < k < j`, in order of `k`.
pub open spec fn pair_row(rules: Seq<JoinRules>, sel: Select, ts: Seq<Seq<char>>, i: int, j: int) -> Seq<(Seq<char>, Seq<char>)>
    decreases j - i,
{
    if j <= i + 1 {
        Seq::empty()
    } else if pair_flagged(rules, sel, ts[i], ts[j - 1]) {
        pair_row(rules, sel, ts, i, j - 1).push((ts[i], ts[j - 1]))
    } else {
        pair_row(rules, sel, ts, i, j - 1)
    }
}

/// The flagged pairs whose first table stands before position `i`.
pub open spec fn pair_rows(rules: Seq<JoinRules>, sel: Select, ts: Seq<Seq<char>>, i: int) -> Seq<(Seq<char>, Seq<char>)>
    decreases i,
{
    if i <= 0 {
        Seq::empty()
    } else {
        pair_rows(rules, sel, ts, i - 1) + pair_row(rules, sel, ts, i - 1, ts.len() as int)
    }
}

/// The pairs of distinct tables of a SELECT that are flagged as incompletely
/// joined, each pair once, in order of the tables' first appearance.
pub open spec fn incomplete_join_pairs(rules: Seq<JoinRules>, sel: Select) -> Seq<(Seq<char>, Seq<char>)> {
    let ts = dedup(table_refs(sel.from@));
    pair_rows(rules, sel, ts, ts.len() as int)
}

/// The table pairs that a sequence of incomplete-join findings names.
pub open spec fn issue_pairs(v: Seq<IncompleteJoinIssue>) -> Seq<(Seq<char>, Seq<char>)> {
    v.map_values(|x: IncompleteJoinIssue| (x.table1@, x.table2@))
}

/// The incomplete-join findings of a SELECT: one for each pair of distinct
/// tables it names that has a declared rule and is joined by none of them.
pub fn incomplete_joins(rules: &Vec<JoinRules>, sel: &Select) -> (r: Vec<IncompleteJoinIssue>)
    ensures
        issue_pairs(r@) == incomplete_join_pairs(rules@, *sel),
{
    let tables = distinct_tables(sel);
    let ghost ts = views(tables@);
    let n = tables.len();
    let mut r: Vec<IncompleteJoinIssue> = Vec::new();
    let mut i: usize = 0;
    assert(issue_pairs(r@) =~= pair_rows(rules@, *sel, ts, 0));
    while i < n
        invariant
            n == tables.len(),
            ts == views(tables@),
            i <= n,
            issue_pairs(r@) == pair_rows(rules@, *sel, ts, i as int),
        decreases n - i,
    {
        let mut j: usize = i + 1;
        assert(pair_rows(rules@, *sel, ts, i as int) + pair_row(rules@, *sel, ts, i as int, j as int) =~= pair_rows(rules@, *sel, ts, i as int));
        while j < n
            invariant
                n == tables.len(),
                ts == views(tables@),
                i < n,
                i + 1 <= j <= n,
                issue_pairs(r@) == pair_rows(rules@, *sel, ts, i as int) + pair_row(rules@, *sel, ts, i as int, j as int),
            decreases n - j,
        {
            assert(ts[i as int] == tables@[i as int]@ && ts[j as int] == tables@[j as int]@);
            if pair_is_flagged(rules, sel, &tables[i], &tables[j]) {
                let ghost before = r@;
                r.push(IncompleteJoinIssue { table1: tables[i].clone(), table2: tables[j].clone() });
                assert(issue_pairs(r@) =~= issue_pairs(before).push((ts[i as int], ts[j as int])));
                assert(issue_pairs(r@) =~= pair_rows(rules@, *sel, ts, i as int) + pair_row(rules@, *sel, ts, i as int, j + 1));
            }
            j = j + 1;
        }
        i = i + 1;
    }
    r
}

} // verus!
