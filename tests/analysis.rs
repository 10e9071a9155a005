use sql_static_analyzer::analyzer::{AnalysisError, ParseError, StmtAnalyzer};
use sql_static_analyzer::ast::{
    BinaryOperator, Expr, GroupByExpr, Join, Select, SelectItem, Statement, TableFactor,
    TableWithJoins, join_dotted, column_of_expr,
};
use sql_static_analyzer::report::{
    AnalyzerReport, IncompleteJoinIssue, Issue, IssueType, RedudantDistinctIssue, Severity,
};
use sql_static_analyzer::resolver::{collect_tables, extract_group_by_values, extract_select_value};
use sql_static_analyzer::rules::{RuleError, distinct_tables, incomplete_joins, redudant_distinct};
use sql_static_analyzer::schema::{DatabaseColumn, JoinRules, lookup};

fn s(x: &str) -> String {
    x.to_string()
}

fn strs(xs: &[&str]) -> Vec<String> {
    xs.iter().map(|x| x.to_string()).collect()
}

fn ident(x: &str) -> Expr {
    Expr::Identifier(s(x))
}

fn compound(xs: &[&str]) -> Expr {
    Expr::CompoundIdentifier(strs(xs))
}

fn table(name: &str) -> TableWithJoins {
    TableWithJoins { relation: TableFactor::Table(strs(&[name])), joins: vec![] }
}

fn eq(l: Expr, r: Expr) -> Expr {
    Expr::BinaryOp { left: Box::new(l), op: BinaryOperator::Eq, right: Box::new(r) }
}

fn orders_schema() -> Vec<DatabaseColumn> {
    vec![DatabaseColumn::new(s("orders"), strs(&["id", "customer_id"]))]
}

fn select(
    distinct: bool,
    projection: Vec<SelectItem>,
    from: Vec<TableWithJoins>,
    group_by: Vec<Expr>,
) -> Select {
    Select { distinct, projection, from, selection: None, group_by: GroupByExpr::Expressions(group_by) }
}

fn analyzer_with(
    schema: Vec<DatabaseColumn>,
    rules: Vec<JoinRules>,
    tree: Vec<Statement>,
) -> StmtAnalyzer {
    let mut a = StmtAnalyzer::new(schema, rules, None);
    assert!(a.parse_stmt("SELECT ...", Ok(tree)).is_ok());
    a
}

fn kinds(v: &[AnalyzerReport]) -> Vec<IssueType> {
    v.iter().map(|r| r.issue_type).collect()
}

fn join_rule() -> JoinRules {
    JoinRules::new(s("orders"), strs(&["customer_id"]), s("customers"), strs(&["id"]))
}

fn join_schema() -> Vec<DatabaseColumn> {
    vec![
        DatabaseColumn::new(s("orders"), strs(&["id", "customer_id"])),
        DatabaseColumn::new(s("customers"), strs(&["id", "name"])),
    ]
}

#[test]
fn redundant_distinct_single_grouped_column() {
    let sel = select(
        true,
        vec![SelectItem::UnnamedExpr(ident("customer_id"))],
        vec![table("orders")],
        vec![ident("customer_id")],
    );
    let a = analyzer_with(orders_schema(), vec![], vec![Statement::Select(sel)]);
    let r = a.analyze_ast().unwrap();
    assert_eq!(r.len(), 1);
    assert_eq!(r[0].issue_type, IssueType::REDUDANTDISTINCT);
    assert_eq!(r[0].severity, Severity::WARNING);
    assert_eq!(r[0].message, "DISTINCT has no effect when a correct GROUB BY clause is present");
}

#[test]
fn non_redundant_distinct_extra_column() {
    let sel = select(
        true,
        vec![SelectItem::UnnamedExpr(ident("id")), SelectItem::UnnamedExpr(ident("customer_id"))],
        vec![table("orders")],
        vec![ident("customer_id")],
    );
    let a = analyzer_with(orders_schema(), vec![], vec![Statement::Select(sel)]);
    assert!(a.analyze_ast().unwrap().is_empty());
}

#[test]
fn wildcard_expands_to_all_columns() {
    let sel = select(true, vec![SelectItem::Wildcard], vec![table("orders")], vec![ident("customer_id")]);
    let schema = orders_schema();
    let mut cols = extract_select_value(&schema, &sel);
    cols.sort();
    assert_eq!(cols, strs(&["customer_id", "id"]));
    let a = analyzer_with(schema, vec![], vec![Statement::Select(sel)]);
    assert!(a.analyze_ast().unwrap().is_empty());
}

#[test]
fn wildcard_over_grouped_columns_is_redundant() {
    let sel = select(
        true,
        vec![SelectItem::Wildcard],
        vec![table("orders")],
        vec![ident("id"), ident("customer_id")],
    );
    assert_eq!(redudant_distinct(&orders_schema(), &sel), Ok(true));
}

#[test]
fn incomplete_join_without_predicate() {
    let sel = select(false, vec![SelectItem::Wildcard], vec![table("orders"), table("customers")], vec![]);
    let a = analyzer_with(join_schema(), vec![join_rule()], vec![Statement::Select(sel)]);
    let r = a.analyze_ast().unwrap();
    assert_eq!(r.len(), 1);
    assert_eq!(r[0].issue_type, IssueType::INCOMPLETEJOIN);
    assert_eq!(r[0].severity, Severity::WARNING);
    assert_eq!(r[0].message, "Tables orders and customers are not joined per the FK-PK relationship");
}

#[test]
fn join_on_declared_keys_is_complete() {
    let from = vec![TableWithJoins {
        relation: TableFactor::Table(strs(&["orders"])),
        joins: vec![Join {
            relation: TableFactor::Table(strs(&["customers"])),
            constraint: Some(eq(compound(&["orders", "customer_id"]), compound(&["customers", "id"]))),
        }],
    }];
    let sel = select(false, vec![SelectItem::Wildcard], from, vec![]);
    let a = analyzer_with(join_schema(), vec![join_rule()], vec![Statement::Select(sel)]);
    assert!(a.analyze_ast().unwrap().is_empty());
}

#[test]
fn where_equality_completes_join_either_order() {
    let mut sel = select(false, vec![SelectItem::Wildcard], vec![table("customers"), table("orders")], vec![]);
    sel.selection = Some(Expr::BinaryOp {
        left: Box::new(ident("x")),
        op: BinaryOperator::Other,
        right: Box::new(Expr::Nested(Box::new(eq(compound(&["customers", "id"]), compound(&["orders", "customer_id"]))))),
    });
    assert!(incomplete_joins(&vec![join_rule()], &sel).is_empty());
}

#[test]
fn wrong_keys_leave_join_incomplete() {
    let mut sel = select(false, vec![SelectItem::Wildcard], vec![table("orders"), table("customers")], vec![]);
    sel.selection = Some(eq(compound(&["orders", "id"]), compound(&["customers", "id"])));
    let r = incomplete_joins(&vec![join_rule()], &sel);
    assert_eq!(r.len(), 1);
    assert_eq!(r[0].table1, "orders");
    assert_eq!(r[0].table2, "customers");
}

#[test]
fn tables_without_rule_are_not_flagged() {
    let sel = select(false, vec![SelectItem::Wildcard], vec![table("orders"), table("products")], vec![]);
    assert!(incomplete_joins(&vec![join_rule()], &sel).is_empty());
}

#[test]
fn analyze_before_parse_fails() {
    let a = StmtAnalyzer::new(orders_schema(), vec![], None);
    assert!(matches!(a.analyze(), Err(AnalysisError::NoStatementParsed)));
    assert_eq!(a.analyze_ast().unwrap_err(), "No AST has been parsed yet");
    assert!(a.unchecked().is_empty());
}

#[test]
fn duplicate_registration_last_wins() {
    let schema = vec![
        DatabaseColumn::new(s("orders"), strs(&["a", "b"])),
        DatabaseColumn::new(s("orders"), strs(&["id", "customer_id"])),
    ];
    assert_eq!(lookup(&schema, &s("orders")).unwrap(), &strs(&["id", "customer_id"]));
    assert!(lookup(&schema, &s("missing")).is_none());
    let sel = select(true, vec![SelectItem::Wildcard], vec![table("orders")], vec![ident("a"), ident("b")]);
    let mut cols = extract_select_value(&schema, &sel);
    cols.sort();
    assert_eq!(cols, strs(&["customer_id", "id"]));
    assert_eq!(redudant_distinct(&schema, &sel), Ok(false));
}

#[test]
fn analysis_is_idempotent() {
    let sel1 = select(true, vec![SelectItem::UnnamedExpr(ident("customer_id"))], vec![table("orders")], vec![ident("customer_id")]);
    let sel2 = select(false, vec![SelectItem::Wildcard], vec![table("orders"), table("customers")], vec![]);
    let a = analyzer_with(join_schema(), vec![join_rule()], vec![Statement::Select(sel1), Statement::Select(sel2)]);
    let r1 = a.analyze_ast().unwrap();
    let r2 = a.analyze_ast().unwrap();
    assert_eq!(kinds(&r1), vec![IssueType::REDUDANTDISTINCT, IssueType::INCOMPLETEJOIN]);
    assert_eq!(kinds(&r1), kinds(&r2));
    let m1: Vec<String> = r1.iter().map(|r| r.message.clone()).collect();
    let m2: Vec<String> = r2.iter().map(|r| r.message.clone()).collect();
    assert_eq!(m1, m2);
}

#[test]
fn irrelevant_table_changes_nothing() {
    let sel = || select(true, vec![SelectItem::Wildcard], vec![table("orders")], vec![ident("id"), ident("customer_id")]);
    let a = analyzer_with(orders_schema(), vec![], vec![Statement::Select(sel())]);
    let mut bigger = orders_schema();
    bigger.push(DatabaseColumn::new(s("products"), strs(&["sku"])));
    let b = analyzer_with(bigger, vec![], vec![Statement::Select(sel())]);
    assert_eq!(kinds(&a.analyze_ast().unwrap()), kinds(&b.analyze_ast().unwrap()));
    assert_eq!(a.analyze_ast().unwrap().len(), 1);
}

#[test]
fn group_by_all_is_unsupported_but_others_still_checked() {
    let mut bad = select(true, vec![SelectItem::Wildcard], vec![table("orders")], vec![]);
    bad.group_by = GroupByExpr::All;
    let good = select(true, vec![SelectItem::UnnamedExpr(ident("customer_id"))], vec![table("orders")], vec![ident("customer_id")]);
    let a = analyzer_with(orders_schema(), vec![], vec![Statement::Select(bad), Statement::Select(good)]);
    let r = a.analyze().unwrap();
    assert_eq!(r.findings.len(), 1);
    assert_eq!(r.unchecked.len(), 1);
    assert_eq!(r.unchecked[0].statement, 0);
    assert_eq!(r.unchecked[0].error, RuleError::UnsupportedSyntax);
    let reports = a.analyze_ast().unwrap();
    assert_eq!(kinds(&reports), vec![IssueType::REDUDANTDISTINCT]);
    let unchecked = a.unchecked();
    assert_eq!(unchecked.len(), 1);
    assert_eq!(unchecked[0].statement, 0);
    assert_eq!(unchecked[0].error, RuleError::UnsupportedSyntax);
}

#[test]
fn no_distinct_or_empty_group_by_is_not_flagged() {
    let no_distinct = select(false, vec![SelectItem::UnnamedExpr(ident("id"))], vec![table("orders")], vec![ident("id")]);
    assert_eq!(redudant_distinct(&orders_schema(), &no_distinct), Ok(false));
    let no_group = select(true, vec![SelectItem::UnnamedExpr(ident("id"))], vec![table("orders")], vec![]);
    assert_eq!(redudant_distinct(&orders_schema(), &no_group), Ok(false));
}

#[test]
fn projection_resolution_forms() {
    let sel = select(
        true,
        vec![
            SelectItem::UnnamedExpr(compound(&["orders", "id"])),
            SelectItem::UnnamedExpr(compound(&[""])),
            SelectItem::UnnamedExpr(Expr::Other),
            SelectItem::ExprWithAlias { alias: s("total") },
            SelectItem::QualifiedWildcard(strs(&["orders"])),
            SelectItem::QualifiedWildcard(strs(&["unknown"])),
        ],
        vec![table("orders")],
        vec![],
    );
    let mut cols = extract_select_value(&orders_schema(), &sel);
    cols.sort();
    assert_eq!(cols, strs(&["customer_id", "id", "orders.id", "total"]));
}

#[test]
fn group_by_resolution_ignores_wildcards_and_expressions() {
    let exprs = vec![ident("a"), compound(&["t", "b"]), Expr::Wildcard, Expr::QualifiedWildcard(strs(&["t"])), Expr::Other, ident("a")];
    let mut cols = extract_group_by_values(&exprs);
    cols.sort();
    assert_eq!(cols, strs(&["a", "t.b"]));
}

#[test]
fn dotted_names_join_parts() {
    assert_eq!(join_dotted(&strs(&["a", "b", "c"])), "a.b.c");
    assert_eq!(join_dotted(&strs(&[])), "");
    assert_eq!(column_of_expr(&compound(&["", ""])), Some(s(".")));
    assert_eq!(column_of_expr(&Expr::Wildcard), None);
}

#[test]
fn tables_collected_in_order_and_deduplicated() {
    let from = vec![
        TableWithJoins {
            relation: TableFactor::Table(strs(&["a", "x"])),
            joins: vec![
                Join { relation: TableFactor::Table(strs(&["b"])), constraint: None },
                Join { relation: TableFactor::Other, constraint: None },
            ],
        },
        table("a"),
    ];
    assert_eq!(collect_tables(&from), strs(&["a", "b", "a"]));
    let sel = select(false, vec![], from, vec![]);
    assert_eq!(distinct_tables(&sel), strs(&["a", "b"]));
}

#[test]
fn parse_results_are_recorded_or_reported() {
    let mut a = StmtAnalyzer::new(vec![], vec![], Some(s("postgres")));
    assert_eq!(a.dialect(), "postgres");
    assert_eq!(StmtAnalyzer::new(vec![], vec![], None).dialect(), "sqlite");
    assert_eq!(a.parse_stmt("x", Err(ParseError::RecursionLimitExceeded)), Err(s("Parser hit recursion limit")));
    assert_eq!(a.parse_stmt("x", Err(ParseError::ParserError(s("bad token")))), Err(s("bad token")));
    assert_eq!(a.parse_stmt("x", Err(ParseError::TokenizerError(s("eof")))), Err(s("eof")));
    assert_eq!(a.stmt(), None);
    assert_eq!(a.parse_stmt("SELECT 1", Ok(vec![Statement::Other])), Ok(()));
    assert_eq!(a.stmt(), Some(s("SELECT 1")));
    assert!(a.analyze_ast().unwrap().is_empty());
}

#[test]
fn reports_from_issues() {
    let j = Issue::IncompleteJoin(IncompleteJoinIssue { table1: s("a"), table2: s("b") });
    let r = AnalyzerReport::create_report(&j);
    assert_eq!(r.issue_type, IssueType::INCOMPLETEJOIN);
    assert_eq!(r.message, "Tables a and b are not joined per the FK-PK relationship");
    let d = Issue::RedundantDistinct(RedudantDistinctIssue {});
    assert_eq!(d.get_report().issue_type, IssueType::REDUDANTDISTINCT);
    assert_eq!(d.get_severity(), Severity::WARNING);
    let jr = join_rule();
    assert_eq!(jr.column1, "orders");
    assert_eq!(jr.key2, strs(&["id"]));
}
