//! The analyzer: a schema, its join rules, and the last parsed statement tree,
//! with the engine that runs every check over every statement.
use vstd::prelude::*;
use crate::ast::{SelectItem, Select, Statement};
use crate::resolver::{item_columns, projection_columns, table_columns, table_refs, wildcard_columns};
use crate::report::{AnalyzerReport, RedudantDistinctIssue, incomplete_join_report, redundant_distinct_report};
use crate::rules::{RuleError, incomplete_join_pairs, incomplete_joins, issue_pairs, redudant_distinct, redundant_distinct_spec};
use crate::schema::{DatabaseColumn, JoinRules, schema_of};

verus! {

/// How the parser failed on a statement.
#[derive(Debug)]
pub enum ParseError {
    TokenizerError(String),
    ParserError(String),
    RecursionLimitExceeded,
}

/// Why an analysis could not run.
#[derive(Clone, Copy, Debug, PartialEq, Eq, Structural)]
pub enum AnalysisError {
    /// No statement has been parsed yet.
    NoStatementParsed,
}

/// A statement that a check could not examine, by its position in the tree.
#[derive(Debug)]
pub struct UncheckedStatement {
    pub statement: usize,
    pub error: RuleError,
}

/// The result of an analysis: the findings, and the statements that could not
/// be fully checked.
#[derive(Debug)]
pub struct Analysis {
    pub findings: Vec<AnalyzerReport>,
    pub unchecked: Vec<UncheckedStatement>,
}

/// The analyzer's state: the dialect it parses in, the schema and join rules
/// it checks against, and the last statement parsed.
#[derive(Debug)]
pub struct StmtAnalyzer {
    /// The name of the SQL dialect that statements are parsed in.
    pub dialect_str: String,
    /// The text of the last statement parsed.
    pub stmt: Option<String>,
    /// The statement nodes of the last parse, in the order of a full walk of
    /// its tree.
    pub tree: Vec<Statement>,
    /// The table registrations, in order; a later one of a name replaces the
    /// earlier ones (see `schema_of`).
    pub database_columns: Vec<DatabaseColumn>,
    pub join_rules: Vec<JoinRules>,
}

/// The redundant-`DISTINCT` verdict on one statement.
pub open spec fn statement_redundant(s: Statement, schema: Map<Seq<char>, Seq<String>>) -> Result<bool, RuleError> {
    match s {
        Statement::Select(sel) => redundant_distinct_spec(sel, schema),
        Statement::Other => Ok(false),
    }
}

/// The redundant-`DISTINCT` reports over a sequence of statements, in order.
pub open spec fn redundant_reports(stmts: Seq<Statement>, schema: Map<Seq<char>, Seq<String>>) -> Seq<(crate::report::IssueType, crate::report::Severity, Seq<char>)>
    decreases stmts.len(),
{
    if stmts.len() == 0 {
        Seq::empty()
    } else if statement_redundant(stmts.last(), schema) == Ok::<bool, RuleError>(true) {
        redundant_reports(stmts.drop_last(), schema).push(redundant_distinct_report())
    } else {
        redundant_reports(stmts.drop_last(), schema)
    }
}

/// The positions of the statements that the redundant-`DISTINCT` check could
/// not examine, with the reason.
pub open spec fn unchecked_statements(stmts: Seq<Statement>, schema: Map<Seq<char>, Seq<String>>) -> Seq<(int, RuleError)>
    decreases stmts.len(),
{
    if stmts.len() == 0 {
        Seq::empty()
    } else {
        match statement_redundant(stmts.last(), schema) {
            Err(e) => unchecked_statements(stmts.drop_last(), schema).push((stmts.len() - 1, e)),
            Ok(_) => unchecked_statements(stmts.drop_last(), schema),
        }
    }
}

/// The incomplete-join reports for a list of table pairs.
pub open spec fn pair_reports(pairs: Seq<(Seq<char>, Seq<char>)>) -> Seq<(crate::report::IssueType, crate::report::Severity, Seq<char>)> {
    pairs.map_values(|p: (Seq<char>, Seq<char>)| incomplete_join_report(p.0, p.1))
}

/// The incomplete-join reports of one statement.
pub open spec fn statement_join_reports(s: Statement, rules: Seq<JoinRules>) -> Seq<(crate::report::IssueType, crate::report::Severity, Seq<char>)> {
    match s {
        Statement::Select(sel) => pair_reports(incomplete_join_pairs(rules, sel)),
        Statement::Other => Seq::empty(),
    }
}

/// The incomplete-join reports over a sequence of statements, in order.
pub open spec fn join_reports(stmts: Seq<Statement>, rules: Seq<JoinRules>) -> Seq<(crate::report::IssueType, crate::report::Severity, Seq<char>)>
    decreases stmts.len(),
{
    if stmts.len() == 0 {
        Seq::empty()
    } else {
        join_reports(stmts.drop_last(), rules) + statement_join_reports(stmts.last(), rules)
    }
}

/// Every report of an analysis: those of the redundant-`DISTINCT` check over
/// all statements, then those of the incomplete-join check.
pub open spec fn analysis_reports(stmts: Seq<Statement>, entries: Seq<DatabaseColumn>, rules: Seq<JoinRules>) -> Seq<(crate::report::IssueType, crate::report::Severity, Seq<char>)> {
    redundant_reports(stmts, schema_of(entries)) + join_reports(stmts, rules)
}

/// The views of a sequence of reports.
pub open spec fn report_views(v: Seq<AnalyzerReport>) -> Seq<(crate::report::IssueType, crate::report::Severity, Seq<char>)> {
    v.map_values(|r: AnalyzerReport| r@)
}

/// The positions and reasons of a sequence of unchecked statements.
pub open spec fn unchecked_views(v: Seq<UncheckedStatement>) -> Seq<(int, RuleError)> {
    v.map_values(|u: UncheckedStatement| (u.statement as int, u.error))
}

pub open spec fn parse_error_message(e: ParseError) -> Seq<char> {
    match e {
        ParseError::TokenizerError(m) => m@,
        ParseError::ParserError(m) => m@,
        ParseError::RecursionLimitExceeded => "Parser hit recursion limit"@,
    }
}

pub open spec fn default_dialect() -> Seq<char> {
    "sqlite"@
}

impl StmtAnalyzer {
    /// An analyzer for a schema and its join rules, parsing in the named
    /// dialect, or in SQLite's when none is named.
    pub fn new(database_columns: Vec<DatabaseColumn>, join_rules: Vec<JoinRules>, dialect: Option<String>) -> (r: StmtAnalyzer)
        ensures
            r.database_columns@ == database_columns@,
            r.join_rules@ == join_rules@,
            r.dialect_str@ == match dialect {
                Some(d) => d@,
                None => default_dialect(),
            },
            r.stmt.is_none(),
            r.tree@.len() == 0,
    {
        let dialect_str = match dialect {
            Some(d) => d,
            None => String::from_str("sqlite"),
        };
        StmtAnalyzer { dialect_str, stmt: None, tree: Vec::new(), database_columns, join_rules }
    }

    pub fn dialect(&self) -> (r: String)
        ensures
            r@ == self.dialect_str@,
    {
        self.dialect_str.clone()
    }

    pub fn stmt(&self) -> (r: Option<String>)
        ensures
            r.is_some() == self.stmt.is_some(),
            r.is_some() ==> r.unwrap()@ == self.stmt.unwrap()@,
    {
        match &self.stmt {
            Some(s) => Some(s.clone()),
            None => None,
        }
    }

    /// Takes the parser's verdict on `stmt`: on success the statement tree and
    /// text replace the held ones; on failure nothing changes and the error's
    /// message is returned.
    pub fn parse_stmt(&mut self, stmt: &str, parsed: Result<Vec<Statement>, ParseError>) -> (r: Result<(), String>)
        ensures
            match parsed {
                Ok(tree) => {
                    &&& r is Ok
                    &&& final(self).tree@ == tree@
                    &&& final(self).stmt matches Some(s) && s@ == stmt@
                    &&& final(self).dialect_str == old(self).dialect_str
                    &&& final(self).database_columns@ == old(self).database_columns@
                    &&& final(self).join_rules@ == old(self).join_rules@
                },
                Err(e) => {
                    &&& r matches Err(m) && m@ == parse_error_message(e)
                    &&& *final(self) == *old(self)
                },
            },
    {
        match parsed {
            Ok(ast) => {
                self.tree = ast;
                self.stmt = Some(String::from_str(stmt));
                Ok(())
            },
            Err(ParseError::TokenizerError(m)) => Err(m),
            Err(ParseError::ParserError(m)) => Err(m),
            Err(ParseError::RecursionLimitExceeded) => Err(String::from_str("Parser hit recursion limit")),
        }
    }

    /// Runs every check over every statement of the held tree.
    pub fn analyze(&self) -> (r: Result<Analysis, AnalysisError>)
        ensures
            self.tree@.len() == 0 ==> r == Err::<Analysis, AnalysisError>(AnalysisError::NoStatementParsed),
            self.tree@.len() > 0 ==> (r matches Ok(a) && report_views(a.findings@) == analysis_reports(self.tree@, self.database_columns@, self.join_rules@)
                && unchecked_views(a.unchecked@) == unchecked_statements(self.tree@, schema_of(self.database_columns@))),
    {
        if self.tree.len() == 0 {
            return Err(AnalysisError::NoStatementParsed);
        }
        let ghost schema = schema_of(self.database_columns@);
        let ghost stmts = self.tree@;
        let mut findings: Vec<AnalyzerReport> = Vec::new();
        let mut unchecked: Vec<UncheckedStatement> = Vec::new();
        let mut i: usize = 0;
        assert(report_views(findings@) =~= redundant_reports(stmts.subrange(0, 0), schema));
        assert(unchecked_views(unchecked@) =~= unchecked_statements(stmts.subrange(0, 0), schema));
        while i < self.tree.len()
            invariant
                i <= self.tree.len(),
                stmts == self.tree@,
                schema == schema_of(self.database_columns@),
                report_views(findings@) == redundant_reports(stmts.subrange(0, i as int), schema),
                unchecked_views(unchecked@) == unchecked_statements(stmts.subrange(0, i as int), schema),
            decreases self.tree.len() - i,
        {
            let ghost before = findings@;
            let ghost ubefore = unchecked@;
            assert(stmts.subrange(0, i + 1).drop_last() =~= stmts.subrange(0, i as int));
            assert(stmts.subrange(0, i + 1).last() == stmts[i as int]);
            match &self.tree[i] {
                Statement::Select(sel) => {
                    match redudant_distinct(&self.database_columns, sel) {
                        Ok(true) => {
                            let issue = RedudantDistinctIssue {};
                            findings.push(issue.get_report());
                            assert(report_views(findings@) =~= report_views(before).push(redundant_distinct_report()));
                        },
                        Ok(false) => {},
                        Err(e) => {
                            unchecked.push(UncheckedStatement { statement: i, error: e });
                            assert(unchecked_views(unchecked@) =~= unchecked_views(ubefore).push((i as int, e)));
                        },
                    }
                },
                Statement::Other => {},
            }
            i = i + 1;
        }
        assert(stmts.subrange(0, i as int) =~= stmts);
        let ghost rd = findings@;
        let mut k: usize = 0;
        assert(report_views(findings@) =~= report_views(rd) + join_reports(stmts.subrange(0, 0), self.join_rules@));
        while k < self.tree.len()
            invariant
                k <= self.tree.len(),
                stmts == self.tree@,
                report_views(findings@) == report_views(rd) + join_reports(stmts.subrange(0, k as int), self.join_rules@),
            decreases self.tree.len() - k,
        {
            assert(stmts.subrange(0, k + 1).drop_last() =~= stmts.subrange(0, k as int));
            assert(stmts.subrange(0, k + 1).last() == stmts[k as int]);
            match &self.tree[k] {
                Statement::Select(sel) => {
                    let issues = incomplete_joins(&self.join_rules, sel);
                    let ghost start = findings@;
                    let mut m: usize = 0;
                    assert(report_views(findings@) =~= report_views(start) + pair_reports(issue_pairs(issues@.subrange(0, 0))));
                    while m < issues.len()
                        invariant
                            m <= issues.len(),
                            report_views(findings@) == report_views(start) + pair_reports(issue_pairs(issues@.subrange(0, m as int))),
                        decreases issues.len() - m,
                    {
                        let ghost prev = findings@;
                        findings.push(issues[m].get_report());
                        assert(issue_pairs(issues@.subrange(0, m + 1)) =~= issue_pairs(issues@.subrange(0, m as int)).push((issues@[m as int].table1@, issues@[m as int].table2@)));
                        assert(report_views(findings@) =~= report_views(prev).push(incomplete_join_report(issues@[m as int].table1@, issues@[m as int].table2@)));
                        assert(report_views(findings@) =~= report_views(start) + pair_reports(issue_pairs(issues@.subrange(0, m + 1))));
                        m = m + 1;
                    }
                    assert(issues@.subrange(0, m as int) =~= issues@);
                    assert(report_views(findings@) =~= report_views(rd) + join_reports(stmts.subrange(0, k + 1), self.join_rules@));
                },
                Statement::Other => {
                    assert(report_views(findings@) =~= report_views(rd) + join_reports(stmts.subrange(0, k + 1), self.join_rules@));
                },
            }
            k = k + 1;
        }
        assert(stmts.subrange(0, k as int) =~= stmts);
        Ok(Analysis { findings, unchecked })
    }

    /// Runs every check over the held tree and hands back the reports; fails
    /// only when nothing has been parsed. A statement that a check could not
    /// examine adds no report and takes none away from the other statements;
    /// `unchecked` lists such statements.
    pub fn analyze_ast(&self) -> (r: Result<Vec<AnalyzerReport>, String>)
        ensures
            self.tree@.len() == 0 ==> (r matches Err(m) && m@ == no_statement_message()),
            self.tree@.len() > 0 ==> (r matches Ok(v) && report_views(v@) == analysis_reports(
                self.tree@,
                self.database_columns@,
                self.join_rules@,
            )),
    {
        match self.analyze() {
            Err(AnalysisError::NoStatementParsed) => Err(String::from_str("No AST has been parsed yet")),
            Ok(a) => Ok(a.findings),
        }
    }

    /// The statements of the held tree that a check could not examine, by
    /// position and reason; none when nothing has been parsed.
    pub fn unchecked(&self) -> (r: Vec<UncheckedStatement>)
        ensures
            unchecked_views(r@) == unchecked_statements(self.tree@, schema_of(self.database_columns@)),
    {
        match self.analyze() {
            Err(AnalysisError::NoStatementParsed) => {
                let r: Vec<UncheckedStatement> = Vec::new();
                assert(unchecked_views(r@) =~= unchecked_statements(self.tree@, schema_of(self.database_columns@)));
                r
            },
            Ok(a) => a.unchecked,
        }
    }
}

pub open spec fn no_statement_message() -> Seq<char> {
    "No AST has been parsed yet"@
}

/// The analysis depends on nothing but the held statements, schema and join
/// rules: analysing the same state twice gives the same reports, in the same
/// order, and the same unchecked statements.
pub proof fn lemma_analysis_idempotent(a: StmtAnalyzer, b: StmtAnalyzer)
    requires
        a.tree@ == b.tree@,
        a.database_columns@ == b.database_columns@,
        a.join_rules@ == b.join_rules@,
    ensures
        analysis_reports(a.tree@, a.database_columns@, a.join_rules@) == analysis_reports(
            b.tree@,
            b.database_columns@,
            b.join_rules@,
        ),
        unchecked_statements(a.tree@, schema_of(a.database_columns@)) == unchecked_statements(
            b.tree@,
            schema_of(b.database_columns@),
        ),
{
}

/// Whether a statement names table `t`: in its FROM clause or joins, or in a
/// qualified wildcard of its projection.
pub open spec fn references_table(s: Statement, t: Seq<char>) -> bool {
    match s {
        Statement::Select(sel) => {
            ||| table_refs(sel.from@).contains(t)
            ||| exists|i: int|
                0 <= i < sel.projection@.len() && (#[trigger] sel.projection@[i] matches SelectItem::QualifiedWildcard(parts)
                    && parts@.len() > 0 && parts@.last()@ == t)
        },
        Statement::Other => false,
    }
}

proof fn lemma_projection_unaffected(sel: Select, m: Map<Seq<char>, Seq<String>>, t: Seq<char>, cols: Seq<String>)
    requires
        !references_table(Statement::Select(sel), t),
    ensures
        projection_columns(sel, m.insert(t, cols)) == projection_columns(sel, m),
{
    let m2 = m.insert(t, cols);
    let refs = table_refs(sel.from@);
    assert forall|x: Seq<char>| x != t implies table_columns(m2, x) == table_columns(m, x) by {}
    assert forall|k: int| 0 <= k < refs.len() implies refs[k] != t by {
        if refs[k] == t {
            assert(refs.contains(t));
        }
    }
    assert(wildcard_columns(sel.from@, m2) =~= wildcard_columns(sel.from@, m));
    assert forall|i: int| 0 <= i < sel.projection@.len() implies item_columns(
        #[trigger] sel.projection@[i],
        sel.from@,
        m2,
    ) == item_columns(sel.projection@[i], sel.from@, m) by {
        match sel.projection@[i] {
            SelectItem::QualifiedWildcard(parts) => {
                if parts@.len() > 0 {
                    assert(parts@.last()@ != t);
                }
            },
            _ => {},
        }
    }
    assert(projection_columns(sel, m2) =~= projection_columns(sel, m));
}

proof fn lemma_reports_unaffected(stmts: Seq<Statement>, m: Map<Seq<char>, Seq<String>>, t: Seq<char>, cols: Seq<String>)
    requires
        forall|k: int| 0 <= k < stmts.len() ==> !references_table(#[trigger] stmts[k], t),
    ensures
        redundant_reports(stmts, m.insert(t, cols)) == redundant_reports(stmts, m),
        unchecked_statements(stmts, m.insert(t, cols)) == unchecked_statements(stmts, m),
    decreases stmts.len(),
{
    if stmts.len() > 0 {
        let s = stmts.last();
        assert(!references_table(stmts[stmts.len() - 1], t));
        lemma_reports_unaffected(stmts.drop_last(), m, t, cols);
        match s {
            Statement::Select(sel) => {
                lemma_projection_unaffected(sel, m, t, cols);
            },
            Statement::Other => {},
        }
    }
}

/// Registering one more table that no statement names leaves every report of
/// the analysis, and the unchecked statements, as they were.
pub proof fn lemma_irrelevant_table_no_effect(
    stmts: Seq<Statement>,
    entries: Seq<DatabaseColumn>,
    rules: Seq<JoinRules>,
    extra: DatabaseColumn,
)
    requires
        forall|k: int| 0 <= k < stmts.len() ==> !references_table(#[trigger] stmts[k], extra.name@),
    ensures
        analysis_reports(stmts, entries.push(extra), rules) == analysis_reports(stmts, entries, rules),
        unchecked_statements(stmts, schema_of(entries.push(extra))) == unchecked_statements(stmts, schema_of(entries)),
{
    assert(entries.push(extra).drop_last() =~= entries);
    lemma_reports_unaffected(stmts, schema_of(entries), extra.name@, extra.columns@);
}

} // verus!
