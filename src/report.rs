//! Findings of the checks and the report records handed to callers.
use vstd::prelude::*;

verus! {

#[derive(Clone, Copy, Debug, PartialEq, Eq, Structural)]
pub enum Severity {
    WARNING,
    ERROR,
}

#[derive(Clone, Copy, Debug, PartialEq, Eq, Structural)]
pub enum IssueType {
    INCOMPLETEJOIN,
    REDUDANTDISTINCT,
}

/// A caller-facing report: the kind of issue, its severity and a message.
#[derive(Debug)]
pub struct AnalyzerReport {
    pub issue_type: IssueType,
    pub severity: Severity,
    pub message: String,
}

impl View for AnalyzerReport {
    type V = (IssueType, Severity, Seq<char>);

    open spec fn view(&self) -> (IssueType, Severity, Seq<char>) {
        (self.issue_type, self.severity, self.message@)
    }
}

/// Two tables that a statement references together, with a declared key
/// relationship, but without a join predicate over those keys.
#[derive(Debug)]
pub struct IncompleteJoinIssue {
    pub table1: String,
    pub table2: String,
}

/// A `DISTINCT` that the statement's `GROUP BY` makes redundant.
#[derive(Debug)]
pub struct RedudantDistinctIssue {}

/// A finding of one of the checks.
#[derive(Debug)]
pub enum Issue {
    IncompleteJoin(IncompleteJoinIssue),
    RedundantDistinct(RedudantDistinctIssue),
}

pub open spec fn incomplete_join_message(t1: Seq<char>, t2: Seq<char>) -> Seq<char> {
    "Tables "@ + t1 + " and "@ + t2 + " are not joined per the FK-PK relationship"@
}

pub open spec fn redundant_distinct_message() -> Seq<char> {
    "DISTINCT has no effect when a correct GROUB BY clause is present"@
}

/// The report for an incomplete join between two tables.
pub open spec fn incomplete_join_report(t1: Seq<char>, t2: Seq<char>) -> (IssueType, Severity, Seq<char>) {
    (IssueType::INCOMPLETEJOIN, Severity::WARNING, incomplete_join_message(t1, t2))
}

/// The report for a redundant `DISTINCT`.
pub open spec fn redundant_distinct_report() -> (IssueType, Severity, Seq<char>) {
    (IssueType::REDUDANTDISTINCT, Severity::WARNING, redundant_distinct_message())
}

/// The report that a finding turns into.
pub open spec fn issue_report(issue: Issue) -> (IssueType, Severity, Seq<char>) {
    match issue {
        Issue::IncompleteJoin(i) => incomplete_join_report(i.table1@, i.table2@),
        Issue::RedundantDistinct(_) => redundant_distinct_report(),
    }
}

impl IncompleteJoinIssue {
    pub fn get_severity(&self) -> (r: Severity)
        ensures
            r == Severity::WARNING,
    {
        Severity::WARNING
    }

    pub fn get_type(&self) -> (r: IssueType)
        ensures
            r == IssueType::INCOMPLETEJOIN,
    {
        IssueType::INCOMPLETEJOIN
    }

    pub fn get_message(&self) -> (r: String)
        ensures
            r@ == incomplete_join_message(self.table1@, self.table2@),
    {
        let mut m = String::from_str("Tables ");
        m.append(self.table1.as_str());
        m.append(" and ");
        m.append(self.table2.as_str());
        m.append(" are not joined per the FK-PK relationship");
        m
    }

    pub fn get_report(&self) -> (r: AnalyzerReport)
        ensures
            r@ == incomplete_join_report(self.table1@, self.table2@),
    {
        AnalyzerReport {
            issue_type: self.get_type(),
            severity: self.get_severity(),
            message: self.get_message(),
        }
    }
}

impl RedudantDistinctIssue {
    pub fn get_severity(&self) -> (r: Severity)
        ensures
            r == Severity::WARNING,
    {
        Severity::WARNING
    }

    pub fn get_type(&self) -> (r: IssueType)
        ensures
            r == IssueType::REDUDANTDISTINCT,
    {
        IssueType::REDUDANTDISTINCT
    }

    pub fn get_message(&self) -> (r: String)
        ensures
            r@ == redundant_distinct_message(),
    {
        String::from_str("DISTINCT has no effect when a correct GROUB BY clause is present")
    }

    pub fn get_report(&self) -> (r: AnalyzerReport)
        ensures
            r@ == redundant_distinct_report(),
    {
        AnalyzerReport {
            issue_type: self.get_type(),
            severity: self.get_severity(),
            message: self.get_message(),
        }
    }
}

impl Issue {
    pub fn get_type(&self) -> (r: IssueType)
        ensures
            r == issue_report(*self).0,
    {
        match self {
            Issue::IncompleteJoin(i) => i.get_type(),
            Issue::RedundantDistinct(i) => i.get_type(),
        }
    }

    pub fn get_severity(&self) -> (r: Severity)
        ensures
            r == issue_report(*self).1,
    {
        match self {
            Issue::IncompleteJoin(i) => i.get_severity(),
            Issue::RedundantDistinct(i) => i.get_severity(),
        }
    }

    pub fn get_message(&self) -> (r: String)
        ensures
            r@ == issue_report(*self).2,
    {
        match self {
            Issue::IncompleteJoin(i) => i.get_message(),
            Issue::RedundantDistinct(i) => i.get_message(),
        }
    }

    pub fn get_report(&self) -> (r: AnalyzerReport)
        ensures
            r@ == issue_report(*self),
    {
        AnalyzerReport::create_report(self)
    }
}

impl AnalyzerReport {
    /// The report that a finding turns into.
    pub fn create_report(issue: &Issue) -> (r: AnalyzerReport)
        ensures
            r@ == issue_report(*issue),
    {
        AnalyzerReport {
            issue_type: issue.get_type(),
            severity: issue.get_severity(),
            message: issue.get_message(),
        }
    }
}

} // verus!
