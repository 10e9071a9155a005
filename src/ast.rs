//! The part of a parsed statement that the checks read. A statement tree from
//! the parser is lowered into these types before it is analysed.
use vstd::prelude::*;

verus! {

/// Comparison operators; only equality matters to the checks.
#[derive(Debug)]
pub enum BinaryOperator {
    Eq,
    Other,
}

/// An expression of a projection, a grouping key or a predicate.
#[derive(Debug)]
pub enum Expr {
    /// A plain identifier.
    Identifier(String),
    /// A dotted identifier such as `table.column`, part by part.
    CompoundIdentifier(Vec<String>),
    Wildcard,
    QualifiedWildcard(Vec<String>),
    BinaryOp { left: Box<Expr>, op: BinaryOperator, right: Box<Expr> },
    /// A parenthesised expression.
    Nested(Box<Expr>),
    /// Any other expression shape (a call, a literal, arithmetic, ...).
    Other,
}

/// One item of a projection list.
#[derive(Debug)]
pub enum SelectItem {
    UnnamedExpr(Expr),
    /// An expression with an alias; only the alias is read.
    ExprWithAlias { alias: String },
    /// `table.*`, with the parts of the qualifying name.
    QualifiedWildcard(Vec<String>),
    Wildcard,
}

/// A source in a FROM clause.
#[derive(Debug)]
pub enum TableFactor {
    /// A named table, with the parts of its name.
    Table(Vec<String>),
    /// A subquery, a nested join or another source that names no table.
    Other,
}

/// A table source joined to the one before it, with its ON predicate if any.
#[derive(Debug)]
pub struct Join {
    pub relation: TableFactor,
    pub constraint: Option<Expr>,
}

/// One item of a FROM clause with the joins that follow it.
#[derive(Debug)]
pub struct TableWithJoins {
    pub relation: TableFactor,
    pub joins: Vec<Join>,
}

/// The GROUP BY clause.
#[derive(Debug)]
pub enum GroupByExpr {
    /// `GROUP BY ALL`, a dialect extension that the checks do not support.
    All,
    Expressions(Vec<Expr>),
}

/// A SELECT node.
#[derive(Debug)]
pub struct Select {
    pub distinct: bool,
    pub projection: Vec<SelectItem>,
    pub from: Vec<TableWithJoins>,
    /// The WHERE predicate.
    pub selection: Option<Expr>,
    pub group_by: GroupByExpr,
}

/// A statement node found in the parsed tree.
#[derive(Debug)]
pub enum Statement {
    /// A query whose body is a SELECT.
    Select(Select),
    /// Any other statement, or a query whose body is not a plain SELECT.
    Other,
}

/// The parts of a dotted name joined with `.`.
pub open spec fn dotted(parts: Seq<String>) -> Seq<char>
    decreases parts.len(),
{
    if parts.len() == 0 {
        Seq::empty()
    } else if parts.len() == 1 {
        parts[0]@
    } else {
        dotted(parts.drop_last()) + seq!['.'] + parts.last()@
    }
}

/// The column that an identifier expression names, if it is one; a dotted
/// identifier whose joined text is empty names none.
pub open spec fn expr_column(e: Expr) -> Option<Seq<char>> {
    match e {
        Expr::Identifier(s) => Some(s@),
        Expr::CompoundIdentifier(parts) => if dotted(parts@).len() == 0 {
            None
        } else {
            Some(dotted(parts@))
        },
        _ => None,
    }
}

/// Joins the parts of a dotted name with `.`.
pub fn join_dotted(parts: &Vec<String>) -> (r: String)
    ensures
        r@ == dotted(parts@),
{
    if parts.len() == 0 {
        return String::new();
    }
    let mut r = parts[0].clone();
    let mut i: usize = 1;
    proof {
        reveal_strlit(".");
        assert(parts@.subrange(0, 1).drop_last() =~= Seq::<String>::empty());
    }
    while i < parts.len()
        invariant
            1 <= i <= parts.len(),
            r@ == dotted(parts@.subrange(0, i as int)),
        decreases parts.len() - i,
    {
        r.append(".");
        r.append(parts[i].as_str());
        proof {
            reveal_strlit(".");
            assert(parts@.subrange(0, i + 1).drop_last() =~= parts@.subrange(0, i as int));
        }
        i = i + 1;
    }
    proof {
        assert(parts@.subrange(0, i as int) =~= parts@);
    }
    r
}

/// The column that an identifier expression names, if it is one.
pub fn column_of_expr(e: &Expr) -> (r: Option<String>)
    ensures
        r.is_some() == expr_column(*e).is_some(),
        r.is_some() ==> r.unwrap()@ == expr_column(*e).unwrap(),
{
    match e {
        Expr::Identifier(s) => Some(s.clone()),
        Expr::CompoundIdentifier(parts) => {
            let joined = join_dotted(parts);
            if joined.as_str().is_empty() {
                None
            } else {
                Some(joined)
            }
        },
        _ => None,
    }
}

} // verus!
