//! Resolution of projection and grouping lists to the column names they
//! denote, with wildcards expanded from the schema.
use vstd::prelude::*;
use crate::ast::{Expr, Join, Select, SelectItem, TableFactor, TableWithJoins, expr_column, column_of_expr};
use crate::schema::{DatabaseColumn, str_set, schema_of, lookup};

verus! {

/// The views of a sequence of strings.
pub open spec fn views(v: Seq<String>) -> Seq<Seq<char>> {
    v.map_values(|s: String| s@)
}

/// No two strings of the sequence are equal.
pub open spec fn no_dup_strs(v: Seq<String>) -> bool {
    forall|i: int, j: int| 0 <= i < v.len() && 0 <= j < v.len() && i != j ==> v[i]@ != v[j]@
}

/// The table that a FROM source names: the first part of its name.
pub open spec fn factor_refs(f: TableFactor) -> Seq<Seq<char>> {
    match f {
        TableFactor::Table(parts) => if parts@.len() > 0 {
            seq![parts@[0]@]
        } else {
            Seq::empty()
        },
        TableFactor::Other => Seq::empty(),
    }
}

pub open spec fn joins_refs(js: Seq<Join>) -> Seq<Seq<char>>
    decreases js.len(),
{
    if js.len() == 0 {
        Seq::empty()
    } else {
        joins_refs(js.drop_last()) + factor_refs(js.last().relation)
    }
}

/// The tables that a FROM clause names directly, in order, repeats kept.
pub open spec fn table_refs(from: Seq<TableWithJoins>) -> Seq<Seq<char>>
    decreases from.len(),
{
    if from.len() == 0 {
        Seq::empty()
    } else {
        table_refs(from.drop_last()) + factor_refs(from.last().relation) + joins_refs(
            from.last().joins@,
        )
    }
}

/// The columns that a schema registers for a table; none for an unknown one.
pub open spec fn table_columns(schema: Map<Seq<char>, Seq<String>>, t: Seq<char>) -> Set<
    Seq<char>,
> {
    if schema.contains_key(t) {
        str_set(schema[t])
    } else {
        Set::empty()
    }
}

/// The columns of every table that the FROM clause names.
pub open spec fn wildcard_columns(from: Seq<TableWithJoins>, schema: Map<Seq<char>, Seq<String>>) -> Set<Seq<char>> {
    Set::new(|c: Seq<char>| exists|i: int| 0 <= i < table_refs(from).len() && table_columns(schema, table_refs(from)[i]).contains(c))
}

/// The column names that one projection item contributes.
pub open spec fn item_columns(
    item: SelectItem,
    from: Seq<TableWithJoins>,
    schema: Map<Seq<char>, Seq<String>>,
) -> Set<Seq<char>> {
    match item {
        SelectItem::UnnamedExpr(e) => match expr_column(e) {
            Some(c) => set![c],
            None => Set::empty(),
        },
        SelectItem::ExprWithAlias { alias } => set![alias@],
        SelectItem::QualifiedWildcard(parts) => if parts@.len() > 0 {
            table_columns(schema, parts@.last()@)
        } else {
            Set::empty()
        },
        SelectItem::Wildcard => wildcard_columns(from, schema),
    }
}

/// The column names that a SELECT's projection list denotes.
pub open spec fn projection_columns(sel: Select, schema: Map<Seq<char>, Seq<String>>) -> Set<
    Seq<char>,
> {
    Set::new(
        |c: Seq<char>|
            exists|i: int|
                0 <= i < sel.projection@.len() && item_columns(
                    sel.projection@[i],
                    sel.from@,
                    schema,
                ).contains(c),
    )
}

/// The column names that a grouping list denotes: only identifiers count.
pub open spec fn group_by_columns(exprs: Seq<Expr>) -> Set<Seq<char>> {
    Set::new(|c: Seq<char>| exists|i: int| 0 <= i < exprs.len() && expr_column(exprs[i]) == Some(c))
}

/// Adds `s` to a list of distinct strings unless an equal one is there.
fn insert_unique(v: &mut Vec<String>, s: String)
    requires
        no_dup_strs(old(v)@),
    ensures
        no_dup_strs(final(v)@),
        str_set(final(v)@) == str_set(old(v)@).insert(s@),
{
    let mut i: usize = 0;
    while i < v.len()
        invariant
            i <= v.len(),
            v@ == old(v)@,
            no_dup_strs(v@),
            forall|k: int| 0 <= k < i ==> v@[k]@ != s@,
        decreases v.len() - i,
    {
        if v[i] == s {
            assert(v@[i as int]@ == s@);
            assert(str_set(v@) =~= str_set(v@).insert(s@));
            return;
        }
        i = i + 1;
    }
    let ghost before = v@;
    v.push(s);
    proof {
        assert(str_set(v@) =~= str_set(before).insert(s@)) by {
            assert forall|x: Seq<char>| str_set(before).insert(s@).contains(x) implies str_set(
                v@,
            ).contains(x) by {
                if x != s@ {
                    let k = choose|k: int| 0 <= k < before.len() && before[k]@ == x;
                    assert(v@[k]@ == x);
                } else {
                    assert(v@[before.len() as int]@ == x);
                }
            }
        }
    }
}

/// Adds every string of `src` to a list of distinct strings.
fn extend_unique(v: &mut Vec<String>, src: &Vec<String>)
    requires
        no_dup_strs(old(v)@),
    ensures
        no_dup_strs(final(v)@),
        str_set(final(v)@) == str_set(old(v)@).union(str_set(src@)),
{
    let ghost start = v@;
    let mut i: usize = 0;
    while i < src.len()
        invariant
            i <= src.len(),
            no_dup_strs(v@),
            str_set(v@) == str_set(start).union(str_set(src@.subrange(0, i as int))),
        decreases src.len() - i,
    {
        insert_unique(v, src[i].clone());
        proof {
            let a = src@.subrange(0, i as int);
            let b = src@.subrange(0, i + 1);
            let y = src@[i as int]@;
            assert(str_set(b) =~= str_set(a).insert(y)) by {
                assert forall|x: Seq<char>| str_set(b).contains(x) implies str_set(a).insert(
                    y,
                ).contains(x) by {
                    let k = choose|k: int| 0 <= k < b.len() && #[trigger] b[k]@ == x;
                    if k < i {
                        assert(a[k]@ == x);
                    }
                }
                assert forall|x: Seq<char>| str_set(a).insert(y).contains(x) implies str_set(
                    b,
                ).contains(x) by {
                    if x == y {
                        assert(b[i as int]@ == x);
                    } else {
                        let k = choose|k: int| 0 <= k < a.len() && #[trigger] a[k]@ == x;
                        assert(b[k]@ == x);
                    }
                }
            }
            assert(str_set(v@) =~= str_set(start).union(str_set(b)));
        }
        i = i + 1;
    }
    proof {
        assert(src@.subrange(0, i as int) =~= src@);
    }
}

fn push_table_ref(r: &mut Vec<String>, f: &TableFactor)
    ensures
        views(final(r)@) == views(old(r)@) + factor_refs(*f),
{
    match f {
        TableFactor::Table(parts) => {
            if parts.len() > 0 {
                let ghost before = r@;
                r.push(parts[0].clone());
                assert(views(r@) =~= views(before) + factor_refs(*f));
            } else {
                assert(views(r@) =~= views(r@) + factor_refs(*f));
            }
        },
        TableFactor::Other => {
            assert(views(r@) =~= views(r@) + factor_refs(*f));
        },
    }
}

/// The tables that a FROM clause names directly, in order of appearance, with
/// the tables of its joins; sources that are not named tables add nothing.
pub fn collect_tables(from: &Vec<TableWithJoins>) -> (r: Vec<String>)
    ensures
        views(r@) == table_refs(from@),
{
    let mut r: Vec<String> = Vec::new();
    let mut i: usize = 0;
    assert(views(r@) =~= table_refs(from@.subrange(0, 0)));
    while i < from.len()
        invariant
            i <= from.len(),
            views(r@) == table_refs(from@.subrange(0, i as int)),
        decreases from.len() - i,
    {
        let t = &from[i];
        push_table_ref(&mut r, &t.relation);
        let mut j: usize = 0;
        let ghost mid = views(r@);
        assert(t.joins@.subrange(0, 0) =~= Seq::<Join>::empty());
        while j < t.joins.len()
            invariant
                i < from.len(),
                t == from@[i as int],
                j <= t.joins.len(),
                views(r@) == mid + joins_refs(t.joins@.subrange(0, j as int)),
            decreases t.joins.len() - j,
        {
            push_table_ref(&mut r, &t.joins[j].relation);
            assert(t.joins@.subrange(0, j + 1).drop_last() =~= t.joins@.subrange(0, j as int));
            assert(views(r@) =~= mid + joins_refs(t.joins@.subrange(0, j + 1)));
            j = j + 1;
        }
        assert(t.joins@.subrange(0, j as int) =~= t.joins@);
        assert(from@.subrange(0, i + 1).drop_last() =~= from@.subrange(0, i as int));
        assert(views(r@) =~= table_refs(from@.subrange(0, i + 1)));
        i = i + 1;
    }
    assert(from@.subrange(0, i as int) =~= from@);
    r
}

/// The columns of every table that the FROM clause names, as far as the
/// schema knows them; unknown tables and other sources add nothing.
fn expand_wildcard(entries: &Vec<DatabaseColumn>, from: &Vec<TableWithJoins>, sel: &mut Vec<String>)
    requires
        no_dup_strs(old(sel)@),
    ensures
        no_dup_strs(final(sel)@),
        str_set(final(sel)@) == str_set(old(sel)@).union(wildcard_columns(from@, schema_of(entries@))),
{
    let ghost schema = schema_of(entries@);
    let tables = collect_tables(from);
    let ghost refs = table_refs(from@);
    let ghost start = str_set(sel@);
    let mut i: usize = 0;
    while i < tables.len()
        invariant
            i <= tables.len(),
            views(tables@) == refs,
            schema == schema_of(entries@),
            refs == table_refs(from@),
            no_dup_strs(sel@),
            str_set(sel@) == start.union(Set::new(|c: Seq<char>| exists|k: int| 0 <= k < i && table_columns(schema, refs[k]).contains(c))),
        decreases tables.len() - i,
    {
        assert(views(tables@)[i as int] == tables@[i as int]@);
        match lookup(entries, &tables[i]) {
            Some(cols) => {
                extend_unique(sel, cols);
            },
            None => {},
        }
        assert(str_set(sel@) =~= start.union(Set::new(|c: Seq<char>| exists|k: int| 0 <= k < i + 1 && table_columns(schema, refs[k]).contains(c))));
        i = i + 1;
    }
    assert(str_set(sel@) =~= start.union(wildcard_columns(from@, schema)));
}

/// The column names that a SELECT's projection list denotes: identifiers by
/// their text, dotted identifiers joined with `.`, aliased expressions by their
/// alias, and wildcards by the columns the schema registers for their tables.
pub fn extract_select_value(entries: &Vec<DatabaseColumn>, query: &Select) -> (r: Vec<String>)
    ensures
        no_dup_strs(r@),
        str_set(r@) == projection_columns(*query, schema_of(entries@)),
{
    let ghost schema = schema_of(entries@);
    let items = &query.projection;
    let mut selection: Vec<String> = Vec::new();
    let mut i: usize = 0;
    assert(str_set(selection@) =~= Set::new(|c: Seq<char>| exists|k: int| 0 <= k < 0 && item_columns(items@[k], query.from@, schema).contains(c)));
    while i < items.len()
        invariant
            i <= items.len(),
            items == query.projection,
            schema == schema_of(entries@),
            no_dup_strs(selection@),
            str_set(selection@) == Set::new(|c: Seq<char>| exists|k: int| 0 <= k < i && item_columns(items@[k], query.from@, schema).contains(c)),
        decreases items.len() - i,
    {
        let ghost before = str_set(selection@);
        match &items[i] {
            SelectItem::UnnamedExpr(e) => {
                match column_of_expr(e) {
                    Some(c) => insert_unique(&mut selection, c),
                    None => {},
                }
            },
            SelectItem::ExprWithAlias { alias } => {
                insert_unique(&mut selection, alias.clone());
            },
            SelectItem::QualifiedWildcard(parts) => {
                if parts.len() > 0 {
                    match lookup(entries, &parts[parts.len() - 1]) {
                        Some(cols) => extend_unique(&mut selection, cols),
                        None => {},
                    }
                }
            },
            SelectItem::Wildcard => {
                expand_wildcard(entries, &query.from, &mut selection);
            },
        }
        assert(str_set(selection@) =~= before.union(item_columns(items@[i as int], query.from@, schema)));
        assert(str_set(selection@) =~= Set::new(|c: Seq<char>| exists|k: int| 0 <= k < i + 1 && item_columns(items@[k], query.from@, schema).contains(c)));
        i = i + 1;
    }
    selection
}

/// The column names that a grouping list denotes: identifiers and dotted
/// identifiers; wildcards and computed expressions add nothing.
pub fn extract_group_by_values(expressions: &Vec<Expr>) -> (r: Vec<String>)
    ensures
        no_dup_strs(r@),
        str_set(r@) == group_by_columns(expressions@),
{
    let mut selection: Vec<String> = Vec::new();
    let mut i: usize = 0;
    assert(str_set(selection@) =~= Set::new(|c: Seq<char>| exists|k: int| 0 <= k < 0 && expr_column(expressions@[k]) == Some(c)));
    while i < expressions.len()
        invariant
            i <= expressions.len(),
            no_dup_strs(selection@),
            str_set(selection@) == Set::new(|c: Seq<char>| exists|k: int| 0 <= k < i && expr_column(expressions@[k]) == Some(c)),
        decreases expressions.len() - i,
    {
        match column_of_expr(&expressions[i]) {
            Some(c) => insert_unique(&mut selection, c),
            None => {},
        }
        assert(str_set(selection@) =~= Set::new(|c: Seq<char>| exists|k: int| 0 <= k < i + 1 && expr_column(expressions@[k]) == Some(c)));
        i = i + 1;
    }
    assert(str_set(selection@) =~= group_by_columns(expressions@));
    selection
}

} // verus!
