//! The schema that queries are checked against: tables with their columns, and
//! the declared key relationships between pairs of tables.
use vstd::prelude::*;

verus! {

/// A table of the schema: its name and its columns, in declaration order.
#[derive(Debug)]
pub struct DatabaseColumn {
    pub name: String,
    pub columns: Vec<String>,
}

impl DatabaseColumn {
    pub fn new(name: String, columns: Vec<String>) -> (r: DatabaseColumn)
        ensures
            r.name@ == name@,
            r.columns@ == columns@,
    {
        DatabaseColumn { name, columns }
    }
}

/// A declared relationship: rows of table `column1` join rows of table
/// `column2` on `column1.key1[i] = column2.key2[i]` for every position `i`.
#[derive(Debug)]
pub struct JoinRules {
    pub column1: String,
    pub key1: Vec<String>,
    pub column2: String,
    pub key2: Vec<String>,
}

impl JoinRules {
    pub fn new(column1: String, key1: Vec<String>, column2: String, key2: Vec<String>) -> (r:
        JoinRules)
        ensures
            r.column1@ == column1@,
            r.key1@ == key1@,
            r.column2@ == column2@,
            r.key2@ == key2@,
    {
        JoinRules { column1, key1, column2, key2 }
    }
}

/// The set of the views of a sequence of strings.
pub open spec fn str_set(v: Seq<String>) -> Set<Seq<char>> {
    Set::new(|x: Seq<char>| exists|i: int| 0 <= i < v.len() && v[i]@ == x)
}

/// The table registry that a sequence of registrations builds: each table name
/// maps to the columns of its last registration (last write wins).
pub open spec fn schema_of(entries: Seq<DatabaseColumn>) -> Map<Seq<char>, Seq<String>>
    decreases entries.len(),
{
    if entries.len() == 0 {
        Map::empty()
    } else {
        schema_of(entries.drop_last()).insert(entries.last().name@, entries.last().columns@)
    }
}

/// A table name is registered exactly when some registration names it.
pub proof fn lemma_schema_keys(entries: Seq<DatabaseColumn>, k: Seq<char>)
    ensures
        schema_of(entries).contains_key(k) <==> exists|i: int|
            0 <= i < entries.len() && entries[i].name@ == k,
    decreases entries.len(),
{
    if entries.len() > 0 {
        lemma_schema_keys(entries.drop_last(), k);
        if schema_of(entries.drop_last()).contains_key(k) {
            let i = choose|i: int| 0 <= i < entries.len() - 1 && entries.drop_last()[i].name@ == k;
            assert(entries[i].name@ == k);
        }
        if exists|i: int| 0 <= i < entries.len() && entries[i].name@ == k {
            let i = choose|i: int| 0 <= i < entries.len() && entries[i].name@ == k;
            if i < entries.len() - 1 {
                assert(entries.drop_last()[i].name@ == k);
            }
        }
    }
}

/// Registrations after the last one that names a table do not touch it: the
/// registry holds the columns of the last registration of each name.
pub proof fn lemma_last_registration_wins(entries: Seq<DatabaseColumn>, j: int)
    requires
        0 <= j < entries.len(),
        forall|k: int| j < k < entries.len() ==> entries[k].name@ != entries[j].name@,
    ensures
        schema_of(entries).contains_key(entries[j].name@),
        schema_of(entries)[entries[j].name@] == entries[j].columns@,
    decreases entries.len(),
{
    if j < entries.len() - 1 {
        lemma_last_registration_wins(entries.drop_last(), j);
    }
}

/// Registrations from position `i` on that do not name `k` leave its entry as
/// the first `i` registrations made it.
pub proof fn lemma_schema_prefix(entries: Seq<DatabaseColumn>, i: int, k: Seq<char>)
    requires
        0 <= i <= entries.len(),
        forall|m: int| i <= m < entries.len() ==> entries[m].name@ != k,
    ensures
        schema_of(entries).contains_key(k) == schema_of(entries.subrange(0, i)).contains_key(k),
        schema_of(entries).contains_key(k) ==> schema_of(entries)[k] == schema_of(
            entries.subrange(0, i),
        )[k],
    decreases entries.len(),
{
    if i < entries.len() {
        lemma_schema_prefix(entries.drop_last(), i, k);
        assert(entries.drop_last().subrange(0, i) =~= entries.subrange(0, i));
    } else {
        assert(entries.subrange(0, i) =~= entries);
    }
}

/// Finds the columns registered last under `table`.
pub fn lookup<'a>(entries: &'a Vec<DatabaseColumn>, table: &String) -> (r: Option<&'a Vec<String>>)
    ensures
        r.is_some() == schema_of(entries@).contains_key(table@),
        r.is_some() ==> r.unwrap()@ == schema_of(entries@)[table@],
{
    let mut i: usize = entries.len();
    while i > 0
        invariant
            i <= entries.len(),
            forall|m: int| i <= m < entries.len() ==> entries@[m].name@ != table@,
        decreases i,
    {
        if entries[i - 1].name == *table {
            proof {
                lemma_schema_prefix(entries@, i as int, table@);
                lemma_last_registration_wins(entries@.subrange(0, i as int), i - 1);
            }
            return Some(&entries[i - 1].columns);
        }
        i = i - 1;
    }
    proof {
        lemma_schema_keys(entries@, table@);
    }
    None
}

} // verus!
