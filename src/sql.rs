use vstd::prelude::*;
use vstd::string::*;

use crate::etl::ETLPipelineError;
use crate::flatten::FlatRecord;
use crate::json::JsonNode;
use crate::text::{chars_of, decimal, push_decimal};

verus! {

/// A character that may begin an identifier: an ASCII letter or `_`.
pub open spec fn is_ident_start(c: char) -> bool {
    ('a' <= c && c <= 'z') || ('A' <= c && c <= 'Z') || c == '_'
}

/// A character that may follow in an identifier: also an ASCII digit.
pub open spec fn is_ident_char(c: char) -> bool {
    is_ident_start(c) || ('0' <= c && c <= '9')
}

/// A plain SQL identifier, safe to write into a statement as it is.
pub open spec fn is_identifier(s: Seq<char>) -> bool {
    &&& s.len() > 0
    &&& is_ident_start(s[0])
    &&& forall|i: int| 1 <= i < s.len() ==> #[trigger] is_ident_char(s[i])
}

/// The items joined by `", "`.
pub open spec fn joined(items: Seq<Seq<char>>) -> Seq<char>
    decreases items.len(),
{
    if items.len() == 0 {
        Seq::empty()
    } else if items.len() == 1 {
        items[0]
    } else {
        joined(items.drop_last()) + ", "@ + items.last()
    }
}

/// The positional markers `$1` to `$n`.
pub open spec fn placeholders(n: nat) -> Seq<Seq<char>> {
    Seq::new(n, |i: int| seq!['$'] + decimal((i + 1) as nat))
}

/// The statement that inserts one row with the given columns into `table`,
/// the value of the column at position `i` bound to the marker `$(i+1)`.
pub open spec fn insert_sql(table: Seq<char>, columns: Seq<Seq<char>>) -> Seq<char> {
    "INSERT INTO "@ + table + " ("@ + joined(columns) + ") VALUES ("@ + joined(
        placeholders(columns.len()),
    ) + ")"@
}

/// The names seen as their characters.
pub open spec fn names_view(names: Seq<String>) -> Seq<Seq<char>> {
    names.map_values(|s: String| s@)
}

/// Is `s` a plain SQL identifier?
pub fn is_sql_identifier(s: &str) -> (r: bool)
    ensures
        r == is_identifier(s@),
{
    let cs = chars_of(s);
    if cs.len() == 0 {
        return false;
    }
    let c = cs[0];
    if !(('a' <= c && c <= 'z') || ('A' <= c && c <= 'Z') || c == '_') {
        return false;
    }
    let mut i: usize = 1;
    while i < cs.len()
        invariant
            1 <= i <= cs@.len(),
            cs@ == s@,
            is_ident_start(s@[0]),
            forall|j: int| 1 <= j < i ==> #[trigger] is_ident_char(s@[j]),
        decreases cs.len() - i,
    {
        let c = cs[i];
        if !(('a' <= c && c <= 'z') || ('A' <= c && c <= 'Z') || c == '_' || ('0' <= c && c
            <= '9')) {
            assert(!is_ident_char(s@[i as int]));
            return false;
        }
        i = i + 1;
    }
    true
}

/// A parameterised insertion of one row.
pub struct InsertStatement {
    /// The statement text, with positional markers for the values.
    pub sql: String,
    /// The columns, in the order of the markers.
    pub columns: Vec<String>,
    /// The values, bound in order: `params[i]` to the marker of `columns[i]`.
    pub params: Vec<JsonNode>,
}

/// What the store is known to hold for one table: its name and its columns,
/// as read from the store's catalogue.
pub struct TableSchema {
    /// The table's name
    pub name: String,
    /// The names of the table's columns
    pub columns: Vec<String>,
}

/// `rec` can go into the table of `schema`: the table name is a plain
/// identifier, and so is every key of the record, each one a known column.
pub open spec fn insertable(schema: TableSchema, rec: Map<Seq<char>, JsonNode>) -> bool {
    &&& is_identifier(schema.name@)
    &&& forall|k: Seq<char>| #[trigger]
        rec.contains_key(k) ==> is_identifier(k) && names_view(schema.columns@).contains(k)
}

/// `s` inserts exactly the record `rec` into `table`: one column for each
/// key, and the value under that key bound at the column's position.
pub open spec fn inserts_record(
    s: InsertStatement,
    table: Seq<char>,
    rec: Map<Seq<char>, JsonNode>,
) -> bool {
    &&& s.sql@ == insert_sql(table, names_view(s.columns@))
    &&& s.columns@.len() == s.params@.len()
    &&& s.columns@.len() == rec.len()
    &&& forall|i: int|
        0 <= i < s.columns@.len() ==> rec.contains_key(s.columns@[i]@) && #[trigger] rec[s.columns@[i]@]
            == s.params@[i]
    &&& forall|i: int, j: int| 0 <= i < j < s.columns@.len() ==> s.columns@[i]@ != s.columns@[j]@
    &&& forall|k: Seq<char>| #[trigger]
        rec.contains_key(k) <==> exists|i: int| 0 <= i < s.columns@.len() && s.columns@[i]@ == k
}

/// `e` names what keeps `rec` out of the table of `schema`: the table name
/// if it is not a plain identifier; else a key of the record that is not a
/// plain identifier, or that is no known column.
pub open spec fn reports_bad_name(
    e: ETLPipelineError,
    schema: TableSchema,
    rec: Map<Seq<char>, JsonNode>,
) -> bool {
    if !is_identifier(schema.name@) {
        e matches ETLPipelineError::InvalidIdentifier(t) && t@ == schema.name@
    } else {
        ||| e matches ETLPipelineError::InvalidIdentifier(k) && rec.contains_key(k@)
            && !is_identifier(k@)
        ||| e matches ETLPipelineError::UnknownColumn(k) && rec.contains_key(k@)
            && !names_view(schema.columns@).contains(k@)
    }
}

/// Is `name` among `names`?
pub fn contains_name(names: &Vec<String>, name: &String) -> (r: bool)
    ensures
        r == names_view(names@).contains(name@),
{
    let mut i: usize = 0;
    while i < names.len()
        invariant
            i <= names@.len(),
            forall|j: int| 0 <= j < i ==> names@[j]@ != name@,
        decreases names.len() - i,
    {
        if names[i] == *name {
            assert(names_view(names@)[i as int] == name@);
            return true;
        }
        i = i + 1;
    }
    proof {
        if names_view(names@).contains(name@) {
            let j = choose|j: int| 0 <= j < names_view(names@).len() && names_view(names@)[j] == name@;
            assert(names@[j]@ == name@);
        }
    }
    false
}

/// Appends the items joined by `", "`.
fn push_joined(s: &mut String, items: &Vec<String>)
    ensures
        final(s)@ == old(s)@ + joined(names_view(items@)),
{
    let ghost start = s@;
    let mut i: usize = 0;
    while i < items.len()
        invariant
            i <= items@.len(),
            s@ == start + joined(names_view(items@).take(i as int)),
        decreases items.len() - i,
    {
        let ghost before = names_view(items@).take(i as int);
        let ghost after = names_view(items@).take(i + 1);
        assert(after.drop_last() =~= before);
        if i > 0 {
            s.append(", ");
        }
        s.append(items[i].as_str());
        proof {
            if i == 0 {
                assert(joined(before) =~= Seq::<char>::empty());
            }
        }
        i = i + 1;
    }
    assert(names_view(items@).take(items@.len() as int) =~= names_view(items@));
}

/// Appends the markers `$1` to `$n` joined by `", "`.
fn push_placeholders(s: &mut String, n: usize)
    ensures
        final(s)@ == old(s)@ + joined(placeholders(n as nat)),
{
    let ghost start = s@;
    let mut i: usize = 0;
    while i < n
        invariant
            i <= n,
            s@ == start + joined(placeholders(i as nat)),
        decreases n - i,
    {
        let ghost before = placeholders(i as nat);
        let ghost after = placeholders((i + 1) as nat);
        assert(after.drop_last() =~= before);
        if i > 0 {
            s.append(", ");
        }
        s.append("$");
        push_decimal(s, i + 1);
        proof {
            reveal_strlit("$");
            if i == 0 {
                assert(joined(before) =~= Seq::<char>::empty());
            }
            assert(after.last() == seq!['$'] + decimal((i + 1) as nat));
        }
        i = i + 1;
    }
}

/// Builds the statement that inserts `record` as one row of the table of
/// `schema`.
///
/// The table name must be a plain SQL identifier, and every key of the
/// record a plain identifier that names a known column of the table. The
/// table name is looked at first (`InvalidIdentifier`), then the keys in
/// order: the first that is no plain identifier gives `InvalidIdentifier`,
/// the first that is no known column `UnknownColumn`.
pub fn build_insert(schema: &TableSchema, record: FlatRecord) -> (r: Result<
    InsertStatement,
    ETLPipelineError,
>)
    requires
        record.wf(),
    ensures
        r is Ok <==> insertable(*schema, record@),
        r matches Ok(s) ==> inserts_record(s, schema.name@, record@),
        r matches Err(e) ==> reports_bad_name(e, *schema, record@),
{
    if !is_sql_identifier(schema.name.as_str()) {
        return Err(ETLPipelineError::InvalidIdentifier(schema.name.clone()));
    }
    let ghost rec = record@;
    let (columns, params) = record.into_columns_and_values();
    let mut i: usize = 0;
    while i < columns.len()
        invariant
            i <= columns@.len(),
            is_identifier(schema.name@),
            rec == record@,
            forall|j: int| 0 <= j < columns@.len() ==> rec.contains_key(#[trigger] columns@[j]@),
            forall|j: int|
                0 <= j < i ==> is_identifier(#[trigger] columns@[j]@) && names_view(
                    schema.columns@,
                ).contains(columns@[j]@),
        decreases columns.len() - i,
    {
        if !is_sql_identifier(columns[i].as_str()) {
            return Err(ETLPipelineError::InvalidIdentifier(columns[i].clone()));
        }
        if !contains_name(&schema.columns, &columns[i]) {
            return Err(ETLPipelineError::UnknownColumn(columns[i].clone()));
        }
        i = i + 1;
    }
    assert forall|k: Seq<char>| #[trigger] rec.contains_key(k) implies is_identifier(k)
        && names_view(schema.columns@).contains(k) by {
        let j = choose|j: int| 0 <= j < columns@.len() && columns@[j]@ == k;
        assert(is_identifier(columns@[j]@));
    }
    let mut sql = String::new();
    sql.append("INSERT INTO ");
    sql.append(schema.name.as_str());
    sql.append(" (");
    push_joined(&mut sql, &columns);
    sql.append(") VALUES (");
    push_placeholders(&mut sql, columns.len());
    sql.append(")");
    assert(names_view(columns@).len() == columns@.len());
    Ok(InsertStatement { sql, columns, params })
}

} // verus!
