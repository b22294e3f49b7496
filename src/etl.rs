use vstd::prelude::*;
use vstd::string::*;

use crate::flatten::{
    flatten, flattened, key_view, keys_unique, law_each_leaf_one_entry, law_flat_object_unchanged,
    leaves, record_of,
};
use crate::json::{document_of, parse_document, JsonNode};
use crate::sql::{
    build_insert, inserts_record, insertable, reports_bad_name, InsertStatement, TableSchema,
};
use crate::text::chars_of;

verus! {

/// What can go wrong while a document is loaded.
#[derive(Debug, PartialEq)]
pub enum ETLPipelineError {
    /// The file could not be opened or read as text.
    FileReadError(String),
    /// The content is not valid JSON.
    JsonParseError(String),
    /// The store refused the statement.
    DatabaseError(String),
    /// The directory, or one of its entries, could not be listed.
    DirectoryError(String),
    /// A table name or a flattened key is not a plain SQL identifier, so it
    /// is not written into a statement.
    InvalidIdentifier(String),
    /// The store is not known to hold a table of this name.
    UnknownTable(String),
    /// A flattened key names no known column of the target table.
    UnknownColumn(String),
}

/// The text that heads the message of each kind of error.
pub open spec fn error_heading(e: ETLPipelineError) -> Seq<char> {
    match e {
        ETLPipelineError::FileReadError(_) => "Failed to read file: "@,
        ETLPipelineError::JsonParseError(_) => "Failed to parse JSON: "@,
        ETLPipelineError::DatabaseError(_) => "Database error: "@,
        ETLPipelineError::DirectoryError(_) => "Directory error: "@,
        ETLPipelineError::InvalidIdentifier(_) => "Invalid identifier: "@,
        ETLPipelineError::UnknownTable(_) => "Unknown table: "@,
        ETLPipelineError::UnknownColumn(_) => "Unknown column: "@,
    }
}

/// The detail that an error carries.
pub open spec fn error_detail(e: ETLPipelineError) -> Seq<char> {
    match e {
        ETLPipelineError::FileReadError(d) => d@,
        ETLPipelineError::JsonParseError(d) => d@,
        ETLPipelineError::DatabaseError(d) => d@,
        ETLPipelineError::DirectoryError(d) => d@,
        ETLPipelineError::InvalidIdentifier(d) => d@,
        ETLPipelineError::UnknownTable(d) => d@,
        ETLPipelineError::UnknownColumn(d) => d@,
    }
}

impl ETLPipelineError {
    /// The message for a reader: the heading of the kind, then the detail.
    pub fn message(&self) -> (r: String)
        ensures
            r@ == error_heading(*self) + error_detail(*self),
    {
        let (heading, detail) = match self {
            ETLPipelineError::FileReadError(d) => ("Failed to read file: ", d),
            ETLPipelineError::JsonParseError(d) => ("Failed to parse JSON: ", d),
            ETLPipelineError::DatabaseError(d) => ("Database error: ", d),
            ETLPipelineError::DirectoryError(d) => ("Directory error: ", d),
            ETLPipelineError::InvalidIdentifier(d) => ("Invalid identifier: ", d),
            ETLPipelineError::UnknownTable(d) => ("Unknown table: ", d),
            ETLPipelineError::UnknownColumn(d) => ("Unknown column: ", d),
        };
        let mut r = String::new();
        r.append(heading);
        r.append(detail.as_str());
        r
    }
}

/// The statement that loads the document `doc` into the table of `schema`:
/// the document is flattened from the top level, and its flat record becomes
/// one row.
pub fn insert_document(doc: JsonNode, schema: &TableSchema) -> (r: Result<
    InsertStatement,
    ETLPipelineError,
>)
    ensures
        r is Ok <==> insertable(*schema, flattened(doc, Seq::empty())),
        r matches Ok(s) ==> inserts_record(s, schema.name@, flattened(doc, Seq::empty())),
        r matches Err(e) ==> reports_bad_name(e, *schema, flattened(doc, Seq::empty())),
{
    let record = flatten(doc, String::new());
    build_insert(schema, record)
}

/// The first schema of the table named `table`, if any.
pub open spec fn schema_for(schemas: Seq<TableSchema>, table: Seq<char>) -> Option<TableSchema>
    decreases schemas.len(),
{
    if schemas.len() == 0 {
        None
    } else if schemas[0].name@ == table {
        Some(schemas[0])
    } else {
        schema_for(schemas.drop_first(), table)
    }
}

/// The schema of the table named `table` among the known ones.
pub fn find_schema<'a>(schemas: &'a Vec<TableSchema>, table: &str) -> (r: Option<&'a TableSchema>)
    ensures
        match r {
            Some(s) => schema_for(schemas@, table@) == Some(*s) && s.name@ == table@,
            None => schema_for(schemas@, table@) is None,
        },
{
    let name = table.to_owned();
    assert(schemas@.skip(0) =~= schemas@);
    let mut i: usize = 0;
    while i < schemas.len()
        invariant
            i <= schemas@.len(),
            name@ == table@,
            schema_for(schemas@, table@) == schema_for(schemas@.skip(i as int), table@),
        decreases schemas.len() - i,
    {
        assert(schemas@.skip(i as int).drop_first() =~= schemas@.skip(i + 1));
        assert(schemas@.skip(i as int)[0] == schemas@[i as int]);
        if schemas[i].name == name {
            return Some(&schemas[i]);
        }
        i = i + 1;
    }
    assert(schemas@.skip(schemas@.len() as int) =~= Seq::<TableSchema>::empty());
    None
}

/// An object none of whose members is an object loads as its members: the
/// statement has one column for each key of the object, and binds at that
/// column's position the member's value unchanged.
pub proof fn law_flat_object_loads_members(
    members: Vec<(String, JsonNode)>,
    table: Seq<char>,
    s: InsertStatement,
)
    requires
        forall|i: int| 0 <= i < members@.len() ==> !(#[trigger] members@[i].1 is Object),
        inserts_record(s, table, flattened(JsonNode::Object(members), Seq::empty())),
    ensures
        forall|i: int|
            0 <= i < s.columns@.len() ==> record_of(key_view(members@)).contains_key(
                s.columns@[i]@,
            ) && #[trigger] record_of(key_view(members@))[s.columns@[i]@] == s.params@[i],
        forall|k: Seq<char>| #[trigger]
            record_of(key_view(members@)).contains_key(k) <==> exists|i: int|
                0 <= i < s.columns@.len() && s.columns@[i]@ == k,
{
    law_flat_object_unchanged(members);
}

/// A statement that loads a document binds each of its leaves: where no two
/// leaves share a compound key, every leaf is bound, as it was in the
/// document, at the position of the column named by its compound key.
pub proof fn law_statement_binds_each_leaf(doc: JsonNode, table: Seq<char>, s: InsertStatement)
    requires
        keys_unique(leaves(doc, Seq::empty())),
        inserts_record(s, table, flattened(doc, Seq::empty())),
    ensures
        forall|i: int|
            0 <= i < leaves(doc, Seq::empty()).len() ==> exists|j: int|
                0 <= j < s.columns@.len() && s.columns@[j]@ == #[trigger] leaves(
                    doc,
                    Seq::empty(),
                )[i].0 && s.params@[j] == leaves(doc, Seq::empty())[i].1,
{
    let ls = leaves(doc, Seq::empty());
    let rec = flattened(doc, Seq::empty());
    law_each_leaf_one_entry(doc, Seq::empty());
    assert forall|i: int| 0 <= i < ls.len() implies exists|j: int|
        0 <= j < s.columns@.len() && s.columns@[j]@ == #[trigger] ls[i].0 && s.params@[j]
            == ls[i].1 by {
        assert(rec.contains_key(ls[i].0));
        let j = choose|j: int| 0 <= j < s.columns@.len() && s.columns@[j]@ == ls[i].0;
        assert(rec[s.columns@[j]@] == s.params@[j]);
    }
}

/// The statement that loads one file into `table`, from the outcome of
/// reading the file: its text, or what went wrong (kept as the detail of a
/// `FileReadError`). `schemas` are the tables that the store is known to
/// hold.
///
/// Text that is not JSON gives `JsonParseError`; a table that is not among
/// `schemas` gives `UnknownTable`; the document is otherwise loaded as
/// `insert_document` says.
pub fn prepare_insert(
    content: Result<String, String>,
    table: &str,
    schemas: &Vec<TableSchema>,
) -> (r: Result<InsertStatement, ETLPipelineError>)
    ensures
        content matches Err(d) ==> r == Err::<InsertStatement, ETLPipelineError>(
            ETLPipelineError::FileReadError(d),
        ),
        content matches Ok(t) ==> match document_of(t@) {
            None => r matches Err(ETLPipelineError::JsonParseError(_)),
            Some(doc) => match schema_for(schemas@, table@) {
                None => r matches Err(ETLPipelineError::UnknownTable(n)) && n@ == table@,
                Some(sc) => {
                    &&& r is Ok <==> insertable(sc, flattened(doc, Seq::empty()))
                    &&& r is Ok ==> inserts_record(r->Ok_0, table@, flattened(doc, Seq::empty()))
                    &&& r is Err ==> reports_bad_name(r->Err_0, sc, flattened(doc, Seq::empty()))
                },
            },
        },
{
    match content {
        Err(detail) => Err(ETLPipelineError::FileReadError(detail)),
        Ok(text) => match parse_document(text.as_str()) {
            Err(e) => Err(e),
            Ok(doc) => match find_schema(schemas, table) {
                None => Err(ETLPipelineError::UnknownTable(table.to_owned())),
                Some(schema) => insert_document(doc, schema),
            },
        },
    }
}

/// The suffix that marks the entries to load.
pub open spec fn json_suffix() -> Seq<char> {
    seq!['.', 'j', 's', 'o', 'n']
}

/// Does the name end in `.json`, in these very letters?
pub open spec fn is_json_name(name: Seq<char>) -> bool {
    name.len() >= 5 && name.subrange(name.len() - 5, name.len() as int) == json_suffix()
}

/// Does the entry name end in `.json`? The match is case-sensitive.
pub fn is_json_file_name(name: &str) -> (r: bool)
    ensures
        r == is_json_name(name@),
{
    let cs = chars_of(name);
    let n = cs.len();
    if n < 5 {
        return false;
    }
    let r = cs[n - 5] == '.' && cs[n - 4] == 'j' && cs[n - 3] == 's' && cs[n - 2] == 'o' && cs[n
        - 1] == 'n';
    proof {
        let tail = name@.subrange(n - 5, n as int);
        if r {
            assert(tail =~= json_suffix());
        } else {
            if tail == json_suffix() {
                assert(tail[0] == '.' && tail[1] == 'j' && tail[2] == 's' && tail[3] == 'o'
                    && tail[4] == 'n');
            }
        }
    }
    r
}

/// The positions, in listing order, of the names that end in `.json`.
pub open spec fn json_positions(names: Seq<Seq<char>>) -> Seq<usize>
    decreases names.len(),
{
    if names.len() == 0 {
        Seq::empty()
    } else {
        let rest = json_positions(names.drop_last());
        if is_json_name(names.last()) {
            rest.push((names.len() - 1) as usize)
        } else {
            rest
        }
    }
}

/// A run over the entries of one directory.
///
/// The entries whose names end in `.json` are loaded one at a time, in
/// listing order. The first failure ends the run: no later entry is loaded,
/// and that failure is what the run reports. The run does not go on past a
/// failure to count successes and failures.
pub struct DirectoryScan {
    selected: Vec<usize>,
    position: usize,
    failed: bool,
}

impl DirectoryScan {
    /// The positions in the listing of the entries to load, in order.
    pub closed spec fn selected(self) -> Seq<usize> {
        self.selected@
    }

    /// How many of them have been loaded.
    pub closed spec fn loaded_count(self) -> nat {
        self.position as nat
    }

    /// Has a load failed?
    pub closed spec fn has_failed(self) -> bool {
        self.failed
    }

    /// The run's invariant.
    pub closed spec fn wf(self) -> bool {
        self.position <= self.selected@.len()
    }

    /// Starts a run over a listing of entry names.
    pub fn new(names: &Vec<String>) -> (r: DirectoryScan)
        ensures
            r.wf(),
            r.selected() == json_positions(names@.map_values(|s: String| s@)),
            r.loaded_count() == 0,
            !r.has_failed(),
    {
        let ghost views = names@.map_values(|s: String| s@);
        let mut selected: Vec<usize> = Vec::new();
        let mut i: usize = 0;
        while i < names.len()
            invariant
                i <= names@.len(),
                views == names@.map_values(|s: String| s@),
                selected@ == json_positions(views.take(i as int)),
            decreases names.len() - i,
        {
            assert(views.take(i + 1).drop_last() =~= views.take(i as int));
            if is_json_file_name(names[i].as_str()) {
                selected.push(i);
            }
            i = i + 1;
        }
        assert(views.take(names@.len() as int) =~= views);
        DirectoryScan { selected, position: 0, failed: false }
    }

    /// The listing position of the next entry to load, or `None` when the run
    /// is over: every selected entry loaded, or a load failed.
    pub fn next_entry(&self) -> (r: Option<usize>)
        requires
            self.wf(),
        ensures
            r matches Some(i) ==> !self.has_failed() && self.loaded_count() < self.selected().len()
                && i == self.selected()[self.loaded_count() as int],
            r is None ==> self.has_failed() || self.loaded_count() == self.selected().len(),
    {
        if self.failed || self.position >= self.selected.len() {
            None
        } else {
            Some(self.selected[self.position])
        }
    }

    /// Records the outcome of loading the entry that `next_entry` gave.
    ///
    /// A success moves the run on to the next entry; a failure ends the run
    /// and is handed back, so that the caller stops and reports it.
    pub fn record(&mut self, outcome: Result<(), ETLPipelineError>) -> (r: Result<
        (),
        ETLPipelineError,
    >)
        requires
            old(self).wf(),
            !old(self).has_failed(),
            old(self).loaded_count() < old(self).selected().len(),
        ensures
            final(self).wf(),
            r == outcome,
            final(self).selected() == old(self).selected(),
            outcome is Ok ==> final(self).loaded_count() == old(self).loaded_count() + 1
                && !final(self).has_failed(),
            outcome is Err ==> final(self).loaded_count() == old(self).loaded_count()
                && final(self).has_failed(),
    {
        if outcome.is_ok() {
            assert(self.position < self.selected.len());
            self.position = self.position + 1;
        } else {
            self.failed = true;
        }
        outcome
    }

    /// How many entries have been loaded.
    pub fn loaded(&self) -> (r: usize)
        ensures
            r == self.loaded_count(),
    {
        self.position
    }
}

} // verus!
