//! The storage engine: one keyspace per table, each holding the table's
//! descriptor and its auto-increment counters, and the validation and
//! staging of inserted rows into one atomic batch.
use crate::error::DbError;
use crate::literal::literal_result;
use crate::seqs::{
    first_where, indices_where, lemma_first_where, lemma_first_where_found, lemma_first_where_step, lemma_indices_where,
    lemma_indices_where_step,
};
use crate::types::{
    lemma_position_of, lookup, names_unique, position_of, str_eq, zipped, ColumnDescriptor,
    ColumnDescriptors, CreateTableOptions, Expr, InsertOptions, Record, Value, ValueView,
};
use vstd::prelude::*;

verus! {

/// The reserved key under which a keyspace keeps its table's descriptor; no
/// row key can take this form.
pub const TABLE_METADATA_KEY: &'static str = "__metadata__";

/// An auto-increment counter's place: a table and one of its columns.
#[derive(Debug, Clone, PartialEq, Eq, Hash, PartialOrd, Ord)]
pub struct Entry {
    pub table: String,
    pub column: String,
}

/// The key of a stored row: its table and the values of its key columns
/// (the primary-key columns, or every column where there is none).
#[derive(Debug, Clone, PartialEq, Eq)]
pub struct RowKey {
    pub table: String,
    pub primary: Vec<Value>,
}

/// The rows of one insert, staged to be written together.
#[derive(Debug, Clone, PartialEq, Eq)]
pub struct WriteBatch {
    pub table: String,
    pub puts: Vec<(RowKey, Record)>,
}

/// One keyspace: a table's name, its descriptor where present, and one
/// counter per column (used by the auto-increment columns).
struct Keyspace {
    name: String,
    metadata: Option<ColumnDescriptors>,
    counters: Vec<u64>,
}

/// The content of one keyspace.
pub struct KeyspaceView {
    pub name: Seq<char>,
    pub metadata: Option<Seq<(String, ColumnDescriptor)>>,
    pub counters: Seq<u64>,
}

/// The catalog of tables and the auto-increment allocator.
pub struct StorageEngine {
    keyspaces: Vec<Keyspace>,
}

spec fn keyspace_view(k: Keyspace) -> KeyspaceView {
    KeyspaceView {
        name: k.name@,
        metadata: match k.metadata {
            Some(d) => Some(d@),
            None => None,
        },
        counters: k.counters@,
    }
}

impl View for StorageEngine {
    type V = Seq<KeyspaceView>;

    closed spec fn view(&self) -> Seq<KeyspaceView> {
        Seq::new(self.keyspaces@.len(), |i: int| keyspace_view(self.keyspaces@[i]))
    }
}

/// The position of the keyspace named `name`, if any.
pub open spec fn keyspace_position(ks: Seq<KeyspaceView>, name: Seq<char>) -> Option<int>
    decreases ks.len(),
{
    if ks.len() == 0 {
        None
    } else if ks.last().name == name {
        Some(ks.len() - 1)
    } else {
        keyspace_position(ks.drop_last(), name)
    }
}

pub proof fn lemma_keyspace_position(ks: Seq<KeyspaceView>, name: Seq<char>)
    ensures
        match keyspace_position(ks, name) {
            Some(i) => 0 <= i < ks.len() && ks[i].name == name,
            None => forall|k: int| 0 <= k < ks.len() ==> #[trigger] ks[k].name != name,
        },
    decreases ks.len(),
{
    if ks.len() > 0 {
        let prev = ks.drop_last();
        lemma_keyspace_position(prev, name);
        assert(ks.last() == ks[ks.len() - 1]);
        if ks.last().name != name && keyspace_position(prev, name) is None {
            assert forall|k: int| 0 <= k < ks.len() implies #[trigger] ks[k].name != name by {
                if k < ks.len() - 1 {
                    assert(ks[k] == prev[k]);
                }
            }
        }
    }
}

/// Keyspace names are unique, and each descriptor has unique column names
/// and one counter per column.
pub open spec fn engine_wf(ks: Seq<KeyspaceView>) -> bool {
    &&& forall|i: int, j: int|
        0 <= i < ks.len() && 0 <= j < ks.len() && i != j ==> #[trigger] ks[i].name
            != #[trigger] ks[j].name
    &&& forall|i: int|
        0 <= i < ks.len() ==> match #[trigger] ks[i].metadata {
            Some(d) => names_unique(d) && ks[i].counters.len() == d.len(),
            None => true,
        }
}

/// The counter of column `column` of table `table`, where that column is an
/// auto-increment column.
pub open spec fn counter_of(ks: Seq<KeyspaceView>, table: Seq<char>, column: Seq<char>) -> Option<u64> {
    match keyspace_position(ks, table) {
        Some(p) => match ks[p].metadata {
            Some(d) => match position_of(d, column) {
                Some(j) => if d[j].1.auto_increment {
                    Some(ks[p].counters[j])
                } else {
                    None
                },
                None => None,
            },
            None => None,
        },
        None => None,
    }
}

/// Whether a foreign key refers to a column of an existing table.
pub open spec fn reference_ok(ks: Seq<KeyspaceView>, fk: Option<(String, String)>) -> bool {
    match fk {
        None => true,
        Some((t, c)) => match keyspace_position(ks, t@) {
            Some(p) => ks[p].metadata matches Some(d) && position_of(d, c@) is Some,
            None => false,
        },
    }
}

/// Column `j` of `d` has a foreign key that refers to nothing.
pub open spec fn bad_reference_pred(ks: Seq<KeyspaceView>, d: Seq<(String, ColumnDescriptor)>) -> spec_fn(
    int,
) -> bool {
    |j: int| !reference_ok(ks, d[j].1.foreign_key)
}

/// Why `create_table` refuses a table, if it does: the name is taken, or
/// the first column whose foreign key refers to nothing.
pub open spec fn create_error(ks: Seq<KeyspaceView>, opts: CreateTableOptions) -> Option<DbError> {
    if keyspace_position(ks, opts.name@) is Some {
        Some(DbError::TableExists(opts.name))
    } else if let Some(j) = first_where(opts.columns@.len(), bad_reference_pred(ks, opts.columns@)) {
        Some(DbError::InvalidReference(opts.columns@[j].0))
    } else {
        None
    }
}

/// The keyspace that `create_table` adds.
pub open spec fn created_keyspace(opts: CreateTableOptions) -> KeyspaceView {
    KeyspaceView {
        name: opts.name@,
        metadata: Some(opts.columns@),
        counters: Seq::new(opts.columns@.len(), |j: int| 0u64),
    }
}

impl StorageEngine {
    /// Keyspace names are unique and every descriptor fits its counters.
    pub open spec fn wf(&self) -> bool {
        engine_wf(self@)
    }

    /// An engine with no tables.
    pub fn new() -> (r: StorageEngine)
        ensures
            r@.len() == 0,
            r.wf(),
    {
        let r = StorageEngine { keyspaces: Vec::new() };
        assert(r@ =~= Seq::<KeyspaceView>::empty());
        r
    }

    /// The position of the keyspace named `name`.
    fn find_keyspace(&self, name: &str) -> (r: Option<usize>)
        ensures
            match (r, keyspace_position(self@, name@)) {
                (Some(i), Some(j)) => i == j,
                (None, None) => true,
                _ => false,
            },
            r matches Some(i) ==> i < self.keyspaces@.len() && self@[i as int].name == name@,
    {
        proof {
            lemma_keyspace_position(self@, name@);
        }
        let mut i: usize = self.keyspaces.len();
        assert(self@.subrange(0, i as int) =~= self@);
        while i > 0
            invariant
                i <= self@.len(),
                self@.len() == self.keyspaces@.len(),
                keyspace_position(self@, name@) == keyspace_position(self@.subrange(0, i as int), name@),
            decreases i,
        {
            proof {
                assert(self@.subrange(0, i as int).drop_last() =~= self@.subrange(0, i - 1));
                assert(self@[i - 1] == keyspace_view(self.keyspaces@[i - 1]));
            }
            if str_eq(self.keyspaces[i - 1].name.as_str(), name) {
                return Some(i - 1);
            }
            i = i - 1;
        }
        None
    }

    /// Whether a keyspace named `name` exists.
    pub fn has_table(&self, name: &str) -> (r: bool)
        ensures
            r == (keyspace_position(self@, name@) is Some),
    {
        self.find_keyspace(name).is_some()
    }

    /// Creates the keyspace of a new table, holding its descriptor and a
    /// counter at zero for every column. Fails, changing nothing, where a
    /// keyspace of that name exists or a foreign key refers to a table or
    /// column that does not exist.
    pub fn create_table(&mut self, create_table: &CreateTableOptions) -> (r: Result<(), DbError>)
        requires
            old(self).wf(),
            create_table.columns.wf(),
        ensures
            final(self).wf(),
            r is Ok <==> create_error(old(self)@, *create_table) is None,
            r is Ok ==> final(self)@ == old(self)@.push(created_keyspace(*create_table)),
            r matches Err(e) ==> create_error(old(self)@, *create_table) == Some(e) && *final(self)
                == *old(self),
    {
        if self.find_keyspace(create_table.name.as_str()).is_some() {
            return Err(DbError::TableExists(create_table.name.clone()));
        }
        let ghost d = create_table.columns@;
        let ghost bp = bad_reference_pred(self@, d);
        let mut j: usize = 0;
        while j < create_table.columns.len()
            invariant
                j <= d.len(),
                d == create_table.columns@,
                bp == bad_reference_pred(self@, d),
                engine_wf(self@),
                self@ == old(self)@,
                keyspace_position(self@, create_table.name@) is None,
                first_where(j as nat, bp) is None,
            decreases d.len() - j,
        {
            proof {
                lemma_first_where_step(j as nat, bp);
            }
            if !self.reference_exists(&create_table.columns.entries[j].1.foreign_key) {
                proof {
                    lemma_first_where_found(d.len(), j as nat, bp);
                }
                return Err(DbError::InvalidReference(create_table.columns.entries[j].0.clone()));
            }
            j = j + 1;
        }
        let n = create_table.columns.len();
        let mut counters: Vec<u64> = Vec::new();
        let mut j: usize = 0;
        while j < n
            invariant
                j <= n,
                n == create_table.columns@.len(),
                counters@ == Seq::new(j as nat, |k: int| 0u64),
            decreases n - j,
        {
            counters.push(0u64);
            j = j + 1;
            assert(counters@ =~= Seq::new(j as nat, |k: int| 0u64));
        }
        let ks = Keyspace {
            name: create_table.name.clone(),
            metadata: Some(create_table.columns.deep_copy()),
            counters,
        };
        let ghost before = self@;
        proof {
            lemma_keyspace_position(before, create_table.name@);
        }
        self.keyspaces.push(ks);
        assert(self@ =~= before.push(created_keyspace(*create_table)));
        Ok(())
    }

    /// Adds a keyspace read back from the store as it is: its descriptor,
    /// if it has one, and its counters, one per column. Fails, changing
    /// nothing, where the name is taken, or the descriptor repeats a column
    /// name or its counters do not match its columns.
    pub fn restore_keyspace(
        &mut self,
        name: String,
        metadata: Option<ColumnDescriptors>,
        counters: Vec<u64>,
    ) -> (r: Result<(), DbError>)
        requires
            old(self).wf(),
        ensures
            final(self).wf(),
            keyspace_position(old(self)@, name@) is Some ==> r == Err::<(), DbError>(DbError::TableExists(name))
                && *final(self) == *old(self),
            keyspace_position(old(self)@, name@) is None ==> match metadata {
                Some(d) => if d.wf() && counters@.len() == d@.len() {
                    r is Ok && final(self)@ == old(self)@.push(
                        KeyspaceView { name: name@, metadata: Some(d@), counters: counters@ },
                    )
                } else {
                    r == Err::<(), DbError>(DbError::CorruptKeyspace(name)) && *final(self) == *old(self)
                },
                None => r is Ok && final(self)@ == old(self)@.push(
                    KeyspaceView { name: name@, metadata: None, counters: Seq::empty() },
                ),
            },
    {
        if self.find_keyspace(name.as_str()).is_some() {
            return Err(DbError::TableExists(name));
        }
        let ks = match metadata {
            Some(d) => {
                if !d.is_wf() || counters.len() != d.len() {
                    return Err(DbError::CorruptKeyspace(name));
                }
                Keyspace { name, metadata: Some(d), counters }
            },
            None => Keyspace { name, metadata: None, counters: Vec::new() },
        };
        let ghost before = self@;
        proof {
            lemma_keyspace_position(before, ks.name@);
        }
        self.keyspaces.push(ks);
        assert(self@ =~= before.push(keyspace_view(ks)));
        Ok(())
    }

    /// Whether a foreign key refers to a column of an existing table.
    fn reference_exists(&self, fk: &Option<(String, String)>) -> (r: bool)
        ensures
            r == reference_ok(self@, *fk),
    {
        match fk {
            None => true,
            Some((t, c)) => match self.find_keyspace(t.as_str()) {
                None => false,
                Some(p) => {
                    assert(self@[p as int] == keyspace_view(self.keyspaces@[p as int]));
                    match &self.keyspaces[p].metadata {
                        None => false,
                        Some(d) => d.contains_key(c.as_str()),
                    }
                },
            },
        }
    }

    /// The descriptor of table `name`.
    pub fn table_metadata(&self, name: &str) -> (r: Result<ColumnDescriptors, DbError>)
        ensures
            match keyspace_position(self@, name@) {
                None => r matches Err(DbError::NoSuchTable(s)) && s@ == name@,
                Some(p) => match self@[p].metadata {
                    Some(d) => r matches Ok(c) && c@ == d,
                    None => r matches Err(DbError::NoMetadata(s)) && s@ == name@,
                },
            },
    {
        match self.find_keyspace(name) {
            None => Err(DbError::NoSuchTable(String::from_str(name))),
            Some(p) => {
                assert(self@[p as int] == keyspace_view(self.keyspaces@[p as int]));
                match &self.keyspaces[p].metadata {
                    Some(d) => Ok(d.deep_copy()),
                    None => Err(DbError::NoMetadata(String::from_str(name))),
                }
            },
        }
    }

    /// The counter of an auto-increment column: the last value it handed
    /// out, zero where it handed out none.
    pub fn counter(&self, entry: &Entry) -> (r: Option<u64>)
        requires
            self.wf(),
        ensures
            r == counter_of(self@, entry.table@, entry.column@),
    {
        match self.find_keyspace(entry.table.as_str()) {
            None => None,
            Some(p) => {
                assert(self@[p as int] == keyspace_view(self.keyspaces@[p as int]));
                match &self.keyspaces[p].metadata {
                    None => None,
                    Some(d) => match d.position(entry.column.as_str()) {
                        None => None,
                        Some(j) => {
                            proof {
                                lemma_position_of(d@, entry.column@);
                            }
                            if d.entries[j].1.auto_increment {
                                Some(self.keyspaces[p].counters[j])
                            } else {
                                None
                            }
                        },
                    },
                }
            },
        }
    }
}

/// The character of a decimal digit.
pub open spec fn digit_char(d: nat) -> char {
    if d == 0 {
        '0'
    } else if d == 1 {
        '1'
    } else if d == 2 {
        '2'
    } else if d == 3 {
        '3'
    } else if d == 4 {
        '4'
    } else if d == 5 {
        '5'
    } else if d == 6 {
        '6'
    } else if d == 7 {
        '7'
    } else if d == 8 {
        '8'
    } else {
        '9'
    }
}

/// The decimal text of `n`: no sign, no leading zeros.
pub open spec fn nat_text(n: nat) -> Seq<char>
    decreases n,
{
    if n < 10 {
        seq![digit_char(n)]
    } else {
        nat_text(n / 10).push(digit_char(n % 10))
    }
}

/// Relies on `to_string` of `u64`, which writes it in decimal with no sign
/// and no leading zeros.
#[verifier::external_body]
fn decimal_of_u64(n: u64) -> (r: String)
    ensures
        r@ == nat_text(n as nat),
{
    n.to_string()
}

/// Whether `name` is one of the supplied columns.
pub open spec fn supplied(cols: Seq<String>, name: Seq<char>) -> bool {
    exists|k: int| 0 <= k < cols.len() && #[trigger] cols[k]@ == name
}

/// Supplied column `k` is not a column of the table.
pub open spec fn unknown_pred(d: Seq<(String, ColumnDescriptor)>, cols: Seq<String>) -> spec_fn(int) -> bool {
    |k: int| position_of(d, cols[k]@) is None
}

/// Table column `j` must be supplied and is not.
pub open spec fn missing_pred(d: Seq<(String, ColumnDescriptor)>, cols: Seq<String>) -> spec_fn(int) -> bool {
    |j: int| d[j].1.spec_needs_value() && !supplied(cols, d[j].0@)
}

/// Table column `j` is not supplied and the engine fills it.
pub open spec fn generate_pred(d: Seq<(String, ColumnDescriptor)>, cols: Seq<String>) -> spec_fn(int) -> bool {
    |j: int| !supplied(cols, d[j].0@) && d[j].1.spec_should_generate()
}

/// The table columns that an insert of `cols` fills, in table order.
pub open spec fn generated_columns(d: Seq<(String, ColumnDescriptor)>, cols: Seq<String>) -> Seq<int> {
    indices_where(d.len(), generate_pred(d, cols))
}

/// The outcome of validating an insert's columns against a descriptor.
pub struct Classification {
    /// Positions of supplied columns that the table lacks.
    pub unknown: Vec<usize>,
    /// Positions of table columns that are required and not supplied.
    pub missing: Vec<usize>,
    /// Positions of table columns that are not supplied and get a value
    /// from the engine.
    pub generate: Vec<usize>,
}

/// Positions as integers.
pub open spec fn as_ints(v: Seq<usize>) -> Seq<int> {
    v.map_values(|x: usize| x as int)
}

/// Whether `name` is among `cols`.
fn contains_name(cols: &Vec<String>, name: &String) -> (r: bool)
    ensures
        r == supplied(cols@, name@),
{
    let mut k: usize = 0;
    while k < cols.len()
        invariant
            k <= cols@.len(),
            forall|m: int| 0 <= m < k ==> cols@[m]@ != name@,
        decreases cols@.len() - k,
    {
        if cols[k] == *name {
            return true;
        }
        k = k + 1;
    }
    false
}

/// Sorts the columns of an insert against a table's descriptor: the
/// supplied columns that the table lacks, the required columns left out, and
/// the omitted columns for which the engine makes a value.
pub fn classify(columns: &ColumnDescriptors, supplied_columns: &Vec<String>) -> (r: Classification)
    ensures
        as_ints(r.unknown@) == indices_where(supplied_columns@.len(), unknown_pred(columns@, supplied_columns@)),
        as_ints(r.missing@) == indices_where(columns@.len(), missing_pred(columns@, supplied_columns@)),
        as_ints(r.generate@) == generated_columns(columns@, supplied_columns@),
{
    let ghost d = columns@;
    let ghost cols = supplied_columns@;
    let mut unknown: Vec<usize> = Vec::new();
    let mut k: usize = 0;
    while k < supplied_columns.len()
        invariant
            k <= cols.len(),
            cols == supplied_columns@,
            d == columns@,
            as_ints(unknown@) == indices_where(k as nat, unknown_pred(d, cols)),
        decreases cols.len() - k,
    {
        proof {
            lemma_indices_where_step(k as nat, unknown_pred(d, cols));
        }
        if !columns.contains_key(supplied_columns[k].as_str()) {
            unknown.push(k);
        }
        assert(as_ints(unknown@) =~= indices_where((k + 1) as nat, unknown_pred(d, cols)));
        k = k + 1;
    }
    let mut missing: Vec<usize> = Vec::new();
    let mut generate: Vec<usize> = Vec::new();
    let mut j: usize = 0;
    while j < columns.entries.len()
        invariant
            j <= d.len(),
            cols == supplied_columns@,
            d == columns@,
            as_ints(missing@) == indices_where(j as nat, missing_pred(d, cols)),
            as_ints(generate@) == indices_where(j as nat, generate_pred(d, cols)),
        decreases d.len() - j,
    {
        proof {
            lemma_indices_where_step(j as nat, missing_pred(d, cols));
            lemma_indices_where_step(j as nat, generate_pred(d, cols));
        }
        let desc = &columns.entries[j].1;
        let present = contains_name(supplied_columns, &columns.entries[j].0);
        if desc.needs_value() && !present {
            missing.push(j);
        }
        if !present && desc.should_generate() {
            generate.push(j);
        }
        assert(as_ints(missing@) =~= indices_where((j + 1) as nat, missing_pred(d, cols)));
        assert(as_ints(generate@) =~= indices_where((j + 1) as nat, generate_pred(d, cols)));
        j = j + 1;
    }
    Classification { unknown, missing, generate }
}

/// The value that a column's default expression materialises to: the value
/// of a literal that converts, otherwise none.
pub open spec fn default_value_of(c: ColumnDescriptor) -> Option<ValueView> {
    match c.default {
        Some(Expr::Literal(l)) => match literal_result(l) {
            Ok(v) => Some(v),
            Err(_) => None,
        },
        _ => None,
    }
}

/// The value made for an omitted column in row `i` of an insert: the next
/// counter value for an auto-increment column, else the default.
pub open spec fn generated_value(c: ColumnDescriptor, counter: u64, i: int) -> ValueView {
    if c.auto_increment {
        ValueView::Number(nat_text((counter + i + 1) as nat))
    } else {
        default_value_of(c).unwrap()
    }
}

/// Row `i` of an insert as stored: the supplied pairs, then one pair per
/// generated column in table order.
pub open spec fn full_record(
    d: Seq<(String, ColumnDescriptor)>,
    cols: Seq<String>,
    row: Seq<Value>,
    counters: Seq<u64>,
    i: int,
) -> Seq<(Seq<char>, ValueView)> {
    let gen = generated_columns(d, cols);
    zipped(cols, row) + Seq::new(
        gen.len(),
        |g: int| (d[gen[g]].0@, generated_value(d[gen[g]].1, counters[gen[g]], i)),
    )
}

/// The columns that make up a row's key: the primary-key columns, or all
/// columns where there is none.
pub open spec fn key_columns(d: Seq<(String, ColumnDescriptor)>) -> Seq<int> {
    let pk = indices_where(d.len(), |j: int| d[j].1.primary_key);
    if pk.len() > 0 {
        pk
    } else {
        indices_where(d.len(), |j: int| true)
    }
}

/// The key values of a stored row: the row's value of each key column, null
/// where it has none.
pub open spec fn row_key_values(
    d: Seq<(String, ColumnDescriptor)>,
    rec: Seq<(Seq<char>, ValueView)>,
) -> Seq<ValueView> {
    let kc = key_columns(d);
    Seq::new(
        kc.len(),
        |q: int|
            match lookup(rec, d[kc[q]].0@) {
                Some(v) => v,
                None => ValueView::Null,
            },
    )
}

/// The content of each value.
pub open spec fn values_view(v: Seq<Value>) -> Seq<ValueView> {
    v.map_values(|x: Value| x@)
}

/// Builds row `i` of an insert: the supplied pairs, then the generated ones.
fn stage_row(
    columns: &ColumnDescriptors,
    supplied_columns: &Vec<String>,
    row: &Vec<Value>,
    generate: &Vec<usize>,
    fills: &Vec<Option<Value>>,
    counters: &Vec<u64>,
    i: usize,
    n: usize,
) -> (r: Record)
    requires
        i < n,
        row@.len() == supplied_columns@.len(),
        as_ints(generate@) == generated_columns(columns@, supplied_columns@),
        fills@.len() == generate@.len(),
        counters@.len() == columns@.len(),
        forall|g: int|
            0 <= g < generate@.len() ==> {
                let j = #[trigger] generate@[g] as int;
                &&& (fills@[g] is None <==> columns@[j].1.auto_increment)
                &&& columns@[j].1.auto_increment ==> counters@[j] + n <= u64::MAX
                &&& fills@[g] matches Some(v) ==> default_value_of(columns@[j].1) == Some(v@)
            },
    ensures
        r@ == full_record(columns@, supplied_columns@, row@, counters@, i as int),
{
    let ghost d = columns@;
    let ghost cols = supplied_columns@;
    proof {
        lemma_indices_where(d.len(), generate_pred(d, cols));
    }
    let mut pairs: Vec<(String, Value)> = Vec::new();
    let mut k: usize = 0;
    while k < supplied_columns.len()
        invariant
            k <= cols.len(),
            cols == supplied_columns@,
            row@.len() == cols.len(),
            pairs@.len() == k,
            forall|m: int| 0 <= m < k ==> (#[trigger] pairs@[m]).0@ == cols[m]@ && pairs@[m].1@ == row@[m]@,
        decreases cols.len() - k,
    {
        pairs.push((supplied_columns[k].clone(), row[k].deep_copy()));
        k = k + 1;
    }
    let ghost gen = generated_columns(d, cols);
    let mut g: usize = 0;
    while g < generate.len()
        invariant
            g <= generate@.len(),
            d == columns@,
            cols == supplied_columns@,
            gen == generated_columns(d, cols),
            as_ints(generate@) == gen,
            i < n,
            fills@.len() == generate@.len(),
            counters@.len() == d.len(),
            forall|h: int| 0 <= h < gen.len() ==> 0 <= #[trigger] gen[h] < d.len(),
            forall|h: int|
                0 <= h < generate@.len() ==> {
                    let j = #[trigger] generate@[h] as int;
                    &&& (fills@[h] is None <==> d[j].1.auto_increment)
                    &&& d[j].1.auto_increment ==> counters@[j] + n <= u64::MAX
                    &&& fills@[h] matches Some(v) ==> default_value_of(d[j].1) == Some(v@)
                },
            row@.len() == cols.len(),
            pairs@.len() == cols.len() + g,
            forall|m: int| 0 <= m < cols.len() ==> (#[trigger] pairs@[m]).0@ == cols[m]@ && pairs@[m].1@ == row@[m]@,
            forall|h: int|
                0 <= h < g ==> (#[trigger] pairs@[cols.len() + h]).0@ == d[gen[h]].0@ && pairs@[cols.len()
                    + h].1@ == generated_value(d[gen[h]].1, counters@[gen[h]], i as int),
        decreases generate@.len() - g,
    {
        let j = generate[g];
        assert(gen[g as int] == j as int);
        let value = match &fills[g] {
            Some(v) => v.deep_copy(),
            None => Value::Number(decimal_of_u64(counters[j] + i as u64 + 1)),
        };
        pairs.push((columns.entries[j].0.clone(), value));
        g = g + 1;
    }
    let r = Record { columns: pairs };
    let ghost z = zipped(cols, row@);
    let ghost tail = Seq::new(
        gen.len(),
        |h: int| (d[gen[h]].0@, generated_value(d[gen[h]].1, counters@[gen[h]], i as int)),
    );
    assert(vstd::math::min(cols.len() as int, row@.len() as int) == cols.len());
    assert(z.len() == cols.len());
    assert forall|m: int| 0 <= m < r@.len() implies r@[m] == (z + tail)[m] by {
        if m < cols.len() {
            assert(r@[m] == (pairs@[m].0@, pairs@[m].1@));
        } else {
            let h = m - cols.len();
            assert(pairs@[cols.len() + h] == pairs@[m]);
        }
    }
    assert(r@ =~= z + tail);
    r
}

/// The positions of the key columns of a table.
fn key_column_positions(columns: &ColumnDescriptors) -> (r: Vec<usize>)
    ensures
        as_ints(r@) == key_columns(columns@),
{
    let ghost d = columns@;
    let ghost pk_pred = |j: int| d[j].1.primary_key;
    let ghost all_pred = |j: int| true;
    let mut pk: Vec<usize> = Vec::new();
    let mut j: usize = 0;
    while j < columns.entries.len()
        invariant
            j <= d.len(),
            d == columns@,
            pk_pred == (|j: int| d[j].1.primary_key),
            as_ints(pk@) == indices_where(j as nat, pk_pred),
        decreases d.len() - j,
    {
        proof {
            lemma_indices_where_step(j as nat, pk_pred);
        }
        if columns.entries[j].1.primary_key {
            pk.push(j);
        }
        assert(as_ints(pk@) =~= indices_where((j + 1) as nat, pk_pred));
        j = j + 1;
    }
    if pk.len() > 0 {
        return pk;
    }
    let mut all: Vec<usize> = Vec::new();
    let mut j: usize = 0;
    while j < columns.entries.len()
        invariant
            j <= d.len(),
            d == columns@,
            all_pred == (|j: int| true),
            as_ints(all@) == indices_where(j as nat, all_pred),
        decreases d.len() - j,
    {
        proof {
            lemma_indices_where_step(j as nat, all_pred);
        }
        all.push(j);
        assert(as_ints(all@) =~= indices_where((j + 1) as nat, all_pred));
        j = j + 1;
    }
    all
}

/// The key values of a staged row.
fn row_key(columns: &ColumnDescriptors, key_cols: &Vec<usize>, rec: &Record) -> (r: Vec<Value>)
    requires
        as_ints(key_cols@) == key_columns(columns@),
    ensures
        values_view(r@) == row_key_values(columns@, rec@),
{
    let ghost d = columns@;
    let ghost kc = key_columns(d);
    proof {
        lemma_indices_where(d.len(), |j: int| d[j].1.primary_key);
        lemma_indices_where(d.len(), |j: int| true);
    }
    let mut out: Vec<Value> = Vec::new();
    let mut q: usize = 0;
    while q < key_cols.len()
        invariant
            q <= key_cols@.len(),
            d == columns@,
            kc == key_columns(d),
            as_ints(key_cols@) == kc,
            forall|h: int| 0 <= h < kc.len() ==> 0 <= #[trigger] kc[h] < d.len(),
            out@.len() == q,
            forall|m: int|
                0 <= m < q ==> (#[trigger] out@[m])@ == match lookup(rec@, d[kc[m]].0@) {
                    Some(v) => v,
                    None => ValueView::Null,
                },
        decreases key_cols@.len() - q,
    {
        let j = key_cols[q];
        assert(kc[q as int] == j as int);
        let v = match rec.get(columns.entries[j].0.as_str()) {
            Some(v) => v.deep_copy(),
            None => Value::Null,
        };
        out.push(v);
        q = q + 1;
    }
    assert(values_view(out@) =~= row_key_values(d, rec@));
    out
}

/// Supplied column `k` holds, in `row`, a value that its column's type
/// refuses.
pub open spec fn mismatch_pred(
    d: Seq<(String, ColumnDescriptor)>,
    cols: Seq<String>,
    row: Seq<Value>,
) -> spec_fn(int) -> bool {
    |k: int| !d[position_of(d, cols[k]@).unwrap()].1.spec_value_matches_type(row[k]@)
}

/// Row `i` holds a value that its column's type refuses.
pub open spec fn row_mismatch_pred(
    d: Seq<(String, ColumnDescriptor)>,
    cols: Seq<String>,
    rows: Seq<Vec<Value>>,
) -> spec_fn(int) -> bool {
    |i: int| first_where(cols.len(), mismatch_pred(d, cols, rows[i]@)) is Some
}

/// Row `i` does not have one value per supplied column.
pub open spec fn length_pred(cols: Seq<String>, rows: Seq<Vec<Value>>) -> spec_fn(int) -> bool {
    |i: int| rows[i]@.len() != cols.len()
}

/// Generated column `g` (a position in [`generated_columns`]) cannot be
/// filled for `n` rows: its counter would pass its largest value, or it has
/// no default that materialises.
pub open spec fn fill_problem_pred(
    d: Seq<(String, ColumnDescriptor)>,
    cols: Seq<String>,
    counters: Seq<u64>,
    n: nat,
) -> spec_fn(int) -> bool {
    |g: int|
        {
            let j = generated_columns(d, cols)[g];
            if d[j].1.auto_increment {
                counters[j] + n > u64::MAX
            } else {
                default_value_of(d[j].1) is None
            }
        }
}

/// Why an insert into a table with descriptor `d` and counters `counters`
/// fails, checked in this order: an unknown column, a missing required
/// column, a row of the wrong length, a value of the wrong type, a column
/// that cannot be filled.
pub open spec fn validation_error(
    d: Seq<(String, ColumnDescriptor)>,
    counters: Seq<u64>,
    opts: InsertOptions,
) -> Option<DbError> {
    let cols = opts.columns@;
    let rows = opts.values@;
    let unknown = indices_where(cols.len(), unknown_pred(d, cols));
    let missing = indices_where(d.len(), missing_pred(d, cols));
    let gen = generated_columns(d, cols);
    if unknown.len() > 0 {
        Some(DbError::UnknownColumn(cols[unknown[0]]))
    } else if missing.len() > 0 {
        Some(DbError::MissingColumn(d[missing[0]].0))
    } else if let Some(i) = first_where(rows.len(), length_pred(cols, rows)) {
        Some(DbError::RowLength(i as usize))
    } else if let Some(i) = first_where(rows.len(), row_mismatch_pred(d, cols, rows)) {
        Some(DbError::TypeMismatch(cols[first_where(cols.len(), mismatch_pred(d, cols, rows[i]@)).unwrap()]))
    } else if let Some(g) = first_where(gen.len(), fill_problem_pred(d, cols, counters, rows.len())) {
        if d[gen[g]].1.auto_increment {
            Some(DbError::CounterExhausted(d[gen[g]].0))
        } else {
            Some(DbError::CannotGenerate(d[gen[g]].0))
        }
    } else {
        None
    }
}

/// Why an insert fails against the keyspaces `ks`, if it does.
pub open spec fn insert_error(ks: Seq<KeyspaceView>, opts: InsertOptions) -> Option<DbError> {
    match keyspace_position(ks, opts.table@) {
        None => Some(DbError::NoSuchTable(opts.table)),
        Some(p) => match ks[p].metadata {
            None => Some(DbError::NoMetadata(opts.table)),
            Some(d) => validation_error(d, ks[p].counters, opts),
        },
    }
}

/// The counters after `n` rows were inserted with columns `cols`: each
/// generated auto-increment column advances by `n`.
pub open spec fn advanced_counters(
    d: Seq<(String, ColumnDescriptor)>,
    cols: Seq<String>,
    counters: Seq<u64>,
    n: nat,
) -> Seq<u64> {
    Seq::new(
        counters.len(),
        |j: int|
            if generate_pred(d, cols)(j) && d[j].1.auto_increment {
                (counters[j] + n) as u64
            } else {
                counters[j]
            },
    )
}

/// A successful insert: the batch holds one keyed record per row, and only
/// the table's counters change.
pub open spec fn inserted(
    ks: Seq<KeyspaceView>,
    opts: InsertOptions,
    batch: WriteBatch,
    after: Seq<KeyspaceView>,
) -> bool {
    let p = keyspace_position(ks, opts.table@).unwrap();
    let d = ks[p].metadata.unwrap();
    let counters = ks[p].counters;
    let rows = opts.values@;
    &&& batch.table@ == opts.table@
    &&& batch.puts@.len() == rows.len()
    &&& forall|i: int|
        0 <= i < rows.len() ==> {
            let rec = full_record(d, opts.columns@, rows[i]@, counters, i);
            &&& (#[trigger] batch.puts@[i]).1@ == rec
            &&& batch.puts@[i].0.table@ == opts.table@
            &&& values_view(batch.puts@[i].0.primary@) == row_key_values(d, rec)
        }
    &&& after == ks.update(
        p,
        KeyspaceView {
            name: ks[p].name,
            metadata: ks[p].metadata,
            counters: advanced_counters(d, opts.columns@, counters, rows.len()),
        },
    )
}

/// What holds once an insert's table is found and its columns are known.
spec fn insert_context(
    ks: Seq<KeyspaceView>,
    opts: InsertOptions,
    p: int,
    d: Seq<(String, ColumnDescriptor)>,
    counters: Seq<u64>,
) -> bool {
    &&& engine_wf(ks)
    &&& keyspace_position(ks, opts.table@) == Some(p)
    &&& 0 <= p < ks.len()
    &&& ks[p].metadata == Some(d)
    &&& ks[p].counters == counters
    &&& names_unique(d)
    &&& counters.len() == d.len()
    &&& indices_where(opts.columns@.len(), unknown_pred(d, opts.columns@)).len() == 0
    &&& indices_where(d.len(), missing_pred(d, opts.columns@)).len() == 0
}

impl StorageEngine {
    /// Validates an insert against its table and stages its rows into one
    /// batch. Each supplied value must fit its column's type; each omitted
    /// auto-increment column takes the next values of its counter, each
    /// other omitted column with a default takes that default. On any
    /// failure nothing changes and nothing is staged.
    pub fn insert_rows(&mut self, insert_op: &InsertOptions) -> (r: Result<WriteBatch, DbError>)
        requires
            old(self).wf(),
        ensures
            final(self).wf(),
            r is Err <==> insert_error(old(self)@, *insert_op) is Some,
            r matches Err(e) ==> insert_error(old(self)@, *insert_op) == Some(e) && *final(self)
                == *old(self),
            r matches Ok(b) ==> inserted(old(self)@, *insert_op, b, final(self)@),
    {
        let ghost ks = self@;
        let p = match self.find_keyspace(insert_op.table.as_str()) {
            None => return Err(DbError::NoSuchTable(insert_op.table.clone())),
            Some(p) => p,
        };
        assert(self@[p as int] == keyspace_view(self.keyspaces@[p as int]));
        let columns = match &self.keyspaces[p].metadata {
            None => return Err(DbError::NoMetadata(insert_op.table.clone())),
            Some(d) => d,
        };
        let ghost d = columns@;
        let ghost cols = insert_op.columns@;
        let ghost rows = insert_op.values@;
        let counters = &self.keyspaces[p].counters;
        assert(counters@ == ks[p as int].counters);
        assert(names_unique(d) && counters@.len() == d.len());
        let n = insert_op.values.len();
        let cls = classify(columns, &insert_op.columns);
        proof {
            lemma_indices_where(cols.len(), unknown_pred(d, cols));
            lemma_keyspace_position(ks, insert_op.table@);
        }
        if cls.unknown.len() > 0 {
            assert(as_ints(cls.unknown@)[0] == cls.unknown@[0] as int);
            return Err(DbError::UnknownColumn(insert_op.columns[cls.unknown[0]].clone()));
        }
        if cls.missing.len() > 0 {
            proof {
                lemma_indices_where(d.len(), missing_pred(d, cols));
            }
            assert(as_ints(cls.missing@)[0] == cls.missing@[0] as int);
            return Err(DbError::MissingColumn(columns.entries[cls.missing[0]].0.clone()));
        }
        proof {
            lemma_indices_where(cols.len(), unknown_pred(d, cols));
        }
        // Every row has one value per column.
        let mut i: usize = 0;
        while i < n
            invariant
                ks == old(self)@,
                insert_context(ks, *insert_op, p as int, d, counters@),
                i <= n,
                n == rows.len(),
                rows == insert_op.values@,
                cols == insert_op.columns@,
                first_where(i as nat, length_pred(cols, rows)) is None,
            decreases n - i,
        {
            proof {
                lemma_first_where_step(i as nat, length_pred(cols, rows));
            }
            if insert_op.values[i].len() != insert_op.columns.len() {
                proof {
                    lemma_first_where_found(n as nat, i as nat, length_pred(cols, rows));
                }
                return Err(DbError::RowLength(i));
            }
            i = i + 1;
        }
        proof {
            lemma_first_where(n as nat, length_pred(cols, rows));
            assert forall|m: int| 0 <= m < n implies (#[trigger] rows[m])@.len() == cols.len() by {
                assert(!length_pred(cols, rows)(m));
            }
        }
        // The position in the table of each supplied column.
        let mut positions: Vec<usize> = Vec::new();
        let mut k: usize = 0;
        while k < insert_op.columns.len()
            invariant
                ks == old(self)@,
                insert_context(ks, *insert_op, p as int, d, counters@),
                k <= cols.len(),
                cols == insert_op.columns@,
                d == columns@,
                indices_where(cols.len(), unknown_pred(d, cols)).len() == 0,
                forall|m: int| 0 <= m < cols.len() && unknown_pred(d, cols)(m) ==> #[trigger] indices_where(
                    cols.len(),
                    unknown_pred(d, cols),
                ).contains(m),
                positions@.len() == k,
                forall|m: int| 0 <= m < k ==> Some(#[trigger] positions@[m] as int) == position_of(d, cols[m]@),
                forall|m: int| 0 <= m < k ==> 0 <= #[trigger] positions@[m] < d.len(),
                n == rows.len(),
                rows == insert_op.values@,
                first_where(n as nat, length_pred(cols, rows)) is None,
                forall|m: int| 0 <= m < n ==> (#[trigger] rows[m])@.len() == cols.len(),
            decreases cols.len() - k,
        {
            proof {
                lemma_position_of(d, cols[k as int]@);
            }
            assert(forall|m: int| 0 <= m < k ==> Some(#[trigger] positions@[m] as int) == position_of(d, cols[m]@));
            match columns.position(insert_op.columns[k].as_str()) {
                Some(j) => positions.push(j),
                None => {
                    assert(indices_where(cols.len(), unknown_pred(d, cols)).contains(k as int));
                    return Err(DbError::UnknownColumn(insert_op.columns[k].clone()));
                },
            }
            k = k + 1;
        }
        // Every value fits its column's type.
        let mut i: usize = 0;
        while i < n
            invariant
                ks == old(self)@,
                insert_context(ks, *insert_op, p as int, d, counters@),
                i <= n,
                n == rows.len(),
                rows == insert_op.values@,
                cols == insert_op.columns@,
                d == columns@,
                positions@.len() == cols.len(),
                forall|m: int| 0 <= m < cols.len() ==> Some(#[trigger] positions@[m] as int) == position_of(d, cols[m]@),
                forall|m: int| 0 <= m < cols.len() ==> 0 <= #[trigger] positions@[m] < d.len(),
                forall|m: int| 0 <= m < n ==> (#[trigger] rows[m])@.len() == cols.len(),
                first_where(n as nat, length_pred(cols, rows)) is None,
                first_where(i as nat, row_mismatch_pred(d, cols, rows)) is None,
            decreases n - i,
        {
            let row = &insert_op.values[i];
            let ghost mp = mismatch_pred(d, cols, row@);
            let mut k: usize = 0;
            while k < insert_op.columns.len()
                invariant
                    ks == old(self)@,
                    insert_context(ks, *insert_op, p as int, d, counters@),
                    i < n,
                    n == rows.len(),
                    rows == insert_op.values@,
                    first_where(n as nat, length_pred(cols, rows)) is None,
                    first_where(i as nat, row_mismatch_pred(d, cols, rows)) is None,
                    k <= cols.len(),
                    row@.len() == cols.len(),
                    row == insert_op.values@[i as int],
                    cols == insert_op.columns@,
                    d == columns@,
                    mp == mismatch_pred(d, cols, row@),
                    positions@.len() == cols.len(),
                    forall|m: int| 0 <= m < cols.len() ==> Some(#[trigger] positions@[m] as int) == position_of(d, cols[m]@),
                    forall|m: int| 0 <= m < cols.len() ==> 0 <= #[trigger] positions@[m] < d.len(),
                    first_where(k as nat, mp) is None,
                decreases cols.len() - k,
            {
                proof {
                    lemma_first_where_step(k as nat, mp);
                }
                if !columns.entries[positions[k]].1.value_matches_type(&row[k]) {
                    proof {
                        lemma_first_where_found(cols.len(), k as nat, mp);
                        lemma_first_where_found(n as nat, i as nat, row_mismatch_pred(d, cols, rows));
                    }
                    return Err(DbError::TypeMismatch(insert_op.columns[k].clone()));
                }
                k = k + 1;
            }
            proof {
                lemma_first_where_step(i as nat, row_mismatch_pred(d, cols, rows));
            }
            i = i + 1;
        }
        proof {
            lemma_first_where(n as nat, row_mismatch_pred(d, cols, rows));
        }
        // What fills each generated column.
        let ghost gen = generated_columns(d, cols);
        proof {
            lemma_indices_where(d.len(), generate_pred(d, cols));
        }
        let ghost fp = fill_problem_pred(d, cols, counters@, n as nat);
        let mut fills: Vec<Option<Value>> = Vec::new();
        let mut g: usize = 0;
        while g < cls.generate.len()
            invariant
                ks == old(self)@,
                insert_context(ks, *insert_op, p as int, d, counters@),
                g <= cls.generate@.len(),
                first_where(n as nat, length_pred(cols, rows)) is None,
                first_where(n as nat, row_mismatch_pred(d, cols, rows)) is None,
                n == rows.len(),
                rows == insert_op.values@,
                d == columns@,
                cols == insert_op.columns@,
                gen == generated_columns(d, cols),
                as_ints(cls.generate@) == gen,
                forall|h: int| 0 <= h < gen.len() ==> 0 <= #[trigger] gen[h] < d.len(),
                counters@.len() == d.len(),
                fp == fill_problem_pred(d, cols, counters@, n as nat),
                first_where(g as nat, fp) is None,
                fills@.len() == g,
                forall|h: int|
                    0 <= h < g ==> {
                        let j = #[trigger] cls.generate@[h] as int;
                        &&& (fills@[h] is None <==> d[j].1.auto_increment)
                        &&& d[j].1.auto_increment ==> counters@[j] + n <= u64::MAX
                        &&& fills@[h] matches Some(v) ==> default_value_of(d[j].1) == Some(v@)
                    },
            decreases cls.generate@.len() - g,
        {
            proof {
                lemma_first_where_step(g as nat, fp);
            }
            let j = cls.generate[g];
            assert(gen[g as int] == j as int);
            let desc = &columns.entries[j].1;
            if desc.auto_increment {
                if counters[j] > u64::MAX - n as u64 {
                    proof {
                        lemma_first_where_found(gen.len(), g as nat, fp);
                    }
                    return Err(DbError::CounterExhausted(columns.entries[j].0.clone()));
                }
                fills.push(None);
            } else {
                match &desc.default {
                    Some(Expr::Literal(lit)) => match Value::from_literal(lit) {
                        Ok(v) => fills.push(Some(v)),
                        Err(_) => {
                            proof {
                                lemma_first_where_found(gen.len(), g as nat, fp);
                            }
                            return Err(DbError::CannotGenerate(columns.entries[j].0.clone()));
                        },
                    },
                    _ => {
                        proof {
                            lemma_first_where_found(gen.len(), g as nat, fp);
                        }
                        return Err(DbError::CannotGenerate(columns.entries[j].0.clone()));
                    },
                }
            }
            g = g + 1;
        }
        proof {
            lemma_first_where(cls.generate@.len() as nat, fp);
            lemma_first_where(n as nat, row_mismatch_pred(d, cols, rows));
        }
        assert(validation_error(d, counters@, *insert_op) is None);
        // Stage the rows.
        let key_cols = key_column_positions(columns);
        let mut puts: Vec<(RowKey, Record)> = Vec::new();
        let mut i: usize = 0;
        while i < n
            invariant
                ks == old(self)@,
                insert_context(ks, *insert_op, p as int, d, counters@),
                i <= n,
                n == rows.len(),
                rows == insert_op.values@,
                cols == insert_op.columns@,
                d == columns@,
                forall|m: int| 0 <= m < n ==> (#[trigger] rows[m])@.len() == cols.len(),
                as_ints(cls.generate@) == generated_columns(d, cols),
                as_ints(key_cols@) == key_columns(d),
                fills@.len() == cls.generate@.len(),
                counters@.len() == d.len(),
                forall|h: int|
                    0 <= h < cls.generate@.len() ==> {
                        let j = #[trigger] cls.generate@[h] as int;
                        &&& (fills@[h] is None <==> d[j].1.auto_increment)
                        &&& d[j].1.auto_increment ==> counters@[j] + n <= u64::MAX
                        &&& fills@[h] matches Some(v) ==> default_value_of(d[j].1) == Some(v@)
                    },
                puts@.len() == i,
                forall|m: int|
                    0 <= m < i ==> {
                        let rec = full_record(d, cols, rows[m]@, counters@, m);
                        &&& (#[trigger] puts@[m]).1@ == rec
                        &&& puts@[m].0.table@ == insert_op.table@
                        &&& values_view(puts@[m].0.primary@) == row_key_values(d, rec)
                    },
            decreases n - i,
        {
            let rec = stage_row(
                columns,
                &insert_op.columns,
                &insert_op.values[i],
                &cls.generate,
                &fills,
                counters,
                i,
                n,
            );
            let primary = row_key(columns, &key_cols, &rec);
            puts.push((RowKey { table: insert_op.table.clone(), primary }, rec));
            i = i + 1;
        }
        // Advance the counters of the generated auto-increment columns.
        let mut next: Vec<u64> = Vec::new();
        let mut j: usize = 0;
        while j < counters.len()
            invariant
                ks == old(self)@,
                insert_context(ks, *insert_op, p as int, d, counters@),
                j <= counters@.len(),
                counters@.len() == d.len(),
                d == columns@,
                cols == insert_op.columns@,
                forall|h: int| 0 <= h < gen.len() ==> 0 <= #[trigger] gen[h] < d.len(),
                gen == generated_columns(d, cols),
                as_ints(cls.generate@) == gen,
                forall|k: int| 0 <= k < d.len() && generate_pred(d, cols)(k) ==> #[trigger] gen.contains(k),
                forall|h: int|
                    0 <= h < cls.generate@.len() ==> {
                        let j = #[trigger] cls.generate@[h] as int;
                        d[j].1.auto_increment ==> counters@[j] + n <= u64::MAX
                    },
                next@ == advanced_counters(d, cols, counters@, n as nat).subrange(0, j as int),
            decreases counters@.len() - j,
        {
            let desc = &columns.entries[j].1;
            let present = contains_name(&insert_op.columns, &columns.entries[j].0);
            if !present && desc.should_generate() && desc.auto_increment {
                proof {
                    assert(gen.contains(j as int));
                    let h = choose|h: int| 0 <= h < gen.len() && gen[h] == j as int;
                    assert(cls.generate@[h] as int == j);
                }
                next.push(counters[j] + n as u64);
            } else {
                next.push(counters[j]);
            }
            proof {
                assert(next@ =~= advanced_counters(d, cols, counters@, n as nat).subrange(0, j + 1));
            }
            j = j + 1;
        }
        let new_keyspace = Keyspace {
            name: self.keyspaces[p].name.clone(),
            metadata: Some(columns.deep_copy()),
            counters: next,
        };
        assert(next@ =~= advanced_counters(d, cols, counters@, n as nat));
        self.keyspaces.set(p, new_keyspace);
        proof {
            let after = KeyspaceView {
                name: ks[p as int].name,
                metadata: ks[p as int].metadata,
                counters: advanced_counters(d, cols, ks[p as int].counters, n as nat),
            };
            assert(self@ =~= ks.update(p as int, after));
            assert forall|a: int| 0 <= a < self@.len() implies match #[trigger] self@[a].metadata {
                Some(dd) => names_unique(dd) && self@[a].counters.len() == dd.len(),
                None => true,
            } by {
                if a != p {
                    assert(self@[a] == ks[a]);
                }
            }
            assert forall|a: int, b: int|
                0 <= a < self@.len() && 0 <= b < self@.len() && a != b implies #[trigger] self@[a].name
                != #[trigger] self@[b].name by {
                assert(self@[a].name == ks[a].name);
                assert(self@[b].name == ks[b].name);
            }
        }
        Ok(WriteBatch { table: insert_op.table.clone(), puts })
    }
}

} // verus!
