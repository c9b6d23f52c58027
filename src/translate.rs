//! The command translator: parsed statements in, commands out. CREATE TABLE
//! folds its column definitions into a descriptor, INSERT gathers its
//! columns and literal rows, a query becomes a `Select` that cannot run.
use crate::error::{Clause, DbError};
use crate::literal::literal_result;
use crate::seqs::{first_where, lemma_first_where_found, lemma_first_where_step};
use crate::types::{
    lemma_position_of, position_of, ColumnDescriptor, ColumnDescriptors, Command,
    CreateTableOptions, DataType, Expr, InsertOptions, QueryOptions, Value, ValueView,
};
use vstd::prelude::*;

verus! {

/// One option of a column definition.
#[derive(Debug, Clone, PartialEq, Eq)]
pub enum ColumnOption {
    Null,
    NotNull,
    Default(Expr),
    Unique,
    PrimaryKey,
    AutoIncrement,
    ForeignKey,
    Check,
    OnUpdate,
    Generated,
    /// An option with no effect here (a character set, a comment, a
    /// dialect's own words).
    Ignored,
    /// Any other option, by its SQL text.
    Unsupported(String),
}

/// A column option with the name of its constraint, if it has one.
#[derive(Debug, Clone, PartialEq, Eq)]
pub struct ColumnOptionDef {
    pub name: Option<String>,
    pub option: ColumnOption,
}

/// One column of a CREATE TABLE statement.
#[derive(Debug, Clone, PartialEq, Eq)]
pub struct ColumnDef {
    pub name: String,
    pub data_type: DataType,
    pub options: Vec<ColumnOptionDef>,
}

/// A constraint of a CREATE TABLE statement that stands apart from its
/// columns.
#[derive(Debug, Clone, PartialEq, Eq)]
pub enum TableConstraint {
    /// `PRIMARY KEY (columns)`.
    PrimaryKey(Vec<String>),
    /// `UNIQUE (columns)`.
    Unique(Vec<String>),
    /// `FOREIGN KEY (columns) REFERENCES foreign_table (referred_columns)`.
    ForeignKey { columns: Vec<String>, foreign_table: String, referred_columns: Vec<String> },
    /// `CHECK (expression)`.
    Check,
    /// A constraint with no effect here (an index), by its SQL text.
    Other(String),
}

/// Where the rows of an INSERT come from.
#[derive(Debug, Clone, PartialEq, Eq)]
pub enum InsertSource {
    /// A VALUES list: one expression per column in each row.
    Values(Vec<Vec<Expr>>),
    /// Any other row source, by its SQL text.
    Other(String),
}

/// A parsed statement.
#[derive(Debug, Clone, PartialEq, Eq)]
pub enum Statement {
    CreateTable { name: String, columns: Vec<ColumnDef>, constraints: Vec<TableConstraint> },
    Insert { table_name: String, columns: Vec<String>, source: Option<InsertSource> },
    Query,
    /// Any other statement, by its SQL text.
    Other(String),
}

/// The descriptor that a column definition starts from.
pub open spec fn base_descriptor(t: DataType) -> ColumnDescriptor {
    ColumnDescriptor {
        datatype: t,
        not_null: false,
        unique: false,
        primary_key: false,
        auto_increment: false,
        foreign_key: None,
        default: None,
    }
}

/// A descriptor after one more option.
pub open spec fn apply_option(d: ColumnDescriptor, o: ColumnOption) -> Result<ColumnDescriptor, DbError> {
    match o {
        ColumnOption::Null => Ok(d),
        ColumnOption::Ignored => Ok(d),
        ColumnOption::NotNull => Ok(ColumnDescriptor { not_null: true, ..d }),
        ColumnOption::Default(e) => Ok(ColumnDescriptor { default: Some(e), ..d }),
        ColumnOption::Unique => Ok(ColumnDescriptor { unique: true, ..d }),
        ColumnOption::PrimaryKey => Ok(ColumnDescriptor { unique: true, primary_key: true, ..d }),
        ColumnOption::AutoIncrement => Ok(ColumnDescriptor { auto_increment: true, ..d }),
        ColumnOption::ForeignKey => Err(DbError::UnsupportedClause(Clause::ForeignKey)),
        ColumnOption::Check => Err(DbError::UnsupportedClause(Clause::Check)),
        ColumnOption::OnUpdate => Err(DbError::UnsupportedClause(Clause::OnUpdate)),
        ColumnOption::Generated => Err(DbError::UnsupportedClause(Clause::Generated)),
        ColumnOption::Unsupported(s) => Err(DbError::UnsupportedClause(Clause::Other(s))),
    }
}

/// A descriptor after a run of options, in order; the first refused option
/// decides the error.
pub open spec fn apply_options(d: ColumnDescriptor, opts: Seq<ColumnOptionDef>) -> Result<ColumnDescriptor, DbError>
    decreases opts.len(),
{
    if opts.len() == 0 {
        Ok(d)
    } else {
        match apply_options(d, opts.drop_last()) {
            Ok(d2) => apply_option(d2, opts.last().option),
            Err(e) => Err(e),
        }
    }
}

/// The columns that a run of column definitions folds into: a repeated
/// name takes its further options into the entry it already has.
pub open spec fn fold_columns(cols: Seq<ColumnDef>) -> Result<Seq<(String, ColumnDescriptor)>, DbError>
    decreases cols.len(),
{
    if cols.len() == 0 {
        Ok(Seq::empty())
    } else {
        match fold_columns(cols.drop_last()) {
            Err(e) => Err(e),
            Ok(prev) => {
                let c = cols.last();
                match position_of(prev, c.name@) {
                    Some(i) => match apply_options(prev[i].1, c.options@) {
                        Ok(d) => Ok(prev.update(i, (prev[i].0, d))),
                        Err(e) => Err(e),
                    },
                    None => match apply_options(base_descriptor(c.data_type), c.options@) {
                        Ok(d) => Ok(prev.push((c.name, d))),
                        Err(e) => Err(e),
                    },
                }
            },
        }
    }
}

/// The columns after marking `cols` unique, and primary keys where
/// `primary`; a name that is no column is refused.
pub open spec fn mark_columns(
    entries: Seq<(String, ColumnDescriptor)>,
    cols: Seq<String>,
    primary: bool,
) -> Result<Seq<(String, ColumnDescriptor)>, DbError>
    decreases cols.len(),
{
    if cols.len() == 0 {
        Ok(entries)
    } else {
        match mark_columns(entries, cols.drop_last(), primary) {
            Err(e) => Err(e),
            Ok(prev) => match position_of(prev, cols.last()@) {
                Some(i) => Ok(
                    prev.update(
                        i,
                        (
                            prev[i].0,
                            ColumnDescriptor {
                                unique: true,
                                primary_key: prev[i].1.primary_key || primary,
                                ..prev[i].1
                            },
                        ),
                    ),
                ),
                None => Err(DbError::UnknownColumn(cols.last())),
            },
        }
    }
}

/// The columns after one table constraint. A foreign key must join one
/// column to one column.
pub open spec fn apply_constraint(entries: Seq<(String, ColumnDescriptor)>, c: TableConstraint) -> Result<
    Seq<(String, ColumnDescriptor)>,
    DbError,
> {
    match c {
        TableConstraint::PrimaryKey(cols) => mark_columns(entries, cols@, true),
        TableConstraint::Unique(cols) => mark_columns(entries, cols@, false),
        TableConstraint::ForeignKey { columns, foreign_table, referred_columns } => if columns@.len()
            == 1 && referred_columns@.len() == 1 {
            match position_of(entries, columns@[0]@) {
                Some(i) => Ok(
                    entries.update(
                        i,
                        (
                            entries[i].0,
                            ColumnDescriptor {
                                foreign_key: Some((foreign_table, referred_columns@[0])),
                                ..entries[i].1
                            },
                        ),
                    ),
                ),
                None => Err(DbError::UnknownColumn(columns@[0])),
            }
        } else {
            Err(DbError::UnsupportedClause(Clause::ForeignKey))
        },
        TableConstraint::Check => Err(DbError::UnsupportedClause(Clause::Check)),
        TableConstraint::Other(_) => Ok(entries),
    }
}

/// The columns after the table constraints, in order; the first refused
/// constraint decides the error.
pub open spec fn apply_constraints(
    entries: Seq<(String, ColumnDescriptor)>,
    cs: Seq<TableConstraint>,
) -> Result<Seq<(String, ColumnDescriptor)>, DbError>
    decreases cs.len(),
{
    if cs.len() == 0 {
        Ok(entries)
    } else {
        match apply_constraints(entries, cs.drop_last()) {
            Err(e) => Err(e),
            Ok(prev) => apply_constraint(prev, cs.last()),
        }
    }
}

/// The descriptor of a CREATE TABLE: its columns folded, then its table
/// constraints applied.
pub open spec fn table_result(columns: Seq<ColumnDef>, constraints: Seq<TableConstraint>) -> Result<
    Seq<(String, ColumnDescriptor)>,
    DbError,
> {
    match fold_columns(columns) {
        Err(e) => Err(e),
        Ok(d) => apply_constraints(d, constraints),
    }
}

/// Applies one column option.
fn apply_one(d: ColumnDescriptor, o: &ColumnOption) -> (r: Result<ColumnDescriptor, DbError>)
    ensures
        r == apply_option(d, *o),
{
    match o {
        ColumnOption::Null => Ok(d),
        ColumnOption::Ignored => Ok(d),
        ColumnOption::NotNull => Ok(ColumnDescriptor { not_null: true, ..d }),
        ColumnOption::Default(e) => Ok(ColumnDescriptor { default: Some(e.deep_copy()), ..d }),
        ColumnOption::Unique => Ok(ColumnDescriptor { unique: true, ..d }),
        ColumnOption::PrimaryKey => Ok(ColumnDescriptor { unique: true, primary_key: true, ..d }),
        ColumnOption::AutoIncrement => Ok(ColumnDescriptor { auto_increment: true, ..d }),
        ColumnOption::ForeignKey => Err(DbError::UnsupportedClause(Clause::ForeignKey)),
        ColumnOption::Check => Err(DbError::UnsupportedClause(Clause::Check)),
        ColumnOption::OnUpdate => Err(DbError::UnsupportedClause(Clause::OnUpdate)),
        ColumnOption::Generated => Err(DbError::UnsupportedClause(Clause::Generated)),
        ColumnOption::Unsupported(s) => Err(DbError::UnsupportedClause(Clause::Other(s.clone()))),
    }
}

/// Applies a column's options in order.
fn apply_all(d: ColumnDescriptor, opts: &Vec<ColumnOptionDef>) -> (r: Result<ColumnDescriptor, DbError>)
    ensures
        r == apply_options(d, opts@),
{
    let ghost start = d;
    let mut cur = d;
    let mut k: usize = 0;
    while k < opts.len()
        invariant
            k <= opts@.len(),
            start == d,
            Ok::<ColumnDescriptor, DbError>(cur) == apply_options(start, opts@.subrange(0, k as int)),
        decreases opts@.len() - k,
    {
        proof {
            assert(opts@.subrange(0, k + 1).drop_last() =~= opts@.subrange(0, k as int));
        }
        cur = match apply_one(cur, &opts[k].option) {
            Ok(c) => c,
            Err(e) => {
                proof {
                    assert(opts@.subrange(0, k + 1).last() == opts@[k as int]);
                    assert(apply_options(start, opts@.subrange(0, k + 1)) == Err::<ColumnDescriptor, DbError>(e));
                    lemma_apply_options_err(start, opts@, (k + 1) as nat);
                    assert(apply_options(start, opts@) == Err::<ColumnDescriptor, DbError>(e));
                }
                return Err(e);
            },
        };
        k = k + 1;
    }
    assert(opts@.subrange(0, opts@.len() as int) =~= opts@);
    Ok(cur)
}

/// An error on a prefix of the options is the error on all of them.
proof fn lemma_apply_options_err(d: ColumnDescriptor, opts: Seq<ColumnOptionDef>, k: nat)
    requires
        k <= opts.len(),
        apply_options(d, opts.subrange(0, k as int)) is Err,
    ensures
        apply_options(d, opts) == apply_options(d, opts.subrange(0, k as int)),
    decreases opts.len() - k,
{
    if k < opts.len() {
        assert(opts.subrange(0, (k + 1) as int).drop_last() =~= opts.subrange(0, k as int));
        lemma_apply_options_err(d, opts, k + 1);
    } else {
        assert(opts.subrange(0, k as int) =~= opts);
    }
}

/// An error on a prefix of the column definitions is the error on all of
/// them.
proof fn lemma_fold_columns_err(cols: Seq<ColumnDef>, k: nat)
    requires
        k <= cols.len(),
        fold_columns(cols.subrange(0, k as int)) is Err,
    ensures
        fold_columns(cols) == fold_columns(cols.subrange(0, k as int)),
    decreases cols.len() - k,
{
    if k < cols.len() {
        assert(cols.subrange(0, (k + 1) as int).drop_last() =~= cols.subrange(0, k as int));
        lemma_fold_columns_err(cols, k + 1);
    } else {
        assert(cols.subrange(0, k as int) =~= cols);
    }
}

/// Folds the column definitions of a CREATE TABLE into its descriptor.
fn fold_column_defs(columns: &Vec<ColumnDef>) -> (r: Result<ColumnDescriptors, DbError>)
    ensures
        match (r, fold_columns(columns@)) {
            (Ok(c), Ok(d)) => c@ == d && c.wf(),
            (Err(e), Err(f)) => e == f,
            _ => false,
        },
{
    let mut desc = ColumnDescriptors::new();
    let mut i: usize = 0;
    assert(columns@.subrange(0, 0) =~= Seq::<ColumnDef>::empty());
    assert(desc@ =~= Seq::<(String, ColumnDescriptor)>::empty());
    while i < columns.len()
        invariant
            i <= columns@.len(),
            desc.wf(),
            fold_columns(columns@.subrange(0, i as int)) == Ok::<Seq<(String, ColumnDescriptor)>, DbError>(desc@),
        decreases columns@.len() - i,
    {
        let c = &columns[i];
        let ghost prefix = columns@.subrange(0, (i + 1) as int);
        proof {
            assert(prefix.drop_last() =~= columns@.subrange(0, i as int));
            assert(prefix.last() == columns@[i as int]);
            lemma_position_of(desc@, c.name@);
        }
        let pos = desc.position(c.name.as_str());
        let start = match pos {
            Some(j) => desc.entries[j].1.deep_copy(),
            None => ColumnDescriptor {
                datatype: c.data_type.deep_copy(),
                not_null: false,
                unique: false,
                primary_key: false,
                auto_increment: false,
                foreign_key: None,
                default: None,
            },
        };
        let d = match apply_all(start, &c.options) {
            Ok(d) => d,
            Err(e) => {
                proof {
                    lemma_fold_columns_err(columns@, (i + 1) as nat);
                }
                return Err(e);
            },
        };
        match pos {
            Some(j) => {
                let key = desc.entries[j].0.clone();
                let ghost before = desc@;
                desc.entries.set(j, (key, d));
                proof {
                    assert forall|a: int, b: int|
                        0 <= a < desc@.len() && 0 <= b < desc@.len() && a != b implies #[trigger] desc@[a].0@
                        != #[trigger] desc@[b].0@ by {
                        assert(desc@[a].0 == before[a].0);
                        assert(desc@[b].0 == before[b].0);
                    }
                }
            },
            None => {
                let ghost before = desc@;
                desc.entries.push((c.name.clone(), d));
                proof {
                    assert forall|a: int, b: int|
                        0 <= a < desc@.len() && 0 <= b < desc@.len() && a != b implies #[trigger] desc@[a].0@
                        != #[trigger] desc@[b].0@ by {
                        if a < before.len() && b < before.len() {
                            assert(desc@[a] == before[a]);
                            assert(desc@[b] == before[b]);
                        } else if a < before.len() {
                            assert(desc@[a] == before[a]);
                        } else {
                            assert(desc@[b] == before[b]);
                        }
                    }
                }
            },
        }
        i = i + 1;
    }
    assert(columns@.subrange(0, columns@.len() as int) =~= columns@);
    Ok(desc)
}

/// Sets the descriptor of the column at `i`, keeping its name.
fn set_descriptor(desc: &mut ColumnDescriptors, i: usize, d: ColumnDescriptor)
    requires
        old(desc).wf(),
        i < old(desc)@.len(),
    ensures
        final(desc).wf(),
        final(desc)@ == old(desc)@.update(i as int, (old(desc)@[i as int].0, d)),
{
    let key = desc.entries[i].0.clone();
    let ghost before = desc@;
    desc.entries.set(i, (key, d));
    proof {
        assert forall|a: int, b: int|
            0 <= a < desc@.len() && 0 <= b < desc@.len() && a != b implies #[trigger] desc@[a].0@
            != #[trigger] desc@[b].0@ by {
            assert(desc@[a].0 == before[a].0);
            assert(desc@[b].0 == before[b].0);
        }
    }
}

proof fn lemma_mark_columns_err(
    entries: Seq<(String, ColumnDescriptor)>,
    cols: Seq<String>,
    primary: bool,
    k: nat,
)
    requires
        k <= cols.len(),
        mark_columns(entries, cols.subrange(0, k as int), primary) is Err,
    ensures
        mark_columns(entries, cols, primary) == mark_columns(entries, cols.subrange(0, k as int), primary),
    decreases cols.len() - k,
{
    if k < cols.len() {
        assert(cols.subrange(0, (k + 1) as int).drop_last() =~= cols.subrange(0, k as int));
        lemma_mark_columns_err(entries, cols, primary, k + 1);
    } else {
        assert(cols.subrange(0, k as int) =~= cols);
    }
}

proof fn lemma_apply_constraints_err(
    entries: Seq<(String, ColumnDescriptor)>,
    cs: Seq<TableConstraint>,
    k: nat,
)
    requires
        k <= cs.len(),
        apply_constraints(entries, cs.subrange(0, k as int)) is Err,
    ensures
        apply_constraints(entries, cs) == apply_constraints(entries, cs.subrange(0, k as int)),
    decreases cs.len() - k,
{
    if k < cs.len() {
        assert(cs.subrange(0, (k + 1) as int).drop_last() =~= cs.subrange(0, k as int));
        lemma_apply_constraints_err(entries, cs, k + 1);
    } else {
        assert(cs.subrange(0, k as int) =~= cs);
    }
}

/// Marks the named columns unique, and primary keys where `primary`.
fn mark(desc: &mut ColumnDescriptors, cols: &Vec<String>, primary: bool) -> (r: Result<(), DbError>)
    requires
        old(desc).wf(),
    ensures
        final(desc).wf(),
        match (r, mark_columns(old(desc)@, cols@, primary)) {
            (Ok(()), Ok(d)) => final(desc)@ == d,
            (Err(e), Err(f)) => e == f,
            _ => false,
        },
{
    let ghost start = desc@;
    let mut k: usize = 0;
    assert(cols@.subrange(0, 0) =~= Seq::<String>::empty());
    while k < cols.len()
        invariant
            k <= cols@.len(),
            desc.wf(),
            start == old(desc)@,
            mark_columns(start, cols@.subrange(0, k as int), primary) == Ok::<_, DbError>(desc@),
        decreases cols@.len() - k,
    {
        let ghost prefix = cols@.subrange(0, (k + 1) as int);
        proof {
            assert(prefix.drop_last() =~= cols@.subrange(0, k as int));
            assert(prefix.last() == cols@[k as int]);
            lemma_position_of(desc@, cols@[k as int]@);
        }
        match desc.position(cols[k].as_str()) {
            Some(i) => {
                let old_d = desc.entries[i].1.deep_copy();
                let was_primary = old_d.primary_key;
                set_descriptor(desc, i, ColumnDescriptor { unique: true, primary_key: was_primary || primary, ..old_d });
            },
            None => {
                proof {
                    lemma_mark_columns_err(start, cols@, primary, (k + 1) as nat);
                }
                return Err(DbError::UnknownColumn(cols[k].clone()));
            },
        }
        k = k + 1;
    }
    assert(cols@.subrange(0, cols@.len() as int) =~= cols@);
    Ok(())
}

/// Applies one table constraint.
fn apply_table_constraint(desc: &mut ColumnDescriptors, c: &TableConstraint) -> (r: Result<(), DbError>)
    requires
        old(desc).wf(),
    ensures
        final(desc).wf(),
        match (r, apply_constraint(old(desc)@, *c)) {
            (Ok(()), Ok(d)) => final(desc)@ == d,
            (Err(e), Err(f)) => e == f,
            _ => false,
        },
{
    match c {
        TableConstraint::PrimaryKey(cols) => mark(desc, cols, true),
        TableConstraint::Unique(cols) => mark(desc, cols, false),
        TableConstraint::ForeignKey { columns, foreign_table, referred_columns } => {
            if columns.len() != 1 || referred_columns.len() != 1 {
                return Err(DbError::UnsupportedClause(Clause::ForeignKey));
            }
            proof {
                lemma_position_of(desc@, columns@[0]@);
            }
            match desc.position(columns[0].as_str()) {
                Some(i) => {
                    let old_d = desc.entries[i].1.deep_copy();
                    let fk = Some((foreign_table.clone(), referred_columns[0].clone()));
                    set_descriptor(desc, i, ColumnDescriptor { foreign_key: fk, ..old_d });
                    Ok(())
                },
                None => Err(DbError::UnknownColumn(columns[0].clone())),
            }
        },
        TableConstraint::Check => Err(DbError::UnsupportedClause(Clause::Check)),
        TableConstraint::Other(_) => Ok(()),
    }
}

/// Applies the table constraints in order.
fn apply_table_constraints(descriptors: ColumnDescriptors, constraints: &Vec<TableConstraint>) -> (r: Result<
    ColumnDescriptors,
    DbError,
>)
    requires
        descriptors.wf(),
    ensures
        match (r, apply_constraints(descriptors@, constraints@)) {
            (Ok(c), Ok(d)) => c@ == d && c.wf(),
            (Err(e), Err(f)) => e == f,
            _ => false,
        },
{
    let ghost start = descriptors@;
    let mut desc = descriptors;
    let mut k: usize = 0;
    assert(constraints@.subrange(0, 0) =~= Seq::<TableConstraint>::empty());
    while k < constraints.len()
        invariant
            k <= constraints@.len(),
            desc.wf(),
            start == descriptors@,
            apply_constraints(start, constraints@.subrange(0, k as int)) == Ok::<_, DbError>(desc@),
        decreases constraints@.len() - k,
    {
        let ghost prefix = constraints@.subrange(0, (k + 1) as int);
        proof {
            assert(prefix.drop_last() =~= constraints@.subrange(0, k as int));
            assert(prefix.last() == constraints@[k as int]);
        }
        match apply_table_constraint(&mut desc, &constraints[k]) {
            Ok(()) => {},
            Err(e) => {
                proof {
                    lemma_apply_constraints_err(start, constraints@, (k + 1) as nat);
                }
                return Err(e);
            },
        }
        k = k + 1;
    }
    assert(constraints@.subrange(0, constraints@.len() as int) =~= constraints@);
    Ok(desc)
}

/// Whether supplied column `k` repeats an earlier one.
pub open spec fn repeats_pred(cols: Seq<String>) -> spec_fn(int) -> bool {
    |k: int| exists|m: int| 0 <= m < k && #[trigger] cols[m]@ == cols[k]@
}

/// The value of a row expression: literals only.
pub open spec fn expr_result(e: Expr) -> Result<ValueView, DbError> {
    match e {
        Expr::Literal(l) => literal_result(l),
        Expr::Other(s) => Err(DbError::UnsupportedExpression(s)),
    }
}

/// The values of one row, in order; the first failing expression decides
/// the error.
pub open spec fn row_result(row: Seq<Expr>) -> Result<Seq<ValueView>, DbError>
    decreases row.len(),
{
    if row.len() == 0 {
        Ok(Seq::empty())
    } else {
        match row_result(row.drop_last()) {
            Err(e) => Err(e),
            Ok(prev) => match expr_result(row.last()) {
                Ok(v) => Ok(prev.push(v)),
                Err(e) => Err(e),
            },
        }
    }
}

/// The values of all rows, in order; the first failing row decides the
/// error.
pub open spec fn rows_result(rows: Seq<Vec<Expr>>) -> Result<Seq<Seq<ValueView>>, DbError>
    decreases rows.len(),
{
    if rows.len() == 0 {
        Ok(Seq::empty())
    } else {
        match rows_result(rows.drop_last()) {
            Err(e) => Err(e),
            Ok(prev) => match row_result(rows.last()@) {
                Ok(r) => Ok(prev.push(r)),
                Err(e) => Err(e),
            },
        }
    }
}

/// The rows that an INSERT's source gives: none without a source, the
/// literal rows of a VALUES list, an error for any other source.
pub open spec fn source_result(source: Option<InsertSource>) -> Result<Seq<Seq<ValueView>>, DbError> {
    match source {
        None => Ok(Seq::empty()),
        Some(InsertSource::Values(rows)) => rows_result(rows@),
        Some(InsertSource::Other(s)) => Err(DbError::UnsupportedSetExpression(s)),
    }
}

/// The content of each value of each row.
pub open spec fn rows_view(rows: Seq<Vec<Value>>) -> Seq<Seq<ValueView>> {
    rows.map_values(|r: Vec<Value>| r@.map_values(|v: Value| v@))
}

proof fn lemma_row_result_err(row: Seq<Expr>, k: nat)
    requires
        k <= row.len(),
        row_result(row.subrange(0, k as int)) is Err,
    ensures
        row_result(row) == row_result(row.subrange(0, k as int)),
    decreases row.len() - k,
{
    if k < row.len() {
        assert(row.subrange(0, (k + 1) as int).drop_last() =~= row.subrange(0, k as int));
        lemma_row_result_err(row, k + 1);
    } else {
        assert(row.subrange(0, k as int) =~= row);
    }
}

proof fn lemma_rows_result_err(rows: Seq<Vec<Expr>>, k: nat)
    requires
        k <= rows.len(),
        rows_result(rows.subrange(0, k as int)) is Err,
    ensures
        rows_result(rows) == rows_result(rows.subrange(0, k as int)),
    decreases rows.len() - k,
{
    if k < rows.len() {
        assert(rows.subrange(0, (k + 1) as int).drop_last() =~= rows.subrange(0, k as int));
        lemma_rows_result_err(rows, k + 1);
    } else {
        assert(rows.subrange(0, k as int) =~= rows);
    }
}

/// The values of one row of a VALUES list.
fn row_values(row: &Vec<Expr>) -> (r: Result<Vec<Value>, DbError>)
    ensures
        match (r, row_result(row@)) {
            (Ok(v), Ok(w)) => v@.map_values(|x: Value| x@) == w,
            (Err(e), Err(f)) => e == f,
            _ => false,
        },
{
    let mut out: Vec<Value> = Vec::new();
    let mut k: usize = 0;
    assert(row@.subrange(0, 0) =~= Seq::<Expr>::empty());
    assert(out@.map_values(|x: Value| x@) =~= Seq::<ValueView>::empty());
    while k < row.len()
        invariant
            k <= row@.len(),
            row_result(row@.subrange(0, k as int)) == Ok::<Seq<ValueView>, DbError>(
                out@.map_values(|x: Value| x@),
            ),
        decreases row@.len() - k,
    {
        let ghost prefix = row@.subrange(0, (k + 1) as int);
        proof {
            assert(prefix.drop_last() =~= row@.subrange(0, k as int));
            assert(prefix.last() == row@[k as int]);
        }
        let v = match &row[k] {
            Expr::Literal(l) => Value::from_literal(l),
            Expr::Other(s) => Err(DbError::UnsupportedExpression(s.clone())),
        };
        match v {
            Ok(v) => {
                let ghost before = out@;
                out.push(v);
                assert(out@.map_values(|x: Value| x@) =~= before.map_values(|x: Value| x@).push(v@));
            },
            Err(e) => {
                proof {
                    lemma_row_result_err(row@, (k + 1) as nat);
                }
                return Err(e);
            },
        }
        k = k + 1;
    }
    assert(row@.subrange(0, row@.len() as int) =~= row@);
    Ok(out)
}

/// The rows of an INSERT's source.
fn source_values(source: &Option<InsertSource>) -> (r: Result<Vec<Vec<Value>>, DbError>)
    ensures
        match (r, source_result(*source)) {
            (Ok(v), Ok(w)) => rows_view(v@) == w,
            (Err(e), Err(f)) => e == f,
            _ => false,
        },
{
    match source {
        None => {
            let out: Vec<Vec<Value>> = Vec::new();
            assert(rows_view(out@) =~= Seq::<Seq<ValueView>>::empty());
            Ok(out)
        },
        Some(InsertSource::Other(s)) => Err(DbError::UnsupportedSetExpression(s.clone())),
        Some(InsertSource::Values(rows)) => {
            let mut out: Vec<Vec<Value>> = Vec::new();
            let mut i: usize = 0;
            assert(rows@.subrange(0, 0) =~= Seq::<Vec<Expr>>::empty());
            assert(rows_view(out@) =~= Seq::<Seq<ValueView>>::empty());
            while i < rows.len()
                invariant
                    i <= rows@.len(),
                    source_result(*source) == rows_result(rows@),
                    rows_result(rows@.subrange(0, i as int)) == Ok::<Seq<Seq<ValueView>>, DbError>(
                        rows_view(out@),
                    ),
                decreases rows@.len() - i,
            {
                let ghost prefix = rows@.subrange(0, (i + 1) as int);
                proof {
                    assert(prefix.drop_last() =~= rows@.subrange(0, i as int));
                    assert(prefix.last() == rows@[i as int]);
                }
                match row_values(&rows[i]) {
                    Ok(r) => {
                        let ghost before = out@;
                        out.push(r);
                        assert(rows_view(out@) =~= rows_view(before).push(r@.map_values(|x: Value| x@)));
                    },
                    Err(e) => {
                        proof {
                            assert(rows_result(prefix) == Err::<Seq<Seq<ValueView>>, DbError>(e));
                            lemma_rows_result_err(rows@, (i + 1) as nat);
                        }
                        return Err(e);
                    },
                }
                i = i + 1;
            }
            assert(rows@.subrange(0, rows@.len() as int) =~= rows@);
            Ok(out)
        },
    }
}

/// Why a statement does not translate, if it does not.
pub open spec fn statement_error(stmt: Statement) -> Option<DbError> {
    match stmt {
        Statement::CreateTable { name, columns, constraints } => match table_result(
            columns@,
            constraints@,
        ) {
            Err(e) => Some(e),
            Ok(_) => None,
        },
        Statement::Insert { table_name, columns, source } => match first_where(
            columns@.len(),
            repeats_pred(columns@),
        ) {
            Some(k) => Some(DbError::DuplicateColumn(columns@[k])),
            None => match source_result(source) {
                Err(e) => Some(e),
                Ok(_) => None,
            },
        },
        Statement::Query => None,
        Statement::Other(s) => Some(DbError::UnsupportedStatement(s)),
    }
}

/// Whether `c` is what `stmt` translates into.
pub open spec fn translates_to(stmt: Statement, c: Command) -> bool {
    &&& statement_error(stmt) is None
    &&& match stmt {
        Statement::CreateTable { name, columns, constraints } => match c {
            Command::CreateTable(o) => o.name == name && Ok::<_, DbError>(o.columns@) == table_result(
                columns@,
                constraints@,
            ) && o.columns.wf(),
            _ => false,
        },
        Statement::Insert { table_name, columns, source } => match c {
            Command::Insert(o) => o.table == table_name && o.columns@ == columns@ && Ok::<_, DbError>(
                rows_view(o.values@),
            ) == source_result(source),
            _ => false,
        },
        Statement::Query => c == Command::Select(QueryOptions {  }),
        Statement::Other(_) => false,
    }
}

/// A copy of a list of names.
fn copy_names(v: &Vec<String>) -> (r: Vec<String>)
    ensures
        r@ == v@,
{
    let mut out: Vec<String> = Vec::new();
    let mut i: usize = 0;
    while i < v.len()
        invariant
            i <= v@.len(),
            out@ == v@.subrange(0, i as int),
        decreases v@.len() - i,
    {
        out.push(v[i].clone());
        i = i + 1;
    }
    assert(out@ =~= v@);
    out
}

/// Translates an INSERT: its columns, which must not repeat, and its rows.
fn process_insert(
    table_name: &String,
    columns: &Vec<String>,
    source: &Option<InsertSource>,
) -> (r: Result<Command, DbError>)
    ensures
        ({
            let stmt = Statement::Insert { table_name: *table_name, columns: *columns, source: *source };
            match r {
                Ok(c) => translates_to(stmt, c),
                Err(e) => statement_error(stmt) == Some(e),
            }
        }),
{
    let ghost cols = columns@;
    let ghost rp = repeats_pred(cols);
    let mut k: usize = 0;
    while k < columns.len()
        invariant
            k <= cols.len(),
            cols == columns@,
            rp == repeats_pred(cols),
            first_where(k as nat, rp) is None,
        decreases cols.len() - k,
    {
        proof {
            lemma_first_where_step(k as nat, rp);
        }
        let mut m: usize = 0;
        while m < k
            invariant
                m <= k < cols.len(),
                cols == columns@,
                rp == repeats_pred(cols),
                first_where(k as nat, rp) is None,
                forall|a: int| 0 <= a < m ==> #[trigger] cols[a]@ != cols[k as int]@,
            decreases k - m,
        {
            if columns[m] == columns[k] {
                proof {
                    assert(cols[m as int]@ == cols[k as int]@);
                    assert(rp(k as int));
                    lemma_first_where_found(cols.len(), k as nat, rp);
                }
                return Err(DbError::DuplicateColumn(columns[k].clone()));
            }
            m = m + 1;
        }
        assert(!rp(k as int));
        k = k + 1;
    }
    let values = match source_values(source) {
        Ok(v) => v,
        Err(e) => return Err(e),
    };
    Ok(Command::Insert(InsertOptions { table: table_name.clone(), columns: copy_names(columns), values }))
}

impl Command {
    /// Translates one parsed statement.
    pub fn from_statement(statement: &Statement) -> (r: Result<Command, DbError>)
        ensures
            r is Ok <==> statement_error(*statement) is None,
            match r {
                Ok(c) => translates_to(*statement, c),
                Err(e) => statement_error(*statement) == Some(e),
            },
    {
        match statement {
            Statement::CreateTable { name, columns, constraints } => match fold_column_defs(columns) {
                Ok(descriptors) => match apply_table_constraints(descriptors, constraints) {
                    Ok(descriptors) => Ok(
                        Command::CreateTable(CreateTableOptions { name: name.clone(), columns: descriptors }),
                    ),
                    Err(e) => Err(e),
                },
                Err(e) => Err(e),
            },
            Statement::Insert { table_name, columns, source } => process_insert(table_name, columns, source),
            Statement::Query => Ok(Command::Select(QueryOptions {  })),
            Statement::Other(s) => Err(DbError::UnsupportedStatement(s.clone())),
        }
    }
}

/// A statement of a list fails to translate.
pub open spec fn fails_pred(statements: Seq<Statement>) -> spec_fn(int) -> bool {
    |i: int| statement_error(statements[i]) is Some
}

/// Turns parsed statements into commands.
#[derive(Debug, Clone, Copy, Default)]
pub struct QueryEngine;

impl QueryEngine {
    /// Translates every statement, in order; the first that fails to
    /// translate decides the error, and then no command is returned.
    pub fn process_sql(&self, statements: &Vec<Statement>) -> (r: Result<Vec<Command>, DbError>)
        ensures
            match first_where(statements@.len(), fails_pred(statements@)) {
                Some(i) => r is Err && statement_error(statements@[i]) == Some(r->Err_0),
                None => r matches Ok(cmds) && cmds@.len() == statements@.len() && forall|i: int|
                    0 <= i < cmds@.len() ==> translates_to(statements@[i], #[trigger] cmds@[i]),
            },
    {
        let ghost fp = fails_pred(statements@);
        let mut out: Vec<Command> = Vec::new();
        let mut i: usize = 0;
        while i < statements.len()
            invariant
                i <= statements@.len(),
                fp == fails_pred(statements@),
                first_where(i as nat, fp) is None,
                out@.len() == i,
                forall|k: int| 0 <= k < i ==> translates_to(statements@[k], #[trigger] out@[k]),
            decreases statements@.len() - i,
        {
            proof {
                lemma_first_where_step(i as nat, fp);
            }
            match Command::from_statement(&statements[i]) {
                Ok(c) => out.push(c),
                Err(e) => {
                    proof {
                        lemma_first_where_found(statements@.len(), i as nat, fp);
                    }
                    return Err(e);
                },
            }
            i = i + 1;
        }
        Ok(out)
    }
}

} // verus!
