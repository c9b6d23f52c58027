//! Properties that relate several operations of the store, proved over the
//! specifications that the operations' contracts use.
use crate::error::{DbError, ErrorCategory};
use crate::instance::{after_insert, command_step};
use crate::seqs::{indices_where, lemma_indices_where};
use crate::storage::{
    counter_of, create_error, created_keyspace, engine_wf, generate_pred, generated_columns, generated_value,
    insert_error, keyspace_position, lemma_keyspace_position, missing_pred, nat_text, supplied,
    unknown_pred, validation_error, KeyspaceView, digit_char,
};
use crate::types::{position_of, ColumnDescriptor, Command, CreateTableOptions, InsertOptions, ValueView};
use vstd::prelude::*;

verus! {

/// Creating a table and then reading its descriptor gives back the
/// descriptor supplied, and the new table's counters start at zero.
pub proof fn lemma_create_then_metadata(ks: Seq<KeyspaceView>, opts: CreateTableOptions)
    requires
        engine_wf(ks),
        opts.columns.wf(),
        create_error(ks, opts) is None,
    ensures
        command_step(ks, Command::CreateTable(opts)) == Ok::<_, DbError>(ks.push(created_keyspace(opts))),
        keyspace_position(ks.push(created_keyspace(opts)), opts.name@) == Some(ks.len() as int),
        ks.push(created_keyspace(opts))[ks.len() as int].metadata == Some(opts.columns@),
        forall|j: int|
            0 <= j < opts.columns@.len() && opts.columns@[j].1.auto_increment ==> #[trigger] counter_of(
                ks.push(created_keyspace(opts)),
                opts.name@,
                opts.columns@[j].0@,
            ) == Some(0u64),
{
    let after = ks.push(created_keyspace(opts));
    assert(after.drop_last() =~= ks);
    assert forall|j: int|
        0 <= j < opts.columns@.len() && opts.columns@[j].1.auto_increment implies #[trigger] counter_of(
            after,
            opts.name@,
            opts.columns@[j].0@,
        ) == Some(0u64) by {
        crate::types::lemma_position_of_unique(opts.columns@, j);
    }
}

/// A second table of the same name is refused, as a schema error, and the
/// first table's descriptor stays as it was.
pub proof fn lemma_no_duplicate_creation(
    ks: Seq<KeyspaceView>,
    first: CreateTableOptions,
    second: CreateTableOptions,
)
    requires
        engine_wf(ks),
        first.columns.wf(),
        keyspace_position(ks, first.name@) is None,
        second.name@ == first.name@,
    ensures
        ({
            let after = ks.push(created_keyspace(first));
            &&& command_step(after, Command::CreateTable(second)) == Err::<Seq<KeyspaceView>, DbError>(
                DbError::TableExists(second.name),
            )
            &&& DbError::TableExists(second.name).spec_category() == ErrorCategory::Schema
            &&& after[keyspace_position(after, second.name@).unwrap()].metadata == Some(first.columns@)
        }),
{
    let after = ks.push(created_keyspace(first));
    assert(after.drop_last() =~= ks);
}

/// An insert into a table that was never created fails with a schema error
/// and adds no keyspace.
pub proof fn lemma_insert_unknown_table(ks: Seq<KeyspaceView>, opts: InsertOptions)
    requires
        keyspace_position(ks, opts.table@) is None,
    ensures
        insert_error(ks, opts) == Some(DbError::NoSuchTable(opts.table)),
        DbError::NoSuchTable(opts.table).spec_category() == ErrorCategory::Schema,
        command_step(ks, Command::Insert(opts)) is Err,
{
}

/// An insert that leaves out a column that must be supplied fails, before
/// anything is staged.
pub proof fn lemma_insert_missing_required(ks: Seq<KeyspaceView>, opts: InsertOptions, j: int)
    requires
        keyspace_position(ks, opts.table@) matches Some(p) && ks[p].metadata matches Some(d) && 0 <= j
            < d.len() && d[j].1.spec_needs_value() && !supplied(opts.columns@, d[j].0@),
    ensures
        insert_error(ks, opts) is Some,
        command_step(ks, Command::Insert(opts)) is Err,
{
    let p = keyspace_position(ks, opts.table@).unwrap();
    let d = ks[p].metadata.unwrap();
    lemma_indices_where(d.len(), missing_pred(d, opts.columns@));
    assert(indices_where(d.len(), missing_pred(d, opts.columns@)).contains(j));
}

/// An insert that names a column the table lacks fails with a schema error,
/// before anything is staged.
pub proof fn lemma_insert_unknown_column(ks: Seq<KeyspaceView>, opts: InsertOptions, k: int)
    requires
        keyspace_position(ks, opts.table@) matches Some(p) && ks[p].metadata matches Some(d) && 0 <= k
            < opts.columns@.len() && position_of(d, opts.columns@[k]@) is None,
    ensures
        insert_error(ks, opts) matches Some(e) && e.spec_category() == ErrorCategory::Schema,
        command_step(ks, Command::Insert(opts)) is Err,
{
    let p = keyspace_position(ks, opts.table@).unwrap();
    let d = ks[p].metadata.unwrap();
    lemma_indices_where(opts.columns@.len(), unknown_pred(d, opts.columns@));
    assert(indices_where(opts.columns@.len(), unknown_pred(d, opts.columns@)).contains(k));
}

proof fn lemma_nat_text_len(n: nat)
    ensures
        nat_text(n).len() >= 1,
        n >= 10 ==> nat_text(n).len() >= 2,
    decreases n,
{
    if n >= 10 {
        lemma_nat_text_len(n / 10);
    }
}

proof fn lemma_digit_char_injective(a: nat, b: nat)
    requires
        a < 10,
        b < 10,
        digit_char(a) == digit_char(b),
    ensures
        a == b,
{
}

/// Distinct numbers have distinct decimal texts.
pub proof fn lemma_nat_text_injective(a: nat, b: nat)
    requires
        nat_text(a) == nat_text(b),
    ensures
        a == b,
    decreases a,
{
    lemma_nat_text_len(a);
    lemma_nat_text_len(b);
    if a < 10 && b < 10 {
        assert(nat_text(a)[0] == digit_char(a));
        assert(nat_text(b)[0] == digit_char(b));
        lemma_digit_char_injective(a, b);
    } else if a >= 10 && b >= 10 {
        let ta = nat_text(a);
        let tb = nat_text(b);
        assert(ta.last() == digit_char(a % 10));
        assert(tb.last() == digit_char(b % 10));
        lemma_digit_char_injective(a % 10, b % 10);
        assert(ta.drop_last() =~= nat_text(a / 10));
        assert(tb.drop_last() =~= nat_text(b / 10));
        lemma_nat_text_injective(a / 10, b / 10);
    }
}

/// The identifiers that one insert gives an auto-increment column are the
/// counter's next values, one per row, all distinct; after the insert the
/// counter stands at the last of them, so the next insert continues from
/// there with no gap.
pub proof fn lemma_auto_increment(ks: Seq<KeyspaceView>, opts: InsertOptions, j: int)
    requires
        engine_wf(ks),
        insert_error(ks, opts) is None,
        keyspace_position(ks, opts.table@) matches Some(p) && ks[p].metadata matches Some(d) && 0 <= j
            < d.len() && d[j].1.auto_increment && !supplied(opts.columns@, d[j].0@),
    ensures
        ({
            let p = keyspace_position(ks, opts.table@).unwrap();
            let d = ks[p].metadata.unwrap();
            let c = ks[p].counters[j];
            let n = opts.values@.len();
            &&& counter_of(ks, opts.table@, d[j].0@) == Some(c)
            &&& generated_columns(d, opts.columns@).contains(j)
            &&& forall|i: int|
                0 <= i < n ==> #[trigger] generated_value(d[j].1, c, i) == ValueView::Number(
                    nat_text((c + i + 1) as nat),
                )
            &&& forall|i: int, k: int|
                0 <= i < n && 0 <= k < n && i != k ==> #[trigger] generated_value(d[j].1, c, i)
                    != #[trigger] generated_value(d[j].1, c, k)
            &&& c + n <= u64::MAX
            &&& counter_of(after_insert(ks, opts), opts.table@, d[j].0@) == Some((c + n) as u64)
        }),
{
    let p = keyspace_position(ks, opts.table@).unwrap();
    let d = ks[p].metadata.unwrap();
    let c = ks[p].counters[j];
    let n = opts.values@.len();
    lemma_keyspace_position(ks, opts.table@);
    crate::types::lemma_position_of_unique(d, j);
    lemma_indices_where(d.len(), generate_pred(d, opts.columns@));
    let gen = generated_columns(d, opts.columns@);
    assert(generate_pred(d, opts.columns@)(j));
    assert(gen.contains(j));
    assert forall|i: int, k: int|
        0 <= i < n && 0 <= k < n && i != k implies #[trigger] generated_value(d[j].1, c, i)
        != #[trigger] generated_value(d[j].1, c, k) by {
        if generated_value(d[j].1, c, i) == generated_value(d[j].1, c, k) {
            lemma_nat_text_injective((c + i + 1) as nat, (c + k + 1) as nat);
        }
    }
    // The counter has room for every row.
    let g = choose|g: int| 0 <= g < gen.len() && gen[g] == j;
    assert(validation_error(d, ks[p].counters, opts) is None);
    crate::seqs::lemma_first_where(gen.len(), crate::storage::fill_problem_pred(d, opts.columns@, ks[p].counters, n));
    assert(!crate::storage::fill_problem_pred(d, opts.columns@, ks[p].counters, n)(g));
    let after = after_insert(ks, opts);
    assert(after[p].metadata == Some(d));
    lemma_keyspace_position(after, opts.table@);
    assert forall|a: int| 0 <= a < after.len() && a != p implies #[trigger] after[a].name != opts.table@ by {
        assert(after[a] == ks[a]);
        assert(ks[a].name != ks[p].name);
    }
    assert(after[p].name == opts.table@);
    assert(keyspace_position(after, opts.table@) == Some(p));
}

/// A keyspace read back with its descriptor answers with that descriptor
/// and those counters: what was written before a restart is what is read
/// after it.
pub proof fn lemma_restore_then_metadata(
    ks: Seq<KeyspaceView>,
    name: Seq<char>,
    d: Seq<(String, ColumnDescriptor)>,
    counters: Seq<u64>,
    j: int,
)
    requires
        keyspace_position(ks, name) is None,
        0 <= j < d.len(),
        d[j].1.auto_increment,
        crate::types::names_unique(d),
        counters.len() == d.len(),
    ensures
        ({
            let after = ks.push(KeyspaceView { name, metadata: Some(d), counters });
            &&& keyspace_position(after, name) == Some(ks.len() as int)
            &&& after[ks.len() as int].metadata == Some(d)
            &&& counter_of(after, name, d[j].0@) == Some(counters[j])
        }),
{
    let after = ks.push(KeyspaceView { name, metadata: Some(d), counters });
    assert(after.drop_last() =~= ks);
    crate::types::lemma_position_of_unique(d, j);
}

} // verus!
