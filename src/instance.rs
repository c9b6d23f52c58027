//! The orchestrator: statements are translated into commands, and commands
//! are run against the storage engine one after another.
use crate::error::DbError;
use crate::seqs::first_where;
use crate::storage::{
    advanced_counters, create_error, created_keyspace, insert_error, inserted, keyspace_position, KeyspaceView,
    StorageEngine, WriteBatch,
};
use crate::translate::{fails_pred, statement_error, translates_to, QueryEngine, Statement};
use crate::types::{ColumnDescriptors, Command, CreateTableOptions, InsertOptions};
use vstd::prelude::*;

verus! {

/// What a command that succeeded changed, for the store to persist.
#[derive(Debug, Clone, PartialEq, Eq)]
pub enum Effect {
    /// A table was created with this descriptor.
    Created(CreateTableOptions),
    /// These rows were staged for one atomic write.
    Inserted(WriteBatch),
}

/// The keyspaces after a successful insert.
pub open spec fn after_insert(ks: Seq<KeyspaceView>, opts: InsertOptions) -> Seq<KeyspaceView> {
    let p = keyspace_position(ks, opts.table@).unwrap();
    let d = ks[p].metadata.unwrap();
    ks.update(
        p,
        KeyspaceView {
            name: ks[p].name,
            metadata: ks[p].metadata,
            counters: advanced_counters(d, opts.columns@, ks[p].counters, opts.values@.len()),
        },
    )
}

/// The keyspaces after one command, or why it fails.
pub open spec fn command_step(ks: Seq<KeyspaceView>, cmd: Command) -> Result<Seq<KeyspaceView>, DbError> {
    match cmd {
        Command::CreateTable(o) => match create_error(ks, o) {
            None => Ok(ks.push(created_keyspace(o))),
            Some(e) => Err(e),
        },
        Command::Insert(o) => match insert_error(ks, o) {
            Some(e) => Err(e),
            None => Ok(after_insert(ks, o)),
        },
        Command::Select(_) => Err(DbError::SelectNotSupported),
    }
}

/// The keyspaces after running commands in order up to the first failure,
/// how many succeeded, and the failure.
pub open spec fn run_commands(ks: Seq<KeyspaceView>, cmds: Seq<Command>) -> (
    Seq<KeyspaceView>,
    nat,
    Option<DbError>,
)
    decreases cmds.len(),
{
    if cmds.len() == 0 {
        (ks, 0, None)
    } else {
        let (prev, n, err) = run_commands(ks, cmds.drop_last());
        if err is Some {
            (prev, n, err)
        } else {
            match command_step(prev, cmds.last()) {
                Ok(next) => (next, n + 1, None),
                Err(e) => (prev, n, Some(e)),
            }
        }
    }
}

proof fn lemma_run_commands_err(ks: Seq<KeyspaceView>, cmds: Seq<Command>, k: nat)
    requires
        k <= cmds.len(),
        run_commands(ks, cmds.subrange(0, k as int)).2 is Some,
    ensures
        run_commands(ks, cmds) == run_commands(ks, cmds.subrange(0, k as int)),
    decreases cmds.len() - k,
{
    if k < cmds.len() {
        assert(cmds.subrange(0, (k + 1) as int).drop_last() =~= cmds.subrange(0, k as int));
        lemma_run_commands_err(ks, cmds, k + 1);
    } else {
        assert(cmds.subrange(0, k as int) =~= cmds);
    }
}

/// Whether a command can be run: a table to create has unique column names.
pub open spec fn command_wf(cmd: Command) -> bool {
    match cmd {
        Command::CreateTable(o) => o.columns.wf(),
        _ => true,
    }
}

/// The failure of a result, as an option.
pub open spec fn failure(r: Result<(), DbError>) -> Option<DbError> {
    match r {
        Ok(_) => None,
        Err(e) => Some(e),
    }
}

/// Whether an effect is the one that running `cmd` reports: the table it
/// created, or a batch for its table with one row per inserted row.
pub open spec fn effect_matches(cmd: Command, effect: Effect) -> bool {
    match (cmd, effect) {
        (Command::CreateTable(c), Effect::Created(o)) => o.name == c.name && o.columns@ == c.columns@,
        (Command::Insert(o), Effect::Inserted(b)) => b.table@ == o.table@ && b.puts@.len()
            == o.values@.len(),
        _ => false,
    }
}

/// A data store: a translator in front of a storage engine.
pub struct Instance {
    storage: StorageEngine,
    query: QueryEngine,
}

impl View for Instance {
    type V = Seq<KeyspaceView>;

    closed spec fn view(&self) -> Seq<KeyspaceView> {
        self.storage@
    }
}

impl Instance {
    /// The storage engine's invariant.
    pub closed spec fn wf(&self) -> bool {
        self.storage.wf()
    }

    /// A store with no tables.
    pub fn new() -> (r: Instance)
        ensures
            r@.len() == 0,
            r.wf(),
    {
        Instance { storage: StorageEngine::new(), query: QueryEngine }
    }

    /// The storage engine.
    pub fn storage(&self) -> (r: &StorageEngine)
        ensures
            r@ == self@,
            self.wf() ==> r.wf(),
    {
        &self.storage
    }

    /// Adds a keyspace read back from the store; see
    /// [`StorageEngine::restore_keyspace`].
    pub fn restore_keyspace(
        &mut self,
        name: String,
        metadata: Option<ColumnDescriptors>,
        counters: Vec<u64>,
    ) -> (r: Result<(), DbError>)
        requires
            old(self).wf(),
        ensures
            final(self).wf(),
            keyspace_position(old(self)@, name@) is Some ==> r == Err::<(), DbError>(DbError::TableExists(name))
                && *final(self) == *old(self),
            keyspace_position(old(self)@, name@) is None ==> match metadata {
                Some(d) => if d.wf() && counters@.len() == d@.len() {
                    r is Ok && final(self)@ == old(self)@.push(
                        KeyspaceView { name: name@, metadata: Some(d@), counters: counters@ },
                    )
                } else {
                    r == Err::<(), DbError>(DbError::CorruptKeyspace(name)) && *final(self) == *old(self)
                },
                None => r is Ok && final(self)@ == old(self)@.push(
                    KeyspaceView { name: name@, metadata: None, counters: Seq::empty() },
                ),
            },
    {
        self.storage.restore_keyspace(name, metadata, counters)
    }

    /// Runs one command: CREATE TABLE and INSERT go to the storage engine, a
    /// query is refused.
    pub fn execute_command(&mut self, cmd: &Command) -> (r: Result<Effect, DbError>)
        requires
            old(self).wf(),
            command_wf(*cmd),
        ensures
            final(self).wf(),
            match command_step(old(self)@, *cmd) {
                Ok(ks) => r is Ok && final(self)@ == ks,
                Err(e) => r == Err::<Effect, DbError>(e) && *final(self) == *old(self),
            },
            r matches Ok(effect) ==> effect_matches(*cmd, effect),
            r matches Ok(Effect::Inserted(b)) ==> (*cmd matches Command::Insert(o) && inserted(
                old(self)@,
                o,
                b,
                final(self)@,
            )),
    {
        match cmd {
            Command::CreateTable(opts) => {
                match self.storage.create_table(opts) {
                    Ok(()) => Ok(
                        Effect::Created(
                            CreateTableOptions { name: opts.name.clone(), columns: opts.columns.deep_copy() },
                        ),
                    ),
                    Err(e) => Err(e),
                }
            },
            Command::Insert(opts) => {
                match self.storage.insert_rows(opts) {
                    Ok(batch) => Ok(Effect::Inserted(batch)),
                    Err(e) => Err(e),
                }
            },
            Command::Select(_) => Err(DbError::SelectNotSupported),
        }
    }

    /// Translates the statements, then runs them in order. Nothing runs if
    /// any statement fails to translate. Running stops at the first command
    /// that fails; those before it stay applied, and their effects are
    /// returned.
    pub fn execute(&mut self, statements: &Vec<Statement>) -> (r: (Vec<Effect>, Result<(), DbError>))
        requires
            old(self).wf(),
        ensures
            final(self).wf(),
            match first_where(statements@.len(), fails_pred(statements@)) {
                Some(i) => r.0@.len() == 0 && failure(r.1) == statement_error(statements@[i])
                    && *final(self) == *old(self),
                None => exists|cmds: Seq<Command>|
                    cmds.len() == statements@.len() && (forall|i: int|
                        0 <= i < cmds.len() ==> translates_to(statements@[i], #[trigger] cmds[i]))
                        && run_commands(old(self)@, cmds) == (final(self)@, r.0@.len(), failure(r.1))
                        && forall|i: int| 0 <= i < r.0@.len() ==> effect_matches(cmds[i], #[trigger] r.0@[i]),
            },
    {
        let cmds = match self.query.process_sql(statements) {
            Ok(c) => c,
            Err(e) => return (Vec::new(), Err(e)),
        };
        let ghost start = self@;
        let mut effects: Vec<Effect> = Vec::new();
        let mut i: usize = 0;
        assert(cmds@.subrange(0, 0) =~= Seq::<Command>::empty());
        while i < cmds.len()
            invariant
                i <= cmds@.len(),
                self.wf(),
                start == old(self)@,
                cmds@.len() == statements@.len(),
                forall|k: int| 0 <= k < cmds@.len() ==> translates_to(statements@[k], #[trigger] cmds@[k]),
                first_where(statements@.len(), fails_pred(statements@)) is None,
                run_commands(start, cmds@.subrange(0, i as int)) == (self@, effects@.len(), None::<DbError>),
                effects@.len() == i,
                forall|k: int| 0 <= k < i ==> effect_matches(cmds@[k], #[trigger] effects@[k]),
            decreases cmds@.len() - i,
        {
            let ghost prefix = cmds@.subrange(0, (i + 1) as int);
            proof {
                assert(prefix.drop_last() =~= cmds@.subrange(0, i as int));
                assert(prefix.last() == cmds@[i as int]);
                assert(translates_to(statements@[i as int], cmds@[i as int]));
            }
            match self.execute_command(&cmds[i]) {
                Ok(effect) => effects.push(effect),
                Err(e) => {
                    proof {
                        lemma_run_commands_err(start, cmds@, (i + 1) as nat);
                    }
                    return (effects, Err(e));
                },
            }
            i = i + 1;
        }
        assert(cmds@.subrange(0, cmds@.len() as int) =~= cmds@);
        (effects, Ok(()))
    }
}

} // verus!
