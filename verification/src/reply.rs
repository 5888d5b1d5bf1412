//! What comes back from the backing store for an op.

use vstd::prelude::*;
use crate::error::TalsiError;
use crate::model::{slot, ReplyModel, RowModel};
use crate::sql::TABLE_PREFIX;
use crate::ops::{texts, Op};
use crate::record::InternalStoredRecord;
use crate::text::starts_with;

verus! {

/// The beginning of the reason that the backing store gives where a
/// statement names a table that does not exist.
pub const NO_SUCH_TABLE_REASON: &'static str = "no such table:";

/// The words by which a failure while a statement runs is known to be one
/// of a table that does not exist.
pub const NO_SUCH_TABLE_WORDS: &'static str = "no such table";

/// What is said where an op was to be answered and none of its statements
/// was run.
pub const NOTHING_RUN: &'static str = "no statement was run";

/// The result that decides the reply to an op: the first failure among the
/// results of its statements, or the last result where none failed.
pub open spec fn decisive(results: Seq<Result<Reply, BackendFailure>>) -> Option<
    Result<Reply, BackendFailure>,
>
    decreases results.len(),
{
    if results.len() == 0 {
        None
    } else {
        match decisive(results.drop_last()) {
            Some(Err(e)) => Some(Err(e)),
            _ => Some(results.last()),
        }
    }
}

/// A failure of the backing store.
#[derive(Debug, Clone, PartialEq, Eq)]
pub struct BackendFailure {
    /// The reason that the engine itself gave, where the failure is the
    /// engine's and it gave one.
    pub reason: Option<String>,
    /// The failure in words.
    pub message: String,
}

/// What the backing store made of a statement, once the failure of a missing
/// table has been told apart from the others.
#[derive(Debug, Clone, PartialEq, Eq)]
pub enum StatementResult<S> {
    Stmt(S),
    NoSuchTable,
}

impl BackendFailure {
    /// Whether the engine's own reason says that a table does not exist.
    pub open spec fn spec_is_no_such_table(&self) -> bool {
        match self.reason {
            Some(reason) => NO_SUCH_TABLE_REASON@.is_prefix_of(reason@),
            None => false,
        }
    }

    /// Whether the engine's own reason says that a table does not exist.
    #[verifier::when_used_as_spec(spec_is_no_such_table)]
    pub fn is_no_such_table(&self) -> (r: bool)
        ensures
            r == self.spec_is_no_such_table(),
    {
        match &self.reason {
            Some(reason) => starts_with(reason.as_str(), NO_SUCH_TABLE_REASON),
            None => false,
        }
    }
}

/// Turns the failure of a missing table into a result of its own, and leaves
/// every other outcome as it is. A namespace that was never written has no
/// table, and a statement that reads it fails in this way.
pub fn ignore_no_such_table<S>(r: Result<S, BackendFailure>) -> (out: Result<
    StatementResult<S>,
    BackendFailure,
>)
    ensures
        match r {
            Ok(stmt) => out == Ok::<StatementResult<S>, BackendFailure>(StatementResult::Stmt(stmt)),
            Err(e) => if e.is_no_such_table() {
                out == Ok::<StatementResult<S>, BackendFailure>(StatementResult::NoSuchTable)
            } else {
                out == Err::<StatementResult<S>, BackendFailure>(e)
            },
        },
{
    match r {
        Ok(stmt) => Ok(StatementResult::Stmt(stmt)),
        Err(e) => {
            if e.is_no_such_table() {
                Ok(StatementResult::NoSuchTable)
            } else {
                Err(e)
            }
        },
    }
}

/// What came back from the backing store for one op.
#[derive(Debug, PartialEq, Eq)]
pub enum Reply {
    /// The statement ran and changed this many rows.
    Done(usize),
    /// The answer to an existence test.
    Flag(bool),
    /// The keys, or names, that a query found.
    Keys(Vec<String>),
    /// The rows that a query found.
    Records(Vec<InternalStoredRecord>),
    /// The statement names a table that does not exist.
    NoSuchTable,
    /// The statement failed in another way.
    Failed(BackendFailure),
}

impl Reply {
    /// The reply for what the backing store made of the statement of `op`.
    /// Where the op only reads or removes, the failure of a missing table
    /// becomes the reply [`Reply::NoSuchTable`]; every other failure is kept.
    pub fn from_result(op: &Op, r: Result<Reply, BackendFailure>) -> (reply: Reply)
        ensures
            match r {
                Ok(given) => reply == given,
                Err(e) => if op@.spares_missing_table() && e.is_no_such_table() {
                    reply == Reply::NoSuchTable
                } else {
                    reply == Reply::Failed(e)
                },
            },
    {
        if op.spares_missing_table() {
            match ignore_no_such_table(r) {
                Ok(StatementResult::Stmt(given)) => given,
                Ok(StatementResult::NoSuchTable) => Reply::NoSuchTable,
                Err(e) => Reply::Failed(e),
            }
        } else {
            match r {
                Ok(given) => given,
                Err(e) => Reply::Failed(e),
            }
        }
    }

    /// The reply for the results of the statements of `op`, which were run in
    /// their order up to the first that failed. The first failure decides;
    /// where none failed, the reply is what the last statement gave. Where no
    /// statement was run at all the reply is a failure that says so.
    pub fn from_results(op: &Op, results: Vec<Result<Reply, BackendFailure>>) -> (reply: Reply)
        ensures
            match decisive(results@) {
                Some(Ok(given)) => reply == given,
                Some(Err(e)) => if op@.spares_missing_table() && e.is_no_such_table() {
                    reply == Reply::NoSuchTable
                } else {
                    reply == Reply::Failed(e)
                },
                None => reply matches Reply::Failed(f) && f.reason is None && f.message@
                    == NOTHING_RUN@,
            },
    {
        let ghost all = results@;
        let mut outcome: Option<Result<Reply, BackendFailure>> = None;
        for result in it: results
            invariant
                it.seq() == all,
                outcome == decisive(all.take(it.index() as int)),
        {
            proof {
                let upto = all.take(it.index() + 1);
                assert(upto.drop_last() =~= all.take(it.index() as int));
                assert(upto.last() == result);
            }
            outcome = match outcome {
                Some(Err(e)) => Some(Err(e)),
                _ => Some(result),
            };
        }
        proof {
            assert(all.take(all.len() as int) =~= all);
        }
        match outcome {
            Some(result) => Reply::from_result(op, result),
            None => Reply::Failed(
                BackendFailure { reason: None, message: String::from_str(NOTHING_RUN) },
            ),
        }
    }

    /// Whether the ops that follow are not to be run: the statement failed,
    /// or its table does not exist.
    pub open spec fn spec_ends_run(&self) -> bool {
        *self is NoSuchTable || *self is Failed
    }

    /// Whether the ops that follow are not to be run.
    #[verifier::when_used_as_spec(spec_ends_run)]
    pub fn ends_run(&self) -> (r: bool)
        ensures
            r == self.spec_ends_run(),
    {
        match self {
            Reply::NoSuchTable => true,
            Reply::Failed(_) => true,
            _ => false,
        }
    }

    /// Whether this reply is the answer `expected` of the backing store: the
    /// same count or flag, the same keys each once, the same rows.
    pub open spec fn agrees(&self, expected: ReplyModel) -> bool {
        match (*self, expected) {
            (Reply::Done(_), ReplyModel::Ran) => true,
            (Reply::Done(n), ReplyModel::Done(m)) => n == m,
            (Reply::Flag(b), ReplyModel::Flag(c)) => b == c,
            (Reply::Keys(keys), ReplyModel::Keys(set)) => texts(keys@).to_set() == set && texts(
                keys@,
            ).no_duplicates(),
            (Reply::Keys(keys), ReplyModel::KeysAmong(set)) => texts(keys@).to_set().subset_of(set),
            (Reply::Keys(names), ReplyModel::Tables(places)) => names_show_tables(
                texts(names@),
                places,
            ),
            (Reply::Records(records), ReplyModel::Row(row)) => match row {
                Some(row) => records@.len() == 1 && record_shows(records@[0], row),
                None => records@.len() == 0,
            },
            (Reply::Records(records), ReplyModel::Rows(rows)) => records_show(records@, rows),
            (Reply::NoSuchTable, ReplyModel::NoSuchTable) => true,
            (Reply::Failed(_), ReplyModel::Failed) => true,
            _ => false,
        }
    }
}

/// The place in the backing store of the table with this name.
pub open spec fn place_of_table(name: Seq<char>) -> Seq<char> {
    slot(name.skip(TABLE_PREFIX@.len() as int))
}

/// Whether one of the names is that of the table at `place`.
pub open spec fn has_table_at(names: Seq<Seq<char>>, place: Seq<char>) -> bool {
    exists|i: int| 0 <= i < names.len() && place_of_table(#[trigger] names[i]) == place
}

/// Whether the names are those of the tables at `places`: each name begins
/// with the table prefix and is that of a table there, no two names are of
/// one table, and each table has its name.
pub open spec fn names_show_tables(names: Seq<Seq<char>>, places: Set<Seq<char>>) -> bool {
    &&& (forall|i: int|
        0 <= i < names.len() ==> TABLE_PREFIX@.is_prefix_of(#[trigger] names[i])
            && places.contains(place_of_table(names[i])))
    &&& (forall|i: int, j: int|
        0 <= i < j < names.len() ==> place_of_table(#[trigger] names[i]) != place_of_table(
            #[trigger] names[j],
        ))
    &&& (forall|place: Seq<char>| #[trigger] places.contains(place) ==> has_table_at(names, place))
}

/// Whether the records are the rows: each record has a key and shows the row
/// of that key, no two records have one key, and each row has its record.
pub open spec fn records_show(
    records: Seq<InternalStoredRecord>,
    rows: Map<Seq<char>, RowModel>,
) -> bool {
    &&& (forall|i: int|
        0 <= i < records.len() ==> (#[trigger] records[i]).key is Some && rows.dom().contains(
            records[i].key->0@,
        ) && record_shows(records[i], rows[records[i].key->0@]))
    &&& (forall|i: int, j: int|
        0 <= i < j < records.len() ==> (#[trigger] records[i]).key != (#[trigger] records[j]).key)
    &&& (forall|key: Seq<char>| #[trigger] rows.dom().contains(key) ==> has_record_of(records, key))
}

/// Whether one of the records is that of `key`.
pub open spec fn has_record_of(records: Seq<InternalStoredRecord>, key: Seq<char>) -> bool {
    exists|i: int|
        0 <= i < records.len() && (#[trigger] records[i]).key is Some && records[i].key->0@ == key
}

/// Whether a record that was read shows what the row holds.
pub open spec fn record_shows(record: InternalStoredRecord, row: RowModel) -> bool {
    &&& record.codecs_blob@ == row.codecs
    &&& record.value@ == row.value
    &&& match (record.expires_at_ms, row.expires_at_ms) {
        (Some(a), Some(b)) => a == b,
        (None, None) => true,
        _ => false,
    }
}

} // verus!
