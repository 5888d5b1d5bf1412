//! The ops that the store asks of its backing store: what each is expected
//! to do, and the statement that carries it out.

use vstd::prelude::*;
use crate::model::{
    old_names, rename_collides, rows_inserted, rows_renamed, slot, ReplyModel, RowModel,
    StoreModel,
};
use crate::record::{InternalInsertTriple, InternalStoredRecord};
use crate::sql::{push_placeholders, table_name};

verus! {

broadcast use vstd::string::group_string_axioms;

/// A value bound to a placeholder of a statement.
#[derive(Debug, Clone, PartialEq, Eq)]
pub enum SqlValue {
    Null,
    Integer(i64),
    Text(String),
    Blob(Vec<u8>),
}

/// A bound value as contracts see it.
pub enum SqlValueView {
    Null,
    Integer(int),
    Text(Seq<char>),
    Blob(Seq<u8>),
}

impl View for SqlValue {
    type V = SqlValueView;

    open spec fn view(&self) -> SqlValueView {
        match *self {
            SqlValue::Null => SqlValueView::Null,
            SqlValue::Integer(i) => SqlValueView::Integer(i as int),
            SqlValue::Text(s) => SqlValueView::Text(s@),
            SqlValue::Blob(b) => SqlValueView::Blob(b@),
        }
    }
}

/// What is to be read from the backing store once a statement has run.
#[derive(Debug, Clone, Copy, PartialEq, Eq, Structural)]
pub enum Reads {
    /// The number of rows that the statement changed.
    Changes,
    /// One row of one integer column: zero or not.
    Flag,
    /// Rows of one text column.
    Keys,
    /// At most one row of the columns value, codecs, expires_at_ms.
    Record,
    /// Rows of the columns key, value, codecs, expires_at_ms.
    Records,
}

/// A statement for the backing store: its text, the values for its
/// placeholders in their order, and what to read from it.
#[derive(Debug, Clone, PartialEq, Eq)]
pub struct Statement {
    pub sql: String,
    pub params: Vec<SqlValue>,
    pub reads: Reads,
}

/// The views of bound values.
pub open spec fn params_view(params: Seq<SqlValue>) -> Seq<SqlValueView> {
    params.map_values(|p: SqlValue| p@)
}

/// The texts of strings.
pub open spec fn texts(strings: Seq<String>) -> Seq<Seq<char>> {
    strings.map_values(|s: String| s@)
}

/// One step of work for the backing store.
#[derive(Debug, PartialEq, Eq)]
pub enum Op {
    /// Creates the table of a namespace unless it exists.
    CreateTable { namespace: String },
    /// Creates the key index of a namespace's table unless it exists.
    CreateIndex { namespace: String },
    /// Writes rows, each in place of the row that its key had. All rows get
    /// the same time of creation and of expiry.
    Insert {
        namespace: String,
        rows: Vec<InternalInsertTriple>,
        created_at_ms: i64,
        expires_at_ms: Option<i64>,
    },
    /// Reads the row of one key.
    Get { namespace: String, key: String },
    /// Asks whether a key has a row.
    Has { namespace: String, key: String },
    /// Asks which of some keys have rows.
    SelectKeys { namespace: String, keys: Vec<String> },
    /// Reads the rows of some keys.
    SelectRows { namespace: String, keys: Vec<String> },
    /// Removes the rows of some keys.
    Delete { namespace: String, keys: Vec<String> },
    /// Lists the keys of a namespace: all of them, or those that match a
    /// pattern.
    ListKeys { namespace: String, like: Option<String> },
    /// Lists the tables of all namespaces by name.
    ListTables,
    /// Moves the row at the first name of each pair to the second name of
    /// the pair, all rows at once.
    Rename { namespace: String, pairs: Vec<(String, String)> },
}

/// An [`Op`] as contracts see it.
pub enum OpView {
    CreateTable { namespace: Seq<char> },
    CreateIndex { namespace: Seq<char> },
    Insert { namespace: Seq<char>, rows: Seq<(Seq<char>, RowModel)> },
    Get { namespace: Seq<char>, key: Seq<char> },
    Has { namespace: Seq<char>, key: Seq<char> },
    SelectKeys { namespace: Seq<char>, keys: Seq<Seq<char>> },
    SelectRows { namespace: Seq<char>, keys: Seq<Seq<char>> },
    Delete { namespace: Seq<char>, keys: Seq<Seq<char>> },
    ListKeys { namespace: Seq<char>, like: Option<Seq<char>> },
    ListTables,
    Rename { namespace: Seq<char>, pairs: Seq<(Seq<char>, Seq<char>)> },
}

/// The row that is stored for a record written at `created_at_ms`.
pub open spec fn row_of(
    triple: InternalInsertTriple,
    created_at_ms: i64,
    expires_at_ms: Option<i64>,
) -> (Seq<char>, RowModel) {
    (
        triple.key@,
        RowModel {
            codecs: triple.codecs_blob@,
            value: triple.value@,
            created_at_ms: created_at_ms as int,
            expires_at_ms: match expires_at_ms {
                Some(t) => Some(t as int),
                None => None,
            },
        },
    )
}

/// The rows that are stored for records written at `created_at_ms`.
pub open spec fn rows_of(
    triples: Seq<InternalInsertTriple>,
    created_at_ms: i64,
    expires_at_ms: Option<i64>,
) -> Seq<(Seq<char>, RowModel)> {
    triples.map_values(|t: InternalInsertTriple| row_of(t, created_at_ms, expires_at_ms))
}

/// Old and new names, pair by pair.
pub open spec fn paired(olds: Seq<Seq<char>>, news: Seq<Seq<char>>) -> Seq<(Seq<char>, Seq<char>)> {
    Seq::new(olds.len(), |i: int| (olds[i], news[i]))
}

/// The texts of pairs of strings.
pub open spec fn pair_texts(pairs: Seq<(String, String)>) -> Seq<(Seq<char>, Seq<char>)> {
    pairs.map_values(|p: (String, String)| (p.0@, p.1@))
}

impl View for Op {
    type V = OpView;

    open spec fn view(&self) -> OpView {
        match *self {
            Op::CreateTable { namespace } => OpView::CreateTable { namespace: namespace@ },
            Op::CreateIndex { namespace } => OpView::CreateIndex { namespace: namespace@ },
            Op::Insert { namespace, rows, created_at_ms, expires_at_ms } => OpView::Insert {
                namespace: namespace@,
                rows: rows_of(rows@, created_at_ms, expires_at_ms),
            },
            Op::Get { namespace, key } => OpView::Get { namespace: namespace@, key: key@ },
            Op::Has { namespace, key } => OpView::Has { namespace: namespace@, key: key@ },
            Op::SelectKeys { namespace, keys } => OpView::SelectKeys {
                namespace: namespace@,
                keys: texts(keys@),
            },
            Op::SelectRows { namespace, keys } => OpView::SelectRows {
                namespace: namespace@,
                keys: texts(keys@),
            },
            Op::Delete { namespace, keys } => OpView::Delete {
                namespace: namespace@,
                keys: texts(keys@),
            },
            Op::ListKeys { namespace, like } => OpView::ListKeys {
                namespace: namespace@,
                like: match like {
                    Some(pattern) => Some(pattern@),
                    None => None,
                },
            },
            Op::ListTables => OpView::ListTables,
            Op::Rename { namespace, pairs } => OpView::Rename {
                namespace: namespace@,
                pairs: pair_texts(pairs@),
            },
        }
    }
}

impl OpView {
    /// The store after the op, where the backing store does what is expected
    /// of it. This is what the statements are written for; that the text of a
    /// statement means this to the backing store is not proved here.
    pub open spec fn effect(self, store: StoreModel) -> StoreModel {
        match self {
            OpView::CreateTable { namespace } => if store.dom().contains(slot(namespace)) {
                store
            } else {
                store.insert(slot(namespace), Map::empty())
            },
            OpView::Insert { namespace, rows } => if store.dom().contains(slot(namespace)) {
                store.insert(slot(namespace), rows_inserted(store[slot(namespace)], rows))
            } else {
                store
            },
            OpView::Delete { namespace, keys } => if store.dom().contains(slot(namespace)) {
                store.insert(slot(namespace), store[slot(namespace)].remove_keys(keys.to_set()))
            } else {
                store
            },
            OpView::Rename { namespace, pairs } => if store.dom().contains(slot(namespace))
                && !rename_collides(store[slot(namespace)], pairs) {
                store.insert(slot(namespace), rows_renamed(store[slot(namespace)], pairs))
            } else {
                store
            },
            _ => store,
        }
    }

    /// The answer to the op, where the backing store does what is expected of
    /// it.
    pub open spec fn answer(self, store: StoreModel) -> ReplyModel {
        match self {
            OpView::CreateTable { namespace } => ReplyModel::Ran,
            OpView::CreateIndex { namespace } => if store.dom().contains(slot(namespace)) {
                ReplyModel::Ran
            } else {
                ReplyModel::NoSuchTable
            },
            OpView::Insert { namespace, rows } => if store.dom().contains(slot(namespace)) {
                ReplyModel::Done(rows.len())
            } else {
                ReplyModel::NoSuchTable
            },
            OpView::Get { namespace, key } => if store.dom().contains(slot(namespace)) {
                ReplyModel::Row(
                    if store[slot(namespace)].dom().contains(key) {
                        Some(store[slot(namespace)][key])
                    } else {
                        None
                    },
                )
            } else {
                ReplyModel::NoSuchTable
            },
            OpView::Has { namespace, key } => if store.dom().contains(slot(namespace)) {
                ReplyModel::Flag(store[slot(namespace)].dom().contains(key))
            } else {
                ReplyModel::NoSuchTable
            },
            OpView::SelectKeys { namespace, keys } => if store.dom().contains(slot(namespace)) {
                ReplyModel::Keys(store[slot(namespace)].dom().intersect(keys.to_set()))
            } else {
                ReplyModel::NoSuchTable
            },
            OpView::SelectRows { namespace, keys } => if store.dom().contains(slot(namespace)) {
                ReplyModel::Rows(store[slot(namespace)].restrict(keys.to_set()))
            } else {
                ReplyModel::NoSuchTable
            },
            OpView::Delete { namespace, keys } => if store.dom().contains(slot(namespace)) {
                ReplyModel::Done(store[slot(namespace)].dom().intersect(keys.to_set()).len())
            } else {
                ReplyModel::NoSuchTable
            },
            OpView::ListKeys { namespace, like } => if store.dom().contains(slot(namespace)) {
                match like {
                    None => ReplyModel::Keys(store[slot(namespace)].dom()),
                    Some(_) => ReplyModel::KeysAmong(store[slot(namespace)].dom()),
                }
            } else {
                ReplyModel::NoSuchTable
            },
            OpView::ListTables => ReplyModel::Tables(store.dom()),
            OpView::Rename { namespace, pairs } => if store.dom().contains(slot(namespace)) {
                if rename_collides(store[slot(namespace)], pairs) {
                    ReplyModel::Failed
                } else {
                    ReplyModel::Done(
                        store[slot(namespace)].dom().intersect(old_names(pairs).to_set()).len(),
                    )
                }
            } else {
                ReplyModel::NoSuchTable
            },
        }
    }
}

} // verus!

verus! {

/// The values bound for one row that is written.
pub open spec fn row_bound(row: (Seq<char>, RowModel)) -> Seq<SqlValueView> {
    seq![
        SqlValueView::Text(row.0),
        SqlValueView::Blob(row.1.codecs),
        SqlValueView::Blob(row.1.value),
        SqlValueView::Integer(row.1.created_at_ms),
        match row.1.expires_at_ms {
            Some(t) => SqlValueView::Integer(t),
            None => SqlValueView::Null,
        },
    ]
}

/// The values bound for the rows that are written, row after row.
pub open spec fn rows_bound(rows: Seq<(Seq<char>, RowModel)>) -> Seq<SqlValueView>
    decreases rows.len(),
{
    if rows.len() == 0 {
        seq![]
    } else {
        rows_bound(rows.drop_last()) + row_bound(rows.last())
    }
}

/// Keys as bound values.
pub open spec fn keys_bound(keys: Seq<Seq<char>>) -> Seq<SqlValueView> {
    keys.map_values(|k: Seq<char>| SqlValueView::Text(k))
}

/// The values bound for the cases of a rename: old name, new name, pair
/// after pair.
pub open spec fn cases_bound(pairs: Seq<(Seq<char>, Seq<char>)>) -> Seq<SqlValueView>
    decreases pairs.len(),
{
    if pairs.len() == 0 {
        seq![]
    } else {
        cases_bound(pairs.drop_last()) + seq![
            SqlValueView::Text(pairs.last().0),
            SqlValueView::Text(pairs.last().1),
        ]
    }
}

/// A statement as contracts see it.
pub struct StatementView {
    pub sql: Seq<char>,
    pub bound: Seq<SqlValueView>,
    pub reads: Reads,
}

impl View for Statement {
    type V = StatementView;

    open spec fn view(&self) -> StatementView {
        StatementView { sql: self.sql@, bound: params_view(self.params@), reads: self.reads }
    }
}

/// The views of statements.
pub open spec fn statements_view(statements: Seq<Statement>) -> Seq<StatementView> {
    statements.map_values(|st: Statement| st@)
}

/// How many pairs of a rename go into one statement: a third of the bind
/// limit, and one where the limit is below three.
pub open spec fn pairs_per_statement(max_binds: nat) -> nat {
    if max_binds / 3 == 0 {
        1
    } else {
        max_binds / 3
    }
}

impl OpView {
    /// The statement of the op, where it is carried out by one statement. For
    /// a rename this is the statement that sets its rows aside at their new
    /// keys.
    pub open spec fn single(self) -> StatementView {
        StatementView { sql: self.sql_text(), bound: self.bound(), reads: self.reads() }
    }

    /// The statements that carry out the op, in the order in which they are
    /// run. Every op but the rename takes one statement. A rename takes one
    /// for each run of its pairs, which moves the rows of the run to their
    /// new keys and sets them aside under version 1, and one more that brings
    /// all of them back under version 0. A row that is set aside is in the
    /// way of no row that is still to move, so that keys may change places.
    pub open spec fn script(self, max_binds: nat) -> Seq<StatementView> {
        match self {
            OpView::Rename { namespace, pairs } => crate::plan::rename_plan(
                namespace,
                pairs,
                pairs_per_statement(max_binds),
            ).map_values(|run: OpView| run.single()).push(
                StatementView {
                    sql: crate::sql::settle_sql(namespace),
                    bound: seq![],
                    reads: Reads::Changes,
                },
            ),
            _ => seq![self.single()],
        }
    }

    /// The text of the statement that carries out the op.
    pub open spec fn sql_text(self) -> Seq<char> {
        match self {
            OpView::CreateTable { namespace } => crate::sql::create_table_sql(namespace),
            OpView::CreateIndex { namespace } => crate::sql::create_index_sql(namespace),
            OpView::Insert { namespace, rows } => crate::sql::insert_sql(namespace, rows.len()),
            OpView::Get { namespace, .. } => crate::sql::get_sql(namespace),
            OpView::Has { namespace, .. } => crate::sql::has_sql(namespace),
            OpView::SelectKeys { namespace, keys } => crate::sql::keyed_sql(
                crate::sql::SELECT_KEYS_HEAD@,
                namespace,
                keys.len(),
            ),
            OpView::SelectRows { namespace, keys } => crate::sql::keyed_sql(
                crate::sql::SELECT_ROWS_HEAD@,
                namespace,
                keys.len(),
            ),
            OpView::Delete { namespace, keys } => crate::sql::keyed_sql(
                crate::sql::DELETE_HEAD@,
                namespace,
                keys.len(),
            ),
            OpView::ListKeys { namespace, like } => crate::sql::list_keys_sql(
                namespace,
                like is Some,
            ),
            OpView::ListTables => crate::sql::LIST_TABLES@,
            OpView::Rename { namespace, pairs } => crate::sql::stage_sql(namespace, pairs.len()),
        }
    }

    /// The values bound to the statement's placeholders, in their order.
    pub open spec fn bound(self) -> Seq<SqlValueView> {
        match self {
            OpView::CreateTable { .. } => seq![],
            OpView::CreateIndex { .. } => seq![],
            OpView::Insert { rows, .. } => rows_bound(rows),
            OpView::Get { key, .. } => seq![SqlValueView::Text(key)],
            OpView::Has { key, .. } => seq![SqlValueView::Text(key)],
            OpView::SelectKeys { keys, .. } => keys_bound(keys),
            OpView::SelectRows { keys, .. } => keys_bound(keys),
            OpView::Delete { keys, .. } => keys_bound(keys),
            OpView::ListKeys { like, .. } => match like {
                Some(pattern) => seq![SqlValueView::Text(pattern)],
                None => seq![],
            },
            OpView::ListTables => seq![],
            OpView::Rename { pairs, .. } => cases_bound(pairs) + keys_bound(old_names(pairs)),
        }
    }

    /// What is read from the statement.
    pub open spec fn reads(self) -> Reads {
        match self {
            OpView::CreateTable { .. } => Reads::Changes,
            OpView::CreateIndex { .. } => Reads::Changes,
            OpView::Insert { .. } => Reads::Changes,
            OpView::Get { .. } => Reads::Record,
            OpView::Has { .. } => Reads::Flag,
            OpView::SelectKeys { .. } => Reads::Keys,
            OpView::SelectRows { .. } => Reads::Records,
            OpView::Delete { .. } => Reads::Changes,
            OpView::ListKeys { .. } => Reads::Keys,
            OpView::ListTables => Reads::Keys,
            OpView::Rename { .. } => Reads::Changes,
        }
    }

    /// The namespace whose table the op works on, if it works on one.
    pub open spec fn namespace(self) -> Option<Seq<char>> {
        match self {
            OpView::CreateTable { namespace } => Some(namespace),
            OpView::CreateIndex { namespace } => Some(namespace),
            OpView::Insert { namespace, .. } => Some(namespace),
            OpView::Get { namespace, .. } => Some(namespace),
            OpView::Has { namespace, .. } => Some(namespace),
            OpView::SelectKeys { namespace, .. } => Some(namespace),
            OpView::SelectRows { namespace, .. } => Some(namespace),
            OpView::Delete { namespace, .. } => Some(namespace),
            OpView::ListKeys { namespace, .. } => Some(namespace),
            OpView::ListTables => None,
            OpView::Rename { namespace, .. } => Some(namespace),
        }
    }

    /// Whether a missing table is no failure for the op: it is one that
    /// reads or removes, and a table that does not exist holds nothing.
    pub open spec fn spares_missing_table(self) -> bool {
        match self {
            OpView::CreateTable { .. } => false,
            OpView::CreateIndex { .. } => false,
            OpView::Insert { .. } => false,
            OpView::Rename { .. } => false,
            _ => true,
        }
    }

    /// How many values the statement binds.
    pub open spec fn binds(self) -> nat {
        match self {
            OpView::CreateTable { .. } => 0,
            OpView::CreateIndex { .. } => 0,
            OpView::Insert { rows, .. } => 5 * rows.len(),
            OpView::Get { .. } => 1,
            OpView::Has { .. } => 1,
            OpView::SelectKeys { keys, .. } => keys.len(),
            OpView::SelectRows { keys, .. } => keys.len(),
            OpView::Delete { keys, .. } => keys.len(),
            OpView::ListKeys { like, .. } => if like is Some {
                1
            } else {
                0
            },
            OpView::ListTables => 0,
            OpView::Rename { pairs, .. } => 3 * pairs.len(),
        }
    }
}

/// The number of values that an op binds is the length of what it binds.
pub proof fn lemma_bound_len(op: OpView)
    ensures
        op.bound().len() == op.binds(),
{
    match op {
        OpView::Insert { rows, .. } => {
            lemma_rows_bound_len(rows);
        },
        OpView::Rename { pairs, .. } => {
            lemma_cases_bound_len(pairs);
        },
        _ => {},
    }
}

proof fn lemma_rows_bound_len(rows: Seq<(Seq<char>, RowModel)>)
    ensures
        rows_bound(rows).len() == 5 * rows.len(),
    decreases rows.len(),
{
    if rows.len() > 0 {
        lemma_rows_bound_len(rows.drop_last());
    }
}

proof fn lemma_cases_bound_len(pairs: Seq<(Seq<char>, Seq<char>)>)
    ensures
        cases_bound(pairs).len() == 2 * pairs.len(),
    decreases pairs.len(),
{
    if pairs.len() > 0 {
        lemma_cases_bound_len(pairs.drop_last());
    }
}

fn text_params(keys: &Vec<String>, params: &mut Vec<SqlValue>)
    ensures
        params_view(final(params)@) == params_view(old(params)@) + keys_bound(texts(keys@)),
{
    let ghost before = params_view(params@);
    let mut i: usize = 0;
    while i < keys.len()
        invariant
            i <= keys.len(),
            params_view(params@) == before + keys_bound(texts(keys@.take(i as int))),
        decreases keys.len() - i,
    {
        let ghost so_far = params_view(params@);
        params.push(SqlValue::Text(keys[i].clone()));
        i += 1;
        proof {
            let done = texts(keys@.take(i as int));
            let earlier = texts(keys@.take(i - 1));
            assert(done =~= earlier.push(keys@[i - 1]@));
            assert(keys_bound(done) =~= keys_bound(earlier).push(
                SqlValueView::Text(keys@[i - 1]@),
            ));
            assert(params_view(params@) =~= so_far.push(SqlValueView::Text(keys@[i - 1]@)));
            assert(params_view(params@) =~= before + keys_bound(done));
        }
    }
    proof {
        assert(keys@.take(keys@.len() as int) =~= keys@);
    }
}

fn row_params(
    rows: &Vec<InternalInsertTriple>,
    created_at_ms: i64,
    expires_at_ms: Option<i64>,
) -> (params: Vec<SqlValue>)
    ensures
        params_view(params@) == rows_bound(rows_of(rows@, created_at_ms, expires_at_ms)),
{
    let mut params: Vec<SqlValue> = Vec::new();
    let mut i: usize = 0;
    while i < rows.len()
        invariant
            i <= rows.len(),
            params_view(params@) == rows_bound(
                rows_of(rows@.take(i as int), created_at_ms, expires_at_ms),
            ),
        decreases rows.len() - i,
    {
        let ghost before = params_view(params@);
        let row = &rows[i];
        params.push(SqlValue::Text(row.key.clone()));
        params.push(SqlValue::Blob(vstd::slice::slice_to_vec(row.codecs_blob.as_slice())));
        params.push(SqlValue::Blob(vstd::slice::slice_to_vec(row.value.as_slice())));
        params.push(SqlValue::Integer(created_at_ms));
        match expires_at_ms {
            Some(t) => params.push(SqlValue::Integer(t)),
            None => params.push(SqlValue::Null),
        }
        i += 1;
        proof {
            let done = rows_of(rows@.take(i as int), created_at_ms, expires_at_ms);
            assert(done.drop_last() =~= rows_of(
                rows@.take(i - 1),
                created_at_ms,
                expires_at_ms,
            ));
            assert(done.last() == row_of(rows@[i - 1], created_at_ms, expires_at_ms));
            assert(params_view(params@) =~= before + row_bound(done.last()));
        }
    }
    proof {
        assert(rows@.take(rows@.len() as int) =~= rows@);
    }
    params
}

fn case_params(pairs: &Vec<(String, String)>) -> (params: Vec<SqlValue>)
    ensures
        params_view(params@) == cases_bound(pair_texts(pairs@)) + keys_bound(
            old_names(pair_texts(pairs@)),
        ),
{
    let ghost all = pair_texts(pairs@);
    let mut params: Vec<SqlValue> = Vec::new();
    let mut i: usize = 0;
    while i < pairs.len()
        invariant
            i <= pairs.len(),
            all == pair_texts(pairs@),
            params_view(params@) == cases_bound(all.take(i as int)),
        decreases pairs.len() - i,
    {
        let ghost before = params_view(params@);
        params.push(SqlValue::Text(pairs[i].0.clone()));
        params.push(SqlValue::Text(pairs[i].1.clone()));
        i += 1;
        proof {
            let done = all.take(i as int);
            assert(done.drop_last() =~= all.take(i - 1));
            assert(done.last() == all[i - 1]);
            assert(params_view(params@) =~= before + seq![
                SqlValueView::Text(done.last().0),
                SqlValueView::Text(done.last().1),
            ]);
        }
    }
    proof {
        assert(all.take(all.len() as int) =~= all);
    }
    let ghost cases = params_view(params@);
    let mut j: usize = 0;
    while j < pairs.len()
        invariant
            j <= pairs.len(),
            all == pair_texts(pairs@),
            params_view(params@) == cases + keys_bound(old_names(all).take(j as int)),
        decreases pairs.len() - j,
    {
        let ghost before = params_view(params@);
        params.push(SqlValue::Text(pairs[j].0.clone()));
        j += 1;
        proof {
            assert(params_view(params@) =~= before.push(SqlValueView::Text(all[j - 1].0)));
            assert(keys_bound(old_names(all).take(j as int)) =~= keys_bound(
                old_names(all).take(j - 1),
            ).push(SqlValueView::Text(all[j - 1].0)));
        }
    }
    proof {
        assert(old_names(all).take(all.len() as int) =~= old_names(all));
    }
    params
}

impl Op {
    /// Whether a missing table is no failure for the op.
    pub fn spares_missing_table(&self) -> (r: bool)
        ensures
            r == self@.spares_missing_table(),
    {
        match self {
            Op::CreateTable { .. } => false,
            Op::CreateIndex { .. } => false,
            Op::Insert { .. } => false,
            Op::Rename { .. } => false,
            _ => true,
        }
    }

    /// The namespace whose table the op works on, if it works on one.
    pub fn namespace(&self) -> (r: Option<&String>)
        ensures
            match r {
                Some(namespace) => self@.namespace() == Some(namespace@),
                None => self@.namespace() is None,
            },
    {
        match self {
            Op::CreateTable { namespace } => Some(namespace),
            Op::CreateIndex { namespace } => Some(namespace),
            Op::Insert { namespace, .. } => Some(namespace),
            Op::Get { namespace, .. } => Some(namespace),
            Op::Has { namespace, .. } => Some(namespace),
            Op::SelectKeys { namespace, .. } => Some(namespace),
            Op::SelectRows { namespace, .. } => Some(namespace),
            Op::Delete { namespace, .. } => Some(namespace),
            Op::ListKeys { namespace, .. } => Some(namespace),
            Op::ListTables => None,
            Op::Rename { namespace, .. } => Some(namespace),
        }
    }

    /// The statements that carry out the op, for a backing store that binds
    /// `max_binds` values to a statement at most. They are run in their
    /// order, and the run ends with the first that fails; the reply to the
    /// op is made of their results by [`crate::reply::Reply::from_results`].
    pub fn statements(&self, max_binds: usize) -> (sts: Vec<Statement>)
        ensures
            statements_view(sts@) == self@.script(max_binds as nat),
    {
        match self.namespace() {
            Some(namespace) => {
                let names = crate::sql::quoted_names(namespace.as_str());
                self.statements_with(&names, max_binds)
            },
            None => {
                let names = crate::sql::QuotedNames { table: String::new(), index: String::new() };
                self.statements_with(&names, max_binds)
            },
        }
    }

    /// The statements that carry out the op, put together with quoted
    /// identifiers that the caller has at hand.
    pub(crate) fn statements_with(&self, names: &crate::sql::QuotedNames, max_binds: usize) -> (sts:
        Vec<Statement>)
        requires
            self@.namespace() matches Some(namespace) ==> names.of(namespace),
        ensures
            statements_view(sts@) == self@.script(max_binds as nat),
    {
        let mut sts: Vec<Statement> = Vec::new();
        match self {
            Op::Rename { namespace, pairs } => {
                let per: usize = if max_binds / 3 == 0 {
                    1
                } else {
                    max_binds / 3
                };
                let runs = crate::plan::rename_runs(namespace.as_str(), pairs, per);
                let ghost plan = crate::plan::ops_view(runs@);
                proof {
                    let cut = crate::plan::chunks(pair_texts(pairs@), per as nat);
                    let wanted = crate::plan::rename_plan(
                        namespace@,
                        pair_texts(pairs@),
                        per as nat,
                    );
                    assert(plan == wanted);
                    assert(wanted.len() == cut.len());
                    assert(plan.len() == runs@.len());
                    assert forall|k: int| 0 <= k < runs@.len() implies (#[trigger] plan[k]).namespace()
                        == Some(namespace@) by {
                        assert(wanted[k] == (OpView::Rename { namespace: namespace@, pairs: cut[k] }));
                    }
                }
                let mut i: usize = 0;
                while i < runs.len()
                    invariant
                        i <= runs.len(),
                        plan == crate::plan::ops_view(runs@),
                        names.of(namespace@),
                        forall|k: int|
                            0 <= k < runs@.len() ==> (#[trigger] plan[k]).namespace() == Some(
                                namespace@,
                            ),
                        statements_view(sts@) == plan.map_values(|run: OpView| run.single()).take(
                            i as int,
                        ),
                    decreases runs.len() - i,
                {
                    let ghost before = statements_view(sts@);
                    proof {
                        assert(plan[i as int] == runs@[i as int]@);
                    }
                    let st = runs[i].statement_with(names);
                    sts.push(st);
                    i += 1;
                    proof {
                        let all = plan.map_values(|run: OpView| run.single());
                        assert(statements_view(sts@) =~= before.push(st@));
                        assert(all.take(i as int) =~= all.take(i - 1).push(all[i - 1]));
                    }
                }
                let ghost staged = statements_view(sts@);
                let mut sql = crate::sql::head_and(crate::sql::UPDATE_HEAD, names.table.as_str());
                sql.append(crate::sql::SETTLE_TAIL);
                let params: Vec<SqlValue> = Vec::new();
                let settle = Statement { sql, params, reads: Reads::Changes };
                sts.push(settle);
                proof {
                    let all = plan.map_values(|run: OpView| run.single());
                    assert(all.take(all.len() as int) =~= all);
                    assert(params_view(settle.params@) =~= Seq::<SqlValueView>::empty());
                    assert(statements_view(sts@) =~= staged.push(settle@));
                    assert(statements_view(sts@) =~= self@.script(max_binds as nat));
                }
            },
            _ => {
                let st = self.statement_with(names);
                sts.push(st);
                proof {
                    assert(statements_view(sts@) =~= seq![st@]);
                }
            },
        }
        sts
    }

    /// The one statement of the op, put together with quoted identifiers
    /// that the caller has at hand.
    fn statement_with(&self, names: &crate::sql::QuotedNames) -> (st: Statement)
        requires
            self@.namespace() matches Some(namespace) ==> names.of(namespace),
        ensures
            st@ == self@.single(),
    {
        let table = names.table.as_str();
        match self {
            Op::CreateTable { namespace } => {
                let mut sql = crate::sql::head_and(crate::sql::CREATE_TABLE_HEAD, table);
                sql.append(crate::sql::CREATE_TABLE_TAIL);
                let params: Vec<SqlValue> = Vec::new();
                proof {
                    assert(params_view(params@) =~= self@.bound());
                }
                Statement { sql, params, reads: Reads::Changes }
            },
            Op::CreateIndex { namespace } => {
                let mut sql = crate::sql::head_and(
                    crate::sql::CREATE_INDEX_HEAD,
                    names.index.as_str(),
                );
                sql.append(crate::sql::CREATE_INDEX_ON);
                sql.append(table);
                sql.append(crate::sql::CREATE_INDEX_TAIL);
                let params: Vec<SqlValue> = Vec::new();
                proof {
                    assert(sql@ =~= crate::sql::create_index_sql(namespace@));
                    assert(params_view(params@) =~= self@.bound());
                }
                Statement { sql, params, reads: Reads::Changes }
            },
            Op::Insert { namespace, rows, created_at_ms, expires_at_ms } => {
                let mut sql = crate::sql::head_and(crate::sql::INSERT_HEAD, table);
                sql.append(crate::sql::INSERT_COLUMNS);
                crate::sql::push_repeated(
                    &mut sql,
                    crate::sql::INSERT_ROW,
                    crate::sql::ROW_SEPARATOR,
                    rows.len(),
                );
                let params = row_params(rows, *created_at_ms, *expires_at_ms);
                Statement { sql, params, reads: Reads::Changes }
            },
            Op::Get { namespace, key } => {
                let mut sql = crate::sql::head_and(crate::sql::GET_HEAD, table);
                sql.append(crate::sql::ONE_KEY_TAIL);
                let mut params: Vec<SqlValue> = Vec::new();
                params.push(SqlValue::Text(key.clone()));
                proof {
                    assert(params_view(params@) =~= self@.bound());
                }
                Statement { sql, params, reads: Reads::Record }
            },
            Op::Has { namespace, key } => {
                let mut sql = crate::sql::head_and(crate::sql::HAS_HEAD, table);
                sql.append(crate::sql::HAS_TAIL);
                let mut params: Vec<SqlValue> = Vec::new();
                params.push(SqlValue::Text(key.clone()));
                proof {
                    assert(params_view(params@) =~= self@.bound());
                }
                Statement { sql, params, reads: Reads::Flag }
            },
            Op::SelectKeys { namespace, keys } => {
                let sql = crate::sql::keyed_statement(
                    crate::sql::SELECT_KEYS_HEAD,
                    table,
                    keys.len(),
                );
                let mut params: Vec<SqlValue> = Vec::new();
                text_params(keys, &mut params);
                proof {
                    assert(params_view(params@) =~= self@.bound());
                }
                Statement { sql, params, reads: Reads::Keys }
            },
            Op::SelectRows { namespace, keys } => {
                let sql = crate::sql::keyed_statement(
                    crate::sql::SELECT_ROWS_HEAD,
                    table,
                    keys.len(),
                );
                let mut params: Vec<SqlValue> = Vec::new();
                text_params(keys, &mut params);
                proof {
                    assert(params_view(params@) =~= self@.bound());
                }
                Statement { sql, params, reads: Reads::Records }
            },
            Op::Delete { namespace, keys } => {
                let sql = crate::sql::keyed_statement(crate::sql::DELETE_HEAD, table, keys.len());
                let mut params: Vec<SqlValue> = Vec::new();
                text_params(keys, &mut params);
                proof {
                    assert(params_view(params@) =~= self@.bound());
                }
                Statement { sql, params, reads: Reads::Changes }
            },
            Op::ListKeys { namespace, like } => {
                let mut sql = crate::sql::head_and(crate::sql::SELECT_KEYS_HEAD, table);
                let mut params: Vec<SqlValue> = Vec::new();
                match like {
                    Some(pattern) => {
                        sql.append(crate::sql::KEY_LIKE);
                        params.push(SqlValue::Text(pattern.clone()));
                    },
                    None => {},
                }
                proof {
                    assert(params_view(params@) =~= self@.bound());
                }
                Statement { sql, params, reads: Reads::Keys }
            },
            Op::ListTables => {
                let sql = String::from_str(crate::sql::LIST_TABLES);
                let params: Vec<SqlValue> = Vec::new();
                proof {
                    assert(params_view(params@) =~= self@.bound());
                }
                Statement { sql, params, reads: Reads::Keys }
            },
            Op::Rename { namespace, pairs } => {
                let mut sql = crate::sql::head_and(crate::sql::UPDATE_HEAD, table);
                sql.append(crate::sql::RENAME_CASE);
                crate::sql::push_repeated(&mut sql, crate::sql::RENAME_WHEN, "", pairs.len());
                sql.append(crate::sql::RENAME_ELSE);
                sql.append(crate::sql::RENAME_STAGED);
                push_placeholders(&mut sql, pairs.len());
                sql.append(crate::sql::CLOSE_PAREN);
                let params = case_params(pairs);
                proof {
                    reveal_strlit("");
                    assert(""@ =~= Seq::<char>::empty());
                    assert(sql@ =~= crate::sql::stage_sql(namespace@, pair_texts(pairs@).len()));
                }
                Statement { sql, params, reads: Reads::Changes }
            },
        }
    }
}

} // verus!
