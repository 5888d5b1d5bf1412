//! Laws of the store, proved against the model of the backing store.

use vstd::prelude::*;
use crate::model::slot;
use crate::model::{rows_inserted, ReplyModel, RowModel, StoreModel, TableModel};
use crate::ops::OpView;
use crate::plan::{chunks, insert_plan, keyed_plan, Keyed};
use crate::reply::Reply;
use crate::results::{keys_scanned, records_scanned, removals_scanned, Scan};
use crate::storage::ensure_plan;

verus! {

/// The store after the ops were run one after the other, where the backing
/// store does what is expected of it.
pub open spec fn run_all(ops: Seq<OpView>, store: StoreModel) -> StoreModel
    decreases ops.len(),
{
    if ops.len() == 0 {
        store
    } else {
        ops.last().effect(run_all(ops.drop_last(), store))
    }
}

/// The answers to the ops as they are run one after the other.
pub open spec fn answers(ops: Seq<OpView>, store: StoreModel) -> Seq<ReplyModel> {
    Seq::new(ops.len(), |i: int| ops[i].answer(run_all(ops.take(i), store)))
}

/// Whether the replies are the answers that were expected, one for one.
pub open spec fn agree(replies: Seq<Reply>, expected: Seq<ReplyModel>) -> bool {
    &&& replies.len() == expected.len()
    &&& forall|i: int| 0 <= i < replies.len() ==> (#[trigger] replies[i]).agrees(expected[i])
}

/// The table of a namespace. A namespace without a table holds nothing.
pub open spec fn table_of(store: StoreModel, namespace: Seq<char>) -> TableModel {
    if store.dom().contains(slot(namespace)) {
        store[slot(namespace)]
    } else {
        Map::empty()
    }
}

/// The row at a key of a namespace.
pub open spec fn row_at(store: StoreModel, namespace: Seq<char>, key: Seq<char>) -> Option<
    RowModel,
> {
    if table_of(store, namespace).dom().contains(key) {
        Some(table_of(store, namespace)[key])
    } else {
        None
    }
}

/// The store after `rows` were written into a namespace: its table exists,
/// and holds each row in place of the row that its key had.
pub open spec fn written(
    store: StoreModel,
    namespace: Seq<char>,
    rows: Seq<(Seq<char>, RowModel)>,
) -> StoreModel {
    store.insert(slot(namespace), rows_inserted(table_of(store, namespace), rows))
}

/// The store after the rows of `keys` were removed from a namespace.
pub open spec fn removed(store: StoreModel, namespace: Seq<char>, keys: Set<Seq<char>>)
    -> StoreModel {
    if store.dom().contains(slot(namespace)) {
        store.insert(slot(namespace), store[slot(namespace)].remove_keys(keys))
    } else {
        store
    }
}

/// Running ops that are put end to end is running the first and then the
/// second.
pub proof fn lemma_run_all_concat(first: Seq<OpView>, second: Seq<OpView>, store: StoreModel)
    ensures
        run_all(first + second, store) == run_all(second, run_all(first, store)),
    decreases second.len(),
{
    if second.len() == 0 {
        assert(first + second =~= first);
    } else {
        lemma_run_all_concat(first, second.drop_last(), store);
        assert((first + second).drop_last() =~= first + second.drop_last());
        assert((first + second).last() == second.last());
    }
}

/// Writing rows that are put end to end is writing the first and then the
/// second.
pub proof fn lemma_rows_inserted_concat(
    table: TableModel,
    first: Seq<(Seq<char>, RowModel)>,
    second: Seq<(Seq<char>, RowModel)>,
)
    ensures
        rows_inserted(table, first + second) == rows_inserted(
            rows_inserted(table, first),
            second,
        ),
    decreases second.len(),
{
    if second.len() == 0 {
        assert(first + second =~= first);
    } else {
        lemma_rows_inserted_concat(table, first, second.drop_last());
        assert((first + second).drop_last() =~= first + second.drop_last());
        assert((first + second).last() == second.last());
    }
}

pub proof fn lemma_run_one(op: OpView, store: StoreModel)
    ensures
        run_all(seq![op], store) == op.effect(store),
{
    reveal_with_fuel(run_all, 2);
    assert(seq![op].drop_last() =~= Seq::<OpView>::empty());
}

/// However many rows go into one statement, the ops that write rows leave
/// the table as writing the rows one after the other does.
pub proof fn lemma_insert_plan_writes(
    store: StoreModel,
    namespace: Seq<char>,
    rows: Seq<(Seq<char>, RowModel)>,
    size: nat,
)
    requires
        size > 0,
        store.dom().contains(slot(namespace)),
    ensures
        run_all(insert_plan(namespace, rows, size), store) == written(store, namespace, rows),
    decreases rows.len(),
{
    let plan = insert_plan(namespace, rows, size);
    if rows.len() == 0 {
        assert(plan =~= Seq::<OpView>::empty());
        assert(written(store, namespace, rows) =~= store);
    } else if rows.len() <= size {
        let op = OpView::Insert { namespace, rows };
        assert(plan =~= seq![op]);
        lemma_run_one(op, store);
    } else {
        let head = rows.take(size as int);
        let tail = rows.skip(size as int);
        let op = OpView::Insert { namespace, rows: head };
        assert(plan =~= seq![op] + insert_plan(namespace, tail, size));
        lemma_run_all_concat(seq![op], insert_plan(namespace, tail, size), store);
        lemma_run_one(op, store);
        let mid = op.effect(store);
        lemma_insert_plan_writes(mid, namespace, tail, size);
        assert(rows =~= head + tail);
        lemma_rows_inserted_concat(store[slot(namespace)], head, tail);
        assert(written(mid, namespace, tail) =~= written(store, namespace, rows));
    }
}

/// A write goes through whatever the table's state: the ops of a write plan
/// leave the store as writing the rows into the namespace does, whether the
/// table existed or not. The store's memory of tables is to hold only tables
/// that exist.
pub proof fn lemma_write_plan_writes(
    store: StoreModel,
    known: Set<Seq<char>>,
    namespace: Seq<char>,
    rows: Seq<(Seq<char>, RowModel)>,
    size: nat,
)
    requires
        size > 0,
        known.contains(namespace) ==> store.dom().contains(slot(namespace)),
    ensures
        run_all(ensure_plan(known, namespace) + insert_plan(namespace, rows, size), store)
            == written(store, namespace, rows),
{
    let ensure = ensure_plan(known, namespace);
    lemma_run_all_concat(ensure, insert_plan(namespace, rows, size), store);
    let ensured = run_all(ensure, store);
    if known.contains(namespace) {
        assert(ensured == store);
    } else {
        let create = OpView::CreateTable { namespace };
        let index = OpView::CreateIndex { namespace };
        assert(ensure =~= seq![create] + seq![index]);
        lemma_run_all_concat(seq![create], seq![index], store);
        lemma_run_one(create, store);
        lemma_run_one(index, create.effect(store));
    }
    lemma_insert_plan_writes(ensured, namespace, rows, size);
    assert(table_of(ensured, namespace) == table_of(store, namespace));
    assert(written(ensured, namespace, rows) =~= written(store, namespace, rows));
}

/// The last write wins: after two writes to one key the key holds the row
/// of the second, and the table holds the keys that it held after the first.
pub proof fn lemma_last_write_wins(
    store: StoreModel,
    namespace: Seq<char>,
    key: Seq<char>,
    first: RowModel,
    second: RowModel,
)
    ensures
        row_at(
            written(written(store, namespace, seq![(key, first)]), namespace, seq![(key, second)]),
            namespace,
            key,
        ) == Some(second),
        table_of(
            written(written(store, namespace, seq![(key, first)]), namespace, seq![(key, second)]),
            namespace,
        ).dom() == table_of(written(store, namespace, seq![(key, first)]), namespace).dom(),
{
    lemma_one_row_inserted(table_of(store, namespace), key, first);
    let once = written(store, namespace, seq![(key, first)]);
    lemma_one_row_inserted(table_of(once, namespace), key, second);
    let twice = written(once, namespace, seq![(key, second)]);
    assert(table_of(twice, namespace).dom() =~= table_of(once, namespace).dom());
}

proof fn lemma_one_row_inserted(table: TableModel, key: Seq<char>, row: RowModel)
    ensures
        rows_inserted(table, seq![(key, row)]) == table.insert(key, row),
{
    reveal_with_fuel(rows_inserted, 2);
    assert(seq![(key, row)].drop_last() =~= Seq::<(Seq<char>, RowModel)>::empty());
}

/// Namespaces do not see each other: a write to one namespace leaves every
/// key of every other namespace as it was. The two namespaces have to differ
/// in more than the case of their letters `A` to `Z`: where they differ in
/// that alone the backing store keeps them in one table.
pub proof fn lemma_namespaces_isolated(
    store: StoreModel,
    written_to: Seq<char>,
    rows: Seq<(Seq<char>, RowModel)>,
    read_from: Seq<char>,
    key: Seq<char>,
)
    requires
        slot(written_to) != slot(read_from),
    ensures
        row_at(written(store, written_to, rows), read_from, key) == row_at(store, read_from, key),
        written(store, written_to, rows).dom().contains(slot(read_from)) == store.dom().contains(
            slot(read_from),
        ),
{
}

/// Namespaces that are spelled alike but for the case of their letters `A`
/// to `Z` are one to the backing store: what is written to one is read from
/// the other.
pub proof fn lemma_namespaces_alike_share_a_table(
    store: StoreModel,
    written_to: Seq<char>,
    rows: Seq<(Seq<char>, RowModel)>,
    read_from: Seq<char>,
    key: Seq<char>,
)
    requires
        slot(written_to) == slot(read_from),
    ensures
        row_at(written(store, written_to, rows), read_from, key) == row_at(
            written(store, written_to, rows),
            written_to,
            key,
        ),
{
}

/// A namespace that was never written is as an empty one. Every op that
/// reads or removes there is answered with the missing table, and changes
/// nothing; the readers of replies take that answer as they take the answer
/// of an empty table: no row, no key, nothing removed.
pub proof fn lemma_never_written_is_empty(
    store: StoreModel,
    namespace: Seq<char>,
    key: Seq<char>,
    keys: Seq<Seq<char>>,
    like: Option<Seq<char>>,
)
    requires
        !store.dom().contains(slot(namespace)),
    ensures
        row_at(store, namespace, key) is None,
        (OpView::Get { namespace, key }).answer(store) == ReplyModel::NoSuchTable,
        (OpView::Has { namespace, key }).answer(store) == ReplyModel::NoSuchTable,
        (OpView::SelectKeys { namespace, keys }).answer(store) == ReplyModel::NoSuchTable,
        (OpView::SelectRows { namespace, keys }).answer(store) == ReplyModel::NoSuchTable,
        (OpView::ListKeys { namespace, like }).answer(store) == ReplyModel::NoSuchTable,
        (OpView::Delete { namespace, keys }).answer(store) == ReplyModel::NoSuchTable,
        (OpView::Delete { namespace, keys }).effect(store) == store,
        keys_scanned(seq![Reply::NoSuchTable]) == Scan::Stopped(Seq::<Seq<char>>::empty()),
        records_scanned(seq![Reply::NoSuchTable]) matches Scan::Stopped(found) && found.len() == 0,
        removals_scanned(seq![Reply::NoSuchTable]) == Scan::<nat>::Stopped(0),
{
    reveal_with_fuel(keys_scanned, 2);
    reveal_with_fuel(records_scanned, 2);
    reveal_with_fuel(removals_scanned, 2);
    let one = seq![Reply::NoSuchTable];
    assert(one.drop_last() =~= Seq::<Reply>::empty());
}

} // verus!

verus! {

/// The elements of two sequences put end to end are those of the one and
/// those of the other.
pub proof fn lemma_concat_to_set<T>(a: Seq<T>, b: Seq<T>)
    ensures
        (a + b).to_set() == a.to_set().union(b.to_set()),
{
    let left = (a + b).to_set();
    let right = a.to_set().union(b.to_set());
    assert forall|x: T| left.contains(x) <==> right.contains(x) by {
        if left.contains(x) {
            let i = choose|i: int| 0 <= i < (a + b).len() && (a + b)[i] == x;
            if i < a.len() {
                assert(a[i] == x);
                assert(a.contains(x));
            } else {
                assert(b[i - a.len()] == x);
                assert(b.contains(x));
            }
        }
        if a.to_set().contains(x) {
            let i = choose|i: int| 0 <= i < a.len() && a[i] == x;
            assert((a + b)[i] == x);
        }
        if b.to_set().contains(x) {
            let i = choose|i: int| 0 <= i < b.len() && b[i] == x;
            assert((a + b)[a.len() + i] == x);
        }
    }
    assert(left =~= right);
}

/// The answers to ops of which one goes first: its answer, then the answers
/// to the others in the store that it leaves.
pub proof fn lemma_answers_cons(op: OpView, rest: Seq<OpView>, store: StoreModel)
    ensures
        answers(seq![op] + rest, store) == seq![op.answer(store)] + answers(
            rest,
            op.effect(store),
        ),
{
    let all = seq![op] + rest;
    let left = answers(all, store);
    let right = seq![op.answer(store)] + answers(rest, op.effect(store));
    assert(left.len() == right.len());
    assert forall|i: int| 0 <= i < left.len() implies left[i] == right[i] by {
        if i == 0 {
            assert(all.take(0) =~= Seq::<OpView>::empty());
        } else {
            assert(all.take(i) =~= seq![op] + rest.take(i - 1));
            lemma_run_all_concat(seq![op], rest.take(i - 1), store);
            lemma_run_one(op, store);
            assert(all[i] == rest[i - 1]);
        }
    }
    assert(left =~= right);
}

/// However many keys go into one statement, the ops that remove rows leave
/// the table without the rows of the keys, as removing them key by key does.
pub proof fn lemma_delete_plan_removes(
    store: StoreModel,
    namespace: Seq<char>,
    keys: Seq<Seq<char>>,
    size: nat,
)
    requires
        size > 0,
    ensures
        run_all(keyed_plan(Keyed::Delete, namespace, keys, size), store) == removed(
            store,
            namespace,
            keys.to_set(),
        ),
    decreases keys.len(),
{
    let plan = keyed_plan(Keyed::Delete, namespace, keys, size);
    if keys.len() == 0 {
        assert(plan =~= Seq::<OpView>::empty());
        assert(keys.to_set() =~= Set::<Seq<char>>::empty());
        if store.dom().contains(slot(namespace)) {
            assert(store[slot(namespace)].remove_keys(keys.to_set()) =~= store[slot(namespace)]);
            assert(removed(store, namespace, keys.to_set()) =~= store);
        }
    } else if keys.len() <= size {
        let op = OpView::Delete { namespace, keys };
        assert(plan =~= seq![op]);
        lemma_run_one(op, store);
    } else {
        let head = keys.take(size as int);
        let tail = keys.skip(size as int);
        let op = OpView::Delete { namespace, keys: head };
        let rest = keyed_plan(Keyed::Delete, namespace, tail, size);
        assert(plan =~= seq![op] + rest);
        lemma_run_all_concat(seq![op], rest, store);
        lemma_run_one(op, store);
        let mid = op.effect(store);
        lemma_delete_plan_removes(mid, namespace, tail, size);
        assert(keys =~= head + tail);
        lemma_concat_to_set(head, tail);
        if store.dom().contains(slot(namespace)) {
            assert(store[slot(namespace)].remove_keys(head.to_set()).remove_keys(tail.to_set())
                =~= store[slot(namespace)].remove_keys(keys.to_set()));
            assert(removed(mid, namespace, tail.to_set()) =~= removed(
                store,
                namespace,
                keys.to_set(),
            ));
        }
    }
}

proof fn lemma_removals_scanned_cons(rows: usize, rest: Seq<Reply>)
    ensures
        removals_scanned(seq![Reply::Done(rows)] + rest) == match removals_scanned(rest) {
            Scan::Going(n) => Scan::Going((rows + n) as nat),
            other => other,
        },
    decreases rest.len(),
{
    let all = seq![Reply::Done(rows)] + rest;
    if rest.len() == 0 {
        reveal_with_fuel(removals_scanned, 2);
        assert(all.drop_last() =~= Seq::<Reply>::empty());
    } else {
        lemma_removals_scanned_cons(rows, rest.drop_last());
        assert(all.drop_last() =~= seq![Reply::Done(rows)] + rest.drop_last());
        assert(all.last() == rest.last());
    }
}

proof fn lemma_keys_scanned_cons(keys: Vec<String>, rest: Seq<Reply>)
    ensures
        keys_scanned(seq![Reply::Keys(keys)] + rest) == match keys_scanned(rest) {
            Scan::Going(found) => Scan::Going(crate::ops::texts(keys@) + found),
            Scan::Stopped(found) => Scan::Stopped(crate::ops::texts(keys@) + found),
            Scan::Broken(e) => Scan::Broken(e),
        },
    decreases rest.len(),
{
    let all = seq![Reply::Keys(keys)] + rest;
    if rest.len() == 0 {
        reveal_with_fuel(keys_scanned, 2);
        assert(all.drop_last() =~= Seq::<Reply>::empty());
        assert(Seq::<Seq<char>>::empty() + crate::ops::texts(keys@) =~= crate::ops::texts(keys@)
            + Seq::<Seq<char>>::empty());
    } else {
        lemma_keys_scanned_cons(keys, rest.drop_last());
        assert(all.drop_last() =~= seq![Reply::Keys(keys)] + rest.drop_last());
        assert(all.last() == rest.last());
        match keys_scanned(rest.drop_last()) {
            Scan::Going(found) => {
                if let Reply::Keys(more) = rest.last() {
                    assert((crate::ops::texts(keys@) + found) + crate::ops::texts(more@)
                        =~= crate::ops::texts(keys@) + (found + crate::ops::texts(more@)));
                }
            },
            _ => {},
        }
    }
}

/// The rows of a set of keys are those of a first part and, once these are
/// gone, those of the rest.
pub proof fn lemma_split_count(table: Set<Seq<char>>, head: Set<Seq<char>>, tail: Set<Seq<char>>)
    requires
        head.finite(),
        tail.finite(),
    ensures
        table.intersect(head.union(tail)).len() == table.intersect(head).len() + table.difference(
            head,
        ).intersect(tail).len(),
{
    let a = table.intersect(head);
    let b = table.difference(head).intersect(tail);
    assert(a.finite());
    assert(b.finite());
    assert(a.disjoint(b));
    vstd::set_lib::lemma_set_disjoint_lens(a, b);
    assert(a + b =~= table.intersect(head.union(tail)));
}

/// However many keys go into one statement, the ops that remove rows remove
/// as many rows as the keys have, which is what removing them key by key
/// counts: a key that is given twice has its row removed once.
pub proof fn lemma_delete_many_counts(
    store: StoreModel,
    namespace: Seq<char>,
    keys: Seq<Seq<char>>,
    size: nat,
    replies: Seq<Reply>,
)
    requires
        size > 0,
        store.dom().contains(slot(namespace)),
        agree(replies, answers(keyed_plan(Keyed::Delete, namespace, keys, size), store)),
    ensures
        removals_scanned(replies) == Scan::Going(
            store[slot(namespace)].dom().intersect(keys.to_set()).len(),
        ),
    decreases keys.len(),
{
    let plan = keyed_plan(Keyed::Delete, namespace, keys, size);
    let table = store[slot(namespace)].dom();
    if keys.len() == 0 {
        assert(plan =~= Seq::<OpView>::empty());
        assert(replies =~= Seq::<Reply>::empty());
        assert(table.intersect(keys.to_set()) =~= Set::<Seq<char>>::empty());
    } else {
        let head = if keys.len() <= size {
            keys
        } else {
            keys.take(size as int)
        };
        let tail = if keys.len() <= size {
            Seq::<Seq<char>>::empty()
        } else {
            keys.skip(size as int)
        };
        let op = OpView::Delete { namespace, keys: head };
        let rest = keyed_plan(Keyed::Delete, namespace, tail, size);
        assert(rest =~= if keys.len() <= size {
            Seq::<OpView>::empty()
        } else {
            rest
        });
        assert(plan =~= seq![op] + rest);
        lemma_answers_cons(op, rest, store);
        let mid = op.effect(store);
        let expected = answers(plan, store);
        assert(expected[0] == op.answer(store));
        assert(replies[0].agrees(expected[0]));
        let later = replies.skip(1);
        assert(replies =~= seq![replies[0]] + later);
        assert(agree(later, answers(rest, mid))) by {
            assert forall|i: int| 0 <= i < later.len() implies (#[trigger] later[i]).agrees(
                answers(rest, mid)[i],
            ) by {
                assert(later[i] == replies[i + 1]);
                assert(expected[i + 1] == answers(rest, mid)[i]);
            }
        }
        lemma_delete_many_counts(mid, namespace, tail, size, later);
        let first = replies[0]->Done_0;
        lemma_removals_scanned_cons(first, later);
        assert(keys =~= head + tail);
        lemma_concat_to_set(head, tail);
        vstd::seq_lib::seq_to_set_is_finite(head);
        vstd::seq_lib::seq_to_set_is_finite(tail);
        lemma_split_count(table, head.to_set(), tail.to_set());
        assert(mid[slot(namespace)].dom() =~= table.difference(head.to_set()));
    }
}

/// However many keys go into one statement, the query for the keys that
/// have rows finds each key that is asked for and has a row, and no other:
/// the keys for which the test of one key says yes.
pub proof fn lemma_has_many_finds(
    store: StoreModel,
    namespace: Seq<char>,
    keys: Seq<Seq<char>>,
    size: nat,
    replies: Seq<Reply>,
)
    requires
        size > 0,
        store.dom().contains(slot(namespace)),
        agree(replies, answers(keyed_plan(Keyed::SelectKeys, namespace, keys, size), store)),
    ensures
        keys_scanned(replies) matches Scan::Going(found) && found.to_set()
            == store[slot(namespace)].dom().intersect(keys.to_set()),
        forall|key: Seq<char>|
            keys.contains(key) ==> ((OpView::Has { namespace, key }).answer(store)
                == ReplyModel::Flag(
                store[slot(namespace)].dom().intersect(keys.to_set()).contains(key),
            )),
    decreases keys.len(),
{
    let plan = keyed_plan(Keyed::SelectKeys, namespace, keys, size);
    let table = store[slot(namespace)].dom();
    if keys.len() == 0 {
        assert(plan =~= Seq::<OpView>::empty());
        assert(replies =~= Seq::<Reply>::empty());
        assert(Seq::<Seq<char>>::empty().to_set() =~= table.intersect(keys.to_set()));
    } else {
        let head = if keys.len() <= size {
            keys
        } else {
            keys.take(size as int)
        };
        let tail = if keys.len() <= size {
            Seq::<Seq<char>>::empty()
        } else {
            keys.skip(size as int)
        };
        let op = OpView::SelectKeys { namespace, keys: head };
        let rest = keyed_plan(Keyed::SelectKeys, namespace, tail, size);
        assert(plan =~= seq![op] + rest);
        lemma_answers_cons(op, rest, store);
        let expected = answers(plan, store);
        assert(expected[0] == op.answer(store));
        assert(replies[0].agrees(expected[0]));
        let later = replies.skip(1);
        assert(replies =~= seq![replies[0]] + later);
        assert(agree(later, answers(rest, store))) by {
            assert forall|i: int| 0 <= i < later.len() implies (#[trigger] later[i]).agrees(
                answers(rest, store)[i],
            ) by {
                assert(later[i] == replies[i + 1]);
                assert(expected[i + 1] == answers(rest, store)[i]);
            }
        }
        lemma_has_many_finds(store, namespace, tail, size, later);
        let first = replies[0]->Keys_0;
        lemma_keys_scanned_cons(first, later);
        let found = keys_scanned(later)->Going_0;
        lemma_concat_to_set(crate::ops::texts(first@), found);
        assert(keys =~= head + tail);
        lemma_concat_to_set(head, tail);
        assert((crate::ops::texts(first@) + found).to_set() =~= table.intersect(keys.to_set()));
    }
}

} // verus!

verus! {

/// What was set is what is got: after a value was written under a key, of
/// whatever form and size, the reply to a read of that key holds one record,
/// and the record decodes to the value.
pub proof fn lemma_get_after_set(
    store: StoreModel,
    namespace: Seq<char>,
    key: Seq<char>,
    value: crate::py_codecs::PyValueView,
    allow_pickle: bool,
    compression: crate::data_codecs::CompressionView,
    now_ms: i64,
    expires_at_ms: Option<i64>,
    reply: Reply,
)
    requires
        crate::py_codecs::py_encodable(value, allow_pickle),
        crate::record::encoded_payload(value, compression) is Some,
        reply.agrees(
            (OpView::Get { namespace, key }).answer(
                written(
                    store,
                    namespace,
                    seq![
                        crate::storage::stored_row(key, value, compression, now_ms, expires_at_ms),
                    ],
                ),
            ),
        ),
    ensures
        reply matches Reply::Records(records) && records@.len() == 1
            && crate::record::chain_decoded(
            records@[0].codecs_blob@,
            records@[0].value@,
            allow_pickle,
        ) == crate::record::ChainDecoded::Value(value),
{
    let row = crate::storage::stored_row(key, value, compression, now_ms, expires_at_ms);
    lemma_one_row_inserted(table_of(store, namespace), key, row.1);
    crate::laws::lemma_round_trip(value, allow_pickle, compression);
}

/// The last value wins: after two values were written under one key, the
/// second of whatever form and size, the reply to a read of that key holds
/// one record, and it decodes to the second value; nothing of the first is
/// left.
pub proof fn lemma_last_value_wins(
    store: StoreModel,
    namespace: Seq<char>,
    key: Seq<char>,
    first: RowModel,
    second: crate::py_codecs::PyValueView,
    allow_pickle: bool,
    compression: crate::data_codecs::CompressionView,
    now_ms: i64,
    expires_at_ms: Option<i64>,
    reply: Reply,
)
    requires
        crate::py_codecs::py_encodable(second, allow_pickle),
        crate::record::encoded_payload(second, compression) is Some,
        reply.agrees(
            (OpView::Get { namespace, key }).answer(
                written(
                    written(store, namespace, seq![(key, first)]),
                    namespace,
                    seq![
                        crate::storage::stored_row(key, second, compression, now_ms, expires_at_ms),
                    ],
                ),
            ),
        ),
    ensures
        reply matches Reply::Records(records) && records@.len() == 1
            && crate::record::chain_decoded(
            records@[0].codecs_blob@,
            records@[0].value@,
            allow_pickle,
        ) == crate::record::ChainDecoded::Value(second),
{
    lemma_get_after_set(
        written(store, namespace, seq![(key, first)]),
        namespace,
        key,
        second,
        allow_pickle,
        compression,
        now_ms,
        expires_at_ms,
        reply,
    );
}

/// However many keys go into one statement, the query for the rows of keys
/// gives a record for each key that is asked for and has a row, and for no
/// other; each record shows what the row of its key holds, which is what a
/// read of that one key shows.
pub proof fn lemma_get_many_reads(
    store: StoreModel,
    namespace: Seq<char>,
    keys: Seq<Seq<char>>,
    size: nat,
    replies: Seq<Reply>,
)
    requires
        size > 0,
        store.dom().contains(slot(namespace)),
        agree(replies, answers(keyed_plan(Keyed::SelectRows, namespace, keys, size), store)),
    ensures
        records_scanned(replies) matches Scan::Going(records) && {
            &&& (forall|i: int|
                0 <= i < records.len() ==> (#[trigger] records[i]).key is Some && keys.contains(
                    records[i].key->0@,
                ) && store[slot(namespace)].dom().contains(records[i].key->0@)
                    && crate::reply::record_shows(
                    records[i],
                    store[slot(namespace)][records[i].key->0@],
                ))
            &&& (forall|key: Seq<char>|
                keys.contains(key) && store[slot(namespace)].dom().contains(key)
                    ==> crate::reply::has_record_of(records, key))
        },
    decreases keys.len(),
{
    let plan = keyed_plan(Keyed::SelectRows, namespace, keys, size);
    let table = store[slot(namespace)];
    if keys.len() == 0 {
        assert(plan =~= Seq::<OpView>::empty());
        assert(replies =~= Seq::<Reply>::empty());
    } else {
        let head = if keys.len() <= size {
            keys
        } else {
            keys.take(size as int)
        };
        let tail = if keys.len() <= size {
            Seq::<Seq<char>>::empty()
        } else {
            keys.skip(size as int)
        };
        let op = OpView::SelectRows { namespace, keys: head };
        let rest = keyed_plan(Keyed::SelectRows, namespace, tail, size);
        assert(plan =~= seq![op] + rest);
        lemma_answers_cons(op, rest, store);
        let expected = answers(plan, store);
        assert(expected[0] == op.answer(store));
        assert(replies[0].agrees(expected[0]));
        let later = replies.skip(1);
        assert(replies =~= seq![replies[0]] + later);
        assert(agree(later, answers(rest, store))) by {
            assert forall|i: int| 0 <= i < later.len() implies (#[trigger] later[i]).agrees(
                answers(rest, store)[i],
            ) by {
                assert(later[i] == replies[i + 1]);
                assert(expected[i + 1] == answers(rest, store)[i]);
            }
        }
        lemma_get_many_reads(store, namespace, tail, size, later);
        let first = replies[0]->Records_0;
        lemma_records_scanned_cons(first, later);
        let found = records_scanned(later)->Going_0;
        let all = first@ + found;
        assert(keys =~= head + tail);
        assert forall|i: int| 0 <= i < all.len() implies (#[trigger] all[i]).key is Some
            && keys.contains(all[i].key->0@) && table.dom().contains(all[i].key->0@)
            && crate::reply::record_shows(all[i], table[all[i].key->0@]) by {
            if i < first@.len() {
                assert(all[i] == first@[i]);
                let k = first@[i].key->0@;
                assert(table.restrict(head.to_set()).dom().contains(k));
                let at = choose|at: int| 0 <= at < head.len() && head[at] == k;
                assert(keys[at] == k);
            } else {
                assert(all[i] == found[i - first@.len()]);
                let k = found[i - first@.len()].key->0@;
                let at = choose|at: int| 0 <= at < tail.len() && tail[at] == k;
                assert(keys[head.len() + at] == k);
            }
        }
        assert forall|key: Seq<char>|
            keys.contains(key) && table.dom().contains(key) implies crate::reply::has_record_of(
            all,
            key,
        ) by {
            let at = choose|at: int| 0 <= at < keys.len() && keys[at] == key;
            if at < head.len() {
                assert(head[at] == key);
                assert(head.to_set().contains(key));
                let rows = table.restrict(head.to_set());
                assert(expected[0] == ReplyModel::Rows(rows));
                assert(rows.dom().contains(key));
                assert(crate::reply::has_record_of(first@, key));
                let i = choose|i: int|
                    0 <= i < first@.len() && (#[trigger] first@[i]).key is Some
                        && first@[i].key->0@ == key;
                assert(all[i] == first@[i]);
            } else {
                assert(tail[at - head.len()] == key);
                assert(tail.contains(key));
                assert(crate::reply::has_record_of(found, key));
                let i = choose|i: int|
                    0 <= i < found.len() && (#[trigger] found[i]).key is Some && found[i].key->0@
                        == key;
                assert(all[first@.len() + i] == found[i]);
            }
        }
    }
}

proof fn lemma_records_scanned_cons(
    records: Vec<crate::record::InternalStoredRecord>,
    rest: Seq<Reply>,
)
    ensures
        records_scanned(seq![Reply::Records(records)] + rest) == match records_scanned(rest) {
            Scan::Going(found) => Scan::Going(records@ + found),
            Scan::Stopped(found) => Scan::Stopped(records@ + found),
            Scan::Broken(e) => Scan::Broken(e),
        },
    decreases rest.len(),
{
    let all = seq![Reply::Records(records)] + rest;
    if rest.len() == 0 {
        reveal_with_fuel(records_scanned, 2);
        assert(all.drop_last() =~= Seq::<Reply>::empty());
        assert(Seq::<crate::record::InternalStoredRecord>::empty() + records@ =~= records@
            + Seq::<crate::record::InternalStoredRecord>::empty());
    } else {
        lemma_records_scanned_cons(records, rest.drop_last());
        assert(all.drop_last() =~= seq![Reply::Records(records)] + rest.drop_last());
        assert(all.last() == rest.last());
        match records_scanned(rest.drop_last()) {
            Scan::Going(found) => {
                if let Reply::Records(more) = rest.last() {
                    assert((records@ + found) + more@ =~= records@ + (found + more@));
                }
            },
            _ => {},
        }
    }
}

} // verus!

verus! {

/// A batch is as its single operations: the ops that write rows, however
/// many rows go into one statement, leave the store as the ops that write
/// the same rows one row to a statement, which are the writes of the single
/// rows one after the other.
pub proof fn lemma_set_many_as_sets(
    store: StoreModel,
    namespace: Seq<char>,
    rows: Seq<(Seq<char>, RowModel)>,
    size: nat,
)
    requires
        size > 0,
        store.dom().contains(slot(namespace)),
    ensures
        run_all(insert_plan(namespace, rows, size), store) == run_all(
            insert_plan(namespace, rows, 1),
            store,
        ),
{
    lemma_insert_plan_writes(store, namespace, rows, size);
    lemma_insert_plan_writes(store, namespace, rows, 1);
}

/// A batch is as its single operations: the ops that remove the rows of
/// keys, however many keys go into one statement, leave the store as the ops
/// that remove them one key to a statement.
pub proof fn lemma_delete_many_as_deletes(
    store: StoreModel,
    namespace: Seq<char>,
    keys: Seq<Seq<char>>,
    size: nat,
)
    requires
        size > 0,
    ensures
        run_all(keyed_plan(Keyed::Delete, namespace, keys, size), store) == run_all(
            keyed_plan(Keyed::Delete, namespace, keys, 1),
            store,
        ),
{
    lemma_delete_plan_removes(store, namespace, keys, size);
    lemma_delete_plan_removes(store, namespace, keys, 1);
}

/// No op takes a table away: a namespace that has a table has one after
/// every op. So a store's memory of the tables that it has seen created
/// stays true, whatever is run.
pub proof fn lemma_tables_stay(op: OpView, store: StoreModel, namespace: Seq<char>)
    requires
        store.dom().contains(slot(namespace)),
    ensures
        op.effect(store).dom().contains(slot(namespace)),
{
}

/// After the ops that make sure of a namespace's table, the table exists.
pub proof fn lemma_ensured_table_exists(
    store: StoreModel,
    known: Set<Seq<char>>,
    namespace: Seq<char>,
)
    requires
        known.contains(namespace) ==> store.dom().contains(slot(namespace)),
    ensures
        run_all(ensure_plan(known, namespace), store).dom().contains(slot(namespace)),
        forall|other: Seq<char>|
            store.dom().contains(other) ==> run_all(ensure_plan(known, namespace), store)[other]
                == store[other],
{
    if !known.contains(namespace) {
        let create = OpView::CreateTable { namespace };
        let index = OpView::CreateIndex { namespace };
        assert(ensure_plan(known, namespace) =~= seq![create] + seq![index]);
        lemma_run_all_concat(seq![create], seq![index], store);
        lemma_run_one(create, store);
        lemma_run_one(index, create.effect(store));
    }
}

} // verus!

verus! {

/// The answers to ops that are put end to end: those to the first, then
/// those to the second in the store that the first leave.
pub proof fn lemma_answers_concat(first: Seq<OpView>, second: Seq<OpView>, store: StoreModel)
    ensures
        answers(first + second, store) == answers(first, store) + answers(
            second,
            run_all(first, store),
        ),
{
    let all = first + second;
    let left = answers(all, store);
    let right = answers(first, store) + answers(second, run_all(first, store));
    assert(left.len() == right.len());
    assert forall|i: int| 0 <= i < left.len() implies left[i] == right[i] by {
        if i < first.len() {
            assert(all.take(i) =~= first.take(i));
        } else {
            let j = i - first.len();
            assert(all.take(i) =~= first + second.take(j));
            lemma_run_all_concat(first, second.take(j), store);
        }
    }
    assert(left =~= right);
}

} // verus!

verus! {

proof fn lemma_prefixed_names_are_stripped(names: Seq<Seq<char>>)
    requires
        forall|i: int|
            0 <= i < names.len() ==> crate::sql::TABLE_PREFIX@.is_prefix_of(#[trigger] names[i]),
    ensures
        crate::results::namespaces_named(names).len() == names.len(),
        forall|i: int|
            0 <= i < names.len() ==> (#[trigger] crate::results::namespaces_named(names)[i])
                == names[i].skip(crate::sql::TABLE_PREFIX@.len() as int),
    decreases names.len(),
{
    if names.len() > 0 {
        let front = names.drop_last();
        assert forall|i: int| 0 <= i < front.len() implies crate::sql::TABLE_PREFIX@.is_prefix_of(
            #[trigger] front[i],
        ) by {
            assert(front[i] == names[i]);
        }
        lemma_prefixed_names_are_stripped(front);
        assert(names.last() == names[names.len() - 1]);
        let listed = crate::results::namespaces_named(names);
        assert forall|i: int| 0 <= i < names.len() implies (#[trigger] listed[i]) == names[i].skip(
            crate::sql::TABLE_PREFIX@.len() as int,
        ) by {
            if i < names.len() - 1 {
                assert(listed[i] == crate::results::namespaces_named(front)[i]);
                assert(front[i] == names[i]);
            }
        }
    }
}

/// Listing the namespaces gives a namespace for each table of the store, and
/// each table once: where the backing store answers the listing of tables as
/// expected, the names that are read out of its reply are namespaces of the
/// tables that exist, one for each.
pub proof fn lemma_list_namespaces_lists(store: StoreModel, names: Seq<Seq<char>>)
    requires
        crate::reply::names_show_tables(names, store.dom()),
    ensures
        crate::results::namespaces_named(names).len() == names.len(),
        forall|i: int|
            0 <= i < names.len() ==> store.dom().contains(
                slot(#[trigger] crate::results::namespaces_named(names)[i]),
            ),
        forall|i: int, j: int|
            0 <= i < j < names.len() ==> slot(
                #[trigger] crate::results::namespaces_named(names)[i],
            ) != slot(#[trigger] crate::results::namespaces_named(names)[j]),
        forall|place: Seq<char>|
            store.dom().contains(place) ==> exists|i: int|
                0 <= i < names.len() && slot(
                    #[trigger] crate::results::namespaces_named(names)[i],
                ) == place,
{
    lemma_prefixed_names_are_stripped(names);
    let listed = crate::results::namespaces_named(names);
    assert forall|i: int| 0 <= i < names.len() implies slot(#[trigger] listed[i])
        == crate::reply::place_of_table(names[i]) by {}
    assert forall|i: int| 0 <= i < names.len() implies store.dom().contains(
        slot(#[trigger] listed[i]),
    ) by {
        assert(store.dom().contains(crate::reply::place_of_table(names[i])));
    }
    assert forall|i: int, j: int| 0 <= i < j < names.len() implies slot(#[trigger] listed[i])
        != slot(#[trigger] listed[j]) by {
        assert(crate::reply::place_of_table(names[i]) != crate::reply::place_of_table(names[j]));
    }
    assert forall|place: Seq<char>| store.dom().contains(place) implies exists|i: int|
        0 <= i < names.len() && slot(#[trigger] listed[i]) == place by {
        assert(crate::reply::has_table_at(names, place));
        let i = choose|i: int|
            0 <= i < names.len() && crate::reply::place_of_table(#[trigger] names[i]) == place;
        assert(slot(listed[i]) == place);
    }
}

} // verus!
