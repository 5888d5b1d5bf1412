//! Batches cut to the bind limit of the backing store: so many keys, rows or
//! pairs to a statement, none lost and none twice.

use vstd::prelude::*;
use crate::model::RowModel;
use crate::ops::{pair_texts, paired, rows_of, texts, Op, OpView};
use crate::record::InternalInsertTriple;

verus! {

/// `items` cut into runs of `size`, the last of which may be shorter. No run
/// is empty, and none is made where `size` is zero.
pub open spec fn chunks<T>(items: Seq<T>, size: nat) -> Seq<Seq<T>>
    decreases items.len(),
{
    if items.len() == 0 || size == 0 {
        seq![]
    } else if items.len() <= size {
        seq![items]
    } else {
        seq![items.take(size as int)] + chunks(items.skip(size as int), size)
    }
}

/// The runs of a chunking put end to end.
pub open spec fn flattened<T>(runs: Seq<Seq<T>>) -> Seq<T>
    decreases runs.len(),
{
    if runs.len() == 0 {
        seq![]
    } else {
        runs[0] + flattened(runs.skip(1))
    }
}

/// Chunking loses nothing, adds nothing and keeps the order: the runs put end
/// to end are the items. Each run holds one item at least and `size` at most.
pub proof fn lemma_chunks_cover<T>(items: Seq<T>, size: nat)
    requires
        size > 0,
    ensures
        flattened(chunks(items, size)) == items,
        forall|i: int|
            0 <= i < chunks(items, size).len() ==> 0 < (#[trigger] chunks(items, size)[i]).len()
                <= size,
    decreases items.len(),
{
    let runs = chunks(items, size);
    if items.len() == 0 {
    } else if items.len() <= size {
        assert(runs.skip(1) =~= Seq::<Seq<T>>::empty());
        assert(flattened(runs.skip(1)) =~= Seq::<T>::empty());
        assert(flattened(runs) =~= items);
    } else {
        let rest = items.skip(size as int);
        lemma_chunks_cover(rest, size);
        assert(runs.skip(1) =~= chunks(rest, size));
        assert(flattened(runs) =~= items);
        assert forall|i: int| 0 <= i < runs.len() implies 0 < (#[trigger] runs[i]).len()
            <= size by {
            if i > 0 {
                assert(runs[i] == chunks(rest, size)[i - 1]);
            }
        }
    }
}

/// The three statements that test the key against a list of keys.
#[derive(Debug, Clone, Copy, PartialEq, Eq, Structural)]
pub enum Keyed {
    SelectKeys,
    SelectRows,
    Delete,
}

/// The op of a kind over a run of keys.
pub open spec fn keyed_op(kind: Keyed, namespace: Seq<char>, keys: Seq<Seq<char>>) -> OpView {
    match kind {
        Keyed::SelectKeys => OpView::SelectKeys { namespace, keys },
        Keyed::SelectRows => OpView::SelectRows { namespace, keys },
        Keyed::Delete => OpView::Delete { namespace, keys },
    }
}

/// The ops of a kind over `keys`, one for each run of `size` keys.
pub open spec fn keyed_plan(kind: Keyed, namespace: Seq<char>, keys: Seq<Seq<char>>, size: nat)
    -> Seq<OpView> {
    chunks(keys, size).map_values(|run: Seq<Seq<char>>| keyed_op(kind, namespace, run))
}

/// The ops that write `rows`, one for each run of `size` rows.
pub open spec fn insert_plan(namespace: Seq<char>, rows: Seq<(Seq<char>, RowModel)>, size: nat)
    -> Seq<OpView> {
    chunks(rows, size).map_values(
        |run: Seq<(Seq<char>, RowModel)>| OpView::Insert { namespace, rows: run },
    )
}

/// The pairs of a rename in runs of `size` pairs, each as a rename of its
/// own: these are what the statements of the rename work on, one run each.
pub open spec fn rename_plan(namespace: Seq<char>, pairs: Seq<(Seq<char>, Seq<char>)>, size: nat)
    -> Seq<OpView> {
    chunks(pairs, size).map_values(
        |run: Seq<(Seq<char>, Seq<char>)>| OpView::Rename { namespace, pairs: run },
    )
}

/// The views of ops.
pub open spec fn ops_view(ops: Seq<Op>) -> Seq<OpView> {
    ops.map_values(|op: Op| op@)
}

fn keyed(kind: Keyed, namespace: &str, keys: Vec<String>) -> (op: Op)
    ensures
        op@ == keyed_op(kind, namespace@, texts(keys@)),
{
    let namespace = namespace.to_owned();
    match kind {
        Keyed::SelectKeys => Op::SelectKeys { namespace, keys },
        Keyed::SelectRows => Op::SelectRows { namespace, keys },
        Keyed::Delete => Op::Delete { namespace, keys },
    }
}

/// Puts `keys` into ops of a kind, `size` keys to an op.
pub fn keyed_ops(kind: Keyed, namespace: &str, keys: Vec<String>, size: usize) -> (ops: Vec<Op>)
    requires
        size > 0,
    ensures
        ops_view(ops@) == keyed_plan(kind, namespace@, texts(keys@), size as nat),
{
    let ghost all = texts(keys@);
    let mut ops: Vec<Op> = Vec::new();
    let mut rest = keys;
    while rest.len() > size
        invariant
            size > 0,
                ops_view(ops@) + keyed_plan(kind, namespace@, texts(rest@), size as nat) == keyed_plan(
                kind,
                namespace@,
                all,
                size as nat,
            ),
        decreases rest.len(),
    {
        let ghost before = texts(rest@);
        let ghost done = ops_view(ops@);
        let tail = rest.split_off(size);
        proof {
            assert(texts(rest@) =~= before.take(size as int));
            assert(texts(tail@) =~= before.skip(size as int));
            assert(keyed_plan(kind, namespace@, before, size as nat) =~= seq![
                keyed_op(kind, namespace@, texts(rest@)),
            ] + keyed_plan(kind, namespace@, texts(tail@), size as nat));
        }
        ops.push(keyed(kind, namespace, rest));
        rest = tail;
        proof {
            assert(ops_view(ops@) =~= done.push(keyed_op(kind, namespace@, before.take(size as int))));
            assert(ops_view(ops@) + keyed_plan(kind, namespace@, texts(rest@), size as nat) =~= done
                + keyed_plan(kind, namespace@, before, size as nat));
        }
    }
    if rest.len() > 0 {
        let ghost before = texts(rest@);
        let ghost done = ops_view(ops@);
        proof {
            assert(keyed_plan(kind, namespace@, before, size as nat) =~= seq![
                keyed_op(kind, namespace@, before),
            ]);
        }
        ops.push(keyed(kind, namespace, rest));
        proof {
            assert(ops_view(ops@) =~= done.push(keyed_op(kind, namespace@, before)));
        }
    } else {
        proof {
            assert(keyed_plan(kind, namespace@, texts(rest@), size as nat) =~= Seq::<
                OpView,
            >::empty());
        }
    }
    ops
}

/// Puts `rows` into ops that write them, `size` rows to an op.
pub fn insert_ops(
    namespace: &str,
    rows: Vec<InternalInsertTriple>,
    created_at_ms: i64,
    expires_at_ms: Option<i64>,
    size: usize,
) -> (ops: Vec<Op>)
    requires
        size > 0,
    ensures
        ops_view(ops@) == insert_plan(
            namespace@,
            rows_of(rows@, created_at_ms, expires_at_ms),
            size as nat,
        ),
{
    let ghost all = rows_of(rows@, created_at_ms, expires_at_ms);
    let mut ops: Vec<Op> = Vec::new();
    let mut rest = rows;
    while rest.len() > size
        invariant
            size > 0,
                ops_view(ops@) + insert_plan(
                namespace@,
                rows_of(rest@, created_at_ms, expires_at_ms),
                size as nat,
            ) == insert_plan(namespace@, all, size as nat),
        decreases rest.len(),
    {
        let ghost before = rows_of(rest@, created_at_ms, expires_at_ms);
        let ghost done = ops_view(ops@);
        let tail = rest.split_off(size);
        proof {
            assert(rows_of(rest@, created_at_ms, expires_at_ms) =~= before.take(size as int));
            assert(rows_of(tail@, created_at_ms, expires_at_ms) =~= before.skip(size as int));
            assert(insert_plan(namespace@, before, size as nat) =~= seq![
                OpView::Insert { namespace: namespace@, rows: before.take(size as int) },
            ] + insert_plan(namespace@, before.skip(size as int), size as nat));
        }
        ops.push(
            Op::Insert { namespace: namespace.to_owned(), rows: rest, created_at_ms, expires_at_ms },
        );
        rest = tail;
        proof {
            assert(ops_view(ops@) =~= done.push(
                OpView::Insert { namespace: namespace@, rows: before.take(size as int) },
            ));
            assert(ops_view(ops@) + insert_plan(
                namespace@,
                rows_of(rest@, created_at_ms, expires_at_ms),
                size as nat,
            ) =~= done + insert_plan(namespace@, before, size as nat));
        }
    }
    if rest.len() > 0 {
        let ghost before = rows_of(rest@, created_at_ms, expires_at_ms);
        let ghost done = ops_view(ops@);
        proof {
            assert(insert_plan(namespace@, before, size as nat) =~= seq![
                OpView::Insert { namespace: namespace@, rows: before },
            ]);
        }
        ops.push(
            Op::Insert { namespace: namespace.to_owned(), rows: rest, created_at_ms, expires_at_ms },
        );
        proof {
            assert(ops_view(ops@) =~= done.push(
                OpView::Insert { namespace: namespace@, rows: before },
            ));
        }
    } else {
        proof {
            assert(insert_plan(
                namespace@,
                rows_of(rest@, created_at_ms, expires_at_ms),
                size as nat,
            ) =~= Seq::<OpView>::empty());
        }
    }
    ops
}

/// Old and new names put together pair by pair.
pub(crate) fn zipped(old_names: &Vec<String>, new_names: &Vec<String>) -> (pairs: Vec<
    (String, String),
>)
    requires
        old_names@.len() == new_names@.len(),
    ensures
        pair_texts(pairs@) == paired(texts(old_names@), texts(new_names@)),
{
    let ghost all = paired(texts(old_names@), texts(new_names@));
    let mut pairs: Vec<(String, String)> = Vec::new();
    let mut i: usize = 0;
    while i < old_names.len()
        invariant
            i <= old_names.len(),
            old_names@.len() == new_names@.len(),
            all == paired(texts(old_names@), texts(new_names@)),
            pair_texts(pairs@) == all.take(i as int),
        decreases old_names.len() - i,
    {
        let ghost before = pair_texts(pairs@);
        pairs.push((old_names[i].clone(), new_names[i].clone()));
        i += 1;
        proof {
            assert(pair_texts(pairs@) =~= before.push(all[i - 1]));
            assert(all.take(i as int) =~= all.take(i - 1).push(all[i - 1]));
        }
    }
    proof {
        assert(all.take(all.len() as int) =~= all);
    }
    pairs
}

fn clone_pairs(pairs: &Vec<(String, String)>) -> (out: Vec<(String, String)>)
    ensures
        pair_texts(out@) == pair_texts(pairs@),
{
    let mut out: Vec<(String, String)> = Vec::new();
    let mut i: usize = 0;
    while i < pairs.len()
        invariant
            i <= pairs.len(),
            pair_texts(out@) == pair_texts(pairs@).take(i as int),
        decreases pairs.len() - i,
    {
        let ghost before = pair_texts(out@);
        out.push((pairs[i].0.clone(), pairs[i].1.clone()));
        i += 1;
        proof {
            assert(pair_texts(out@) =~= before.push(pair_texts(pairs@)[i - 1]));
            assert(pair_texts(pairs@).take(i as int) =~= pair_texts(pairs@).take(i - 1).push(
                pair_texts(pairs@)[i - 1],
            ));
        }
    }
    proof {
        assert(pair_texts(pairs@).take(pairs@.len() as int) =~= pair_texts(pairs@));
    }
    out
}

/// Cuts the pairs of a rename into runs of `size` pairs, each as a rename of
/// its own: a statement of the rename works on one run.
pub fn rename_runs(namespace: &str, pairs: &Vec<(String, String)>, size: usize) -> (ops: Vec<Op>)
    requires
        size > 0,
    ensures
        ops_view(ops@) == rename_plan(namespace@, pair_texts(pairs@), size as nat),
{
    let ghost all = pair_texts(pairs@);
    let mut ops: Vec<Op> = Vec::new();
    let mut rest = clone_pairs(pairs);
    while rest.len() > size
        invariant
            size > 0,
            ops_view(ops@) + rename_plan(namespace@, pair_texts(rest@), size as nat) == rename_plan(
                namespace@,
                all,
                size as nat,
            ),
        decreases rest.len(),
    {
        let ghost before = pair_texts(rest@);
        let ghost done = ops_view(ops@);
        let tail = rest.split_off(size);
        proof {
            assert(pair_texts(rest@) =~= before.take(size as int));
            assert(pair_texts(tail@) =~= before.skip(size as int));
            assert(rename_plan(namespace@, before, size as nat) =~= seq![
                OpView::Rename { namespace: namespace@, pairs: before.take(size as int) },
            ] + rename_plan(namespace@, before.skip(size as int), size as nat));
        }
        ops.push(Op::Rename { namespace: namespace.to_owned(), pairs: rest });
        rest = tail;
        proof {
            assert(ops_view(ops@) =~= done.push(
                OpView::Rename { namespace: namespace@, pairs: before.take(size as int) },
            ));
            assert(ops_view(ops@) + rename_plan(namespace@, pair_texts(rest@), size as nat) =~= done
                + rename_plan(namespace@, before, size as nat));
        }
    }
    if rest.len() > 0 {
        let ghost before = pair_texts(rest@);
        let ghost done = ops_view(ops@);
        proof {
            assert(rename_plan(namespace@, before, size as nat) =~= seq![
                OpView::Rename { namespace: namespace@, pairs: before },
            ]);
        }
        ops.push(Op::Rename { namespace: namespace.to_owned(), pairs: rest });
        proof {
            assert(ops_view(ops@) =~= done.push(
                OpView::Rename { namespace: namespace@, pairs: before },
            ));
        }
    } else {
        proof {
            assert(rename_plan(namespace@, pair_texts(rest@), size as nat) =~= Seq::<
                OpView,
            >::empty());
        }
    }
    ops
}

} // verus!

verus! {

/// No statement binds more than the backing store allows: each op over keys
/// binds `size` values at most, each op that writes rows `5 * size`, each
/// statement that renames a run of pairs `3 * size`. With `size` the bind
/// limit, a fifth of it and a third of it, all of them stay within the limit.
pub proof fn lemma_plans_within_limit(
    kind: Keyed,
    namespace: Seq<char>,
    keys: Seq<Seq<char>>,
    rows: Seq<(Seq<char>, RowModel)>,
    pairs: Seq<(Seq<char>, Seq<char>)>,
    size: nat,
)
    requires
        size > 0,
    ensures
        forall|i: int|
            0 <= i < keyed_plan(kind, namespace, keys, size).len() ==> 0 < (#[trigger] keyed_plan(
                kind,
                namespace,
                keys,
                size,
            )[i]).binds() <= size,
        forall|i: int|
            0 <= i < insert_plan(namespace, rows, size).len() ==> 0 < (#[trigger] insert_plan(
                namespace,
                rows,
                size,
            )[i]).binds() <= 5 * size,
        forall|i: int|
            0 <= i < rename_plan(namespace, pairs, size).len() ==> 0 < (#[trigger] rename_plan(
                namespace,
                pairs,
                size,
            )[i]).binds() <= 3 * size,
{
    lemma_chunks_cover(keys, size);
    lemma_chunks_cover(rows, size);
    lemma_chunks_cover(pairs, size);
    assert forall|i: int| 0 <= i < keyed_plan(kind, namespace, keys, size).len() implies 0 < (
    #[trigger] keyed_plan(kind, namespace, keys, size)[i]).binds() <= size by {
        assert(keyed_plan(kind, namespace, keys, size)[i] == keyed_op(
            kind,
            namespace,
            chunks(keys, size)[i],
        ));
    }
    assert forall|i: int| 0 <= i < insert_plan(namespace, rows, size).len() implies 0 < (
    #[trigger] insert_plan(namespace, rows, size)[i]).binds() <= 5 * size by {
        assert(insert_plan(namespace, rows, size)[i] == (OpView::Insert {
            namespace,
            rows: chunks(rows, size)[i],
        }));
    }
    assert forall|i: int| 0 <= i < rename_plan(namespace, pairs, size).len() implies 0 < (
    #[trigger] rename_plan(namespace, pairs, size)[i]).binds() <= 3 * size by {
        assert(rename_plan(namespace, pairs, size)[i] == (OpView::Rename {
            namespace,
            pairs: chunks(pairs, size)[i],
        }));
    }
}

} // verus!
