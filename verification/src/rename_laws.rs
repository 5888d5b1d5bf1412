//! Laws of the rename, proved against the model of the backing store.

use vstd::prelude::*;
use crate::model::slot;
use crate::model::{
    new_names, old_names, rename_collides, rename_source, renamed_key, rows_renamed, ReplyModel,
    StoreModel, TableModel,
};
use crate::ops::OpView;
use crate::plan::{chunks, keyed_plan, Keyed};
use crate::rename::{
    first_absent, free_targets, kept, present_pairs, rows_changed, Advanced, Phase, RenameView,
    BINDS_PER_PAIR,
};
use crate::reply::Reply;
use crate::results::{keys_scanned, writes_scanned, Scan};
use crate::store_laws::{
    agree, answers, lemma_answers_cons, lemma_delete_plan_removes, lemma_has_many_finds,
    lemma_run_all_concat, removed, run_all,
};

verus! {

/// Ops that ask for keys leave the store as it is.
pub proof fn lemma_queries_change_nothing(
    store: StoreModel,
    namespace: Seq<char>,
    keys: Seq<Seq<char>>,
    size: nat,
)
    ensures
        run_all(keyed_plan(Keyed::SelectKeys, namespace, keys, size), store) == store,
    decreases keys.len(),
{
    let plan = keyed_plan(Keyed::SelectKeys, namespace, keys, size);
    if keys.len() == 0 || size == 0 {
        assert(plan =~= Seq::<OpView>::empty());
    } else if keys.len() <= size {
        let op = OpView::SelectKeys { namespace, keys };
        assert(plan =~= seq![op]);
        assert(plan.drop_last() =~= Seq::<OpView>::empty());
        reveal_with_fuel(run_all, 2);
    } else {
        let op = OpView::SelectKeys { namespace, keys: keys.take(size as int) };
        let rest = keyed_plan(Keyed::SelectKeys, namespace, keys.skip(size as int), size);
        assert(plan =~= seq![op] + rest);
        lemma_run_all_concat(seq![op], rest, store);
        assert(seq![op].drop_last() =~= Seq::<OpView>::empty());
        reveal_with_fuel(run_all, 2);
        lemma_queries_change_nothing(store, namespace, keys.skip(size as int), size);
    }
}

proof fn lemma_first_absent_same(names: Seq<Seq<char>>, a: Set<Seq<char>>, b: Set<Seq<char>>)
    requires
        forall|i: int| 0 <= i < names.len() ==> a.contains(#[trigger] names[i]) == b.contains(
            names[i],
        ),
    ensures
        first_absent(names, a) == first_absent(names, b),
    decreases names.len(),
{
    if names.len() > 0 {
        let front = names.drop_last();
        assert forall|i: int| 0 <= i < front.len() implies a.contains(#[trigger] front[i])
            == b.contains(front[i]) by {
            assert(front[i] == names[i]);
        }
        lemma_first_absent_same(front, a, b);
        assert(names.last() == names[names.len() - 1]);
    }
}

proof fn lemma_present_pairs_same(
    pairs: Seq<(Seq<char>, Seq<char>)>,
    a: Set<Seq<char>>,
    b: Set<Seq<char>>,
)
    requires
        forall|i: int| 0 <= i < pairs.len() ==> a.contains((#[trigger] pairs[i]).0) == b.contains(
            pairs[i].0,
        ),
    ensures
        present_pairs(pairs, a) == present_pairs(pairs, b),
    decreases pairs.len(),
{
    if pairs.len() > 0 {
        let front = pairs.drop_last();
        assert forall|i: int| 0 <= i < front.len() implies a.contains((#[trigger] front[i]).0)
            == b.contains(front[i].0) by {
            assert(front[i] == pairs[i]);
        }
        lemma_present_pairs_same(front, a, b);
        assert(pairs.last() == pairs[pairs.len() - 1]);
    }
}

proof fn lemma_kept_same(names: Seq<Seq<char>>, a: Set<Seq<char>>, b: Set<Seq<char>>, inside: bool)
    requires
        forall|i: int| 0 <= i < names.len() ==> a.contains(#[trigger] names[i]) == b.contains(
            names[i],
        ),
    ensures
        kept(names, a, inside) == kept(names, b, inside),
    decreases names.len(),
{
    if names.len() > 0 {
        let front = names.drop_last();
        assert forall|i: int| 0 <= i < front.len() implies a.contains(#[trigger] front[i])
            == b.contains(front[i]) by {
            assert(front[i] == names[i]);
        }
        lemma_kept_same(front, a, b, inside);
        assert(names.last() == names[names.len() - 1]);
    }
}

/// What the first phase of a rename learns is what the table holds. Where
/// the backing store answers as expected, the rename goes on with the pairs
/// whose old name has a row; where it demands its keys and one has none, it
/// ends there, with the first such key. The ops of this phase change
/// nothing, so that a rename that ends here has renamed nothing.
pub proof fn lemma_rename_checks_old_names(
    state: RenameView,
    store: StoreModel,
    replies: Seq<Reply>,
)
    requires
        state.phase == Phase::CheckOld,
        state.limit > 0,
        store.dom().contains(slot(state.namespace)),
        agree(replies, answers(state.ops(), store)),
    ensures
        run_all(state.ops(), store) == store,
        state.advanced(replies) == (match first_absent(
            old_names(state.pairs),
            store[slot(state.namespace)].dom(),
        ) {
            Some(key) if state.must_exist => Advanced::NotFound(key),
            _ => Advanced::Next(
                RenameView {
                    pairs: present_pairs(state.pairs, store[slot(state.namespace)].dom()),
                    phase: Phase::CheckNew,
                    ..state
                },
            ),
        }),
{
    let olds = old_names(state.pairs);
    let table = store[slot(state.namespace)].dom();
    lemma_queries_change_nothing(store, state.namespace, olds, state.limit);
    lemma_has_many_finds(store, state.namespace, olds, state.limit, replies);
    let found = keys_scanned(replies)->Going_0.to_set();
    assert forall|i: int| 0 <= i < olds.len() implies found.contains(#[trigger] olds[i])
        == table.contains(olds[i]) by {
        assert(olds.to_set().contains(olds[i]));
    }
    lemma_first_absent_same(olds, found, table);
    assert forall|i: int| 0 <= i < state.pairs.len() implies found.contains(
        (#[trigger] state.pairs[i]).0,
    ) == table.contains(state.pairs[i].0) by {
        assert(olds[i] == state.pairs[i].0);
        assert(olds.to_set().contains(olds[i]));
    }
    lemma_present_pairs_same(state.pairs, found, table);
}

/// A rename in a namespace that was never written ends in its first phase:
/// in a failure where it demands its keys, and else with nothing renamed but
/// the pairs with the same name twice counted.
pub proof fn lemma_rename_without_table(state: RenameView, store: StoreModel, replies: Seq<Reply>)
    requires
        state.phase == Phase::CheckOld,
        state.limit > 0,
        state.pairs.len() > 0,
        !store.dom().contains(slot(state.namespace)),
        replies.len() > 0,
        replies[0].agrees(answers(state.ops(), store)[0]),
    ensures
        state.advanced(replies) == (if state.must_exist {
            Advanced::NotFound(state.pairs[0].0)
        } else {
            Advanced::Next(state.finished(0))
        }),
{
    let olds = old_names(state.pairs);
    let runs = chunks(olds, state.limit);
    assert(runs.len() > 0);
    let expected = answers(state.ops(), store);
    assert(state.ops().take(0) =~= Seq::<OpView>::empty());
    assert(expected[0] == ReplyModel::NoSuchTable);
    assert(replies[0] is NoSuchTable);
    lemma_keys_stop_at_first(replies);
}

proof fn lemma_keys_stop_at_first(replies: Seq<Reply>)
    requires
        replies.len() > 0,
        replies[0] is NoSuchTable,
    ensures
        keys_scanned(replies) is Stopped,
    decreases replies.len(),
{
    if replies.len() == 1 {
        reveal_with_fuel(keys_scanned, 2);
        assert(replies.drop_last() =~= Seq::<Reply>::empty());
    } else {
        assert(replies.drop_last()[0] == replies[0]);
        lemma_keys_stop_at_first(replies.drop_last());
    }
}

/// What the second phase of a rename learns is what the table holds. The new
/// names that are not renamed away themselves and have a row are in the way:
/// where the rename may not overwrite it ends there, with the first of them;
/// where it may, it goes on to remove their rows. The ops of this phase
/// change nothing, so that a rename that ends here has renamed nothing.
pub proof fn lemma_rename_checks_new_names(
    state: RenameView,
    store: StoreModel,
    replies: Seq<Reply>,
)
    requires
        state.phase == Phase::CheckNew,
        state.limit > 0,
        store.dom().contains(slot(state.namespace)),
        agree(replies, answers(state.ops(), store)),
    ensures
        run_all(state.ops(), store) == store,
        state.advanced(replies) == ({
            let taken = kept(free_targets(state.pairs), store[slot(state.namespace)].dom(), true);
            if !state.overwrite && taken.len() > 0 {
                Advanced::Conflict(taken[0])
            } else {
                Advanced::Next(RenameView { conflicts: taken, phase: Phase::Apply, ..state })
            }
        }),
{
    let targets = free_targets(state.pairs);
    let table = store[slot(state.namespace)].dom();
    lemma_queries_change_nothing(store, state.namespace, targets, state.limit);
    lemma_has_many_finds(store, state.namespace, targets, state.limit, replies);
    let found = keys_scanned(replies)->Going_0.to_set();
    assert forall|i: int| 0 <= i < targets.len() implies found.contains(#[trigger] targets[i])
        == table.contains(targets[i]) by {
        assert(targets.to_set().contains(targets[i]));
    }
    lemma_kept_same(targets, found, table, true);
}

} // verus!

verus! {

proof fn lemma_all_done(replies: Seq<Reply>)
    requires
        forall|i: int| 0 <= i < replies.len() ==> (#[trigger] replies[i]) is Done,
    ensures
        writes_scanned(replies) == Scan::<nat>::Going(replies.len()),
    decreases replies.len(),
{
    if replies.len() > 0 {
        assert forall|i: int| 0 <= i < replies.drop_last().len() implies (
        #[trigger] replies.drop_last()[i]) is Done by {
            assert(replies.drop_last()[i] == replies[i]);
        }
        lemma_all_done(replies.drop_last());
        assert(replies.last() == replies[replies.len() - 1]);
    }
}

proof fn lemma_no_rows_before(replies: Seq<Reply>, from: int)
    requires
        replies.len() <= from,
    ensures
        rows_changed(replies, from) == 0,
{
}

proof fn lemma_removal_answers_done(
    store: StoreModel,
    namespace: Seq<char>,
    keys: Seq<Seq<char>>,
    size: nat,
)
    requires
        size > 0,
        store.dom().contains(slot(namespace)),
    ensures
        forall|i: int|
            0 <= i < keyed_plan(Keyed::Delete, namespace, keys, size).len() ==> (#[trigger] answers(
                keyed_plan(Keyed::Delete, namespace, keys, size),
                store,
            )[i]) is Done,
    decreases keys.len(),
{
    let plan = keyed_plan(Keyed::Delete, namespace, keys, size);
    if keys.len() == 0 {
        assert(plan =~= Seq::<OpView>::empty());
    } else {
        let head = if keys.len() <= size {
            keys
        } else {
            keys.take(size as int)
        };
        let tail = if keys.len() <= size {
            Seq::<Seq<char>>::empty()
        } else {
            keys.skip(size as int)
        };
        let op = OpView::Delete { namespace, keys: head };
        let rest = keyed_plan(Keyed::Delete, namespace, tail, size);
        assert(plan =~= seq![op] + rest);
        lemma_answers_cons(op, rest, store);
        lemma_removal_answers_done(op.effect(store), namespace, tail, size);
        assert forall|i: int| 0 <= i < plan.len() implies (#[trigger] answers(plan, store)[i])
            is Done by {
            if i > 0 {
                assert(answers(plan, store)[i] == answers(rest, op.effect(store))[i - 1]);
            }
        }
    }
}

/// The last phase of a rename. Where the backing store answers as expected
/// and no two rows come to one key, the rows in the way are removed and every
/// row whose key is an old name moves to its new name, all at once; the
/// rename finishes with the pairs with the same name twice and the rows
/// renamed counted.
pub proof fn lemma_rename_applies(state: RenameView, store: StoreModel, replies: Seq<Reply>)
    requires
        state.phase == Phase::Apply,
        state.limit > 0,
        store.dom().contains(slot(state.namespace)),
        state.pairs.len() > 0,
        !rename_collides(
            store[slot(state.namespace)].remove_keys(state.conflicts.to_set()),
            state.pairs,
        ),
        agree(replies, answers(state.ops(), store)),
    ensures
        run_all(state.ops(), store) == store.insert(slot(state.namespace),
            rows_renamed(
                store[slot(state.namespace)].remove_keys(state.conflicts.to_set()),
                state.pairs,
            ),
        ),
        state.advanced(replies) == Advanced::Next(
            state.finished(
                store[slot(state.namespace)].remove_keys(state.conflicts.to_set()).dom().intersect(
                    old_names(state.pairs).to_set(),
                ).len(),
            ),
        ),
{
    let ns = state.namespace;
    let removals = state.removals();
    let rename = OpView::Rename { namespace: ns, pairs: state.pairs };
    let ops = state.ops();
    assert(ops =~= removals + seq![rename]);
    lemma_delete_plan_removes(store, ns, state.conflicts, state.limit);
    let cleared = removed(store, ns, state.conflicts.to_set());
    lemma_run_all_concat(removals, seq![rename], store);
    assert(seq![rename].drop_last() =~= Seq::<OpView>::empty());
    reveal_with_fuel(run_all, 2);
    assert(run_all(seq![rename], cleared) == rename.effect(cleared));
    assert(run_all(ops, store) =~= store.insert(slot(ns),
        rows_renamed(store[slot(ns)].remove_keys(state.conflicts.to_set()), state.pairs),
    ));
    // the answers: every removal is done, and so is the rename
    let expected = answers(ops, store);
    let n = removals.len() as int;
    lemma_removal_answers_done(store, ns, state.conflicts, state.limit);
    assert forall|i: int| 0 <= i < replies.len() implies (#[trigger] replies[i]) is Done by {
        assert(replies[i].agrees(expected[i]));
        if i < n {
            assert(ops.take(i) =~= removals.take(i));
            assert(expected[i] == answers(removals, store)[i]);
        } else {
            assert(ops.take(n) =~= removals);
            assert(expected[n] == rename.answer(cleared));
        }
    }
    lemma_all_done(replies);
    assert(ops.take(n) =~= removals);
    assert(expected[n] == rename.answer(cleared));
    assert(replies[n].agrees(expected[n]));
    assert(replies.last() == replies[n]);
    lemma_no_rows_before(replies.drop_last(), n);
}

/// The key that a rename of one pair gives to a row.
proof fn lemma_renamed_key_one(a: Seq<char>, b: Seq<char>, key: Seq<char>)
    ensures
        renamed_key(seq![(a, b)], key) == (if key == a {
            b
        } else {
            key
        }),
{
    reveal_with_fuel(renamed_key, 2);
    assert(seq![(a, b)].skip(1) =~= Seq::<(Seq<char>, Seq<char>)>::empty());
}

/// The key that a rename of two pairs gives to a row.
proof fn lemma_renamed_key_two(
    a: Seq<char>,
    b: Seq<char>,
    c: Seq<char>,
    d: Seq<char>,
    key: Seq<char>,
)
    ensures
        renamed_key(seq![(a, b), (c, d)], key) == (if key == a {
            b
        } else if key == c {
            d
        } else {
            key
        }),
{
    assert(seq![(a, b), (c, d)].skip(1) =~= seq![(c, d)]);
    lemma_renamed_key_one(c, d, key);
}

/// A rename of one key to a free key moves the row: the new key holds what
/// the old key held, the old key holds nothing, and every other row is as it
/// was.
pub proof fn lemma_rename_moves(table: TableModel, a: Seq<char>, b: Seq<char>)
    requires
        table.dom().contains(a),
        !table.dom().contains(b),
    ensures
        !rename_collides(table, seq![(a, b)]),
        rows_renamed(table, seq![(a, b)]) == table.remove(a).insert(b, table[a]),
{
    let pairs = seq![(a, b)];
    assert forall|k: Seq<char>| renamed_key(pairs, k) == (if k == a {
        b
    } else {
        k
    }) by {
        lemma_renamed_key_one(a, b, k);
    }
    let moved = rows_renamed(table, pairs);
    let wanted = table.remove(a).insert(b, table[a]);
    assert forall|key: Seq<char>| moved.dom().contains(key) == wanted.dom().contains(key) by {
        if wanted.dom().contains(key) {
            let from = if key == b {
                a
            } else {
                key
            };
            assert(table.dom().contains(from) && renamed_key(pairs, from) == key);
        }
    }
    assert forall|key: Seq<char>| moved.dom().contains(key) implies moved[key] == wanted[key] by {
        let from = rename_source(table, pairs, key);
        assert(table.dom().contains(from) && renamed_key(pairs, from) == key);
    }
    assert(moved =~= wanted);
}

/// A rename that swaps two keys exchanges their rows: each of the two keys
/// holds what the other held, and every other row is as it was.
pub proof fn lemma_rename_swaps(table: TableModel, a: Seq<char>, b: Seq<char>)
    requires
        table.dom().contains(a),
        table.dom().contains(b),
        a != b,
    ensures
        !rename_collides(table, seq![(a, b), (b, a)]),
        rows_renamed(table, seq![(a, b), (b, a)]) == table.insert(a, table[b]).insert(
            b,
            table[a],
        ),
{
    let pairs = seq![(a, b), (b, a)];
    assert forall|k: Seq<char>| renamed_key(pairs, k) == (if k == a {
        b
    } else if k == b {
        a
    } else {
        k
    }) by {
        lemma_renamed_key_two(a, b, b, a, k);
    }
    let swapped = rows_renamed(table, pairs);
    let wanted = table.insert(a, table[b]).insert(b, table[a]);
    assert forall|key: Seq<char>| swapped.dom().contains(key) == wanted.dom().contains(key) by {
        if wanted.dom().contains(key) {
            let from = if key == a {
                b
            } else if key == b {
                a
            } else {
                key
            };
            assert(table.dom().contains(from) && renamed_key(pairs, from) == key);
        }
    }
    assert forall|key: Seq<char>| swapped.dom().contains(key) implies swapped[key]
        == wanted[key] by {
        let from = rename_source(table, pairs, key);
        assert(table.dom().contains(from) && renamed_key(pairs, from) == key);
    }
    assert(swapped =~= wanted);
}

} // verus!

verus! {

/// A swap from beginning to end. Two keys that both have rows are renamed
/// each to the other. Where the backing store answers each phase as
/// expected, the rename goes through its three phases, nothing is found in
/// its way, and it finishes with two rows renamed: each of the two keys
/// holds what the other held, and every other row is as it was.
pub proof fn lemma_swap_exchanges(
    store: StoreModel,
    namespace: Seq<char>,
    a: Seq<char>,
    b: Seq<char>,
    overwrite: bool,
    must_exist: bool,
    limit: nat,
    first: Seq<Reply>,
    second: Seq<Reply>,
    third: Seq<Reply>,
)
    requires
        a != b,
        limit > 0,
        store.dom().contains(slot(namespace)),
        store[slot(namespace)].dom().contains(a),
        store[slot(namespace)].dom().contains(b),
        agree(first, answers(swap_states(namespace, a, b, overwrite, must_exist, limit).0.ops(), store)),
        agree(
            second,
            answers(swap_states(namespace, a, b, overwrite, must_exist, limit).1.ops(), store),
        ),
        agree(third, answers(swap_states(namespace, a, b, overwrite, must_exist, limit).2.ops(), store)),
    ensures
        ({
            let (begun, checked, cleared) = swap_states(
                namespace,
                a,
                b,
                overwrite,
                must_exist,
                limit,
            );
            &&& begun == crate::rename::rename_begun(
                namespace,
                seq![(a, b), (b, a)],
                overwrite,
                must_exist,
                limit,
            )
            &&& begun.advanced(first) == Advanced::Next(checked)
            &&& checked.advanced(second) == Advanced::Next(cleared)
            &&& cleared.advanced(third) == Advanced::Next(cleared.finished(2))
            &&& run_all(begun.ops(), store) == store
            &&& run_all(checked.ops(), store) == store
            &&& run_all(cleared.ops(), store) == store.insert(slot(namespace),
                store[slot(namespace)].insert(a, store[slot(namespace)][b]).insert(b, store[slot(namespace)][a]),
            )
        }),
{
    let pairs = seq![(a, b), (b, a)];
    let table = store[slot(namespace)];
    let (begun, checked, cleared) = swap_states(namespace, a, b, overwrite, must_exist, limit);
    let none = Seq::<Seq<char>>::empty();
    let no_pairs = Seq::<(Seq<char>, Seq<char>)>::empty();
    // the pairs are both renames
    assert(pairs.drop_last() =~= seq![(a, b)]);
    assert(seq![(a, b)].drop_last() =~= no_pairs);
    assert(crate::rename::real_pairs(no_pairs) =~= no_pairs);
    assert(crate::rename::real_pairs(seq![(a, b)]) =~= seq![(a, b)]);
    assert(crate::rename::real_pairs(pairs) =~= pairs);
    // both old names have rows
    let olds = old_names(pairs);
    assert(olds =~= seq![a, b]);
    assert(olds.drop_last() =~= seq![a]);
    assert(seq![a].drop_last() =~= none);
    assert(first_absent(none, table.dom()) is None);
    assert(first_absent(seq![a], table.dom()) is None);
    assert(first_absent(olds, table.dom()) is None);
    assert(present_pairs(no_pairs, table.dom()) =~= no_pairs);
    assert(present_pairs(seq![(a, b)], table.dom()) =~= seq![(a, b)]);
    assert(present_pairs(pairs, table.dom()) =~= pairs);
    lemma_rename_checks_old_names(begun, store, first);
    // each new name is an old name, so that none can be in the way
    let news = new_names(pairs);
    assert(news =~= seq![b, a]);
    assert(news.drop_last() =~= seq![b]);
    assert(seq![b].drop_last() =~= none);
    assert(olds.to_set().contains(a)) by {
        assert(olds[0] == a);
    }
    assert(olds.to_set().contains(b)) by {
        assert(olds[1] == b);
    }
    assert(kept(none, olds.to_set(), false) =~= none);
    assert(kept(seq![b], olds.to_set(), false) =~= none);
    assert(kept(news, olds.to_set(), false) =~= none);
    assert(free_targets(pairs) =~= none);
    assert(kept(none, table.dom(), true) =~= none);
    lemma_rename_checks_new_names(checked, store, second);
    // nothing is removed, and the two rows change places
    assert(none.to_set() =~= Set::<Seq<char>>::empty());
    assert(table.remove_keys(none.to_set()) =~= table);
    lemma_rename_swaps(table, a, b);
    lemma_rename_applies(cleared, store, third);
    let both = table.dom().intersect(olds.to_set());
    assert(both =~= set![a, b]) by {
        assert forall|k: Seq<char>| olds.to_set().contains(k) implies k == a || k == b by {
            let i = choose|i: int| 0 <= i < olds.len() && olds[i] == k;
        }
    }
    assert(set![a, b].len() == 2) by {
        assert(set![a, b] =~= Set::<Seq<char>>::empty().insert(a).insert(b));
    }
}

/// The three states that a swap of `a` and `b` goes through: as it begins,
/// once both rows were found, and once nothing was found in the way.
pub open spec fn swap_states(
    namespace: Seq<char>,
    a: Seq<char>,
    b: Seq<char>,
    overwrite: bool,
    must_exist: bool,
    limit: nat,
) -> (RenameView, RenameView, RenameView) {
    let begun = RenameView {
        namespace,
        noops: 0,
        pairs: seq![(a, b), (b, a)],
        overwrite,
        must_exist,
        limit,
        phase: Phase::CheckOld,
        conflicts: seq![],
        result: 0,
    };
    (
        begun,
        RenameView { phase: Phase::CheckNew, ..begun },
        RenameView { phase: Phase::Apply, ..begun },
    )
}

} // verus!

verus! {

proof fn lemma_first_absent_found(names: Seq<Seq<char>>, set: Set<Seq<char>>, at: int)
    requires
        0 <= at < names.len(),
        !set.contains(names[at]),
    ensures
        first_absent(names, set) matches Some(key) && !set.contains(key) && names.contains(key),
    decreases names.len(),
{
    if at < names.len() - 1 {
        lemma_first_absent_found(names.drop_last(), set, at);
        let key = first_absent(names.drop_last(), set)->0;
        let i = choose|i: int| 0 <= i < names.drop_last().len() && names.drop_last()[i] == key;
        assert(names[i] == key);
    } else {
        match first_absent(names.drop_last(), set) {
            Some(key) => {
                lemma_first_absent_is_absent(names.drop_last(), set);
                let i = choose|i: int|
                    0 <= i < names.drop_last().len() && names.drop_last()[i] == key;
                assert(names[i] == key);
            },
            None => {
                assert(names[names.len() - 1] == names.last());
            },
        }
    }
}

proof fn lemma_first_absent_is_absent(names: Seq<Seq<char>>, set: Set<Seq<char>>)
    requires
        first_absent(names, set) is Some,
    ensures
        !set.contains(first_absent(names, set)->0),
        names.contains(first_absent(names, set)->0),
    decreases names.len(),
{
    if names.len() > 0 {
        match first_absent(names.drop_last(), set) {
            Some(key) => {
                lemma_first_absent_is_absent(names.drop_last(), set);
                let i = choose|i: int|
                    0 <= i < names.drop_last().len() && names.drop_last()[i] == key;
                assert(names[i] == key);
            },
            None => {
                assert(names[names.len() - 1] == names.last());
            },
        }
    }
}

/// A rename that demands its keys and finds one without a row fails whole:
/// it ends in its first phase with a key that has no row, and the ops that
/// were run until then have changed nothing.
pub proof fn lemma_missing_key_fails_whole(
    state: RenameView,
    store: StoreModel,
    replies: Seq<Reply>,
    missing: int,
)
    requires
        state.phase == Phase::CheckOld,
        state.must_exist,
        state.limit > 0,
        store.dom().contains(slot(state.namespace)),
        0 <= missing < state.pairs.len(),
        !store[slot(state.namespace)].dom().contains(state.pairs[missing].0),
        agree(replies, answers(state.ops(), store)),
    ensures
        state.advanced(replies) matches Advanced::NotFound(key) && !store[slot(state.namespace)].dom().contains(
            key,
        ) && old_names(state.pairs).contains(key),
        run_all(state.ops(), store) == store,
{
    lemma_rename_checks_old_names(state, store, replies);
    lemma_first_absent_found(old_names(state.pairs), store[slot(state.namespace)].dom(), missing);
}

/// The states that the rename of `a` to `b` goes through where both have
/// rows: as it begins, once the row of `a` was found, and once the row of
/// `b` was found in the way.
pub open spec fn overwrite_states(
    namespace: Seq<char>,
    a: Seq<char>,
    b: Seq<char>,
    overwrite: bool,
    must_exist: bool,
    limit: nat,
) -> (RenameView, RenameView, RenameView) {
    let begun = RenameView {
        namespace,
        noops: 0,
        pairs: seq![(a, b)],
        overwrite,
        must_exist,
        limit,
        phase: Phase::CheckOld,
        conflicts: seq![],
        result: 0,
    };
    (
        begun,
        RenameView { phase: Phase::CheckNew, ..begun },
        RenameView { phase: Phase::Apply, conflicts: seq![b], ..begun },
    )
}

/// A rename onto a taken key, from beginning to end. The key `a` is renamed
/// to `b`, and both have rows. Where the rename may not overwrite, it ends
/// in its second phase with `b` as the key in its way, and nothing was
/// changed. Where it may, the row of `b` is removed and the row of `a` moves
/// there: `b` holds what `a` held, `a` holds nothing, every other row is as
/// it was, and one row is counted as renamed.
pub proof fn lemma_rename_onto_taken_key(
    store: StoreModel,
    namespace: Seq<char>,
    a: Seq<char>,
    b: Seq<char>,
    overwrite: bool,
    must_exist: bool,
    limit: nat,
    first: Seq<Reply>,
    second: Seq<Reply>,
    third: Seq<Reply>,
)
    requires
        a != b,
        limit > 0,
        store.dom().contains(slot(namespace)),
        store[slot(namespace)].dom().contains(a),
        store[slot(namespace)].dom().contains(b),
        agree(
            first,
            answers(overwrite_states(namespace, a, b, overwrite, must_exist, limit).0.ops(), store),
        ),
        agree(
            second,
            answers(overwrite_states(namespace, a, b, overwrite, must_exist, limit).1.ops(), store),
        ),
        overwrite ==> agree(
            third,
            answers(overwrite_states(namespace, a, b, overwrite, must_exist, limit).2.ops(), store),
        ),
    ensures
        ({
            let (begun, checked, cleared) = overwrite_states(
                namespace,
                a,
                b,
                overwrite,
                must_exist,
                limit,
            );
            &&& begun == crate::rename::rename_begun(
                namespace,
                seq![(a, b)],
                overwrite,
                must_exist,
                limit,
            )
            &&& begun.advanced(first) == Advanced::Next(checked)
            &&& run_all(begun.ops(), store) == store
            &&& run_all(checked.ops(), store) == store
            &&& !overwrite ==> checked.advanced(second) == Advanced::Conflict(b)
            &&& overwrite ==> checked.advanced(second) == Advanced::Next(cleared)
            &&& overwrite ==> cleared.advanced(third) == Advanced::Next(cleared.finished(1))
            &&& overwrite ==> run_all(cleared.ops(), store) == store.insert(slot(namespace),
                store[slot(namespace)].remove(a).insert(b, store[slot(namespace)][a]),
            )
        }),
{
    let pairs = seq![(a, b)];
    let table = store[slot(namespace)];
    let (begun, checked, cleared) = overwrite_states(namespace, a, b, overwrite, must_exist, limit);
    let none = Seq::<Seq<char>>::empty();
    let no_pairs = Seq::<(Seq<char>, Seq<char>)>::empty();
    assert(pairs.drop_last() =~= no_pairs);
    assert(crate::rename::real_pairs(no_pairs) =~= no_pairs);
    assert(crate::rename::real_pairs(pairs) =~= pairs);
    let olds = old_names(pairs);
    assert(olds =~= seq![a]);
    assert(olds.drop_last() =~= none);
    assert(first_absent(none, table.dom()) is None);
    assert(first_absent(olds, table.dom()) is None);
    assert(present_pairs(no_pairs, table.dom()) =~= no_pairs);
    assert(present_pairs(pairs, table.dom()) =~= pairs);
    lemma_rename_checks_old_names(begun, store, first);
    // the new name is no old name, and it has a row
    let news = new_names(pairs);
    assert(news =~= seq![b]);
    assert(news.drop_last() =~= none);
    assert(!olds.to_set().contains(b)) by {
        if olds.to_set().contains(b) {
            let i = choose|i: int| 0 <= i < olds.len() && olds[i] == b;
        }
    }
    assert(kept(none, olds.to_set(), false) =~= none);
    assert(kept(news, olds.to_set(), false) =~= seq![b]);
    assert(free_targets(pairs) =~= seq![b]);
    assert(seq![b].drop_last() =~= none);
    assert(kept(none, table.dom(), true) =~= none);
    assert(kept(seq![b], table.dom(), true) =~= seq![b]);
    lemma_rename_checks_new_names(checked, store, second);
    if overwrite {
        let cleared_table = table.remove_keys(seq![b].to_set());
        assert(seq![b].to_set() =~= set![b]) by {
            assert(seq![b][0] == b);
            assert forall|k: Seq<char>| seq![b].to_set().contains(k) implies k == b by {
                let i = choose|i: int| 0 <= i < seq![b].len() && seq![b][i] == k;
            }
        }
        assert(cleared_table =~= table.remove(b));
        lemma_rename_moves(cleared_table, a, b);
        lemma_rename_applies(cleared, store, third);
        assert(cleared_table.remove(a).insert(b, cleared_table[a]) =~= table.remove(a).insert(
            b,
            table[a],
        ));
        let moved = cleared_table.dom().intersect(olds.to_set());
        assert(moved =~= set![a]) by {
            assert(olds[0] == a);
            assert forall|k: Seq<char>| olds.to_set().contains(k) implies k == a by {
                let i = choose|i: int| 0 <= i < olds.len() && olds[i] == k;
            }
        }
    }
}

} // verus!
