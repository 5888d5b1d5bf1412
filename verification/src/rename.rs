//! The rename of keys, which asks the backing store twice before it changes
//! anything, so that it succeeds whole or leaves everything as it was.

use vstd::prelude::*;
use vstd::hash_set::StringHashSet;
use crate::error::{fails_with, TalsiError};
use crate::model::{new_names, old_names};
use crate::names::{name_of, name_text, string_or_bytestring_as_string};
use crate::ops::{paired, texts, Op, OpView};
use crate::plan::{
    keyed_ops, keyed_plan, ops_view, zipped, Keyed,
};
use crate::reply::Reply;
use crate::results::{
    keys_scanned, lemma_push_to_set, reply_fault, scan_keys, writes_scanned, KeysFound, Scan,
};
use crate::storage::Storage;
use crate::typ::StringOrByteString;

verus! {

/// The values that one pair of a rename binds in a statement: the old name
/// twice, the new name once.
pub const BINDS_PER_PAIR: usize = 3;

/// How far a rename has come.
#[derive(Debug, Clone, Copy, PartialEq, Eq, Structural)]
pub enum Phase {
    /// It is to be asked which of the old names have rows.
    CheckOld,
    /// It is to be asked which of the new names are taken.
    CheckNew,
    /// The rows in the way are to be removed and the rows renamed.
    Apply,
    /// Nothing is left to do.
    Finished,
}

/// A rename under way, as contracts see it.
pub struct RenameView {
    pub namespace: Seq<char>,
    /// The pairs that were given with the same name twice.
    pub noops: nat,
    /// The pairs that are still to be carried out.
    pub pairs: Seq<(Seq<char>, Seq<char>)>,
    pub overwrite: bool,
    pub must_exist: bool,
    /// How many values a statement binds at most.
    pub limit: nat,
    pub phase: Phase,
    /// The taken new names whose rows are to be removed.
    pub conflicts: Seq<Seq<char>>,
    /// The number of pairs that succeeded, once the rename has finished.
    pub result: nat,
}

/// The pairs whose two names differ.
pub open spec fn real_pairs(pairs: Seq<(Seq<char>, Seq<char>)>) -> Seq<(Seq<char>, Seq<char>)>
    decreases pairs.len(),
{
    if pairs.len() == 0 {
        seq![]
    } else if pairs.last().0 != pairs.last().1 {
        real_pairs(pairs.drop_last()).push(pairs.last())
    } else {
        real_pairs(pairs.drop_last())
    }
}

/// The names that are in `set`, or those that are not, in their order.
pub open spec fn kept(names: Seq<Seq<char>>, set: Set<Seq<char>>, inside: bool) -> Seq<Seq<char>>
    decreases names.len(),
{
    if names.len() == 0 {
        seq![]
    } else if set.contains(names.last()) == inside {
        kept(names.drop_last(), set, inside).push(names.last())
    } else {
        kept(names.drop_last(), set, inside)
    }
}

/// The first of the names that is not in `set`.
pub open spec fn first_absent(names: Seq<Seq<char>>, set: Set<Seq<char>>) -> Option<Seq<char>>
    decreases names.len(),
{
    if names.len() == 0 {
        None
    } else {
        match first_absent(names.drop_last(), set) {
            Some(name) => Some(name),
            None => if set.contains(names.last()) {
                None
            } else {
                Some(names.last())
            },
        }
    }
}

/// The pairs whose old name is in `existing`.
pub open spec fn present_pairs(pairs: Seq<(Seq<char>, Seq<char>)>, existing: Set<Seq<char>>) -> Seq<
    (Seq<char>, Seq<char>),
>
    decreases pairs.len(),
{
    if pairs.len() == 0 {
        seq![]
    } else if existing.contains(pairs.last().0) {
        present_pairs(pairs.drop_last(), existing).push(pairs.last())
    } else {
        present_pairs(pairs.drop_last(), existing)
    }
}

/// The new names that are not old names of the same rename: the rows at
/// these keys are not renamed away, so that a row there is in the way.
pub open spec fn free_targets(pairs: Seq<(Seq<char>, Seq<char>)>) -> Seq<Seq<char>> {
    kept(new_names(pairs), old_names(pairs).to_set(), false)
}

/// The rows that the replies from `from` on say were changed.
pub open spec fn rows_changed(replies: Seq<Reply>, from: int) -> nat
    decreases replies.len(),
{
    if replies.len() == 0 || replies.len() <= from {
        0
    } else {
        rows_changed(replies.drop_last(), from) + (match replies.last() {
            Reply::Done(n) => n as nat,
            _ => 0,
        })
    }
}

/// A count that does not go past the largest number.
pub open spec fn clamped(n: nat) -> nat {
    if n > usize::MAX {
        usize::MAX as nat
    } else {
        n
    }
}

/// The state in which a rename begins. The pairs with the same name twice
/// are counted and set aside; where no other pair is left the rename has
/// finished before it touched the backing store.
pub open spec fn rename_begun(
    namespace: Seq<char>,
    pairs: Seq<(Seq<char>, Seq<char>)>,
    overwrite: bool,
    must_exist: bool,
    limit: nat,
) -> RenameView {
    let renames = real_pairs(pairs);
    let noops = (pairs.len() - renames.len()) as nat;
    RenameView {
        namespace,
        noops,
        pairs: renames,
        overwrite,
        must_exist,
        limit,
        phase: if renames.len() == 0 {
            Phase::Finished
        } else {
            Phase::CheckOld
        },
        conflicts: seq![],
        result: if renames.len() == 0 {
            noops
        } else {
            0
        },
    }
}

impl RenameView {
    /// The ops that remove the rows in the way.
    pub open spec fn removals(self) -> Seq<OpView> {
        keyed_plan(Keyed::Delete, self.namespace, self.conflicts, self.limit)
    }

    /// The ops that are to be run now, in one transaction with those of the
    /// other phases.
    pub open spec fn ops(self) -> Seq<OpView> {
        match self.phase {
            Phase::CheckOld => keyed_plan(
                Keyed::SelectKeys,
                self.namespace,
                old_names(self.pairs),
                self.limit,
            ),
            Phase::CheckNew => keyed_plan(
                Keyed::SelectKeys,
                self.namespace,
                free_targets(self.pairs),
                self.limit,
            ),
            Phase::Apply => if self.pairs.len() == 0 {
                self.removals()
            } else {
                self.removals().push(
                    OpView::Rename { namespace: self.namespace, pairs: self.pairs },
                )
            },
            Phase::Finished => seq![],
        }
    }

    /// The rename as it has finished, with `renamed` rows renamed.
    pub open spec fn finished(self, renamed: nat) -> RenameView {
        RenameView { phase: Phase::Finished, result: clamped(self.noops + renamed), ..self }
    }

    /// What follows when the ops of this phase were answered with `replies`:
    /// the next state, or the failure in which the rename ends. After a
    /// failure the transaction is to be rolled back, so that nothing was
    /// renamed.
    pub open spec fn advanced(self, replies: Seq<Reply>) -> Advanced {
        match self.phase {
            Phase::Finished => Advanced::Fault(TalsiError::UnexpectedReply),
            Phase::CheckOld => match keys_scanned(replies) {
                Scan::Broken(e) => Advanced::Fault(e),
                Scan::Stopped(_) => if self.must_exist && self.pairs.len() > 0 {
                    Advanced::NotFound(self.pairs[0].0)
                } else {
                    Advanced::Next(self.finished(0))
                },
                Scan::Going(found) => if replies.len() != self.ops().len() {
                    Advanced::Fault(TalsiError::UnexpectedReply)
                } else {
                    match first_absent(old_names(self.pairs), found.to_set()) {
                        Some(key) if self.must_exist => Advanced::NotFound(key),
                        _ => Advanced::Next(
                            RenameView {
                                pairs: present_pairs(self.pairs, found.to_set()),
                                phase: Phase::CheckNew,
                                ..self
                            },
                        ),
                    }
                },
            },
            Phase::CheckNew => match keys_scanned(replies) {
                Scan::Broken(e) => Advanced::Fault(e),
                Scan::Stopped(_) => Advanced::Fault(TalsiError::UnexpectedReply),
                Scan::Going(found) => if replies.len() != self.ops().len() {
                    Advanced::Fault(TalsiError::UnexpectedReply)
                } else {
                    let taken = kept(free_targets(self.pairs), found.to_set(), true);
                    if !self.overwrite && taken.len() > 0 {
                        Advanced::Conflict(taken[0])
                    } else {
                        Advanced::Next(
                            RenameView { conflicts: taken, phase: Phase::Apply, ..self },
                        )
                    }
                },
            },
            Phase::Apply => match writes_scanned(replies) {
                Scan::Broken(e) => Advanced::Fault(e),
                Scan::Stopped(_) => Advanced::Fault(TalsiError::UnexpectedReply),
                Scan::Going(n) => if n != self.ops().len() {
                    Advanced::Fault(TalsiError::UnexpectedReply)
                } else {
                    Advanced::Next(
                        self.finished(rows_changed(replies, self.removals().len() as int)),
                    )
                },
            },
        }
    }
}

/// What a phase of a rename ends in.
pub enum Advanced {
    /// The rename goes on, or has finished, in this state.
    Next(RenameView),
    /// The rename demands its keys, and this one has no row.
    NotFound(Seq<char>),
    /// The rename may not overwrite, and this new name is taken.
    Conflict(Seq<char>),
    /// The backing store failed, or answered with what was not asked for.
    Fault(TalsiError),
}

} // verus!

verus! {

/// A rename under way: what was asked for, how far it has come, and what it
/// has learned from the backing store.
#[derive(Debug)]
pub struct Rename {
    namespace: String,
    noops: usize,
    olds: Vec<String>,
    news: Vec<String>,
    overwrite: bool,
    must_exist: bool,
    limit: usize,
    phase: Phase,
    conflicts: Vec<String>,
    result: usize,
}

impl View for Rename {
    type V = RenameView;

    closed spec fn view(&self) -> RenameView {
        RenameView {
            namespace: self.namespace@,
            noops: self.noops as nat,
            pairs: paired(texts(self.olds@), texts(self.news@)),
            overwrite: self.overwrite,
            must_exist: self.must_exist,
            limit: self.limit as nat,
            phase: self.phase,
            conflicts: texts(self.conflicts@),
            result: self.result as nat,
        }
    }
}

/// Renames as they are given, as pairs of texts.
pub open spec fn pairs_named(renames: Seq<(StringOrByteString, StringOrByteString)>) -> Seq<
    (Seq<char>, Seq<char>),
> {
    renames.map_values(
        |p: (StringOrByteString, StringOrByteString)| (name_of(p.0)->0, name_of(p.1)->0),
    )
}

/// Whether every name of the renames is text.
pub open spec fn all_pairs_named(renames: Seq<(StringOrByteString, StringOrByteString)>) -> bool {
    forall|i: int|
        0 <= i < renames.len() ==> name_of((#[trigger] renames[i]).0) is Some && name_of(
            renames[i].1,
        ) is Some
}

proof fn lemma_paired_names(olds: Seq<Seq<char>>, news: Seq<Seq<char>>)
    requires
        olds.len() == news.len(),
    ensures
        old_names(paired(olds, news)) == olds,
        new_names(paired(olds, news)) == news,
{
    assert(old_names(paired(olds, news)) =~= olds);
    assert(new_names(paired(olds, news)) =~= news);
}

fn clone_strings(names: &Vec<String>) -> (out: Vec<String>)
    ensures
        texts(out@) == texts(names@),
        out@.len() == names@.len(),
{
    let mut out: Vec<String> = Vec::new();
    let mut i: usize = 0;
    while i < names.len()
        invariant
            i <= names.len(),
            out@.len() == i,
            texts(out@) == texts(names@).take(i as int),
        decreases names.len() - i,
    {
        let ghost before = texts(out@);
        out.push(names[i].clone());
        i += 1;
        proof {
            assert(texts(out@) =~= before.push(names@[i - 1]@));
            assert(texts(names@).take(i as int) =~= texts(names@).take(i - 1).push(
                names@[i - 1]@,
            ));
        }
    }
    proof {
        assert(texts(names@).take(names@.len() as int) =~= texts(names@));
    }
    out
}

fn set_of(names: &Vec<String>) -> (set: StringHashSet)
    ensures
        set@ == texts(names@).to_set(),
{
    let mut set = StringHashSet::new();
    let mut i: usize = 0;
    proof {
        assert(texts(names@).take(0).to_set() =~= Set::<Seq<char>>::empty());
    }
    while i < names.len()
        invariant
            i <= names.len(),
            set@ == texts(names@).take(i as int).to_set(),
        decreases names.len() - i,
    {
        set.insert(names[i].clone());
        i += 1;
        proof {
            let upto = texts(names@).take(i as int);
            assert(upto =~= texts(names@).take(i - 1).push(names@[i - 1]@));
            lemma_push_to_set(texts(names@).take(i - 1), names@[i - 1]@);
        }
    }
    proof {
        assert(texts(names@).take(names@.len() as int) =~= texts(names@));
    }
    set
}

fn keep(names: &Vec<String>, set: &StringHashSet, inside: bool) -> (out: Vec<String>)
    ensures
        texts(out@) == kept(texts(names@), set@, inside),
{
    let mut out: Vec<String> = Vec::new();
    let mut i: usize = 0;
    while i < names.len()
        invariant
            i <= names.len(),
            texts(out@) == kept(texts(names@).take(i as int), set@, inside),
        decreases names.len() - i,
    {
        let ghost before = texts(out@);
        if set.contains(names[i].as_str()) == inside {
            out.push(names[i].clone());
            proof {
                assert(texts(out@) =~= before.push(names@[i as int]@));
            }
        }
        i += 1;
        proof {
            let upto = texts(names@).take(i as int);
            assert(upto.drop_last() =~= texts(names@).take(i - 1));
            assert(upto.last() == names@[i - 1]@);
        }
    }
    proof {
        assert(texts(names@).take(names@.len() as int) =~= texts(names@));
    }
    out
}

fn first_absent_key(names: &Vec<String>, set: &StringHashSet) -> (r: Option<String>)
    ensures
        match first_absent(texts(names@), set@) {
            Some(key) => r matches Some(s) && s@ == key,
            None => r is None,
        },
{
    let mut i: usize = 0;
    while i < names.len()
        invariant
            i <= names.len(),
            first_absent(texts(names@).take(i as int), set@) is None,
        decreases names.len() - i,
    {
        proof {
            let upto = texts(names@).take(i + 1);
            assert(upto.drop_last() =~= texts(names@).take(i as int));
            assert(upto.last() == names@[i as int]@);
        }
        if !set.contains(names[i].as_str()) {
            proof {
                lemma_first_absent_stays(texts(names@), i + 1, set@);
            }
            return Some(names[i].clone());
        }
        i += 1;
    }
    proof {
        assert(texts(names@).take(names@.len() as int) =~= texts(names@));
    }
    None
}

proof fn lemma_first_absent_stays(names: Seq<Seq<char>>, upto: int, set: Set<Seq<char>>)
    requires
        0 <= upto <= names.len(),
        first_absent(names.take(upto), set) is Some,
    ensures
        first_absent(names, set) == first_absent(names.take(upto), set),
    decreases names.len() - upto,
{
    if upto < names.len() {
        assert(names.take(upto + 1).drop_last() =~= names.take(upto));
        lemma_first_absent_stays(names, upto + 1, set);
    } else {
        assert(names.take(upto) =~= names);
    }
}

fn present(olds: &Vec<String>, news: &Vec<String>, set: &StringHashSet) -> (r: (
    Vec<String>,
    Vec<String>,
))
    requires
        olds@.len() == news@.len(),
    ensures
        r.0@.len() == r.1@.len(),
        paired(texts(r.0@), texts(r.1@)) == present_pairs(
            paired(texts(olds@), texts(news@)),
            set@,
        ),
{
    let ghost all = paired(texts(olds@), texts(news@));
    let mut out_olds: Vec<String> = Vec::new();
    let mut out_news: Vec<String> = Vec::new();
    let mut i: usize = 0;
    proof {
        assert(paired(texts(out_olds@), texts(out_news@)) =~= present_pairs(all.take(0), set@));
    }
    while i < olds.len()
        invariant
            i <= olds.len(),
            olds@.len() == news@.len(),
            all == paired(texts(olds@), texts(news@)),
            out_olds@.len() == out_news@.len(),
            paired(texts(out_olds@), texts(out_news@)) == present_pairs(all.take(i as int), set@),
        decreases olds.len() - i,
    {
        let ghost before = paired(texts(out_olds@), texts(out_news@));
        if set.contains(olds[i].as_str()) {
            out_olds.push(olds[i].clone());
            out_news.push(news[i].clone());
            proof {
                assert(paired(texts(out_olds@), texts(out_news@)) =~= before.push(all[i as int]));
            }
        }
        i += 1;
        proof {
            let upto = all.take(i as int);
            assert(upto.drop_last() =~= all.take(i - 1));
            assert(upto.last() == all[i - 1]);
        }
    }
    proof {
        assert(all.take(all.len() as int) =~= all);
    }
    (out_olds, out_news)
}

fn apply_scan(replies: Vec<Reply>, from: usize) -> (r: Result<(usize, usize), TalsiError>)
    ensures
        match writes_scanned(replies@) {
            Scan::Going(n) => r == Ok::<(usize, usize), TalsiError>(
                (n as usize, clamped(rows_changed(replies@, from as int)) as usize),
            ) && n <= usize::MAX,
            Scan::Stopped(_) => false,
            Scan::Broken(e) => fails_with(r, e),
        },
{
    let ghost all = replies@;
    let mut seen: usize = 0;
    let mut rows: usize = 0;
    let mut fault: Option<TalsiError> = None;
    let n: usize = replies.len();
    for reply in it: replies
        invariant
            it.seq() == all,
            n == all.len(),
            seen <= it.index(),
            match writes_scanned(all.take(it.index() as int)) {
                Scan::Going(k) => fault is None && k == seen && seen == it.index() && rows
                    == clamped(rows_changed(all.take(it.index() as int), from as int)),
                Scan::Stopped(_) => false,
                Scan::Broken(e) => fault == Some(e),
            },
    {
        proof {
            let upto = all.take(it.index() + 1);
            assert(upto.drop_last() =~= all.take(it.index() as int));
            assert(upto.last() == reply);
        }
        if fault.is_none() {
            match reply {
                Reply::Done(n) => {
                    if seen >= from {
                        rows = match rows.checked_add(n) {
                            Some(sum) => sum,
                            None => usize::MAX,
                        };
                    }
                    seen += 1;
                },
                other => {
                    fault = Some(crate::results::reply_fault_of(other));
                },
            }
        }
    }
    proof {
        assert(all.take(all.len() as int) =~= all);
    }
    match fault {
        Some(e) => Err(e),
        None => Ok((seen, rows)),
    }
}

impl Rename {
    #[verifier::type_invariant]
    spec fn well_formed(self) -> bool {
        &&& self.olds@.len() == self.news@.len()
        &&& self.phase != Phase::Finished ==> self.limit >= BINDS_PER_PAIR
    }

    /// The number of pairs that succeeded, once the rename has finished:
    /// those with the same name twice, and the rows that were renamed. Before
    /// that, `None`.
    pub fn finished(&self) -> (r: Option<usize>)
        ensures
            match r {
                Some(n) => self@.phase == Phase::Finished && n == self@.result,
                None => self@.phase != Phase::Finished,
            },
    {
        match self.phase {
            Phase::Finished => Some(self.result),
            _ => None,
        }
    }

    /// The ops that are to be run now. They are run in one transaction with
    /// those of the other phases; the replies go to [`Rename::advance`].
    pub fn ops(&self) -> (ops: Vec<Op>)
        ensures
            ops_view(ops@) == self@.ops(),
    {
        proof {
            use_type_invariant(self);
            lemma_paired_names(texts(self.olds@), texts(self.news@));
        }
        match self.phase {
            Phase::CheckOld => keyed_ops(
                Keyed::SelectKeys,
                self.namespace.as_str(),
                clone_strings(&self.olds),
                self.limit,
            ),
            Phase::CheckNew => {
                let olds = set_of(&self.olds);
                let targets = keep(&self.news, &olds, false);
                keyed_ops(Keyed::SelectKeys, self.namespace.as_str(), targets, self.limit)
            },
            Phase::Apply => {
                let mut ops = keyed_ops(
                    Keyed::Delete,
                    self.namespace.as_str(),
                    clone_strings(&self.conflicts),
                    self.limit,
                );
                let ghost removals = ops_view(ops@);
                if self.olds.len() > 0 {
                    let pairs = zipped(&self.olds, &self.news);
                    ops.push(Op::Rename { namespace: self.namespace.clone(), pairs });
                    proof {
                        assert(ops_view(ops@) =~= removals.push(
                            OpView::Rename { namespace: self.namespace@, pairs: self@.pairs },
                        ));
                    }
                }
                ops
            },
            Phase::Finished => {
                let ops: Vec<Op> = Vec::new();
                proof {
                    assert(ops_view(ops@) =~= Seq::<OpView>::empty());
                }
                ops
            },
        }
    }

    /// Takes the replies to the ops of this phase, and goes on to the next
    /// phase or ends in a failure. After a failure the transaction is to be
    /// rolled back.
    pub fn advance(self, replies: Vec<Reply>) -> (r: Result<Rename, TalsiError>)
        ensures
            match self@.advanced(replies@) {
                Advanced::Next(next) => r matches Ok(state) && state@ == next,
                Advanced::NotFound(key) => r matches Err(TalsiError::KeyNotFound(k)) && k@ == key,
                Advanced::Conflict(key) => r matches Err(TalsiError::KeyConflict(k)) && k@ == key,
                Advanced::Fault(e) => fails_with(r, e),
            },
    {
        proof {
            use_type_invariant(&self);
            lemma_paired_names(texts(self.olds@), texts(self.news@));
        }
        let count: usize = replies.len();
        match self.phase {
            Phase::Finished => Err(TalsiError::UnexpectedReply),
            Phase::CheckOld => {
                let expected: usize = self.ops().len();
                match scan_keys(replies) {
                    KeysFound::Broken(e) => Err(e),
                    KeysFound::Stopped(_) => {
                        if self.must_exist && self.olds.len() > 0 {
                            Err(TalsiError::KeyNotFound(self.olds[0].clone()))
                        } else {
                            Ok(self.finish(0))
                        }
                    },
                    KeysFound::Going(found) => {
                        if count != expected {
                            return Err(TalsiError::UnexpectedReply);
                        }
                        let existing = set_of(&found);
                        if self.must_exist {
                            match first_absent_key(&self.olds, &existing) {
                                Some(key) => {
                                    return Err(TalsiError::KeyNotFound(key));
                                },
                                None => {},
                            }
                        }
                        let (olds, news) = present(&self.olds, &self.news, &existing);
                        Ok(
                            Rename {
                                namespace: self.namespace,
                                noops: self.noops,
                                olds,
                                news,
                                overwrite: self.overwrite,
                                must_exist: self.must_exist,
                                limit: self.limit,
                                phase: Phase::CheckNew,
                                conflicts: self.conflicts,
                                result: self.result,
                            },
                        )
                    },
                }
            },
            Phase::CheckNew => {
                let expected: usize = self.ops().len();
                match scan_keys(replies) {
                    KeysFound::Broken(e) => Err(e),
                    KeysFound::Stopped(_) => Err(TalsiError::UnexpectedReply),
                    KeysFound::Going(found) => {
                        if count != expected {
                            return Err(TalsiError::UnexpectedReply);
                        }
                        let existing = set_of(&found);
                        let olds = set_of(&self.olds);
                        let targets = keep(&self.news, &olds, false);
                        let taken = keep(&targets, &existing, true);
                        if !self.overwrite && taken.len() > 0 {
                            return Err(TalsiError::KeyConflict(taken[0].clone()));
                        }
                        Ok(
                            Rename {
                                namespace: self.namespace,
                                noops: self.noops,
                                olds: self.olds,
                                news: self.news,
                                overwrite: self.overwrite,
                                must_exist: self.must_exist,
                                limit: self.limit,
                                phase: Phase::Apply,
                                conflicts: taken,
                                result: self.result,
                            },
                        )
                    },
                }
            },
            Phase::Apply => {
                let removals: usize = keyed_ops(
                    Keyed::Delete,
                    self.namespace.as_str(),
                    clone_strings(&self.conflicts),
                    self.limit,
                ).len();
                let expected: usize = self.ops().len();
                match apply_scan(replies, removals) {
                    Err(e) => Err(e),
                    Ok((seen, rows)) => {
                        if seen != expected {
                            return Err(TalsiError::UnexpectedReply);
                        }
                        Ok(self.finish(rows))
                    },
                }
            },
        }
    }

    fn finish(self, renamed: usize) -> (r: Rename)
        ensures
            r@ == self@.finished(renamed as nat),
    {
        proof {
            use_type_invariant(&self);
        }
        let result: usize = match self.noops.checked_add(renamed) {
            Some(sum) => sum,
            None => usize::MAX,
        };
        Rename {
            namespace: self.namespace,
            noops: self.noops,
            olds: self.olds,
            news: self.news,
            overwrite: self.overwrite,
            must_exist: self.must_exist,
            limit: self.limit,
            phase: Phase::Finished,
            conflicts: self.conflicts,
            result,
        }
    }
}

impl Storage {
    /// Begins the rename of keys of a namespace: the row at each old name is
    /// to move to the new name beside it. Pairs with the same name twice
    /// succeed at once and are counted; the others go through the phases of
    /// the [`Rename`] that is returned, in one transaction. Where
    /// `must_exist` is set each old name has to have a row; where
    /// `overwrite` is not, no new name may have one that stays.
    pub fn rename(
        &self,
        namespace: StringOrByteString,
        renames: &Vec<(StringOrByteString, StringOrByteString)>,
        overwrite: bool,
        must_exist: bool,
    ) -> (r: Result<Rename, TalsiError>)
        ensures
            name_of(namespace) is None || !all_pairs_named(renames@) ==> fails_with(
                r,
                TalsiError::InvalidUtf8,
            ),
            name_of(namespace) is Some && all_pairs_named(renames@) ==> {
                let begun = rename_begun(
                    name_of(namespace)->0,
                    pairs_named(renames@),
                    overwrite,
                    must_exist,
                    self@.max_num_binds,
                );
                &&& self@.closed ==> fails_with(r, TalsiError::ConnectionClosed)
                &&& !self@.closed && begun.pairs.len() > 0 && self@.max_num_binds < BINDS_PER_PAIR
                    ==> fails_with(r, TalsiError::BindLimitTooSmall)
                &&& !self@.closed && (begun.pairs.len() == 0 || self@.max_num_binds
                    >= BINDS_PER_PAIR) ==> (r matches Ok(state) && state@ == begun)
            },
    {
        let ns = match string_or_bytestring_as_string(namespace) {
            Ok(n) => n,
            Err(e) => {
                return Err(e);
            },
        };
        let ghost all = pairs_named(renames@);
        let mut olds: Vec<String> = Vec::new();
        let mut news: Vec<String> = Vec::new();
        let mut noops: usize = 0;
        let mut i: usize = 0;
        proof {
            assert(paired(texts(olds@), texts(news@)) =~= real_pairs(all.take(0)));
        }
        while i < renames.len()
            invariant
                i <= renames.len(),
                name_of(namespace) is Some,
                all == pairs_named(renames@),
                all_pairs_named(renames@.take(i as int)),
                olds@.len() == news@.len(),
                olds@.len() + noops == i,
                paired(texts(olds@), texts(news@)) == real_pairs(all.take(i as int)),
            decreases renames.len() - i,
        {
            let ghost before = paired(texts(olds@), texts(news@));
            let pair = &renames[i];
            let old_name = match name_text(&pair.0) {
                Ok(n) => n,
                Err(e) => {
                    return Err(e);
                },
            };
            let new_name = match name_text(&pair.1) {
                Ok(n) => n,
                Err(e) => {
                    return Err(e);
                },
            };
            if old_name == new_name {
                noops += 1;
            } else {
                olds.push(old_name);
                news.push(new_name);
                proof {
                    assert(paired(texts(olds@), texts(news@)) =~= before.push(all[i as int]));
                }
            }
            i += 1;
            proof {
                let upto = all.take(i as int);
                assert(upto.drop_last() =~= all.take(i - 1));
                assert(upto.last() == all[i - 1]);
                assert forall|k: int| 0 <= k < i implies name_of(
                    (#[trigger] renames@.take(i as int)[k]).0,
                ) is Some && name_of(renames@.take(i as int)[k].1) is Some by {
                    if k < i - 1 {
                        assert(renames@.take(i as int)[k] == renames@.take(i - 1)[k]);
                    }
                }
            }
        }
        proof {
            assert(all.take(all.len() as int) =~= all);
            assert(renames@.take(renames@.len() as int) =~= renames@);
        }
        if self.is_closed() {
            return Err(TalsiError::ConnectionClosed);
        }
        let limit: usize = self.max_num_binds();
        let no_conflicts: Vec<String> = Vec::new();
        proof {
            assert(texts(no_conflicts@) =~= Seq::<Seq<char>>::empty());
        }
        if olds.len() == 0 {
            return Ok(
                Rename {
                    namespace: ns,
                    noops,
                    olds,
                    news,
                    overwrite,
                    must_exist,
                    limit,
                    phase: Phase::Finished,
                    conflicts: no_conflicts,
                    result: noops,
                },
            );
        }
        if limit < BINDS_PER_PAIR {
            return Err(TalsiError::BindLimitTooSmall);
        }
        Ok(
            Rename {
                namespace: ns,
                noops,
                olds,
                news,
                overwrite,
                must_exist,
                limit,
                phase: Phase::CheckOld,
                conflicts: no_conflicts,
                result: 0,
            },
        )
    }
}

} // verus!
