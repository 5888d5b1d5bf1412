//! The readers of replies: what an operation of the store gives once its
//! ops have been run.

use vstd::prelude::*;
use vstd::hash_set::StringHashSet;
use crate::error::{fails_with, TalsiError};
use crate::ops::texts;
use crate::py_codecs::PyValue;
use crate::record::{chain_decoded, decode_record, ChainDecoded, InternalStoredRecord, StorageSettings};
use crate::reply::{Reply, NO_SUCH_TABLE_WORDS};
use crate::sql::TABLE_PREFIX;
use crate::text::{chars_of, chars_start_with, contains, occurs_in, string_from_chars};

verus! {

/// How far a run of replies has been read.
pub enum Scan<T> {
    /// Every reply so far was taken in.
    Going(T),
    /// A reply said that the table does not exist: what follows does not
    /// count.
    Stopped(T),
    /// A reply was a failure, or not what was asked for.
    Broken(TalsiError),
}

/// The failure that a reply stands for where it is none of those that the
/// reader takes in.
pub open spec fn reply_fault(reply: Reply) -> TalsiError {
    match reply {
        Reply::Failed(f) => TalsiError::Storage(f.message),
        _ => TalsiError::UnexpectedReply,
    }
}

pub(crate) fn reply_fault_of(reply: Reply) -> (e: TalsiError)
    ensures
        e == reply_fault(reply),
{
    match reply {
        Reply::Failed(f) => TalsiError::Storage(f.message),
        _ => TalsiError::UnexpectedReply,
    }
}

/// Reads the replies to the ops of a write: each has to say that its
/// statement ran.
pub open spec fn writes_scanned(replies: Seq<Reply>) -> Scan<nat>
    decreases replies.len(),
{
    if replies.len() == 0 {
        Scan::Going(0)
    } else {
        match writes_scanned(replies.drop_last()) {
            Scan::Going(n) => match replies.last() {
                Reply::Done(_) => Scan::Going(n + 1),
                other => Scan::Broken(reply_fault(other)),
            },
            done => done,
        }
    }
}

/// Whether the ops of a write all ran: there is a reply for each of the
/// `expected` ops, and each says that its statement ran. Where they did, a
/// transaction around them is to be committed; where not, it is to be rolled
/// back, and the failure is the first one among the replies.
pub fn run_completed(expected: usize, replies: Vec<Reply>) -> (r: Result<(), TalsiError>)
    ensures
        match writes_scanned(replies@) {
            Scan::Going(n) => if n == expected {
                r is Ok
            } else {
                fails_with(r, TalsiError::UnexpectedReply)
            },
            Scan::Stopped(_) => false,
            Scan::Broken(e) => fails_with(r, e),
        },
{
    let ghost all = replies@;
    let mut seen: usize = 0;
    let mut fault: Option<TalsiError> = None;
    let n: usize = replies.len();
    for reply in it: replies
        invariant
            it.seq() == all,
            n == all.len(),
            seen <= it.index(),
            match writes_scanned(all.take(it.index() as int)) {
                Scan::Going(k) => fault is None && k == seen,
                Scan::Stopped(_) => false,
                Scan::Broken(e) => fault == Some(e),
            },
    {
        proof {
            let upto = all.take(it.index() + 1);
            assert(upto.drop_last() =~= all.take(it.index() as int));
            assert(upto.last() == reply);
        }
        if fault.is_none() {
            match reply {
                Reply::Done(_) => {
                    seen += 1;
                },
                other => {
                    fault = Some(reply_fault_of(other));
                },
            }
        }
    }
    proof {
        assert(all.take(all.len() as int) =~= all);
    }
    match fault {
        Some(e) => Err(e),
        None => if seen == expected {
            Ok(())
        } else {
            Err(TalsiError::UnexpectedReply)
        },
    }
}

/// The record that the reply to a read of one key holds. A table that does
/// not exist holds none.
pub fn get_record(reply: Reply) -> (r: Result<Option<InternalStoredRecord>, TalsiError>)
    ensures
        match reply {
            Reply::Records(records) => if records@.len() == 0 {
                r == Ok::<Option<InternalStoredRecord>, TalsiError>(None)
            } else {
                r == Ok::<Option<InternalStoredRecord>, TalsiError>(Some(records@[0]))
            },
            Reply::NoSuchTable => r == Ok::<Option<InternalStoredRecord>, TalsiError>(None),
            other => fails_with(r, reply_fault(other)),
        },
{
    match reply {
        Reply::Records(records) => {
            let mut records = records;
            if records.len() == 0 {
                Ok(None)
            } else {
                Ok(Some(records.swap_remove(0)))
            }
        },
        Reply::NoSuchTable => Ok(None),
        other => Err(reply_fault_of(other)),
    }
}

/// The value that the reply to a read of one key holds, decoded. A key
/// without a row has none, and so has every key of a namespace that was
/// never written. When the record expires is not looked at.
pub fn get_result(reply: Reply, settings: &StorageSettings) -> (r: Result<
    Option<PyValue>,
    TalsiError,
>)
    ensures
        match reply {
            Reply::Records(records) => if records@.len() == 0 {
                r matches Ok(None)
            } else {
                match chain_decoded(
                    records@[0].codecs_blob@,
                    records@[0].value@,
                    settings.allow_pickle,
                ) {
                    ChainDecoded::Value(value) => r matches Ok(Some(v)) && v@ == value,
                    ChainDecoded::Rejected => r matches Err(e) && e is Encoding,
                    ChainDecoded::Failed(e) => fails_with(r, e),
                }
            },
            Reply::NoSuchTable => r matches Ok(None),
            other => fails_with(r, reply_fault(other)),
        },
{
    match get_record(reply) {
        Ok(Some(record)) => match decode_record(record, settings) {
            Ok((_, value)) => Ok(Some(value)),
            Err(e) => Err(e),
        },
        Ok(None) => Ok(None),
        Err(e) => Err(e),
    }
}

/// Whether the key of an existence test has a row. No key of a namespace
/// that was never written has one.
pub fn has_result(reply: Reply) -> (r: Result<bool, TalsiError>)
    ensures
        match reply {
            Reply::Flag(found) => r == Ok::<bool, TalsiError>(found),
            Reply::NoSuchTable => r == Ok::<bool, TalsiError>(false),
            other => fails_with(r, reply_fault(other)),
        },
{
    match reply {
        Reply::Flag(found) => Ok(found),
        Reply::NoSuchTable => Ok(false),
        other => Err(reply_fault_of(other)),
    }
}

/// The keys of a namespace that a listing found. A namespace that was never
/// written has none.
pub fn list_keys_result(reply: Reply) -> (r: Result<Vec<String>, TalsiError>)
    ensures
        match reply {
            Reply::Keys(keys) => r == Ok::<Vec<String>, TalsiError>(keys),
            Reply::NoSuchTable => r matches Ok(keys) && keys@.len() == 0,
            other => fails_with(r, reply_fault(other)),
        },
{
    match reply {
        Reply::Keys(keys) => Ok(keys),
        Reply::NoSuchTable => Ok(Vec::new()),
        other => Err(reply_fault_of(other)),
    }
}

/// Reads the replies to a chunked query for keys: the keys of all replies
/// in their order, up to the reply that says that the table does not exist.
pub open spec fn keys_scanned(replies: Seq<Reply>) -> Scan<Seq<Seq<char>>>
    decreases replies.len(),
{
    if replies.len() == 0 {
        Scan::Going(seq![])
    } else {
        match keys_scanned(replies.drop_last()) {
            Scan::Going(found) => match replies.last() {
                Reply::Keys(keys) => Scan::Going(found + texts(keys@)),
                Reply::NoSuchTable => Scan::Stopped(found),
                other => Scan::Broken(reply_fault(other)),
            },
            done => done,
        }
    }
}

/// What reading the replies to a chunked query for keys gave: the keys found,
/// each once, or the failure.
pub enum KeysFound {
    /// Every reply was taken in.
    Going(Vec<String>),
    /// A reply said that the table does not exist.
    Stopped(Vec<String>),
    /// A reply was a failure, or not what was asked for.
    Broken(TalsiError),
}

/// Reads the replies to a chunked query for keys.
pub fn scan_keys(replies: Vec<Reply>) -> (r: KeysFound)
    ensures
        match keys_scanned(replies@) {
            Scan::Going(found) => r matches KeysFound::Going(keys) && texts(keys@).to_set()
                == found.to_set() && texts(keys@).no_duplicates(),
            Scan::Stopped(found) => r matches KeysFound::Stopped(keys) && texts(keys@).to_set()
                == found.to_set() && texts(keys@).no_duplicates(),
            Scan::Broken(e) => r matches KeysFound::Broken(x) && x == e,
        },
{
    let ghost all = replies@;
    let mut out: Vec<String> = Vec::new();
    let mut seen = StringHashSet::new();
    let mut stopped = false;
    let mut fault: Option<TalsiError> = None;
    for reply in it: replies
        invariant
            it.seq() == all,
            texts(out@).to_set() == seen@,
            texts(out@).no_duplicates(),
            match keys_scanned(all.take(it.index() as int)) {
                Scan::Going(found) => !stopped && fault is None && found.to_set() == seen@,
                Scan::Stopped(found) => stopped && fault is None && found.to_set() == seen@,
                Scan::Broken(e) => fault == Some(e),
            },
    {
        proof {
            let upto = all.take(it.index() + 1);
            assert(upto.drop_last() =~= all.take(it.index() as int));
            assert(upto.last() == reply);
        }
        if !stopped && fault.is_none() {
            match reply {
                Reply::Keys(keys) => {
                    let ghost found = keys_scanned(all.take(it.index() as int))->Going_0;
                    let mut i: usize = 0;
                    while i < keys.len()
                        invariant
                            i <= keys.len(),
                            texts(out@).to_set() == seen@,
                            texts(out@).no_duplicates(),
                            seen@ == (found + texts(keys@).take(i as int)).to_set(),
                        decreases keys.len() - i,
                    {
                        let ghost before = texts(out@);
                        let ghost upto = found + texts(keys@).take(i as int);
                        if seen.insert(keys[i].clone()) {
                            out.push(keys[i].clone());
                            proof {
                                assert(texts(out@) =~= before.push(keys@[i as int]@));
                                assert(!before.contains(keys@[i as int]@)) by {
                                    if before.contains(keys@[i as int]@) {
                                        assert(before.to_set().contains(keys@[i as int]@));
                                    }
                                }
                                assert(texts(out@).to_set() =~= before.to_set().insert(
                                    keys@[i as int]@,
                                )) by {
                                    lemma_push_to_set(before, keys@[i as int]@);
                                }
                            }
                        }
                        i += 1;
                        proof {
                            let next = found + texts(keys@).take(i as int);
                            assert(next =~= upto.push(keys@[i - 1]@));
                            lemma_push_to_set(upto, keys@[i - 1]@);
                        }
                    }
                    proof {
                        assert(texts(keys@).take(keys@.len() as int) =~= texts(keys@));
                    }
                },
                Reply::NoSuchTable => {
                    stopped = true;
                },
                other => {
                    fault = Some(reply_fault_of(other));
                },
            }
        }
    }
    proof {
        assert(all.take(all.len() as int) =~= all);
    }
    match fault {
        Some(e) => KeysFound::Broken(e),
        None => if stopped {
            KeysFound::Stopped(out)
        } else {
            KeysFound::Going(out)
        },
    }
}

/// The keys that a chunked query found, each once. The keys of a namespace
/// that was never written are none.
pub fn has_many_result(replies: Vec<Reply>) -> (r: Result<Vec<String>, TalsiError>)
    ensures
        match keys_scanned(replies@) {
            Scan::Going(found) => r matches Ok(keys) && texts(keys@).to_set() == found.to_set()
                && texts(keys@).no_duplicates(),
            Scan::Stopped(found) => r matches Ok(keys) && texts(keys@).to_set() == found.to_set()
                && texts(keys@).no_duplicates(),
            Scan::Broken(e) => fails_with(r, e),
        },
{
    match scan_keys(replies) {
        KeysFound::Going(keys) => Ok(keys),
        KeysFound::Stopped(keys) => Ok(keys),
        KeysFound::Broken(e) => Err(e),
    }
}

/// The elements of a sequence with one more are the elements of the
/// sequence and that one.
pub proof fn lemma_push_to_set<T>(s: Seq<T>, x: T)
    ensures
        s.push(x).to_set() == s.to_set().insert(x),
{
    let a = s.push(x).to_set();
    let b = s.to_set().insert(x);
    assert forall|y: T| a.contains(y) <==> b.contains(y) by {
        if a.contains(y) {
            let i = choose|i: int| 0 <= i < s.push(x).len() && s.push(x)[i] == y;
            if i < s.len() {
                assert(s[i] == y);
                assert(s.contains(y));
            }
        }
        if b.contains(y) {
            if y == x {
                assert(s.push(x)[s.len() as int] == x);
            } else {
                let i = choose|i: int| 0 <= i < s.len() && s[i] == y;
                assert(s.push(x)[i] == y);
            }
        }
    }
    assert(a =~= b);
}

/// Reads the replies to a chunked query for rows: the records of all
/// replies in their order, up to the reply that says that the table does not
/// exist.
pub open spec fn records_scanned(replies: Seq<Reply>) -> Scan<Seq<InternalStoredRecord>>
    decreases replies.len(),
{
    if replies.len() == 0 {
        Scan::Going(seq![])
    } else {
        match records_scanned(replies.drop_last()) {
            Scan::Going(found) => match replies.last() {
                Reply::Records(records) => Scan::Going(found + records@),
                Reply::NoSuchTable => Scan::Stopped(found),
                other => Scan::Broken(reply_fault(other)),
            },
            done => done,
        }
    }
}

/// The records that a chunked query found, in the order in which they came.
pub fn get_many_records(replies: Vec<Reply>) -> (r: Result<Vec<InternalStoredRecord>, TalsiError>)
    ensures
        match records_scanned(replies@) {
            Scan::Going(found) => r matches Ok(records) && records@ == found,
            Scan::Stopped(found) => r matches Ok(records) && records@ == found,
            Scan::Broken(e) => fails_with(r, e),
        },
{
    let ghost all = replies@;
    let mut out: Vec<InternalStoredRecord> = Vec::new();
    let mut stopped = false;
    let mut fault: Option<TalsiError> = None;
    for reply in it: replies
        invariant
            it.seq() == all,
            match records_scanned(all.take(it.index() as int)) {
                Scan::Going(found) => !stopped && fault is None && found == out@,
                Scan::Stopped(found) => stopped && fault is None && found == out@,
                Scan::Broken(e) => fault == Some(e),
            },
    {
        proof {
            let upto = all.take(it.index() + 1);
            assert(upto.drop_last() =~= all.take(it.index() as int));
            assert(upto.last() == reply);
        }
        if !stopped && fault.is_none() {
            match reply {
                Reply::Records(records) => {
                    let mut records = records;
                    out.append(&mut records);
                },
                Reply::NoSuchTable => {
                    stopped = true;
                },
                other => {
                    fault = Some(reply_fault_of(other));
                },
            }
        }
    }
    proof {
        assert(all.take(all.len() as int) =~= all);
    }
    match fault {
        Some(e) => Err(e),
        None => Ok(out),
    }
}

/// How decoding a record of a chunked query ends: it needs its key.
pub open spec fn keyed_decoded(record: InternalStoredRecord, allow_pickle: bool) -> ChainDecoded {
    match chain_decoded(record.codecs_blob@, record.value@, allow_pickle) {
        ChainDecoded::Value(value) => if record.key is Some {
            ChainDecoded::Value(value)
        } else {
            ChainDecoded::Failed(TalsiError::UnexpectedReply)
        },
        other => other,
    }
}

/// Decodes the records of a chunked query, each to its key and value, in
/// their order. The first record that does not decode fails them all.
pub fn decode_records(records: Vec<InternalStoredRecord>, settings: &StorageSettings) -> (r: Result<
    Vec<(String, PyValue)>,
    TalsiError,
>)
    ensures
        match r {
            Ok(values) => {
                &&& values@.len() == records@.len()
                &&& forall|i: int|
                    0 <= i < records@.len() ==> keyed_decoded(
                        #[trigger] records@[i],
                        settings.allow_pickle,
                    ) == ChainDecoded::Value(values@[i].1@) && records@[i].key == Some(
                        values@[i].0,
                    )
            },
            Err(e) => exists|i: int|
                0 <= i < records@.len() && first_undecoded(records@, settings.allow_pickle, i)
                    && match keyed_decoded(#[trigger] records@[i], settings.allow_pickle) {
                    ChainDecoded::Value(_) => false,
                    ChainDecoded::Rejected => e is Encoding,
                    ChainDecoded::Failed(fault) => e == fault,
                },
        },
{
    let ghost all = records@;
    let mut out: Vec<(String, PyValue)> = Vec::new();
    let mut fault: Option<TalsiError> = None;
    let ghost mut at: int = 0;
    for record in it: records
        invariant
            it.seq() == all,
            fault is None ==> out@.len() == it.index() && forall|i: int|
                0 <= i < it.index() ==> keyed_decoded(#[trigger] all[i], settings.allow_pickle)
                    == ChainDecoded::Value(out@[i].1@) && all[i].key == Some(out@[i].0),
            fault matches Some(e) ==> 0 <= at < it.index() && first_undecoded(
                all,
                settings.allow_pickle,
                at,
            ) && match keyed_decoded(all[at], settings.allow_pickle) {
                ChainDecoded::Value(_) => false,
                ChainDecoded::Rejected => e is Encoding,
                ChainDecoded::Failed(f) => e == f,
            },
    {
        if fault.is_none() {
            match decode_record(record, settings) {
                Ok((Some(key), value)) => {
                    out.push((key, value));
                },
                Ok((None, _)) => {
                    fault = Some(TalsiError::UnexpectedReply);
                    proof {
                        at = it.index() as int;
                    }
                },
                Err(e) => {
                    fault = Some(e);
                    proof {
                        at = it.index() as int;
                    }
                },
            }
        }
    }
    match fault {
        Some(e) => Err(e),
        None => Ok(out),
    }
}

/// Whether the record at `at` is the first that does not decode.
pub open spec fn first_undecoded(records: Seq<InternalStoredRecord>, allow_pickle: bool, at: int)
    -> bool {
    &&& 0 <= at < records.len()
    &&& !(keyed_decoded(records[at], allow_pickle) is Value)
    &&& forall|i: int| 0 <= i < at ==> keyed_decoded(#[trigger] records[i], allow_pickle) is Value
}

/// Whether a failure while a statement ran was that of a table that does not
/// exist.
pub open spec fn failed_for_no_table(reply: Reply) -> bool {
    reply matches Reply::Failed(f) && occurs_in(f.message@, NO_SUCH_TABLE_WORDS@)
}

/// Reads the replies to the ops of a removal: the rows removed add up. A
/// table that does not exist has no rows, so that a reply that says so, in
/// either of the two ways in which a backing store does, makes the count
/// zero.
pub open spec fn removals_scanned(replies: Seq<Reply>) -> Scan<nat>
    decreases replies.len(),
{
    if replies.len() == 0 {
        Scan::Going(0)
    } else {
        match removals_scanned(replies.drop_last()) {
            Scan::Going(n) => match replies.last() {
                Reply::Done(rows) => Scan::Going((n + rows) as nat),
                Reply::NoSuchTable => Scan::Stopped(0),
                other => if failed_for_no_table(other) {
                    Scan::Stopped(0)
                } else {
                    Scan::Broken(reply_fault(other))
                },
            },
            done => done,
        }
    }
}

/// The number of rows that the ops of a removal removed; a count past the
/// largest number is given as that number. Where the result is a failure the
/// transaction around the ops is to be rolled back.
pub fn delete_result(replies: Vec<Reply>) -> (r: Result<usize, TalsiError>)
    ensures
        match removals_scanned(replies@) {
            Scan::Going(n) => r == Ok::<usize, TalsiError>(
                if n > usize::MAX {
                    usize::MAX
                } else {
                    n as usize
                },
            ),
            Scan::Stopped(n) => r == Ok::<usize, TalsiError>(0),
            Scan::Broken(e) => fails_with(r, e),
        },
{
    let ghost all = replies@;
    let mut total: usize = 0;
    let mut stopped = false;
    let mut fault: Option<TalsiError> = None;
    for reply in it: replies
        invariant
            it.seq() == all,
            match removals_scanned(all.take(it.index() as int)) {
                Scan::Going(n) => !stopped && fault is None && total == (if n > usize::MAX {
                    usize::MAX
                } else {
                    n as usize
                }),
                Scan::Stopped(n) => stopped && fault is None && n == 0,
                Scan::Broken(e) => fault == Some(e),
            },
    {
        proof {
            let upto = all.take(it.index() + 1);
            assert(upto.drop_last() =~= all.take(it.index() as int));
            assert(upto.last() == reply);
        }
        if !stopped && fault.is_none() {
            match reply {
                Reply::Done(rows) => {
                    total = match total.checked_add(rows) {
                        Some(sum) => sum,
                        None => usize::MAX,
                    };
                },
                Reply::NoSuchTable => {
                    stopped = true;
                },
                Reply::Failed(f) => {
                    if contains(f.message.as_str(), NO_SUCH_TABLE_WORDS) {
                        stopped = true;
                    } else {
                        fault = Some(TalsiError::Storage(f.message));
                    }
                },
                other => {
                    fault = Some(reply_fault_of(other));
                },
            }
        }
    }
    proof {
        assert(all.take(all.len() as int) =~= all);
    }
    match fault {
        Some(e) => Err(e),
        None => if stopped {
            Ok(0)
        } else {
            Ok(total)
        },
    }
}

/// The namespaces whose tables the names are: each name that begins with the
/// table prefix, without that prefix, in the order of the names.
pub open spec fn namespaces_named(names: Seq<Seq<char>>) -> Seq<Seq<char>>
    decreases names.len(),
{
    if names.len() == 0 {
        seq![]
    } else if TABLE_PREFIX@.is_prefix_of(names.last()) {
        namespaces_named(names.drop_last()).push(names.last().skip(TABLE_PREFIX@.len() as int))
    } else {
        namespaces_named(names.drop_last())
    }
}

/// The namespaces that have a table in the backing store.
pub fn list_namespaces_result(reply: Reply) -> (r: Result<Vec<String>, TalsiError>)
    ensures
        match reply {
            Reply::Keys(names) => r matches Ok(namespaces) && texts(namespaces@)
                == namespaces_named(texts(names@)),
            Reply::NoSuchTable => r matches Ok(namespaces) && namespaces@.len() == 0,
            other => fails_with(r, reply_fault(other)),
        },
{
    match reply {
        Reply::Keys(names) => {
            let prefix = chars_of(TABLE_PREFIX);
            let mut out: Vec<String> = Vec::new();
            let mut i: usize = 0;
            while i < names.len()
                invariant
                    i <= names.len(),
                    prefix@ == TABLE_PREFIX@,
                    texts(out@) == namespaces_named(texts(names@).take(i as int)),
                decreases names.len() - i,
            {
                let ghost before = texts(out@);
                let name = chars_of(names[i].as_str());
                if chars_start_with(&name, &prefix) {
                    out.push(string_from_chars(&name, prefix.len()));
                    proof {
                        assert(texts(out@) =~= before.push(name@.skip(prefix@.len() as int)));
                    }
                }
                i += 1;
                proof {
                    let upto = texts(names@).take(i as int);
                    assert(upto.drop_last() =~= texts(names@).take(i - 1));
                    assert(upto.last() == name@);
                }
            }
            proof {
                assert(texts(names@).take(names@.len() as int) =~= texts(names@));
            }
            Ok(out)
        },
        Reply::NoSuchTable => Ok(Vec::new()),
        other => Err(reply_fault_of(other)),
    }
}

} // verus!
