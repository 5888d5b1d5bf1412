//! The store: what it was opened with, what it remembers, and the plans that
//! it makes for its operations.

use vstd::prelude::*;
use vstd::hash_set::StringHashSet;
use crate::data_codecs::{compression_named, Compression, CompressionView, COMPRESSION_THRESHOLD};
use crate::error::{fails_with, TalsiError};
use crate::model::RowModel;
use crate::names::{
    all_named, name_of, name_text, names_of, string_or_bytestring_as_string,
    strings_or_bytestrings_as_strings,
};
use crate::ops::{rows_of, texts, Op, OpView};
use crate::plan::{
    insert_ops, insert_plan, keyed_ops, keyed_plan, ops_view, Keyed,
};
use crate::py_codecs::{
    get_best_py_encoding, py_encodable, py_payload, PickleCodec, PyValue, PyValueView,
};
use crate::record::{
    compress_encoding, encoded_chain, encoded_payload, InternalInsertTriple, StorageSettings,
};
use crate::sql::IdentifierCache;
use crate::typ::{DataAndMnemonic, DataAndMnemonics, StringOrByteString};

verus! {

/// The values that one written row binds.
pub const BINDS_PER_ROW: usize = 5;

/// The store's side that decides: what it was opened with, which namespaces
/// it has seen created, and whether it was closed. It turns each operation
/// into ops for the backing store and reads the replies; it never touches the
/// backing store itself.
pub struct Storage {
    settings: StorageSettings,
    max_num_binds: usize,
    known_namespaces: StringHashSet,
    identifiers: IdentifierCache,
    closed: bool,
}

/// A [`Storage`] as contracts see it.
pub struct StorageView {
    pub allow_pickle: bool,
    pub compression: CompressionView,
    pub max_num_binds: nat,
    pub known_namespaces: Set<Seq<char>>,
    pub closed: bool,
}

impl View for Storage {
    type V = StorageView;

    closed spec fn view(&self) -> StorageView {
        StorageView {
            allow_pickle: self.settings.allow_pickle,
            compression: self.settings.compression@,
            max_num_binds: self.max_num_binds as nat,
            known_namespaces: self.known_namespaces@,
            closed: self.closed,
        }
    }
}

/// What is to be run for a write: first, outside any transaction, the ops
/// that make sure of the namespace's table; then, in one transaction, the ops
/// that write the rows.
#[derive(Debug, PartialEq, Eq)]
pub struct WritePlan {
    pub namespace: String,
    pub ensure: Vec<Op>,
    pub writes: Vec<Op>,
    pub rows: usize,
}

/// The ops that make sure of a namespace's table: none for a namespace that
/// the store has seen created, else one for the table and one for its index.
pub open spec fn ensure_plan(known: Set<Seq<char>>, namespace: Seq<char>) -> Seq<OpView> {
    if known.contains(namespace) {
        seq![]
    } else {
        seq![OpView::CreateTable { namespace }, OpView::CreateIndex { namespace }]
    }
}

/// When a record written at `now_ms` with a time to live expires. A time
/// past the largest that can be stored is stored as that largest time.
pub open spec fn expiry(now_ms: i64, ttl_ms: Option<u64>) -> Option<i64> {
    match ttl_ms {
        None => None,
        Some(ttl) => Some(
            if now_ms + ttl > i64::MAX {
                i64::MAX
            } else {
                (now_ms + ttl) as i64
            },
        ),
    }
}

/// The row that is stored for a value under a key.
pub open spec fn stored_row(
    key: Seq<char>,
    value: PyValueView,
    compression: CompressionView,
    now_ms: i64,
    expires_at_ms: Option<i64>,
) -> (Seq<char>, RowModel) {
    (
        key,
        RowModel {
            codecs: encoded_chain(value, compression),
            value: encoded_payload(value, compression)->0,
            created_at_ms: now_ms as int,
            expires_at_ms: match expires_at_ms {
                Some(t) => Some(t as int),
                None => None,
            },
        },
    )
}

/// What keeps one item of a batch from being written, if anything: a key
/// that is not text, or a pickle where pickling is not allowed.
pub open spec fn item_fault(item: (StringOrByteString, PyValue), allow_pickle: bool) -> Option<
    TalsiError,
> {
    if name_of(item.0) is None {
        Some(TalsiError::InvalidUtf8)
    } else if !py_encodable(item.1@, allow_pickle) {
        Some(TalsiError::WrongValueType(PickleCodec::MNEMONIC))
    } else {
        None
    }
}

/// The fault of the first item that has one.
pub open spec fn first_fault(items: Seq<(StringOrByteString, PyValue)>, allow_pickle: bool)
    -> Option<TalsiError>
    decreases items.len(),
{
    if items.len() == 0 {
        None
    } else {
        match first_fault(items.drop_last(), allow_pickle) {
            Some(e) => Some(e),
            None => item_fault(items.last(), allow_pickle),
        }
    }
}

/// The rows that are stored for the items of a batch.
pub open spec fn stored_rows(
    items: Seq<(StringOrByteString, PyValue)>,
    compression: CompressionView,
    now_ms: i64,
    expires_at_ms: Option<i64>,
) -> Seq<(Seq<char>, RowModel)> {
    items.map_values(
        |item: (StringOrByteString, PyValue)|
            stored_row(name_of(item.0)->0, item.1@, compression, now_ms, expires_at_ms),
    )
}

/// Whether the payload of each item of a batch is stored as it is or is
/// compressed by the codec.
pub open spec fn all_compress(
    items: Seq<(StringOrByteString, PyValue)>,
    compression: CompressionView,
) -> bool {
    forall|i: int|
        0 <= i < items.len() ==> encoded_payload((#[trigger] items[i]).1@, compression) is Some
}

/// The rows that are stored for encoded payloads under keys, the first
/// payload under the first key and so on, as far as both reach.
pub open spec fn encoded_rows(
    keys: Seq<String>,
    encoded: Seq<DataAndMnemonics>,
    now_ms: i64,
    expires_at_ms: Option<i64>,
) -> Seq<(Seq<char>, RowModel)> {
    Seq::new(
        if keys.len() <= encoded.len() {
            keys.len()
        } else {
            encoded.len()
        },
        |i: int|
            (
                keys[i]@,
                RowModel {
                    codecs: encoded[i].codecs@,
                    value: encoded[i].data@,
                    created_at_ms: now_ms as int,
                    expires_at_ms: match expires_at_ms {
                        Some(t) => Some(t as int),
                        None => None,
                    },
                },
            ),
    )
}

/// When a record written at `now_ms` with a time to live expires.
pub fn expires_at(now_ms: i64, ttl_ms: Option<u64>) -> (r: Option<i64>)
    ensures
        r == expiry(now_ms, ttl_ms),
{
    match ttl_ms {
        None => None,
        Some(ttl) => {
            let sum: i128 = now_ms as i128 + ttl as i128;
            if sum > i64::MAX as i128 {
                Some(i64::MAX)
            } else {
                Some(sum as i64)
            }
        },
    }
}

impl Storage {
    /// A store that binds `max_num_binds` values to a statement at most, as
    /// its backing store says, and compresses as `compression` selects. It
    /// knows no namespace yet.
    pub fn new(max_num_binds: usize, allow_pickle: bool, compression: &str) -> (r: Result<
        Storage,
        TalsiError,
    >)
        ensures
            match compression_named(compression@) {
                None => fails_with(r, TalsiError::InvalidCompression),
                Some(choice) => if max_num_binds == 0 {
                    fails_with(r, TalsiError::BindLimitTooSmall)
                } else {
                    r matches Ok(s) && s.wf() && s@ == (StorageView {
                        allow_pickle,
                        compression: choice,
                        max_num_binds: max_num_binds as nat,
                        known_namespaces: Set::empty(),
                        closed: false,
                    })
                },
            },
    {
        let compression = match Compression::parse(compression) {
            Ok(c) => c,
            Err(e) => {
                return Err(e);
            },
        };
        if max_num_binds == 0 {
            return Err(TalsiError::BindLimitTooSmall);
        }
        Ok(
            Storage {
                settings: StorageSettings { allow_pickle, compression },
                max_num_binds,
                known_namespaces: StringHashSet::new(),
                identifiers: IdentifierCache::new(),
                closed: false,
            },
        )
    }

    /// Whether what the store keeps for speed is right: the quoted
    /// identifiers that it holds are those of their namespaces. A store is
    /// made so, and stays so.
    pub closed spec fn wf(&self) -> bool {
        self.identifiers.wf()
    }

    /// Closes the store: every operation that follows is refused, and the
    /// store forgets which namespaces it has seen and what it kept of them.
    pub fn close(&mut self)
        ensures
            final(self).wf(),
            final(self)@ == (StorageView {
                closed: true,
                known_namespaces: Set::empty(),
                ..old(self)@
            }),
    {
        self.closed = true;
        self.known_namespaces.clear();
        self.identifiers.clear();
    }

    /// The statements that carry out an op, cut to the bind limit of this
    /// store. The quoted identifiers of the op's namespace are put together
    /// the first time that they are asked for, and kept.
    pub fn statements(&mut self, op: &Op) -> (sts: Vec<crate::ops::Statement>)
        requires
            old(self).wf(),
        ensures
            final(self).wf(),
            final(self)@ == old(self)@,
            crate::ops::statements_view(sts@) == op@.script(old(self)@.max_num_binds),
    {
        match op.namespace() {
            Some(namespace) => {
                let names = self.identifiers.lookup(namespace.as_str());
                op.statements_with(&names, self.max_num_binds)
            },
            None => op.statements(self.max_num_binds),
        }
    }

    /// Whether the store was closed.
    pub fn is_closed(&self) -> (r: bool)
        ensures
            r == self@.closed,
    {
        self.closed
    }

    /// What the store was opened with.
    pub fn settings(&self) -> (r: StorageSettings)
        ensures
            r.allow_pickle == self@.allow_pickle,
            r.compression@ == self@.compression,
    {
        self.settings
    }

    /// How many values a statement binds at most.
    pub fn max_num_binds(&self) -> (r: usize)
        ensures
            r == self@.max_num_binds,
    {
        self.max_num_binds
    }

    /// Whether the store has seen the table of a namespace created.
    pub fn knows_namespace(&self, namespace: &str) -> (r: bool)
        ensures
            r == self@.known_namespaces.contains(namespace@),
    {
        self.known_namespaces.contains(namespace)
    }

    /// The ops that make sure of a namespace's table. Creating a table that
    /// exists changes nothing, so to run them again does no harm.
    pub fn ensure_namespace_table(&self, namespace: &str) -> (ops: Vec<Op>)
        ensures
            ops_view(ops@) == ensure_plan(self@.known_namespaces, namespace@),
    {
        let mut ops: Vec<Op> = Vec::new();
        if !self.known_namespaces.contains(namespace) {
            ops.push(Op::CreateTable { namespace: namespace.to_owned() });
            ops.push(Op::CreateIndex { namespace: namespace.to_owned() });
        }
        proof {
            assert(ops_view(ops@) =~= ensure_plan(self@.known_namespaces, namespace@));
        }
        ops
    }

    /// Takes note that the table of a namespace exists, so that later writes
    /// do not create it again. A closed store takes no note.
    pub fn namespace_created(&mut self, namespace: &str)
        ensures
            old(self).wf() ==> final(self).wf(),
            final(self)@ == (StorageView {
                known_namespaces: if old(self)@.closed {
                    old(self)@.known_namespaces
                } else {
                    old(self)@.known_namespaces.insert(namespace@)
                },
                ..old(self)@
            }),
    {
        if !self.closed {
            self.known_namespaces.insert(namespace.to_owned());
        }
    }

    /// The plan that writes records into a namespace, all with the same time
    /// of creation and of expiry, `max_num_binds / 5` rows to a statement.
    pub fn internal_insert(
        &self,
        namespace: &str,
        now_ms: i64,
        expires_at_ms: Option<i64>,
        iits: Vec<InternalInsertTriple>,
    ) -> (r: Result<WritePlan, TalsiError>)
        ensures
            self@.closed ==> fails_with(r, TalsiError::ConnectionClosed),
            !self@.closed && self@.max_num_binds < BINDS_PER_ROW ==> fails_with(
                r,
                TalsiError::BindLimitTooSmall,
            ),
            !self@.closed && self@.max_num_binds >= BINDS_PER_ROW ==> (r matches Ok(plan)
                && plan.namespace@ == namespace@ && plan.rows == iits@.len() && ops_view(
                plan.ensure@,
            ) == ensure_plan(self@.known_namespaces, namespace@) && ops_view(plan.writes@)
                == insert_plan(
                namespace@,
                rows_of(iits@, now_ms, expires_at_ms),
                self@.max_num_binds / (BINDS_PER_ROW as nat),
            )),
    {
        if self.closed {
            return Err(TalsiError::ConnectionClosed);
        }
        let rows_per_op: usize = self.max_num_binds / BINDS_PER_ROW;
        if rows_per_op == 0 {
            return Err(TalsiError::BindLimitTooSmall);
        }
        let rows: usize = iits.len();
        let ensure = self.ensure_namespace_table(namespace);
        let writes = insert_ops(namespace, iits, now_ms, expires_at_ms, rows_per_op);
        Ok(WritePlan { namespace: namespace.to_owned(), ensure, writes, rows })
    }

    /// The plan that writes encoded payloads under their keys, the first
    /// payload under the first key and so on, as far as both keys and
    /// payloads reach. All rows get the same time of creation and of expiry.
    pub fn insert_encoded(
        &self,
        namespace: &str,
        keys: Vec<String>,
        encoded: Vec<DataAndMnemonics>,
        now_ms: i64,
        expires_at_ms: Option<i64>,
    ) -> (r: Result<WritePlan, TalsiError>)
        ensures
            self@.closed ==> fails_with(r, TalsiError::ConnectionClosed),
            !self@.closed && self@.max_num_binds < BINDS_PER_ROW ==> fails_with(
                r,
                TalsiError::BindLimitTooSmall,
            ),
            !self@.closed && self@.max_num_binds >= BINDS_PER_ROW ==> (r matches Ok(plan)
                && plan.namespace@ == namespace@ && plan.rows == encoded_rows(
                keys@,
                encoded@,
                now_ms,
                expires_at_ms,
            ).len() && ops_view(plan.ensure@) == ensure_plan(self@.known_namespaces, namespace@)
                && ops_view(plan.writes@) == insert_plan(
                namespace@,
                encoded_rows(keys@, encoded@, now_ms, expires_at_ms),
                self@.max_num_binds / (BINDS_PER_ROW as nat),
            )),
    {
        let ghost all = encoded@;
        let ghost rows = encoded_rows(keys@, all, now_ms, expires_at_ms);
        let count: usize = encoded.len();
        let mut iits: Vec<InternalInsertTriple> = Vec::new();
        let mut i: usize = 0;
        for enc in it: encoded
            invariant
                it.seq() == all,
                count == all.len(),
                i == it.index(),
                rows == encoded_rows(keys@, all, now_ms, expires_at_ms),
                rows_of(iits@, now_ms, expires_at_ms) == rows.take(
                    if i <= keys@.len() {
                        i as int
                    } else {
                        keys@.len() as int
                    },
                ),
        {
            let ghost so_far = rows_of(iits@, now_ms, expires_at_ms);
            if i < keys.len() {
                let iit = InternalInsertTriple {
                    key: keys[i].clone(),
                    codecs_blob: enc.codecs,
                    value: enc.data,
                };
                iits.push(iit);
                proof {
                    assert(rows_of(iits@, now_ms, expires_at_ms) =~= so_far.push(
                        crate::ops::row_of(iit, now_ms, expires_at_ms),
                    ));
                    assert(rows.take(i + 1) =~= rows.take(i as int).push(rows[i as int]));
                }
            }
            i += 1;
        }
        proof {
            assert(rows.take(rows.len() as int) =~= rows);
        }
        self.internal_insert(namespace, now_ms, expires_at_ms, iits)
    }

    /// The plan that stores a value under a key of a namespace. The value is
    /// encoded here; it is written with `now_ms` as its time of creation and
    /// expires `ttl_ms` later, or never where none is given.
    pub fn set(
        &self,
        namespace: StringOrByteString,
        key: StringOrByteString,
        value: &PyValue,
        now_ms: i64,
        ttl_ms: Option<u64>,
    ) -> (r: Result<WritePlan, TalsiError>)
        ensures
            !py_encodable(value@, self@.allow_pickle) ==> fails_with(
                r,
                TalsiError::WrongValueType(PickleCodec::MNEMONIC),
            ),
            py_encodable(value@, self@.allow_pickle) && (name_of(key) is None || name_of(
                namespace,
            ) is None) ==> fails_with(r, TalsiError::InvalidUtf8),
            py_encodable(value@, self@.allow_pickle) && name_of(key) is Some && name_of(
                namespace,
            ) is Some ==> (if encoded_payload(value@, self@.compression) is None {
                r matches Err(e) && e is Encoding
            } else if self@.closed {
                fails_with(r, TalsiError::ConnectionClosed)
            } else if self@.max_num_binds < BINDS_PER_ROW {
                fails_with(r, TalsiError::BindLimitTooSmall)
            } else {
                r matches Ok(plan) && plan.namespace@ == name_of(namespace)->0 && plan.rows == 1
                    && ops_view(plan.ensure@) == ensure_plan(
                    self@.known_namespaces,
                    name_of(namespace)->0,
                ) && ops_view(plan.writes@) == seq![
                    OpView::Insert {
                        namespace: name_of(namespace)->0,
                        rows: seq![
                            stored_row(
                                name_of(key)->0,
                                value@,
                                self@.compression,
                                now_ms,
                                expiry(now_ms, ttl_ms),
                            ),
                        ],
                    },
                ]
            }),
    {
        let py_enc_result = match get_best_py_encoding(value, self.settings.allow_pickle) {
            Ok(enc) => enc,
            Err(e) => {
                return Err(e);
            },
        };
        let key = match string_or_bytestring_as_string(key) {
            Ok(k) => k,
            Err(e) => {
                return Err(e);
            },
        };
        let ns = match string_or_bytestring_as_string(namespace) {
            Ok(n) => n,
            Err(e) => {
                return Err(e);
            },
        };
        let expires_at_ms = expires_at(now_ms, ttl_ms);
        let encoded = match compress_encoding(py_enc_result, &self.settings.compression) {
            Ok(enc) => enc,
            Err(e) => {
                return Err(e);
            },
        };
        let mut keys: Vec<String> = Vec::new();
        keys.push(key);
        let mut payloads: Vec<DataAndMnemonics> = Vec::new();
        payloads.push(encoded);
        proof {
            let rows = encoded_rows(keys@, payloads@, now_ms, expires_at_ms);
            let row = stored_row(key@, value@, self@.compression, now_ms, expires_at_ms);
            assert(rows =~= seq![row]);
            let size = self@.max_num_binds / (BINDS_PER_ROW as nat);
            if self@.max_num_binds >= BINDS_PER_ROW {
                assert(size >= 1);
                assert(crate::plan::chunks(rows, size) =~= seq![rows]);
                assert(insert_plan(ns@, rows, size) =~= seq![
                    OpView::Insert { namespace: ns@, rows },
                ]);
            }
        }
        self.insert_encoded(ns.as_str(), keys, payloads, now_ms, expires_at_ms)
    }

    /// The plan that stores a batch of values under their keys. The values
    /// are encoded here, one after the other; all are written with the same
    /// time of creation and of expiry. Of two items with one key the later
    /// one is the one that stays.
    pub fn set_many(
        &self,
        namespace: StringOrByteString,
        items: &Vec<(StringOrByteString, PyValue)>,
        now_ms: i64,
        ttl_ms: Option<u64>,
    ) -> (r: Result<WritePlan, TalsiError>)
        ensures
            name_of(namespace) is None ==> fails_with(r, TalsiError::InvalidUtf8),
            name_of(namespace) is Some ==> match first_fault(items@, self@.allow_pickle) {
                Some(fault) => fails_with(r, fault),
                None => if !all_compress(items@, self@.compression) {
                    r matches Err(e) && e is Encoding
                } else if self@.closed {
                    fails_with(r, TalsiError::ConnectionClosed)
                } else if self@.max_num_binds < BINDS_PER_ROW {
                    fails_with(r, TalsiError::BindLimitTooSmall)
                } else {
                    r matches Ok(plan) && plan.namespace@ == name_of(namespace)->0 && plan.rows
                        == items@.len() && ops_view(plan.ensure@) == ensure_plan(
                        self@.known_namespaces,
                        name_of(namespace)->0,
                    ) && ops_view(plan.writes@) == insert_plan(
                        name_of(namespace)->0,
                        stored_rows(items@, self@.compression, now_ms, expiry(now_ms, ttl_ms)),
                        self@.max_num_binds / (BINDS_PER_ROW as nat),
                    )
                },
            },
    {
        let ns = match string_or_bytestring_as_string(namespace) {
            Ok(n) => n,
            Err(e) => {
                return Err(e);
            },
        };
        let expires_at_ms = expires_at(now_ms, ttl_ms);
        let allow_pickle = self.settings.allow_pickle;
        let mut keys: Vec<String> = Vec::new();
        let mut python_values: Vec<DataAndMnemonic> = Vec::new();
        let mut i: usize = 0;
        while i < items.len()
            invariant
                i <= items.len(),
                name_of(namespace) is Some,
                allow_pickle == self@.allow_pickle,
                first_fault(items@.take(i as int), allow_pickle) is None,
                keys@.len() == i,
                python_values@.len() == i,
                forall|k: int|
                    0 <= k < i ==> {
                        &&& (#[trigger] keys@[k])@ == name_of(items@[k].0)->0
                        &&& python_values@[k].data@ == py_payload(items@[k].1@)
                        &&& python_values@[k].codec == crate::py_codecs::py_mnemonic(items@[k].1@)
                    },
            decreases items.len() - i,
        {
            let item = &items[i];
            proof {
                let upto = items@.take(i + 1);
                assert(upto.drop_last() =~= items@.take(i as int));
                assert(upto.last() == items@[i as int]);
                if first_fault(upto, allow_pickle) is Some {
                    lemma_first_fault_stays(items@, i + 1, allow_pickle);
                }
            }
            let key = match name_text(&item.0) {
                Ok(k) => k,
                Err(e) => {
                    return Err(e);
                },
            };
            let enc = match get_best_py_encoding(&item.1, allow_pickle) {
                Ok(enc) => enc,
                Err(e) => {
                    return Err(e);
                },
            };
            keys.push(key);
            python_values.push(enc);
            i += 1;
        }
        proof {
            assert(items@.take(items@.len() as int) =~= items@);
        }
        let compression = self.settings.compression;
        let mut encoded: Vec<DataAndMnemonics> = Vec::new();
        let mut j: usize = 0;
        while j < python_values.len()
            invariant
                j <= python_values.len(),
                name_of(namespace) is Some,
                first_fault(items@, self@.allow_pickle) is None,
                keys@.len() == items@.len(),
                python_values@.len() == items@.len(),
                compression@ == self@.compression,
                forall|k: int|
                    0 <= k < items@.len() ==> {
                        &&& (#[trigger] keys@[k])@ == name_of(items@[k].0)->0
                        &&& python_values@[k].data@ == py_payload(items@[k].1@)
                        &&& python_values@[k].codec == crate::py_codecs::py_mnemonic(items@[k].1@)
                    },
                encoded@.len() == j,
                forall|k: int|
                    0 <= k < j ==> {
                        &&& encoded_payload(items@[k].1@, compression@) == Some(
                            (#[trigger] encoded@[k]).data@,
                        )
                        &&& encoded@[k].codecs@ == encoded_chain(items@[k].1@, compression@)
                    },
            decreases python_values.len() - j,
        {
            let py_enc = DataAndMnemonic {
                data: vstd::slice::slice_to_vec(python_values[j].data.as_slice()),
                codec: python_values[j].codec,
            };
            proof {
                assert(keys@[j as int]@ == name_of(items@[j as int].0)->0);
            }
            match compress_encoding(py_enc, &compression) {
                Ok(enc) => {
                    encoded.push(enc);
                },
                Err(e) => {
                    proof {
                        assert(encoded_payload(items@[j as int].1@, compression@) is None);
                    }
                    return Err(e);
                },
            }
            j += 1;
        }
        proof {
            assert forall|k: int| 0 <= k < items@.len() implies encoded_payload(
                (#[trigger] items@[k]).1@,
                compression@,
            ) is Some by {
                assert(encoded_payload(items@[k].1@, compression@) == Some(encoded@[k].data@));
            }
            let rows = encoded_rows(keys@, encoded@, now_ms, expires_at_ms);
            let wanted = stored_rows(items@, compression@, now_ms, expires_at_ms);
            assert(rows.len() == wanted.len());
            assert forall|k: int| 0 <= k < rows.len() implies rows[k] == wanted[k] by {
                assert(keys@[k]@ == name_of(items@[k].0)->0);
                assert(encoded_payload(items@[k].1@, compression@) == Some(encoded@[k].data@));
            }
            assert(rows =~= wanted);
        }
        self.insert_encoded(ns.as_str(), keys, encoded, now_ms, expires_at_ms)
    }
}

/// A fault among the first items of a batch is the batch's first fault.
proof fn lemma_first_fault_stays(
    items: Seq<(StringOrByteString, PyValue)>,
    upto: int,
    allow_pickle: bool,
)
    requires
        0 <= upto <= items.len(),
        first_fault(items.take(upto), allow_pickle) is Some,
    ensures
        first_fault(items, allow_pickle) == first_fault(items.take(upto), allow_pickle),
    decreases items.len() - upto,
{
    if upto < items.len() {
        let longer = items.take(upto + 1);
        assert(longer.drop_last() =~= items.take(upto));
        lemma_first_fault_stays(items, upto + 1, allow_pickle);
    } else {
        assert(items.take(upto) =~= items);
    }
}

} // verus!

verus! {

impl Storage {
    fn keyed_request(&self, kind: Keyed, namespace: String, keys: Vec<String>) -> (r: Result<
        Vec<Op>,
        TalsiError,
    >)
        ensures
            self@.closed ==> fails_with(r, TalsiError::ConnectionClosed),
            !self@.closed && self@.max_num_binds == 0 ==> fails_with(
                r,
                TalsiError::BindLimitTooSmall,
            ),
            !self@.closed && self@.max_num_binds > 0 ==> (r matches Ok(ops) && ops_view(ops@)
                == keyed_plan(kind, namespace@, texts(keys@), self@.max_num_binds)),
    {
        if self.closed {
            return Err(TalsiError::ConnectionClosed);
        }
        if self.max_num_binds == 0 {
            return Err(TalsiError::BindLimitTooSmall);
        }
        Ok(keyed_ops(kind, namespace.as_str(), keys, self.max_num_binds))
    }

    fn keyed_request_named(
        &self,
        kind: Keyed,
        namespace: StringOrByteString,
        keys: Vec<StringOrByteString>,
    ) -> (r: Result<Vec<Op>, TalsiError>)
        ensures
            !all_named(keys@) || name_of(namespace) is None ==> fails_with(
                r,
                TalsiError::InvalidUtf8,
            ),
            all_named(keys@) && name_of(namespace) is Some ==> {
                &&& self@.closed ==> fails_with(r, TalsiError::ConnectionClosed)
                &&& !self@.closed && self@.max_num_binds == 0 ==> fails_with(
                    r,
                    TalsiError::BindLimitTooSmall,
                )
                &&& !self@.closed && self@.max_num_binds > 0 ==> (r matches Ok(ops) && ops_view(
                    ops@,
                ) == keyed_plan(
                    kind,
                    name_of(namespace)->0,
                    names_of(keys@),
                    self@.max_num_binds,
                ))
            },
    {
        let keys = match strings_or_bytestrings_as_strings(keys) {
            Ok(k) => k,
            Err(e) => {
                return Err(e);
            },
        };
        let namespace = match string_or_bytestring_as_string(namespace) {
            Ok(n) => n,
            Err(e) => {
                return Err(e);
            },
        };
        self.keyed_request(kind, namespace, keys)
    }

    /// The ops that remove the rows of `keys` from a namespace,
    /// `max_num_binds` keys to a statement. They are to be run in one
    /// transaction.
    pub fn internal_delete(&self, namespace: String, keys: Vec<String>) -> (r: Result<
        Vec<Op>,
        TalsiError,
    >)
        ensures
            self@.closed ==> fails_with(r, TalsiError::ConnectionClosed),
            !self@.closed && self@.max_num_binds == 0 ==> fails_with(
                r,
                TalsiError::BindLimitTooSmall,
            ),
            !self@.closed && self@.max_num_binds > 0 ==> (r matches Ok(ops) && ops_view(ops@)
                == keyed_plan(Keyed::Delete, namespace@, texts(keys@), self@.max_num_binds)),
    {
        self.keyed_request(Keyed::Delete, namespace, keys)
    }

    /// The ops that remove the row of one key.
    pub fn delete(&self, namespace: StringOrByteString, key: StringOrByteString) -> (r: Result<
        Vec<Op>,
        TalsiError,
    >)
        ensures
            name_of(key) is None || name_of(namespace) is None ==> fails_with(
                r,
                TalsiError::InvalidUtf8,
            ),
            name_of(key) is Some && name_of(namespace) is Some ==> {
                &&& self@.closed ==> fails_with(r, TalsiError::ConnectionClosed)
                &&& !self@.closed && self@.max_num_binds == 0 ==> fails_with(
                    r,
                    TalsiError::BindLimitTooSmall,
                )
                &&& !self@.closed && self@.max_num_binds > 0 ==> (r matches Ok(ops) && ops_view(
                    ops@,
                ) == seq![
                    OpView::Delete {
                        namespace: name_of(namespace)->0,
                        keys: seq![name_of(key)->0],
                    },
                ])
            },
    {
        let key = match string_or_bytestring_as_string(key) {
            Ok(k) => k,
            Err(e) => {
                return Err(e);
            },
        };
        let namespace = match string_or_bytestring_as_string(namespace) {
            Ok(n) => n,
            Err(e) => {
                return Err(e);
            },
        };
        let mut keys: Vec<String> = Vec::new();
        keys.push(key);
        proof {
            let one = texts(keys@);
            assert(one =~= seq![key@]);
            if self@.max_num_binds > 0 {
                assert(crate::plan::chunks(one, self@.max_num_binds) =~= seq![one]);
                assert(keyed_plan(Keyed::Delete, namespace@, one, self@.max_num_binds) =~= seq![
                    OpView::Delete { namespace: namespace@, keys: one },
                ]);
            }
        }
        self.internal_delete(namespace, keys)
    }

    /// The ops that remove the rows of some keys.
    pub fn delete_many(&self, namespace: StringOrByteString, keys: Vec<StringOrByteString>) -> (r:
        Result<Vec<Op>, TalsiError>)
        ensures
            !all_named(keys@) || name_of(namespace) is None ==> fails_with(
                r,
                TalsiError::InvalidUtf8,
            ),
            all_named(keys@) && name_of(namespace) is Some ==> {
                &&& self@.closed ==> fails_with(r, TalsiError::ConnectionClosed)
                &&& !self@.closed && self@.max_num_binds == 0 ==> fails_with(
                    r,
                    TalsiError::BindLimitTooSmall,
                )
                &&& !self@.closed && self@.max_num_binds > 0 ==> (r matches Ok(ops) && ops_view(
                    ops@,
                ) == keyed_plan(
                    Keyed::Delete,
                    name_of(namespace)->0,
                    names_of(keys@),
                    self@.max_num_binds,
                ))
            },
    {
        self.keyed_request_named(Keyed::Delete, namespace, keys)
    }

    /// The ops that ask which of some keys have rows.
    pub fn has_many(&self, namespace: StringOrByteString, keys: Vec<StringOrByteString>) -> (r:
        Result<Vec<Op>, TalsiError>)
        ensures
            !all_named(keys@) || name_of(namespace) is None ==> fails_with(
                r,
                TalsiError::InvalidUtf8,
            ),
            all_named(keys@) && name_of(namespace) is Some ==> {
                &&& self@.closed ==> fails_with(r, TalsiError::ConnectionClosed)
                &&& !self@.closed && self@.max_num_binds == 0 ==> fails_with(
                    r,
                    TalsiError::BindLimitTooSmall,
                )
                &&& !self@.closed && self@.max_num_binds > 0 ==> (r matches Ok(ops) && ops_view(
                    ops@,
                ) == keyed_plan(
                    Keyed::SelectKeys,
                    name_of(namespace)->0,
                    names_of(keys@),
                    self@.max_num_binds,
                ))
            },
    {
        self.keyed_request_named(Keyed::SelectKeys, namespace, keys)
    }

    /// The ops that read the rows of some keys.
    pub fn get_many(&self, namespace: StringOrByteString, keys: Vec<StringOrByteString>) -> (r:
        Result<Vec<Op>, TalsiError>)
        ensures
            !all_named(keys@) || name_of(namespace) is None ==> fails_with(
                r,
                TalsiError::InvalidUtf8,
            ),
            all_named(keys@) && name_of(namespace) is Some ==> {
                &&& self@.closed ==> fails_with(r, TalsiError::ConnectionClosed)
                &&& !self@.closed && self@.max_num_binds == 0 ==> fails_with(
                    r,
                    TalsiError::BindLimitTooSmall,
                )
                &&& !self@.closed && self@.max_num_binds > 0 ==> (r matches Ok(ops) && ops_view(
                    ops@,
                ) == keyed_plan(
                    Keyed::SelectRows,
                    name_of(namespace)->0,
                    names_of(keys@),
                    self@.max_num_binds,
                ))
            },
    {
        self.keyed_request_named(Keyed::SelectRows, namespace, keys)
    }

    /// The op that reads the row of one key.
    pub fn get(&self, namespace: StringOrByteString, key: StringOrByteString) -> (r: Result<
        Op,
        TalsiError,
    >)
        ensures
            name_of(key) is None || name_of(namespace) is None ==> fails_with(
                r,
                TalsiError::InvalidUtf8,
            ),
            name_of(key) is Some && name_of(namespace) is Some && self@.closed ==> fails_with(
                r,
                TalsiError::ConnectionClosed,
            ),
            name_of(key) is Some && name_of(namespace) is Some && !self@.closed ==> (r matches Ok(
                op,
            ) && op@ == (OpView::Get { namespace: name_of(namespace)->0, key: name_of(key)->0 })),
    {
        let key = match string_or_bytestring_as_string(key) {
            Ok(k) => k,
            Err(e) => {
                return Err(e);
            },
        };
        let namespace = match string_or_bytestring_as_string(namespace) {
            Ok(n) => n,
            Err(e) => {
                return Err(e);
            },
        };
        if self.closed {
            return Err(TalsiError::ConnectionClosed);
        }
        Ok(Op::Get { namespace, key })
    }

    /// The op that asks whether one key has a row.
    pub fn has(&self, namespace: StringOrByteString, key: StringOrByteString) -> (r: Result<
        Op,
        TalsiError,
    >)
        ensures
            name_of(key) is None || name_of(namespace) is None ==> fails_with(
                r,
                TalsiError::InvalidUtf8,
            ),
            name_of(key) is Some && name_of(namespace) is Some && self@.closed ==> fails_with(
                r,
                TalsiError::ConnectionClosed,
            ),
            name_of(key) is Some && name_of(namespace) is Some && !self@.closed ==> (r matches Ok(
                op,
            ) && op@ == (OpView::Has { namespace: name_of(namespace)->0, key: name_of(key)->0 })),
    {
        let key = match string_or_bytestring_as_string(key) {
            Ok(k) => k,
            Err(e) => {
                return Err(e);
            },
        };
        let namespace = match string_or_bytestring_as_string(namespace) {
            Ok(n) => n,
            Err(e) => {
                return Err(e);
            },
        };
        if self.closed {
            return Err(TalsiError::ConnectionClosed);
        }
        Ok(Op::Has { namespace, key })
    }

    /// The op that lists the keys of a namespace: all of them, or those that
    /// match a pattern of the backing store's `LIKE`.
    pub fn list_keys(&self, namespace: StringOrByteString, like: Option<StringOrByteString>) -> (r:
        Result<Op, TalsiError>)
        ensures
            name_of(namespace) is None || (like matches Some(pattern) && name_of(pattern) is None)
                ==> fails_with(r, TalsiError::InvalidUtf8),
            name_of(namespace) is Some && (like matches Some(pattern) ==> name_of(pattern) is Some)
                ==> {
                &&& self@.closed ==> fails_with(r, TalsiError::ConnectionClosed)
                &&& !self@.closed ==> (r matches Ok(op) && op@ == (OpView::ListKeys {
                    namespace: name_of(namespace)->0,
                    like: match like {
                        Some(pattern) => Some(name_of(pattern)->0),
                        None => None,
                    },
                }))
            },
    {
        let namespace = match string_or_bytestring_as_string(namespace) {
            Ok(n) => n,
            Err(e) => {
                return Err(e);
            },
        };
        let like = match like {
            Some(pattern) => match string_or_bytestring_as_string(pattern) {
                Ok(p) => Some(p),
                Err(e) => {
                    return Err(e);
                },
            },
            None => None,
        };
        if self.closed {
            return Err(TalsiError::ConnectionClosed);
        }
        Ok(Op::ListKeys { namespace, like })
    }

    /// The op that lists the tables of all namespaces.
    pub fn list_namespaces(&self) -> (r: Result<Op, TalsiError>)
        ensures
            self@.closed ==> fails_with(r, TalsiError::ConnectionClosed),
            !self@.closed ==> (r matches Ok(op) && op@ == OpView::ListTables),
    {
        if self.closed {
            return Err(TalsiError::ConnectionClosed);
        }
        Ok(Op::ListTables)
    }
}

} // verus!
