use rusqlite::Connection;
use talsi::error::{ErrorKind, TalsiError};
use talsi::ops::{Op, Reads, SqlValue, Statement};
use talsi::py_codecs::PyValue;
use talsi::record::InternalStoredRecord;
use talsi::reply::{BackendFailure, Reply};
use talsi::results::{
    decode_records, delete_result, get_many_records, get_result, has_many_result, has_result,
    list_keys_result, run_completed,
};
use talsi::storage::{Storage, WritePlan};
use talsi::typ::{CodecsBlob, StringOrByteString};

fn to_failure(e: rusqlite::Error) -> BackendFailure {
    let reason = match &e {
        rusqlite::Error::SqliteFailure(_, Some(m)) => Some(m.clone()),
        _ => None,
    };
    BackendFailure { reason, message: e.to_string() }
}

fn bound(params: &[SqlValue]) -> Vec<rusqlite::types::Value> {
    params
        .iter()
        .map(|p| match p {
            SqlValue::Null => rusqlite::types::Value::Null,
            SqlValue::Integer(i) => rusqlite::types::Value::Integer(*i),
            SqlValue::Text(s) => rusqlite::types::Value::Text(s.clone()),
            SqlValue::Blob(b) => rusqlite::types::Value::Blob(b.clone()),
        })
        .collect()
}

fn execute(conn: &Connection, st: &Statement) -> Result<Reply, rusqlite::Error> {
    let mut stmt = conn.prepare(&st.sql)?;
    let params = rusqlite::params_from_iter(bound(&st.params));
    match st.reads {
        Reads::Changes => Ok(Reply::Done(stmt.execute(params)?)),
        Reads::Flag => {
            let found: i64 = stmt.query_row(params, |row| row.get(0))?;
            Ok(Reply::Flag(found != 0))
        }
        Reads::Keys => {
            let keys = stmt
                .query_map(params, |row| row.get::<_, String>(0))?
                .collect::<Result<Vec<String>, _>>()?;
            Ok(Reply::Keys(keys))
        }
        Reads::Record => {
            let records = stmt
                .query_map(params, |row| {
                    Ok(InternalStoredRecord {
                        key: None,
                        value: row.get(0)?,
                        codecs_blob: CodecsBlob::from_slice(&row.get::<_, Vec<u8>>(1)?),
                        expires_at_ms: row.get(2)?,
                    })
                })?
                .collect::<Result<Vec<InternalStoredRecord>, _>>()?;
            Ok(Reply::Records(records))
        }
        Reads::Records => {
            let records = stmt
                .query_map(params, |row| {
                    Ok(InternalStoredRecord {
                        key: Some(row.get(0)?),
                        value: row.get(1)?,
                        codecs_blob: CodecsBlob::from_slice(&row.get::<_, Vec<u8>>(2)?),
                        expires_at_ms: row.get(3)?,
                    })
                })?
                .collect::<Result<Vec<InternalStoredRecord>, _>>()?;
            Ok(Reply::Records(records))
        }
    }
}

fn run_with(conn: &Connection, op: &Op, statements: Vec<Statement>) -> Reply {
    let mut results = Vec::new();
    for statement in &statements {
        let result = execute(conn, statement).map_err(to_failure);
        let failed = result.is_err();
        results.push(result);
        if failed {
            break;
        }
    }
    Reply::from_results(op, results)
}

fn run(conn: &Connection, op: &Op) -> Reply {
    run_with(conn, op, op.statements(999))
}

fn run_all(conn: &Connection, ops: &[Op]) -> Vec<Reply> {
    let mut replies = Vec::new();
    for op in ops {
        let reply = run(conn, op);
        let ends = reply.ends_run();
        replies.push(reply);
        if ends {
            break;
        }
    }
    replies
}

fn write(conn: &Connection, store: &mut Storage, plan: WritePlan) -> Result<usize, TalsiError> {
    let ensured = run_all(conn, &plan.ensure);
    run_completed(plan.ensure.len(), ensured)?;
    store.namespace_created(&plan.namespace);
    conn.execute_batch("BEGIN").unwrap();
    let replies = run_all(conn, &plan.writes);
    match run_completed(plan.writes.len(), replies) {
        Ok(()) => {
            conn.execute_batch("COMMIT").unwrap();
            Ok(plan.rows)
        }
        Err(e) => {
            conn.execute_batch("ROLLBACK").unwrap();
            Err(e)
        }
    }
}

fn text(s: &str) -> StringOrByteString {
    StringOrByteString::Text(s.to_string())
}

fn set(conn: &Connection, store: &mut Storage, ns: &str, key: &str, value: &PyValue) -> Result<usize, TalsiError> {
    let plan = store.set(text(ns), text(key), value, 1_700_000_000_000, None)?;
    write(conn, store, plan)
}

fn get(conn: &Connection, store: &Storage, ns: &str, key: &str) -> Result<Option<PyValue>, TalsiError> {
    let op = store.get(text(ns), text(key))?;
    get_result(run(conn, &op), &store.settings())
}

fn has(conn: &Connection, store: &Storage, ns: &str, key: &str) -> Result<bool, TalsiError> {
    let op = store.has(text(ns), text(key))?;
    has_result(run(conn, &op))
}

fn delete(conn: &Connection, store: &Storage, ns: &str, key: &str) -> Result<usize, TalsiError> {
    let ops = store.delete(text(ns), text(key))?;
    in_transaction(conn, |c| delete_result(run_all(c, &ops)))
}

fn in_transaction<T>(conn: &Connection, body: impl FnOnce(&Connection) -> Result<T, TalsiError>) -> Result<T, TalsiError> {
    conn.execute_batch("BEGIN").unwrap();
    let r = body(conn);
    conn.execute_batch(if r.is_ok() { "COMMIT" } else { "ROLLBACK" }).unwrap();
    r
}

fn list_keys(conn: &Connection, store: &Storage, ns: &str, like: Option<&str>) -> Result<Vec<String>, TalsiError> {
    let op = store.list_keys(text(ns), like.map(text))?;
    let mut keys = list_keys_result(run(conn, &op))?;
    keys.sort();
    Ok(keys)
}

fn open(limit: usize, allow_pickle: bool, compression: &str) -> (Connection, Storage) {
    (Connection::open_in_memory().unwrap(), Storage::new(limit, allow_pickle, compression).unwrap())
}

fn rename(
    conn: &Connection,
    store: &Storage,
    ns: &str,
    pairs: &[(&str, &str)],
    overwrite: bool,
    must_exist: bool,
) -> Result<usize, TalsiError> {
    let renames: Vec<(StringOrByteString, StringOrByteString)> =
        pairs.iter().map(|(a, b)| (text(a), text(b))).collect();
    let mut state = store.rename(text(ns), &renames, overwrite, must_exist)?;
    if let Some(n) = state.finished() {
        return Ok(n);
    }
    in_transaction(conn, move |c| loop {
        if let Some(n) = state.finished() {
            return Ok(n);
        }
        let replies = run_all(c, &state.ops());
        state = state.advance(replies)?;
    })
}

fn texts(keys: &[String]) -> Vec<StringOrByteString> {
    keys.iter().map(|k| text(k)).collect()
}

fn set_many(
    conn: &Connection,
    store: &mut Storage,
    ns: &str,
    items: &[(String, PyValue)],
) -> Result<usize, TalsiError> {
    let items: Vec<(StringOrByteString, PyValue)> =
        items.iter().map(|(k, v)| (text(k), v.clone())).collect();
    let plan = store.set_many(text(ns), &items, 1_700_000_000_000, None)?;
    write(conn, store, plan)
}

fn has_many(conn: &Connection, store: &Storage, ns: &str, keys: &[String]) -> Result<Vec<String>, TalsiError> {
    let ops = store.has_many(text(ns), texts(keys))?;
    let mut found = has_many_result(run_all(conn, &ops))?;
    found.sort();
    Ok(found)
}

fn get_many(
    conn: &Connection,
    store: &Storage,
    ns: &str,
    keys: &[String],
) -> Result<Vec<(String, PyValue)>, TalsiError> {
    let ops = store.get_many(text(ns), texts(keys))?;
    let records = get_many_records(run_all(conn, &ops))?;
    let mut values = decode_records(records, &store.settings())?;
    values.sort_by(|a, b| a.0.cmp(&b.0));
    values.dedup_by(|a, b| a.0 == b.0);
    Ok(values)
}

fn delete_many(conn: &Connection, store: &Storage, ns: &str, keys: &[String]) -> Result<usize, TalsiError> {
    let ops = store.delete_many(text(ns), texts(keys))?;
    in_transaction(conn, |c| delete_result(run_all(c, &ops)))
}

fn value_of(i: usize) -> PyValue {
    match i % 3 {
        0 => PyValue::Str(format!("value {i}")),
        1 => PyValue::Bytes(vec![(i % 256) as u8; 1 + i % 2000]),
        _ => PyValue::Json(format!("{{\"n\": {i}}}").into_bytes()),
    }
}

fn key_of(i: usize) -> String {
    format!("key-{i:05}")
}

#[test]
fn batches_past_the_bind_limit_are_as_the_single_operations() {
    let n = 3000;
    let (batch_conn, mut batch) = open(999, false, "snappy");
    let (single_conn, mut single) = open(999, false, "snappy");
    let items: Vec<(String, PyValue)> = (0..n).map(|i| (key_of(i), value_of(i))).collect();
    let plan = batch
        .set_many(
            text("ns"),
            &items.iter().map(|(k, v)| (text(k), v.clone())).collect::<Vec<_>>(),
            0,
            None,
        )
        .unwrap();
    // 999 binds and five to a row: 199 rows to a statement
    assert_eq!(plan.writes.len(), 16);
    assert_eq!(set_many(&batch_conn, &mut batch, "ns", &items), Ok(n));
    for (key, value) in &items {
        assert_eq!(set(&single_conn, &mut single, "ns", key, value), Ok(1));
    }
    // every other key, and as many that were never written
    let asked: Vec<String> = (0..2 * n).filter(|i| i % 2 == 0).map(key_of).collect();
    assert_eq!(batch.has_many(text("ns"), texts(&asked)).unwrap().len(), 4);

    let found = has_many(&batch_conn, &batch, "ns", &asked).unwrap();
    let singly: Vec<String> = asked
        .iter()
        .filter(|k| has(&single_conn, &single, "ns", k).unwrap())
        .cloned()
        .collect();
    assert_eq!(found, singly);
    assert_eq!(found.len(), n / 2);

    let read = get_many(&batch_conn, &batch, "ns", &asked).unwrap();
    let singly: Vec<(String, PyValue)> = asked
        .iter()
        .filter_map(|k| get(&single_conn, &single, "ns", k).unwrap().map(|v| (k.clone(), v)))
        .collect();
    assert_eq!(read, singly);
    assert_eq!(read.len(), n / 2);
    assert_eq!(read[1], (key_of(2), value_of(2)));

    let removed = delete_many(&batch_conn, &batch, "ns", &asked).unwrap();
    let singly: usize = asked.iter().map(|k| delete(&single_conn, &single, "ns", k).unwrap()).sum();
    assert_eq!(removed, singly);
    assert_eq!(removed, n / 2);
    assert_eq!(
        list_keys(&batch_conn, &batch, "ns", None),
        list_keys(&single_conn, &single, "ns", None)
    );
    assert_eq!(list_keys(&batch_conn, &batch, "ns", None).unwrap().len(), n / 2);
}

#[test]
fn a_small_bind_limit_gives_the_same_results() {
    let (conn, mut store) = open(5, false, "zstd:3");
    let items: Vec<(String, PyValue)> = (0..23).map(|i| (key_of(i), value_of(i * 700))).collect();
    assert_eq!(set_many(&conn, &mut store, "ns", &items), Ok(23));
    let keys: Vec<String> = items.iter().map(|(k, _)| k.clone()).collect();
    assert_eq!(store.get_many(text("ns"), texts(&keys)).unwrap().len(), 5);
    assert_eq!(has_many(&conn, &store, "ns", &keys), Ok(keys.clone()));
    assert_eq!(get_many(&conn, &store, "ns", &keys), Ok(items.clone()));
    assert_eq!(delete_many(&conn, &store, "ns", &keys[..7]), Ok(7));
    assert_eq!(has_many(&conn, &store, "ns", &keys), Ok(keys[7..].to_vec()));
}

#[test]
fn a_key_given_twice_counts_once() {
    let (conn, store) = open(2, false, "snappy");
    let items = vec![("a".to_string(), value_of(0))];
    // two binds are too few for a row
    let r = store.set_many(text("ns"), &[(text("a"), value_of(0))].to_vec(), 0, None);
    assert!(matches!(r, Err(TalsiError::BindLimitTooSmall)));
    let (wide_conn, mut wide) = open(999, false, "snappy");
    drop((conn, store));
    set_many(&wide_conn, &mut wide, "ns", &items).unwrap();
    let narrow = Storage::new(2, false, "snappy").unwrap();
    let asked = vec!["a".to_string(), "b".to_string(), "a".to_string(), "a".to_string()];
    assert_eq!(has_many(&wide_conn, &narrow, "ns", &asked), Ok(vec!["a".to_string()]));
    assert_eq!(get_many(&wide_conn, &narrow, "ns", &asked).unwrap().len(), 1);
    assert_eq!(delete_many(&wide_conn, &narrow, "ns", &asked), Ok(1));
}

#[test]
fn of_two_items_with_one_key_the_later_stays() {
    let (conn, mut store) = open(999, false, "snappy");
    let items = vec![
        (StringOrByteString::Text("k".to_string()), PyValue::Str("first".to_string())),
        (StringOrByteString::Bytes(b"k".to_vec()), PyValue::Str("second".to_string())),
    ];
    let plan = store.set_many(text("ns"), &items, 0, None).unwrap();
    assert_eq!(write(&conn, &mut store, plan), Ok(2));
    assert_eq!(get(&conn, &store, "ns", "k"), Ok(Some(PyValue::Str("second".to_string()))));
    assert_eq!(list_keys(&conn, &store, "ns", None), Ok(vec!["k".to_string()]));
}

#[test]
fn batches_on_a_namespace_never_written_find_nothing() {
    let (conn, store) = open(3, false, "snappy");
    let keys: Vec<String> = (0..10).map(key_of).collect();
    assert_eq!(has_many(&conn, &store, "nowhere", &keys), Ok(vec![]));
    assert_eq!(get_many(&conn, &store, "nowhere", &keys), Ok(vec![]));
    assert_eq!(delete_many(&conn, &store, "nowhere", &keys), Ok(0));
    assert_eq!(has_many(&conn, &store, "nowhere", &[]), Ok(vec![]));
}

#[test]
fn a_batch_with_a_bad_item_writes_nothing() {
    let (conn, mut store) = open(999, false, "snappy");
    let items = vec![
        (text("a"), PyValue::Str("ok".to_string())),
        (StringOrByteString::Bytes(vec![0xff]), PyValue::Str("bad key".to_string())),
        (text("c"), PyValue::Pickle(vec![1])),
    ];
    let e = store.set_many(text("ns"), &items, 0, None).unwrap_err();
    assert_eq!(e, TalsiError::InvalidUtf8);
    assert_eq!(e.kind(), ErrorKind::Decode);
    let items = vec![(text("a"), PyValue::Str("ok".to_string())), (text("c"), PyValue::Pickle(vec![1]))];
    let e = store.set_many(text("ns"), &items, 0, None).unwrap_err();
    assert_eq!(e, TalsiError::WrongValueType(b'P'));
    assert_eq!(list_keys(&conn, &store, "ns", None), Ok(vec![]));
    let empty: Vec<(StringOrByteString, PyValue)> = vec![];
    let plan = store.set_many(text("ns"), &empty, 0, None).unwrap();
    assert_eq!(plan.writes.len(), 0);
    assert_eq!(write(&conn, &mut store, plan), Ok(0));
}

#[test]
fn the_table_is_created_once() {
    let (conn, mut store) = open(999, false, "snappy");
    assert!(!store.knows_namespace("ns"));
    assert_eq!(store.ensure_namespace_table("ns").len(), 2);
    let plan = store.set(text("ns"), text("k"), &value_of(0), 0, None).unwrap();
    assert_eq!(
        plan.ensure,
        vec![
            Op::CreateTable { namespace: "ns".to_string() },
            Op::CreateIndex { namespace: "ns".to_string() },
        ]
    );
    write(&conn, &mut store, plan).unwrap();
    assert!(store.knows_namespace("ns"));
    assert!(!store.knows_namespace("other"));
    let plan = store.set(text("ns"), text("k"), &value_of(0), 0, None).unwrap();
    assert!(plan.ensure.is_empty());
    assert_eq!(plan.writes.len(), 1);
    assert_eq!(plan.rows, 1);
    assert_eq!(plan.namespace, "ns");
    // to create what exists changes nothing
    for op in [Op::CreateTable { namespace: "ns".to_string() }, Op::CreateIndex { namespace: "ns".to_string() }] {
        assert!(matches!(run(&conn, &op), Reply::Done(_)));
    }
    assert_eq!(get(&conn, &store, "ns", "k"), Ok(Some(value_of(0))));
    store.close();
    assert!(!store.knows_namespace("ns"));
    store.namespace_created("ns");
    assert!(!store.knows_namespace("ns"));
}

#[test]
fn a_store_is_opened_with_its_settings() {
    let store = Storage::new(32766, true, "zstd:7").unwrap();
    assert_eq!(store.max_num_binds(), 32766);
    assert!(store.settings().allow_pickle);
    assert_eq!(store.settings().compression, talsi::data_codecs::Compression::parse("zstd:7").unwrap());
    assert!(!store.is_closed());
    assert!(matches!(Storage::new(999, false, "zstd:0"), Err(TalsiError::InvalidCompression)));
    assert!(matches!(Storage::new(999, false, "zstd:23"), Err(TalsiError::InvalidCompression)));
    assert!(Storage::new(999, false, "zstd:1").is_ok());
    assert!(Storage::new(999, false, "zstd:22").is_ok());
    assert!(matches!(Storage::new(0, false, "snappy"), Err(TalsiError::BindLimitTooSmall)));
    assert!(matches!(Storage::new(0, false, "lz4"), Err(TalsiError::InvalidCompression)));
}

#[test]
fn large_values_are_stored_compressed_and_come_back() {
    for compression in ["snappy", "zstd:19"] {
        let (conn, mut store) = open(999, true, compression);
        let value = PyValue::Pickle(vec![42; 50_000]);
        set(&conn, &mut store, "ns", "big", &value).unwrap();
        let (codecs, stored): (Vec<u8>, Vec<u8>) = conn
            .query_row("SELECT codecs, value FROM \"tl_ns\"", [], |r| Ok((r.get(0)?, r.get(1)?)))
            .unwrap();
        assert_eq!(codecs.len(), 2);
        assert_eq!(codecs[0], b'P');
        assert!(stored.len() < 50_000);
        assert_eq!(get(&conn, &store, "ns", "big"), Ok(Some(value)));
        let refusing = Storage::new(999, false, compression).unwrap();
        assert_eq!(get(&conn, &refusing, "ns", "big"), Err(TalsiError::PickleNotAllowed));
    }
}

#[test]
fn the_store_keeps_the_quoted_identifiers() {
    let mut store = Storage::new(7, false, "snappy").unwrap();
    let ops = [
        Op::Get { namespace: "n\"s".to_string(), key: "k".to_string() },
        Op::CreateIndex { namespace: "n\"s".to_string() },
        Op::Delete { namespace: "other".to_string(), keys: vec!["a".to_string(), "b".to_string()] },
        Op::ListTables,
        Op::Rename {
            namespace: "n\"s".to_string(),
            pairs: (0..5).map(|i| (format!("a{i}"), format!("b{i}"))).collect(),
        },
        Op::Get { namespace: "n\"s".to_string(), key: "k".to_string() },
    ];
    for op in &ops {
        assert_eq!(store.statements(op), op.statements(7));
    }
    assert_eq!(
        store.statements(&ops[1])[0].sql,
        "CREATE INDEX IF NOT EXISTS \"tl_n\"\"s_key\" ON \"tl_n\"\"s\" (key)"
    );
    assert_eq!(store.statements(&ops[4]).len(), 4);
    store.close();
    assert_eq!(store.statements(&ops[0]), ops[0].statements(7));
}

#[test]
fn encoded_payloads_are_paired_with_their_keys_in_order() {
    let (conn, mut store) = open(999, false, "zstd:3");
    let settings = store.settings();
    let values: Vec<PyValue> = (0..12).map(|i| value_of(i * 500)).collect();
    let keys: Vec<String> = (0..12).map(key_of).collect();
    let encoded: Vec<_> =
        values.iter().map(|v| talsi::record::encode_value(v, &settings).unwrap()).collect();
    let plan = store.insert_encoded("ns", keys.clone(), encoded, 5, Some(9)).unwrap();
    assert_eq!(plan.rows, 12);
    assert_eq!(plan.namespace, "ns");
    assert_eq!(write(&conn, &mut store, plan), Ok(12));
    for (key, value) in keys.iter().zip(values.iter()) {
        assert_eq!(get(&conn, &store, "ns", key), Ok(Some(value.clone())));
    }
    // the longer of the two is cut to the shorter
    let encoded: Vec<_> =
        values[..2].iter().map(|v| talsi::record::encode_value(v, &settings).unwrap()).collect();
    let plan = store.insert_encoded("other", keys.clone(), encoded, 5, None).unwrap();
    assert_eq!(plan.rows, 2);
    assert_eq!(write(&conn, &mut store, plan), Ok(2));
    assert_eq!(list_keys(&conn, &store, "other", None), Ok(keys[..2].to_vec()));
    let encoded: Vec<_> =
        values.iter().map(|v| talsi::record::encode_value(v, &settings).unwrap()).collect();
    assert_eq!(store.insert_encoded("third", keys[..3].to_vec(), encoded, 5, None).unwrap().rows, 3);
    store.close();
    assert!(matches!(
        store.insert_encoded("ns", vec![], vec![], 5, None),
        Err(TalsiError::ConnectionClosed)
    ));
}

#[test]
fn a_large_value_is_written_whatever_the_codec() {
    for compression in ["snappy", "zstd", "zstd:1", "zstd:22"] {
        let (conn, mut store) = open(999, false, compression);
        let first = PyValue::Bytes(vec![3; 200_000]);
        let second = PyValue::Str("short".to_string());
        assert_eq!(set(&conn, &mut store, "ns", "k", &first), Ok(1));
        assert_eq!(set(&conn, &mut store, "ns", "k", &second), Ok(1));
        assert_eq!(get(&conn, &store, "ns", "k"), Ok(Some(second)));
        assert_eq!(list_keys(&conn, &store, "ns", None), Ok(vec!["k".to_string()]));
        let codecs: Vec<u8> =
            conn.query_row("SELECT codecs FROM \"tl_ns\"", [], |r| r.get(0)).unwrap();
        assert_eq!(codecs, vec![b'U']);
    }
}
