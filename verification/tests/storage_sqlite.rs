use rusqlite::Connection;
use talsi::error::{ErrorKind, TalsiError};
use talsi::ops::{Op, Reads, SqlValue, Statement};
use talsi::py_codecs::PyValue;
use talsi::record::InternalStoredRecord;
use talsi::reply::{BackendFailure, Reply};
use talsi::results::{
    delete_result, get_result, has_result, list_keys_result, list_namespaces_result, run_completed,
};
use talsi::storage::{Storage, WritePlan};
use talsi::typ::{CodecsBlob, StringOrByteString};

fn to_failure(e: rusqlite::Error) -> BackendFailure {
    let reason = match &e {
        rusqlite::Error::SqliteFailure(_, Some(m)) => Some(m.clone()),
        _ => None,
    };
    BackendFailure { reason, message: e.to_string() }
}

fn bound(params: &[SqlValue]) -> Vec<rusqlite::types::Value> {
    params
        .iter()
        .map(|p| match p {
            SqlValue::Null => rusqlite::types::Value::Null,
            SqlValue::Integer(i) => rusqlite::types::Value::Integer(*i),
            SqlValue::Text(s) => rusqlite::types::Value::Text(s.clone()),
            SqlValue::Blob(b) => rusqlite::types::Value::Blob(b.clone()),
        })
        .collect()
}

fn execute(conn: &Connection, st: &Statement) -> Result<Reply, rusqlite::Error> {
    let mut stmt = conn.prepare(&st.sql)?;
    let params = rusqlite::params_from_iter(bound(&st.params));
    match st.reads {
        Reads::Changes => Ok(Reply::Done(stmt.execute(params)?)),
        Reads::Flag => {
            let found: i64 = stmt.query_row(params, |row| row.get(0))?;
            Ok(Reply::Flag(found != 0))
        }
        Reads::Keys => {
            let keys = stmt
                .query_map(params, |row| row.get::<_, String>(0))?
                .collect::<Result<Vec<String>, _>>()?;
            Ok(Reply::Keys(keys))
        }
        Reads::Record => {
            let records = stmt
                .query_map(params, |row| {
                    Ok(InternalStoredRecord {
                        key: None,
                        value: row.get(0)?,
                        codecs_blob: CodecsBlob::from_slice(&row.get::<_, Vec<u8>>(1)?),
                        expires_at_ms: row.get(2)?,
                    })
                })?
                .collect::<Result<Vec<InternalStoredRecord>, _>>()?;
            Ok(Reply::Records(records))
        }
        Reads::Records => {
            let records = stmt
                .query_map(params, |row| {
                    Ok(InternalStoredRecord {
                        key: Some(row.get(0)?),
                        value: row.get(1)?,
                        codecs_blob: CodecsBlob::from_slice(&row.get::<_, Vec<u8>>(2)?),
                        expires_at_ms: row.get(3)?,
                    })
                })?
                .collect::<Result<Vec<InternalStoredRecord>, _>>()?;
            Ok(Reply::Records(records))
        }
    }
}

fn run_with(conn: &Connection, op: &Op, statements: Vec<Statement>) -> Reply {
    let mut results = Vec::new();
    for statement in &statements {
        let result = execute(conn, statement).map_err(to_failure);
        let failed = result.is_err();
        results.push(result);
        if failed {
            break;
        }
    }
    Reply::from_results(op, results)
}

fn run(conn: &Connection, op: &Op) -> Reply {
    run_with(conn, op, op.statements(999))
}

fn run_all(conn: &Connection, ops: &[Op]) -> Vec<Reply> {
    let mut replies = Vec::new();
    for op in ops {
        let reply = run(conn, op);
        let ends = reply.ends_run();
        replies.push(reply);
        if ends {
            break;
        }
    }
    replies
}

fn write(conn: &Connection, store: &mut Storage, plan: WritePlan) -> Result<usize, TalsiError> {
    let ensured = run_all(conn, &plan.ensure);
    run_completed(plan.ensure.len(), ensured)?;
    store.namespace_created(&plan.namespace);
    conn.execute_batch("BEGIN").unwrap();
    let replies = run_all(conn, &plan.writes);
    match run_completed(plan.writes.len(), replies) {
        Ok(()) => {
            conn.execute_batch("COMMIT").unwrap();
            Ok(plan.rows)
        }
        Err(e) => {
            conn.execute_batch("ROLLBACK").unwrap();
            Err(e)
        }
    }
}

fn text(s: &str) -> StringOrByteString {
    StringOrByteString::Text(s.to_string())
}

fn set(conn: &Connection, store: &mut Storage, ns: &str, key: &str, value: &PyValue) -> Result<usize, TalsiError> {
    let plan = store.set(text(ns), text(key), value, 1_700_000_000_000, None)?;
    write(conn, store, plan)
}

fn get(conn: &Connection, store: &Storage, ns: &str, key: &str) -> Result<Option<PyValue>, TalsiError> {
    let op = store.get(text(ns), text(key))?;
    get_result(run(conn, &op), &store.settings())
}

fn has(conn: &Connection, store: &Storage, ns: &str, key: &str) -> Result<bool, TalsiError> {
    let op = store.has(text(ns), text(key))?;
    has_result(run(conn, &op))
}

fn delete(conn: &Connection, store: &Storage, ns: &str, key: &str) -> Result<usize, TalsiError> {
    let ops = store.delete(text(ns), text(key))?;
    in_transaction(conn, |c| delete_result(run_all(c, &ops)))
}

fn in_transaction<T>(conn: &Connection, body: impl FnOnce(&Connection) -> Result<T, TalsiError>) -> Result<T, TalsiError> {
    conn.execute_batch("BEGIN").unwrap();
    let r = body(conn);
    conn.execute_batch(if r.is_ok() { "COMMIT" } else { "ROLLBACK" }).unwrap();
    r
}

fn list_keys(conn: &Connection, store: &Storage, ns: &str, like: Option<&str>) -> Result<Vec<String>, TalsiError> {
    let op = store.list_keys(text(ns), like.map(text))?;
    let mut keys = list_keys_result(run(conn, &op))?;
    keys.sort();
    Ok(keys)
}

fn open(limit: usize, allow_pickle: bool, compression: &str) -> (Connection, Storage) {
    (Connection::open_in_memory().unwrap(), Storage::new(limit, allow_pickle, compression).unwrap())
}

#[test]
fn set_then_get_gives_the_value_back() {
    let (conn, mut store) = open(999, false, "snappy");
    let value = PyValue::Str("hello".to_string());
    assert_eq!(set(&conn, &mut store, "ns", "k", &value), Ok(1));
    assert_eq!(get(&conn, &store, "ns", "k"), Ok(Some(value)));
}

#[test]
fn last_write_wins_and_leaves_one_row() {
    let (conn, mut store) = open(999, false, "snappy");
    set(&conn, &mut store, "ns", "k", &PyValue::Str("one".to_string())).unwrap();
    set(&conn, &mut store, "ns", "k", &PyValue::Bytes(vec![2, 2])).unwrap();
    assert_eq!(get(&conn, &store, "ns", "k"), Ok(Some(PyValue::Bytes(vec![2, 2]))));
    assert_eq!(list_keys(&conn, &store, "ns", None), Ok(vec!["k".to_string()]));
    let rows: i64 = conn.query_row("SELECT COUNT(*) FROM \"tl_ns\"", [], |r| r.get(0)).unwrap();
    assert_eq!(rows, 1);
}

#[test]
fn namespaces_do_not_see_each_other() {
    let (conn, mut store) = open(999, false, "snappy");
    set(&conn, &mut store, "one", "k", &PyValue::Str("v".to_string())).unwrap();
    assert_eq!(get(&conn, &store, "two", "k"), Ok(None));
    set(&conn, &mut store, "two", "other", &PyValue::Str("w".to_string())).unwrap();
    assert_eq!(get(&conn, &store, "two", "k"), Ok(None));
    assert_eq!(get(&conn, &store, "one", "k"), Ok(Some(PyValue::Str("v".to_string()))));
}

#[test]
fn a_namespace_never_written_is_empty() {
    let (conn, store) = open(999, false, "snappy");
    assert_eq!(get(&conn, &store, "nowhere", "k"), Ok(None));
    assert_eq!(has(&conn, &store, "nowhere", "k"), Ok(false));
    assert_eq!(delete(&conn, &store, "nowhere", "k"), Ok(0));
    assert_eq!(list_keys(&conn, &store, "nowhere", None), Ok(vec![]));
    assert_eq!(list_keys(&conn, &store, "nowhere", Some("a%")), Ok(vec![]));
}

#[test]
fn has_and_delete_follow_the_rows() {
    let (conn, mut store) = open(999, false, "snappy");
    set(&conn, &mut store, "ns", "a", &PyValue::Str("v".to_string())).unwrap();
    assert_eq!(has(&conn, &store, "ns", "a"), Ok(true));
    assert_eq!(has(&conn, &store, "ns", "b"), Ok(false));
    assert_eq!(delete(&conn, &store, "ns", "b"), Ok(0));
    assert_eq!(delete(&conn, &store, "ns", "a"), Ok(1));
    assert_eq!(has(&conn, &store, "ns", "a"), Ok(false));
    assert_eq!(get(&conn, &store, "ns", "a"), Ok(None));
}

#[test]
fn list_keys_takes_a_like_pattern() {
    let (conn, mut store) = open(999, false, "snappy");
    for key in ["apple", "avocado", "banana"] {
        set(&conn, &mut store, "ns", key, &PyValue::Str("v".to_string())).unwrap();
    }
    assert_eq!(
        list_keys(&conn, &store, "ns", None),
        Ok(vec!["apple".to_string(), "avocado".to_string(), "banana".to_string()])
    );
    assert_eq!(
        list_keys(&conn, &store, "ns", Some("a%")),
        Ok(vec!["apple".to_string(), "avocado".to_string()])
    );
}

#[test]
fn list_namespaces_strips_the_table_prefix() {
    let (conn, mut store) = open(999, false, "snappy");
    set(&conn, &mut store, "first", "k", &PyValue::Str("v".to_string())).unwrap();
    set(&conn, &mut store, "se\"cond", "k", &PyValue::Str("v".to_string())).unwrap();
    conn.execute_batch("CREATE TABLE unrelated (x INTEGER)").unwrap();
    let op = store.list_namespaces().unwrap();
    let mut names = list_namespaces_result(run(&conn, &op)).unwrap();
    names.sort();
    assert_eq!(names, vec!["first".to_string(), "se\"cond".to_string()]);
}

#[test]
fn a_namespace_with_quotes_is_one_table() {
    let (conn, mut store) = open(999, false, "snappy");
    let ns = "x\"; DROP TABLE \"tl_safe";
    set(&conn, &mut store, "safe", "k", &PyValue::Str("kept".to_string())).unwrap();
    set(&conn, &mut store, ns, "k", &PyValue::Str("v".to_string())).unwrap();
    assert_eq!(get(&conn, &store, ns, "k"), Ok(Some(PyValue::Str("v".to_string()))));
    assert_eq!(get(&conn, &store, "safe", "k"), Ok(Some(PyValue::Str("kept".to_string()))));
}

#[test]
fn a_closed_store_refuses_every_operation() {
    let (_conn, mut store) = open(999, false, "snappy");
    store.close();
    assert!(store.is_closed());
    let e = store.get(text("ns"), text("k")).unwrap_err();
    assert_eq!(e, TalsiError::ConnectionClosed);
    assert_eq!(e.kind(), ErrorKind::Closed);
    assert_eq!(store.has(text("ns"), text("k")).unwrap_err(), TalsiError::ConnectionClosed);
    assert_eq!(store.delete(text("ns"), text("k")).unwrap_err(), TalsiError::ConnectionClosed);
    assert_eq!(store.list_keys(text("ns"), None).unwrap_err(), TalsiError::ConnectionClosed);
    assert_eq!(store.list_namespaces().unwrap_err(), TalsiError::ConnectionClosed);
    assert!(matches!(
        store.set(text("ns"), text("k"), &PyValue::Str("v".to_string()), 0, None),
        Err(TalsiError::ConnectionClosed)
    ));
}

#[test]
fn ttl_sets_the_time_of_expiry() {
    let (conn, mut store) = open(999, false, "snappy");
    let plan = store
        .set(text("ns"), text("k"), &PyValue::Str("v".to_string()), 1000, Some(500))
        .unwrap();
    write(&conn, &mut store, plan).unwrap();
    let (created, expires): (i64, Option<i64>) = conn
        .query_row("SELECT created_at_ms, expires_at_ms FROM \"tl_ns\"", [], |r| {
            Ok((r.get(0)?, r.get(1)?))
        })
        .unwrap();
    assert_eq!((created, expires), (1000, Some(1500)));
    // an expired record is still read
    assert_eq!(get(&conn, &store, "ns", "k"), Ok(Some(PyValue::Str("v".to_string()))));
    let plan = store
        .set(text("ns"), text("far"), &PyValue::Str("v".to_string()), i64::MAX - 1, Some(u64::MAX))
        .unwrap();
    write(&conn, &mut store, plan).unwrap();
    let expires: Option<i64> = conn
        .query_row("SELECT expires_at_ms FROM \"tl_ns\" WHERE key = 'far'", [], |r| r.get(0))
        .unwrap();
    assert_eq!(expires, Some(i64::MAX));
}

#[test]
fn namespaces_that_differ_in_case_alone_share_a_table() {
    // the engine does not tell capital letters from small ones in the names of tables
    let (conn, mut store) = open(999, false, "snappy");
    set(&conn, &mut store, "Fruit", "k", &PyValue::Str("v".to_string())).unwrap();
    assert_eq!(get(&conn, &store, "fruit", "k"), Ok(Some(PyValue::Str("v".to_string()))));
    assert_eq!(get(&conn, &store, "FRUIT", "k"), Ok(Some(PyValue::Str("v".to_string()))));
    set(&conn, &mut store, "fruit", "k", &PyValue::Str("w".to_string())).unwrap();
    assert_eq!(get(&conn, &store, "Fruit", "k"), Ok(Some(PyValue::Str("w".to_string()))));
    // letters beyond A to Z are told apart
    assert_eq!(get(&conn, &store, "früit", "k"), Ok(None));
    set(&conn, &mut store, "Ärger", "k", &PyValue::Str("v".to_string())).unwrap();
    assert_eq!(get(&conn, &store, "ärger", "k"), Ok(None));
    let op = store.list_namespaces().unwrap();
    let mut names = list_namespaces_result(run(&conn, &op)).unwrap();
    names.sort();
    assert_eq!(names, vec!["Fruit".to_string(), "Ärger".to_string()]);
}
