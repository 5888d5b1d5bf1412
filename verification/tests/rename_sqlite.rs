use rusqlite::Connection;
use talsi::error::{ErrorKind, TalsiError};
use talsi::ops::{Op, Reads, SqlValue, Statement};
use talsi::py_codecs::PyValue;
use talsi::record::InternalStoredRecord;
use talsi::reply::{BackendFailure, Reply};
use talsi::results::{delete_result, get_result, has_result, list_keys_result, run_completed};
use talsi::storage::{Storage, WritePlan};
use talsi::typ::{CodecsBlob, StringOrByteString};

fn to_failure(e: rusqlite::Error) -> BackendFailure {
    let reason = match &e {
        rusqlite::Error::SqliteFailure(_, Some(m)) => Some(m.clone()),
        _ => None,
    };
    BackendFailure { reason, message: e.to_string() }
}

fn bound(params: &[SqlValue]) -> Vec<rusqlite::types::Value> {
    params
        .iter()
        .map(|p| match p {
            SqlValue::Null => rusqlite::types::Value::Null,
            SqlValue::Integer(i) => rusqlite::types::Value::Integer(*i),
            SqlValue::Text(s) => rusqlite::types::Value::Text(s.clone()),
            SqlValue::Blob(b) => rusqlite::types::Value::Blob(b.clone()),
        })
        .collect()
}

fn execute(conn: &Connection, st: &Statement) -> Result<Reply, rusqlite::Error> {
    let mut stmt = conn.prepare(&st.sql)?;
    let params = rusqlite::params_from_iter(bound(&st.params));
    match st.reads {
        Reads::Changes => Ok(Reply::Done(stmt.execute(params)?)),
        Reads::Flag => {
            let found: i64 = stmt.query_row(params, |row| row.get(0))?;
            Ok(Reply::Flag(found != 0))
        }
        Reads::Keys => {
            let keys = stmt
                .query_map(params, |row| row.get::<_, String>(0))?
                .collect::<Result<Vec<String>, _>>()?;
            Ok(Reply::Keys(keys))
        }
        Reads::Record => {
            let records = stmt
                .query_map(params, |row| {
                    Ok(InternalStoredRecord {
                        key: None,
                        value: row.get(0)?,
                        codecs_blob: CodecsBlob::from_slice(&row.get::<_, Vec<u8>>(1)?),
                        expires_at_ms: row.get(2)?,
                    })
                })?
                .collect::<Result<Vec<InternalStoredRecord>, _>>()?;
            Ok(Reply::Records(records))
        }
        Reads::Records => {
            let records = stmt
                .query_map(params, |row| {
                    Ok(InternalStoredRecord {
                        key: Some(row.get(0)?),
                        value: row.get(1)?,
                        codecs_blob: CodecsBlob::from_slice(&row.get::<_, Vec<u8>>(2)?),
                        expires_at_ms: row.get(3)?,
                    })
                })?
                .collect::<Result<Vec<InternalStoredRecord>, _>>()?;
            Ok(Reply::Records(records))
        }
    }
}

fn run_with(conn: &Connection, op: &Op, statements: Vec<Statement>) -> Reply {
    let mut results = Vec::new();
    for statement in &statements {
        let result = execute(conn, statement).map_err(to_failure);
        let failed = result.is_err();
        results.push(result);
        if failed {
            break;
        }
    }
    Reply::from_results(op, results)
}

fn run(conn: &Connection, op: &Op) -> Reply {
    run_with(conn, op, op.statements(999))
}

fn run_all(conn: &Connection, ops: &[Op]) -> Vec<Reply> {
    let mut replies = Vec::new();
    for op in ops {
        let reply = run(conn, op);
        let ends = reply.ends_run();
        replies.push(reply);
        if ends {
            break;
        }
    }
    replies
}

fn write(conn: &Connection, store: &mut Storage, plan: WritePlan) -> Result<usize, TalsiError> {
    let ensured = run_all(conn, &plan.ensure);
    run_completed(plan.ensure.len(), ensured)?;
    store.namespace_created(&plan.namespace);
    conn.execute_batch("BEGIN").unwrap();
    let replies = run_all(conn, &plan.writes);
    match run_completed(plan.writes.len(), replies) {
        Ok(()) => {
            conn.execute_batch("COMMIT").unwrap();
            Ok(plan.rows)
        }
        Err(e) => {
            conn.execute_batch("ROLLBACK").unwrap();
            Err(e)
        }
    }
}

fn text(s: &str) -> StringOrByteString {
    StringOrByteString::Text(s.to_string())
}

fn set(conn: &Connection, store: &mut Storage, ns: &str, key: &str, value: &PyValue) -> Result<usize, TalsiError> {
    let plan = store.set(text(ns), text(key), value, 1_700_000_000_000, None)?;
    write(conn, store, plan)
}

fn get(conn: &Connection, store: &Storage, ns: &str, key: &str) -> Result<Option<PyValue>, TalsiError> {
    let op = store.get(text(ns), text(key))?;
    get_result(run(conn, &op), &store.settings())
}

fn has(conn: &Connection, store: &Storage, ns: &str, key: &str) -> Result<bool, TalsiError> {
    let op = store.has(text(ns), text(key))?;
    has_result(run(conn, &op))
}

fn delete(conn: &Connection, store: &Storage, ns: &str, key: &str) -> Result<usize, TalsiError> {
    let ops = store.delete(text(ns), text(key))?;
    in_transaction(conn, |c| delete_result(run_all(c, &ops)))
}

fn in_transaction<T>(conn: &Connection, body: impl FnOnce(&Connection) -> Result<T, TalsiError>) -> Result<T, TalsiError> {
    conn.execute_batch("BEGIN").unwrap();
    let r = body(conn);
    conn.execute_batch(if r.is_ok() { "COMMIT" } else { "ROLLBACK" }).unwrap();
    r
}

fn list_keys(conn: &Connection, store: &Storage, ns: &str, like: Option<&str>) -> Result<Vec<String>, TalsiError> {
    let op = store.list_keys(text(ns), like.map(text))?;
    let mut keys = list_keys_result(run(conn, &op))?;
    keys.sort();
    Ok(keys)
}

fn open(limit: usize, allow_pickle: bool, compression: &str) -> (Connection, Storage) {
    (Connection::open_in_memory().unwrap(), Storage::new(limit, allow_pickle, compression).unwrap())
}

fn rename(
    conn: &Connection,
    store: &Storage,
    ns: &str,
    pairs: &[(&str, &str)],
    overwrite: bool,
    must_exist: bool,
) -> Result<usize, TalsiError> {
    let renames: Vec<(StringOrByteString, StringOrByteString)> =
        pairs.iter().map(|(a, b)| (text(a), text(b))).collect();
    let mut state = store.rename(text(ns), &renames, overwrite, must_exist)?;
    if let Some(n) = state.finished() {
        return Ok(n);
    }
    in_transaction(conn, move |c| loop {
        if let Some(n) = state.finished() {
            return Ok(n);
        }
        let replies = run_all(c, &state.ops());
        state = state.advance(replies)?;
    })
}

fn s(v: &str) -> PyValue {
    PyValue::Str(v.to_string())
}

fn filled(limit: usize) -> (Connection, Storage) {
    let (conn, mut store) = open(limit, false, "snappy");
    set(&conn, &mut store, "ns", "a", &s("va")).unwrap();
    set(&conn, &mut store, "ns", "b", &s("vb")).unwrap();
    (conn, store)
}

#[test]
fn rename_moves_the_row_to_the_new_key() {
    let (conn, store) = filled(999);
    assert_eq!(rename(&conn, &store, "ns", &[("a", "c")], false, true), Ok(1));
    assert_eq!(get(&conn, &store, "ns", "a"), Ok(None));
    assert_eq!(get(&conn, &store, "ns", "c"), Ok(Some(s("va"))));
    assert_eq!(get(&conn, &store, "ns", "b"), Ok(Some(s("vb"))));
}

#[test]
fn rename_onto_a_taken_key_without_overwrite_fails_and_changes_nothing() {
    let (conn, store) = filled(999);
    let e = rename(&conn, &store, "ns", &[("a", "b")], false, true).unwrap_err();
    assert_eq!(e, TalsiError::KeyConflict("b".to_string()));
    assert_eq!(e.kind(), ErrorKind::Conflict);
    assert_eq!(get(&conn, &store, "ns", "a"), Ok(Some(s("va"))));
    assert_eq!(get(&conn, &store, "ns", "b"), Ok(Some(s("vb"))));
}

#[test]
fn rename_onto_a_taken_key_with_overwrite_replaces_it() {
    let (conn, store) = filled(999);
    assert_eq!(rename(&conn, &store, "ns", &[("a", "b")], true, true), Ok(1));
    assert_eq!(get(&conn, &store, "ns", "a"), Ok(None));
    assert_eq!(get(&conn, &store, "ns", "b"), Ok(Some(s("va"))));
    assert_eq!(list_keys(&conn, &store, "ns", None), Ok(vec!["b".to_string()]));
}

#[test]
fn rename_that_demands_a_missing_key_fails_whole() {
    let (conn, store) = filled(999);
    let e = rename(&conn, &store, "ns", &[("a", "x"), ("missing", "y")], false, true).unwrap_err();
    assert_eq!(e, TalsiError::KeyNotFound("missing".to_string()));
    assert_eq!(e.kind(), ErrorKind::NotFound);
    assert_eq!(get(&conn, &store, "ns", "a"), Ok(Some(s("va"))));
    assert_eq!(get(&conn, &store, "ns", "x"), Ok(None));
    assert_eq!(list_keys(&conn, &store, "ns", None), Ok(vec!["a".to_string(), "b".to_string()]));
}

#[test]
fn rename_that_does_not_demand_its_keys_skips_the_missing_ones() {
    let (conn, store) = filled(999);
    assert_eq!(rename(&conn, &store, "ns", &[("a", "x"), ("missing", "y")], false, false), Ok(1));
    assert_eq!(get(&conn, &store, "ns", "x"), Ok(Some(s("va"))));
    assert_eq!(get(&conn, &store, "ns", "y"), Ok(None));
}

#[test]
fn rename_counts_pairs_with_one_name_without_touching_the_store() {
    let (conn, store) = open(999, false, "snappy");
    // no table exists, and none is needed
    assert_eq!(rename(&conn, &store, "ns", &[("a", "a"), ("b", "b")], false, true), Ok(2));
    let (conn, store) = filled(999);
    assert_eq!(rename(&conn, &store, "ns", &[("a", "a"), ("b", "c")], false, true), Ok(2));
    assert_eq!(get(&conn, &store, "ns", "a"), Ok(Some(s("va"))));
    assert_eq!(get(&conn, &store, "ns", "c"), Ok(Some(s("vb"))));
}

#[test]
fn rename_in_a_namespace_never_written() {
    let (conn, store) = open(999, false, "snappy");
    let e = rename(&conn, &store, "ns", &[("a", "b"), ("c", "c")], false, true).unwrap_err();
    assert_eq!(e, TalsiError::KeyNotFound("a".to_string()));
    assert_eq!(rename(&conn, &store, "ns", &[("a", "b"), ("c", "c")], false, false), Ok(1));
}

#[test]
fn rename_that_the_store_refuses_changes_nothing() {
    let (conn, store) = filled(999);
    // two rows cannot both move to one key
    let e = rename(&conn, &store, "ns", &[("a", "c"), ("b", "c")], true, true).unwrap_err();
    assert_eq!(e.kind(), ErrorKind::Storage);
    assert_eq!(get(&conn, &store, "ns", "a"), Ok(Some(s("va"))));
    assert_eq!(get(&conn, &store, "ns", "b"), Ok(Some(s("vb"))));
    assert_eq!(get(&conn, &store, "ns", "c"), Ok(None));
}

#[test]
fn rename_of_many_keys_goes_through_several_statements() {
    let (conn, mut store) = open(7, false, "snappy");
    let n = 50;
    for i in 0..n {
        set(&conn, &mut store, "ns", &format!("old{i}"), &s(&format!("v{i}"))).unwrap();
    }
    let olds: Vec<String> = (0..n).map(|i| format!("old{i}")).collect();
    let news: Vec<String> = (0..n).map(|i| format!("new{i}")).collect();
    let pairs: Vec<(&str, &str)> =
        olds.iter().zip(news.iter()).map(|(a, b)| (a.as_str(), b.as_str())).collect();
    let renames: Vec<(StringOrByteString, StringOrByteString)> =
        pairs.iter().map(|(a, b)| (text(a), text(b))).collect();
    let state = store.rename(text("ns"), &renames, false, true).unwrap();
    // seven binds to a statement: seven keys to a query, two pairs to an update
    assert_eq!(state.ops().len(), 8);
    assert_eq!(rename(&conn, &store, "ns", &pairs, false, true), Ok(n));
    for i in 0..n {
        assert_eq!(get(&conn, &store, "ns", &format!("old{i}")), Ok(None));
        assert_eq!(get(&conn, &store, "ns", &format!("new{i}")), Ok(Some(s(&format!("v{i}")))));
    }
}

#[test]
fn rename_needs_three_binds_to_a_statement() {
    let store = Storage::new(2, false, "snappy").unwrap();
    let renames = vec![(text("a"), text("b"))];
    assert!(matches!(
        store.rename(text("ns"), &renames, false, false),
        Err(TalsiError::BindLimitTooSmall)
    ));
    let noops = vec![(text("a"), text("a"))];
    assert_eq!(store.rename(text("ns"), &noops, false, false).unwrap().finished(), Some(1));
}

#[test]
fn rename_refuses_names_that_are_not_text() {
    let store = Storage::new(999, false, "snappy").unwrap();
    let renames = vec![(StringOrByteString::Bytes(vec![0xff, 0xfe]), text("b"))];
    assert!(matches!(
        store.rename(text("ns"), &renames, false, false),
        Err(TalsiError::InvalidUtf8)
    ));
    let renames = vec![(StringOrByteString::Bytes(b"a".to_vec()), text("b"))];
    assert!(store.rename(text("ns"), &renames, false, false).is_ok());
}

#[test]
fn a_swap_exchanges_the_values_on_the_engine() {
    let (conn, store) = filled(999);
    assert_eq!(rename(&conn, &store, "ns", &[("a", "b"), ("b", "a")], false, true), Ok(2));
    assert_eq!(get(&conn, &store, "ns", "a"), Ok(Some(s("vb"))));
    assert_eq!(get(&conn, &store, "ns", "b"), Ok(Some(s("va"))));
    assert_eq!(list_keys(&conn, &store, "ns", None), Ok(vec!["a".to_string(), "b".to_string()]));
    let versions: i64 =
        conn.query_row("SELECT COUNT(*) FROM \"tl_ns\" WHERE version <> 0", [], |r| r.get(0)).unwrap();
    assert_eq!(versions, 0);
}

#[test]
fn a_cycle_moves_each_value_on_and_a_chain_frees_its_keys() {
    let (conn, mut store) = filled(999);
    set(&conn, &mut store, "ns", "c", &s("vc")).unwrap();
    assert_eq!(rename(&conn, &store, "ns", &[("a", "b"), ("b", "c"), ("c", "a")], false, true), Ok(3));
    assert_eq!(get(&conn, &store, "ns", "b"), Ok(Some(s("va"))));
    assert_eq!(get(&conn, &store, "ns", "c"), Ok(Some(s("vb"))));
    assert_eq!(get(&conn, &store, "ns", "a"), Ok(Some(s("vc"))));
    assert_eq!(rename(&conn, &store, "ns", &[("a", "b"), ("b", "d")], false, true), Ok(2));
    assert_eq!(get(&conn, &store, "ns", "a"), Ok(None));
    assert_eq!(get(&conn, &store, "ns", "b"), Ok(Some(s("vc"))));
    assert_eq!(get(&conn, &store, "ns", "d"), Ok(Some(s("va"))));
}

#[test]
fn a_cycle_that_is_cut_into_several_statements_still_turns() {
    let (conn, mut store) = open(999, false, "snappy");
    let n = 20;
    for i in 0..n {
        set(&conn, &mut store, "ns", &format!("k{i}"), &s(&format!("v{i}"))).unwrap();
    }
    let pairs: Vec<(String, String)> =
        (0..n).map(|i| (format!("k{i}"), format!("k{}", (i + 1) % n))).collect();
    let op = Op::Rename { namespace: "ns".to_string(), pairs };
    // seven binds to a statement: two pairs to each, and one statement to settle
    let statements = op.statements(7);
    assert_eq!(statements.len(), 11);
    assert!(statements.iter().all(|st| st.params.len() <= 7));
    let reply = in_transaction(&conn, |c| Ok(run_with(c, &op, statements))).unwrap();
    assert_eq!(reply, Reply::Done(n));
    for i in 0..n {
        assert_eq!(
            get(&conn, &store, "ns", &format!("k{}", (i + 1) % n)),
            Ok(Some(s(&format!("v{i}"))))
        );
    }
}

#[test]
fn a_row_in_the_way_that_was_not_asked_about_fails_the_rename() {
    // b holds a row and nobody removed it: the rows stay as they were
    let (conn, _store) = filled(999);
    let op = Op::Rename { namespace: "ns".to_string(), pairs: vec![("a".to_string(), "b".to_string())] };
    conn.execute_batch("BEGIN").unwrap();
    let reply = run(&conn, &op);
    conn.execute_batch("ROLLBACK").unwrap();
    assert!(matches!(reply, Reply::Failed(_)));
    let keys: i64 = conn.query_row("SELECT COUNT(*) FROM \"tl_ns\" WHERE version = 0", [], |r| r.get(0)).unwrap();
    assert_eq!(keys, 2);
}
