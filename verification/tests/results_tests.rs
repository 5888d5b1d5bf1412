use talsi::data_codecs::Compression;
use talsi::error::{ErrorKind, TalsiError};
use talsi::py_codecs::PyValue;
use talsi::record::{InternalStoredRecord, StorageSettings};
use talsi::reply::{BackendFailure, Reply};
use talsi::results::{
    decode_records, delete_result, get_many_records, get_record, get_result, has_many_result,
    has_result, list_keys_result, list_namespaces_result, run_completed,
};
use talsi::typ::CodecsBlob;

fn failed(message: &str) -> Reply {
    Reply::Failed(BackendFailure { reason: None, message: message.to_string() })
}

fn strings(names: &[&str]) -> Vec<String> {
    names.iter().map(|n| n.to_string()).collect()
}

fn record(key: Option<&str>, codecs: &[u8], value: &[u8]) -> InternalStoredRecord {
    InternalStoredRecord {
        key: key.map(|k| k.to_string()),
        codecs_blob: CodecsBlob::from_slice(codecs),
        value: value.to_vec(),
        expires_at_ms: None,
    }
}

fn settings() -> StorageSettings {
    StorageSettings { allow_pickle: false, compression: Compression::Snappy }
}

#[test]
fn a_write_is_complete_when_every_op_ran() {
    assert_eq!(run_completed(0, vec![]), Ok(()));
    assert_eq!(run_completed(2, vec![Reply::Done(1), Reply::Done(0)]), Ok(()));
    assert_eq!(run_completed(2, vec![Reply::Done(1)]), Err(TalsiError::UnexpectedReply));
    assert_eq!(run_completed(1, vec![Reply::Done(1), Reply::Done(1)]), Err(TalsiError::UnexpectedReply));
    let e = run_completed(2, vec![Reply::Done(1), failed("disk full")]).unwrap_err();
    assert_eq!(e, TalsiError::Storage("disk full".to_string()));
    assert_eq!(e.kind(), ErrorKind::Storage);
    assert_eq!(run_completed(1, vec![Reply::NoSuchTable]), Err(TalsiError::UnexpectedReply));
    assert_eq!(run_completed(1, vec![Reply::Flag(true)]), Err(TalsiError::UnexpectedReply));
    assert_eq!(
        run_completed(2, vec![failed("first"), failed("second")]),
        Err(TalsiError::Storage("first".to_string()))
    );
}

#[test]
fn a_read_of_one_key_gives_its_value_or_none() {
    let s = settings();
    assert_eq!(get_result(Reply::Records(vec![]), &s), Ok(None));
    assert_eq!(get_result(Reply::NoSuchTable, &s), Ok(None));
    assert_eq!(
        get_result(Reply::Records(vec![record(None, b"U", b"hi")]), &s),
        Ok(Some(PyValue::Str("hi".to_string())))
    );
    assert_eq!(
        get_result(Reply::Records(vec![record(None, b"B", b"hi")]), &s),
        Ok(Some(PyValue::Bytes(b"hi".to_vec())))
    );
    assert_eq!(get_result(failed("boom"), &s), Err(TalsiError::Storage("boom".to_string())));
    assert_eq!(get_result(Reply::Done(1), &s), Err(TalsiError::UnexpectedReply));
    assert_eq!(
        get_result(Reply::Records(vec![record(None, b"P", b"x")]), &s),
        Err(TalsiError::PickleNotAllowed)
    );
    assert_eq!(
        get_result(Reply::Records(vec![record(None, b"", b"x")]), &s),
        Err(TalsiError::NoCodecMnemonic)
    );
    assert_eq!(get_record(Reply::Records(vec![record(None, b"J", b"1")])), Ok(Some(record(None, b"J", b"1"))));
    assert_eq!(get_record(Reply::NoSuchTable), Ok(None));
}

#[test]
fn an_existence_test_says_yes_or_no() {
    assert_eq!(has_result(Reply::Flag(true)), Ok(true));
    assert_eq!(has_result(Reply::Flag(false)), Ok(false));
    assert_eq!(has_result(Reply::NoSuchTable), Ok(false));
    assert_eq!(has_result(failed("boom")), Err(TalsiError::Storage("boom".to_string())));
    assert_eq!(has_result(Reply::Keys(vec![])), Err(TalsiError::UnexpectedReply));
}

#[test]
fn keys_found_are_given_once() {
    let replies = vec![
        Reply::Keys(strings(&["a", "b"])),
        Reply::Keys(strings(&[])),
        Reply::Keys(strings(&["b", "c", "a"])),
    ];
    assert_eq!(has_many_result(replies), Ok(strings(&["a", "b", "c"])));
    assert_eq!(has_many_result(vec![]), Ok(vec![]));
    assert_eq!(has_many_result(vec![Reply::NoSuchTable]), Ok(vec![]));
    let replies = vec![Reply::Keys(strings(&["a"])), Reply::NoSuchTable, Reply::Keys(strings(&["z"]))];
    assert_eq!(has_many_result(replies), Ok(strings(&["a"])));
    let replies = vec![Reply::Keys(strings(&["a"])), failed("boom")];
    assert_eq!(has_many_result(replies), Err(TalsiError::Storage("boom".to_string())));
    assert_eq!(
        has_many_result(vec![Reply::Keys(vec![]), Reply::Done(1)]),
        Err(TalsiError::UnexpectedReply)
    );
}

#[test]
fn records_found_are_put_end_to_end() {
    let a = || record(Some("a"), b"U", b"1");
    let b = || record(Some("b"), b"U", b"2");
    let replies = vec![Reply::Records(vec![a()]), Reply::Records(vec![]), Reply::Records(vec![b(), a()])];
    assert_eq!(get_many_records(replies), Ok(vec![a(), b(), a()]));
    assert_eq!(get_many_records(vec![Reply::NoSuchTable]), Ok(vec![]));
    assert_eq!(
        get_many_records(vec![Reply::Records(vec![a()]), Reply::NoSuchTable, Reply::Records(vec![b()])]),
        Ok(vec![a()])
    );
    assert_eq!(
        get_many_records(vec![Reply::Records(vec![a()]), failed("boom")]),
        Err(TalsiError::Storage("boom".to_string()))
    );
    assert_eq!(get_many_records(vec![Reply::Flag(true)]), Err(TalsiError::UnexpectedReply));
}

#[test]
fn records_are_decoded_in_their_order() {
    let s = settings();
    let records = vec![record(Some("a"), b"U", b"1"), record(Some("b"), b"B", b"2")];
    assert_eq!(
        decode_records(records, &s),
        Ok(vec![
            ("a".to_string(), PyValue::Str("1".to_string())),
            ("b".to_string(), PyValue::Bytes(b"2".to_vec())),
        ])
    );
    assert_eq!(decode_records(vec![], &s), Ok(vec![]));
    let records = vec![
        record(Some("a"), b"U", b"1"),
        record(Some("b"), b"?", b"2"),
        record(Some("c"), b"P", b"3"),
    ];
    assert_eq!(decode_records(records, &s), Err(TalsiError::UnknownPyMnemonic(b'?')));
    let records = vec![record(None, b"U", b"1")];
    assert_eq!(decode_records(records, &s), Err(TalsiError::UnexpectedReply));
}

#[test]
fn removed_rows_add_up() {
    assert_eq!(delete_result(vec![]), Ok(0));
    assert_eq!(delete_result(vec![Reply::Done(2), Reply::Done(0), Reply::Done(5)]), Ok(7));
    assert_eq!(delete_result(vec![Reply::Done(usize::MAX), Reply::Done(5)]), Ok(usize::MAX));
    assert_eq!(delete_result(vec![Reply::NoSuchTable]), Ok(0));
    assert_eq!(delete_result(vec![Reply::Done(2), Reply::NoSuchTable]), Ok(0));
    assert_eq!(delete_result(vec![Reply::Done(2), failed("no such table: tl_x")]), Ok(0));
    assert_eq!(delete_result(vec![failed("error: no such table")]), Ok(0));
    assert_eq!(
        delete_result(vec![Reply::Done(2), failed("disk full")]),
        Err(TalsiError::Storage("disk full".to_string()))
    );
    assert_eq!(delete_result(vec![Reply::Keys(vec![])]), Err(TalsiError::UnexpectedReply));
}

#[test]
fn listed_keys_are_handed_on() {
    assert_eq!(list_keys_result(Reply::Keys(strings(&["b", "a"]))), Ok(strings(&["b", "a"])));
    assert_eq!(list_keys_result(Reply::NoSuchTable), Ok(vec![]));
    assert_eq!(list_keys_result(failed("boom")), Err(TalsiError::Storage("boom".to_string())));
    assert_eq!(list_keys_result(Reply::Done(0)), Err(TalsiError::UnexpectedReply));
}

#[test]
fn namespaces_are_read_out_of_table_names() {
    let names = strings(&["tl_a", "other", "tl_", "tl_tl_b", "TL_c", "tl_ü n\"s", "tl"]);
    assert_eq!(
        list_namespaces_result(Reply::Keys(names)),
        Ok(strings(&["a", "", "tl_b", "ü n\"s"]))
    );
    assert_eq!(list_namespaces_result(Reply::Keys(vec![])), Ok(vec![]));
    assert_eq!(list_namespaces_result(Reply::NoSuchTable), Ok(vec![]));
    assert_eq!(list_namespaces_result(failed("boom")), Err(TalsiError::Storage("boom".to_string())));
}
