use talsi::data_codecs::{
    decode_from_data_and_mnemonic, get_best_data_encoding, Compression, COMPRESSION_THRESHOLD,
};
use talsi::error::{ErrorKind, TalsiError};
use talsi::py_codecs::{
    best_py_codec, decode_to_python_from_data_and_mnemonic, get_best_py_encoding, BytesCodec,
    JsonCodec, PickleCodec, PyShape, PyValue, UTF8Codec,
};
use talsi::record::{
    compress_encoding, decode_record, encode_value, InternalStoredRecord, StorageSettings,
};
use talsi::snappy_codec::SnappyCodec;
use talsi::typ::{CodecsBlob, DataAndMnemonic, DataAndMnemonics};
use talsi::zstd_codec::{ZstdCodec, DEFAULT_ZSTD_LEVEL, MAX_ZSTD_LEVEL};

fn settings(allow_pickle: bool, compression: &str) -> StorageSettings {
    StorageSettings { allow_pickle, compression: Compression::parse(compression).unwrap() }
}

fn stored(encoded: DataAndMnemonics) -> InternalStoredRecord {
    InternalStoredRecord {
        key: Some("k".to_string()),
        codecs_blob: encoded.codecs,
        value: encoded.data,
        expires_at_ms: None,
    }
}

fn round_trip(value: &PyValue, s: &StorageSettings) -> (usize, PyValue) {
    let encoded = encode_value(value, s).unwrap();
    let chain = encoded.codecs.len();
    let (key, back) = decode_record(stored(encoded), s).unwrap();
    assert_eq!(key, Some("k".to_string()));
    (chain, back)
}

fn text_of(len: usize) -> String {
    "talsi ".chars().cycle().take(len).collect()
}

#[test]
fn mnemonics_are_the_stable_bytes() {
    assert_eq!(UTF8Codec::MNEMONIC, b'U');
    assert_eq!(BytesCodec::MNEMONIC, b'B');
    assert_eq!(JsonCodec::MNEMONIC, b'J');
    assert_eq!(PickleCodec::MNEMONIC, b'P');
    assert_eq!(SnappyCodec::MNEMONIC, b's');
    assert_eq!(ZstdCodec::MNEMONIC, b'z');
}

#[test]
fn zstd_levels_from_1_to_22_are_selected() {
    assert_eq!(Compression::parse("zstd:1"), Ok(Compression::Zstd(ZstdCodec::new(1))));
    assert_eq!(Compression::parse("zstd:22"), Ok(Compression::Zstd(ZstdCodec::new(22))));
    assert_eq!(Compression::parse("zstd:9").unwrap(), Compression::Zstd(ZstdCodec::new(9)));
    assert_eq!(Compression::parse("zstd:007").unwrap(), Compression::Zstd(ZstdCodec::new(7)));
}

#[test]
fn zstd_levels_out_of_range_are_refused() {
    for selector in ["zstd:0", "zstd:23", "zstd:100", "zstd:99999999999999999999999", "zstd:000"] {
        let e = Compression::parse(selector).unwrap_err();
        assert_eq!(e, TalsiError::InvalidCompression);
        assert_eq!(e.kind(), ErrorKind::Configuration);
    }
}

#[test]
fn selectors_name_snappy_and_zstd() {
    assert_eq!(Compression::parse("snappy"), Ok(Compression::Snappy));
    assert_eq!(Compression::parse("zstd"), Ok(Compression::Zstd(ZstdCodec::new_default())));
    assert_eq!(ZstdCodec::new_default().level(), 3);
    assert_eq!(DEFAULT_ZSTD_LEVEL, 3);
    assert_eq!(MAX_ZSTD_LEVEL, 22);
}

#[test]
fn other_selectors_are_refused() {
    for selector in
        ["", "Snappy", "snappy ", "zstd:", "zstd:+5", "zstd:-5", "zstd: 5", "zstd:5 ", "zstd:5a", "ZSTD", "zstd:٣", "gzip", "zstd5"]
    {
        assert_eq!(Compression::parse(selector), Err(TalsiError::InvalidCompression), "{selector:?}");
    }
}

#[test]
fn checked_new_takes_the_levels_of_zstd() {
    assert!(ZstdCodec::checked_new(0).is_none());
    assert!(ZstdCodec::checked_new(23).is_none());
    assert!(ZstdCodec::checked_new(-1).is_none());
    assert_eq!(ZstdCodec::checked_new(1).unwrap().level(), 1);
    assert_eq!(ZstdCodec::checked_new(22).unwrap().level(), 22);
}

#[test]
fn snappy_compresses_and_restores() {
    let plain = text_of(5000).into_bytes();
    let dm = SnappyCodec.encode(&plain).unwrap();
    assert_eq!(dm.codec, b's');
    assert_ne!(dm.data, plain);
    assert!(dm.data.len() < plain.len());
    assert_eq!(&dm.data[..10], b"\xff\x06\x00\x00sNaPpY");
    assert_eq!(SnappyCodec.decode(&dm.data), Ok(plain));
}

#[test]
fn snappy_rejects_what_is_no_frame_stream() {
    let e = SnappyCodec.decode(b"not a snappy stream").unwrap_err();
    assert_eq!(e.kind(), ErrorKind::Encoding);
}

#[test]
fn zstd_compresses_and_restores() {
    let plain = text_of(5000).into_bytes();
    let dm = ZstdCodec::new(5).encode(&plain).unwrap();
    assert_eq!(dm.codec, b'z');
    assert_ne!(dm.data, plain);
    assert!(dm.data.len() < plain.len());
    assert_eq!(&dm.data[..4], &[0x28, 0xb5, 0x2f, 0xfd]);
    assert_eq!(ZstdCodec::new_default().decode(&dm.data), Ok(plain));
}

#[test]
fn zstd_rejects_what_is_no_frame() {
    let e = ZstdCodec::new_default().decode(b"not a zstd frame").unwrap_err();
    assert_eq!(e.kind(), ErrorKind::Encoding);
}

#[test]
fn compression_starts_at_the_threshold() {
    assert_eq!(COMPRESSION_THRESHOLD, 1024);
    let below = vec![7u8; 1023];
    let at = vec![7u8; 1024];
    assert_eq!(get_best_data_encoding(&below, &Compression::Snappy), Ok(None));
    assert_eq!(get_best_data_encoding(&[], &Compression::Snappy), Ok(None));
    let dm = get_best_data_encoding(&at, &Compression::Snappy).unwrap().unwrap();
    assert_eq!(dm.codec, b's');
    assert_eq!(decode_from_data_and_mnemonic(dm), Ok(at.clone()));
    let dm = get_best_data_encoding(&at, &Compression::parse("zstd:3").unwrap()).unwrap().unwrap();
    assert_eq!(dm.codec, b'z');
    assert_eq!(decode_from_data_and_mnemonic(dm), Ok(at));
}

#[test]
fn an_unknown_compression_mnemonic_is_a_decode_failure() {
    let e = decode_from_data_and_mnemonic(DataAndMnemonic { data: vec![1, 2], codec: b'?' })
        .unwrap_err();
    assert_eq!(e, TalsiError::UnknownDataMnemonic(b'?'));
    assert_eq!(e.kind(), ErrorKind::Decode);
    // the mnemonics of the representation codecs are none of compression
    let e = decode_from_data_and_mnemonic(DataAndMnemonic { data: vec![], codec: b'U' }).unwrap_err();
    assert_eq!(e, TalsiError::UnknownDataMnemonic(b'U'));
}

#[test]
fn the_best_codec_goes_by_shape_and_setting() {
    assert_eq!(best_py_codec(PyShape::Str, false), b'U');
    assert_eq!(best_py_codec(PyShape::Str, true), b'U');
    assert_eq!(best_py_codec(PyShape::Bytes, false), b'B');
    assert_eq!(best_py_codec(PyShape::Bytes, true), b'B');
    assert_eq!(best_py_codec(PyShape::Other, false), b'J');
    assert_eq!(best_py_codec(PyShape::Other, true), b'P');
}

#[test]
fn each_value_is_encoded_by_the_codec_of_its_form() {
    let cases = [
        (PyValue::Str("héllo".to_string()), b'U', "héllo".as_bytes().to_vec()),
        (PyValue::Bytes(vec![0, 255, 3]), b'B', vec![0, 255, 3]),
        (PyValue::Json(b"{\"a\": 1}".to_vec()), b'J', b"{\"a\": 1}".to_vec()),
        (PyValue::Pickle(vec![0x80, 4, b'N', b'.']), b'P', vec![0x80, 4, b'N', b'.']),
    ];
    for (value, mnemonic, payload) in cases {
        let dm = get_best_py_encoding(&value, true).unwrap();
        assert_eq!(dm, DataAndMnemonic { data: payload, codec: mnemonic });
        assert_eq!(decode_to_python_from_data_and_mnemonic(dm, true), Ok(value));
    }
}

#[test]
fn a_codec_refuses_a_value_of_another_form() {
    let bytes = PyValue::Bytes(vec![1]);
    let text = PyValue::Str("x".to_string());
    let e = BytesCodec::encode(&text).unwrap_err();
    assert_eq!(e, TalsiError::WrongValueType(b'B'));
    assert_eq!(e.kind(), ErrorKind::Type);
    assert_eq!(UTF8Codec::encode(&bytes), Err(TalsiError::WrongValueType(b'U')));
    assert_eq!(JsonCodec::encode(&bytes), Err(TalsiError::WrongValueType(b'J')));
    assert_eq!(PickleCodec::encode(&bytes), Err(TalsiError::WrongValueType(b'P')));
    assert_eq!(BytesCodec::encode(&bytes).unwrap().data, vec![1]);
}

#[test]
fn a_pickle_is_not_encoded_where_pickling_is_not_allowed() {
    let pickle = PyValue::Pickle(vec![0x80, 4]);
    assert_eq!(get_best_py_encoding(&pickle, false), Err(TalsiError::WrongValueType(b'P')));
    assert_eq!(
        encode_value(&pickle, &settings(false, "snappy")),
        Err(TalsiError::WrongValueType(b'P'))
    );
    assert!(get_best_py_encoding(&pickle, true).is_ok());
}

#[test]
fn a_pickle_is_not_decoded_where_pickling_is_not_allowed() {
    let allowed = settings(true, "snappy");
    let refused = settings(false, "snappy");
    for len in [10, 4000] {
        let pickle = PyValue::Pickle(vec![0x80; len]);
        let encoded = encode_value(&pickle, &allowed).unwrap();
        let e = decode_record(stored(encoded), &refused).unwrap_err();
        assert_eq!(e, TalsiError::PickleNotAllowed);
        assert_eq!(e.kind(), ErrorKind::DecodeDisallowed);
    }
    let e = decode_to_python_from_data_and_mnemonic(
        DataAndMnemonic { data: vec![1], codec: b'P' },
        false,
    )
    .unwrap_err();
    assert_eq!(e, TalsiError::PickleNotAllowed);
}

#[test]
fn an_unknown_representation_mnemonic_is_a_decode_failure() {
    let e = decode_to_python_from_data_and_mnemonic(
        DataAndMnemonic { data: vec![1], codec: b's' },
        true,
    )
    .unwrap_err();
    assert_eq!(e, TalsiError::UnknownPyMnemonic(b's'));
    assert_eq!(e.kind(), ErrorKind::Decode);
    assert_ne!(e.kind(), ErrorKind::DecodeDisallowed);
}

#[test]
fn stored_text_that_is_not_utf8_is_read_with_replacements() {
    let value = UTF8Codec::decode(vec![b'a', 0xff, b'b']);
    assert_eq!(value, PyValue::Str("a\u{fffd}b".to_string()));
    assert_eq!(UTF8Codec::decode("grüß".as_bytes().to_vec()), PyValue::Str("grüß".to_string()));
}

#[test]
fn values_of_every_form_and_size_come_back() {
    for compression in ["snappy", "zstd", "zstd:1", "zstd:22"] {
        let s = settings(true, compression);
        for len in [0usize, 1, 1023, 1024, 1025, 100_000] {
            let values = [
                PyValue::Str(text_of(len)),
                PyValue::Bytes((0..len).map(|i| (i % 251) as u8).collect()),
                PyValue::Json(format!("[{}]", "1, ".repeat(len / 3)).into_bytes()),
                PyValue::Pickle(vec![0x80; len]),
            ];
            for value in values {
                let (_, back) = round_trip(&value, &s);
                assert_eq!(back, value);
            }
        }
    }
}

#[test]
fn the_chain_has_one_codec_below_the_threshold_and_two_from_it_on() {
    let s = settings(false, "zstd:4");
    let small = encode_value(&PyValue::Bytes(vec![1; 1023]), &s).unwrap();
    assert_eq!(small.codecs.as_slice(), &[b'B']);
    assert_eq!(small.data, vec![1; 1023]);
    let large = encode_value(&PyValue::Bytes(vec![1; 1024]), &s).unwrap();
    assert_eq!(large.codecs.as_slice(), &[b'B', b'z']);
    assert_ne!(large.data, vec![1; 1024]);
    let s = settings(false, "snappy");
    let large = encode_value(&PyValue::Str(text_of(2000)), &s).unwrap();
    assert_eq!(large.codecs.as_slice(), &[b'U', b's']);
    // text is measured in bytes: 512 letters of two bytes reach the threshold
    let wide = encode_value(&PyValue::Str("é".repeat(512)), &s).unwrap();
    assert_eq!(wide.codecs.len(), 2);
    let narrow = encode_value(&PyValue::Str("é".repeat(511)), &s).unwrap();
    assert_eq!(narrow.codecs.len(), 1);
}

#[test]
fn compress_encoding_keeps_the_first_mnemonic() {
    let py_enc = DataAndMnemonic { data: vec![9; 3000], codec: b'J' };
    let encoded = compress_encoding(py_enc, &Compression::Snappy).unwrap();
    assert_eq!(encoded.codecs.as_slice(), &[b'J', b's']);
    let none = DataAndMnemonics::from_encodings(
        DataAndMnemonic { data: vec![1], codec: b'U' },
        None,
    );
    assert_eq!(none.codecs.as_slice(), &[b'U']);
    assert_eq!(none.data, vec![1]);
    let both = DataAndMnemonics::from_encodings(
        DataAndMnemonic { data: vec![1], codec: b'U' },
        Some(DataAndMnemonic { data: vec![2, 3], codec: b'z' }),
    );
    assert_eq!(both.codecs.as_slice(), &[b'U', b'z']);
    assert_eq!(both.data, vec![2, 3]);
}

#[test]
fn a_chain_of_any_length_is_undone_last_to_first() {
    let plain = text_of(3000).into_bytes();
    let once = SnappyCodec.encode(&plain).unwrap().data;
    let twice = ZstdCodec::new(3).encode(&once).unwrap().data;
    let thrice = SnappyCodec.encode(&twice).unwrap().data;
    let record = InternalStoredRecord {
        key: None,
        codecs_blob: CodecsBlob::from_slice(&[b'U', b's', b'z', b's']),
        value: thrice,
        expires_at_ms: Some(5),
    };
    let decoded = record.into_data_codecs_decoded().unwrap();
    assert_eq!(decoded.data_and_mnemonic, DataAndMnemonic { data: plain, codec: b'U' });
    assert_eq!(decoded.expires_at_ms, Some(5));
    assert_eq!(decoded.key, None);
    let s = settings(false, "snappy");
    assert_eq!(decoded.into_python(&s), Ok((None, PyValue::Str(text_of(3000)))));
}

#[test]
fn a_chain_in_the_wrong_order_does_not_decode() {
    let plain = text_of(3000).into_bytes();
    let once = SnappyCodec.encode(&plain).unwrap().data;
    let twice = ZstdCodec::new(3).encode(&once).unwrap().data;
    let record = InternalStoredRecord {
        key: None,
        codecs_blob: CodecsBlob::from_slice(&[b'U', b'z', b's']),
        value: twice,
        expires_at_ms: None,
    };
    assert_eq!(record.into_data_codecs_decoded().unwrap_err().kind(), ErrorKind::Encoding);
}

#[test]
fn an_empty_chain_is_a_decode_failure() {
    let record = InternalStoredRecord {
        key: None,
        codecs_blob: CodecsBlob::from_slice(&[]),
        value: vec![1],
        expires_at_ms: None,
    };
    let e = record.into_data_codecs_decoded().unwrap_err();
    assert_eq!(e, TalsiError::NoCodecMnemonic);
    assert_eq!(e.kind(), ErrorKind::Decode);
}

#[test]
fn an_unknown_stage_in_a_chain_is_a_decode_failure() {
    let record = InternalStoredRecord {
        key: None,
        codecs_blob: CodecsBlob::from_slice(&[b'U', b'q']),
        value: vec![1],
        expires_at_ms: None,
    };
    assert_eq!(record.into_data_codecs_decoded().unwrap_err(), TalsiError::UnknownDataMnemonic(b'q'));
}
