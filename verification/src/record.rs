//! Records on their way in and out: the codec chain is built on the way in
//! and undone, last stage first, on the way out.

use vstd::prelude::*;
use crate::data_codecs::{
    checked, decode_from_data_and_mnemonic, decompressed, get_best_data_encoding, Compression,
    CompressionView, Decompressed, COMPRESSION_THRESHOLD,
};
use crate::error::TalsiError;
use crate::py_codecs::{
    decode_to_python_from_data_and_mnemonic, get_best_py_encoding, py_decoded, py_encodable,
    py_mnemonic, py_payload, PickleCodec, PyValue, PyValueView,
};
use crate::typ::{CodecMnemonic, CodecsBlob, DataAndMnemonic, DataAndMnemonics};

verus! {

/// What a store was opened with. It does not change afterwards.
#[derive(Debug, Clone, Copy, PartialEq, Eq)]
pub struct StorageSettings {
    /// Whether pickles are written and handed out.
    pub allow_pickle: bool,
    /// The codec that compresses new writes.
    pub compression: Compression,
}

/// A record on its way into the store.
#[derive(Debug, PartialEq, Eq)]
pub struct InternalInsertTriple {
    pub key: String,
    pub codecs_blob: CodecsBlob,
    pub value: Vec<u8>,
}

/// A record as it comes out of the store.
#[derive(Debug, PartialEq, Eq)]
pub struct InternalStoredRecord {
    /// The key, where the query asked for it.
    pub key: Option<String>,
    pub codecs_blob: CodecsBlob,
    pub value: Vec<u8>,
    pub expires_at_ms: Option<i64>,
}

/// A record with its compression undone: the payload of the representation
/// codec, and that codec's mnemonic.
#[derive(Debug, Clone, PartialEq, Eq)]
pub struct InternalStoredDataAndMnemonic {
    pub key: Option<String>,
    pub expires_at_ms: Option<i64>,
    pub data_and_mnemonic: DataAndMnemonic,
}

/// Undoes compression stages last to first: `stages` holds their mnemonics in
/// the order in which they were applied.
pub open spec fn stages_undone(stages: Seq<CodecMnemonic>, payload: Seq<u8>) -> Decompressed
    decreases stages.len(),
{
    if stages.len() == 0 {
        Decompressed::Plain(payload)
    } else {
        match decompressed(stages.last(), payload) {
            Decompressed::Plain(plain) => stages_undone(stages.drop_last(), plain),
            failure => failure,
        }
    }
}

/// The codec chain that is stored with a payload of the representation
/// codec `mnemonic`: that codec alone below the compression threshold, and
/// the compression codec after it from the threshold on.
pub open spec fn stored_chain(
    mnemonic: CodecMnemonic,
    payload: Seq<u8>,
    compression: CompressionView,
) -> Seq<CodecMnemonic> {
    if payload.len() < COMPRESSION_THRESHOLD {
        seq![mnemonic]
    } else {
        seq![mnemonic, compression.mnemonic()]
    }
}

/// The bytes that are stored for a payload of a representation codec: the
/// payload itself below the compression threshold, and what the compression
/// codec makes of it from the threshold on. `None` where the codec does not
/// compress the payload, or not so that it can be read back.
pub open spec fn stored_payload(payload: Seq<u8>, compression: CompressionView) -> Option<
    Seq<u8>,
> {
    if payload.len() < COMPRESSION_THRESHOLD {
        Some(payload)
    } else {
        checked(compression, payload)
    }
}

/// The codec chain that is stored with a value.
pub open spec fn encoded_chain(value: PyValueView, compression: CompressionView) -> Seq<
    CodecMnemonic,
> {
    stored_chain(py_mnemonic(value), py_payload(value), compression)
}

/// The payload that is stored for a value, or `None` where the compression
/// codec does not compress it.
pub open spec fn encoded_payload(value: PyValueView, compression: CompressionView) -> Option<
    Seq<u8>,
> {
    stored_payload(py_payload(value), compression)
}

/// How reading a stored record ends.
pub enum ChainDecoded {
    /// The record decodes to this value.
    Value(PyValueView),
    /// A compression codec rejected its input.
    Rejected,
    /// Decoding stops with this failure.
    Failed(TalsiError),
}

/// Reads a stored record: the compression stages are undone last to first,
/// and the representation codec named first decodes what is left.
pub open spec fn chain_decoded(chain: Seq<CodecMnemonic>, payload: Seq<u8>, allow_pickle: bool)
    -> ChainDecoded {
    if chain.len() == 0 {
        ChainDecoded::Failed(TalsiError::NoCodecMnemonic)
    } else {
        match stages_undone(chain.skip(1), payload) {
            Decompressed::Plain(plain) => match py_decoded(chain[0], plain, allow_pickle) {
                Ok(value) => ChainDecoded::Value(value),
                Err(e) => ChainDecoded::Failed(e),
            },
            Decompressed::Rejected => ChainDecoded::Rejected,
            Decompressed::UnknownMnemonic(m) => ChainDecoded::Failed(
                TalsiError::UnknownDataMnemonic(m),
            ),
        }
    }
}

impl DataAndMnemonics {
    /// Puts the chain together from the output of the representation codec
    /// and what compression made of it: the compressed payload with both
    /// mnemonics, or the payload as it was with the first mnemonic alone.
    pub fn from_encodings(py_enc: DataAndMnemonic, data_enc: Option<DataAndMnemonic>) -> (r: Self)
        ensures
            match data_enc {
                Some(compressed) => r.data@ == compressed.data@ && r.codecs@ == seq![
                    py_enc.codec,
                    compressed.codec,
                ],
                None => r.data@ == py_enc.data@ && r.codecs@ == seq![py_enc.codec],
            },
    {
        match data_enc {
            Some(compressed) => DataAndMnemonics::from_two(
                compressed.data,
                py_enc.codec,
                compressed.codec,
            ),
            None => DataAndMnemonics::from_single(py_enc),
        }
    }
}

/// Compresses the output of a representation codec where that is worth it,
/// and puts the codec chain together.
pub fn compress_encoding(py_enc: DataAndMnemonic, compression: &Compression) -> (r: Result<
    DataAndMnemonics,
    TalsiError,
>)
    ensures
        match stored_payload(py_enc.data@, compression@) {
            Some(stored) => r matches Ok(d) && d.data@ == stored && d.codecs@ == stored_chain(
                py_enc.codec,
                py_enc.data@,
                compression@,
            ),
            None => r matches Err(e) && e is Encoding,
        },
{
    match get_best_data_encoding(py_enc.data.as_slice(), compression) {
        Ok(data_enc) => Ok(DataAndMnemonics::from_encodings(py_enc, data_enc)),
        Err(e) => Err(e),
    }
}

/// Encodes a value for storage: its representation codec first, then the
/// store's compression codec if the payload has reached the threshold.
pub fn encode_value(value: &PyValue, settings: &StorageSettings) -> (r: Result<
    DataAndMnemonics,
    TalsiError,
>)
    ensures
        !py_encodable(value@, settings.allow_pickle) ==> r == Err::<DataAndMnemonics, TalsiError>(
            TalsiError::WrongValueType(PickleCodec::MNEMONIC),
        ),
        py_encodable(value@, settings.allow_pickle) ==> match encoded_payload(
            value@,
            settings.compression@,
        ) {
            Some(stored) => r matches Ok(d) && d.data@ == stored && d.codecs@ == encoded_chain(
                value@,
                settings.compression@,
            ),
            None => r matches Err(e) && e is Encoding,
        },
{
    match get_best_py_encoding(value, settings.allow_pickle) {
        Ok(py_enc) => compress_encoding(py_enc, &settings.compression),
        Err(e) => Err(e),
    }
}

impl InternalStoredRecord {
    /// Undoes the compression stages of the record, last to first, and keeps
    /// the mnemonic of the representation codec for the step that follows.
    pub fn into_data_codecs_decoded(self) -> (r: Result<InternalStoredDataAndMnemonic, TalsiError>)
        ensures
            self.codecs_blob@.len() == 0 ==> r == Err::<InternalStoredDataAndMnemonic, TalsiError>(
                TalsiError::NoCodecMnemonic,
            ),
            self.codecs_blob@.len() > 0 ==> match stages_undone(
                self.codecs_blob@.skip(1),
                self.value@,
            ) {
                Decompressed::Plain(plain) => r matches Ok(d) && d.key == self.key
                    && d.expires_at_ms == self.expires_at_ms && d.data_and_mnemonic.codec
                    == self.codecs_blob@[0] && d.data_and_mnemonic.data@ == plain,
                Decompressed::Rejected => r matches Err(e) && e is Encoding,
                Decompressed::UnknownMnemonic(m) => r == Err::<
                    InternalStoredDataAndMnemonic,
                    TalsiError,
                >(TalsiError::UnknownDataMnemonic(m)),
            },
    {
        let InternalStoredRecord { key, codecs_blob, value, expires_at_ms } = self;
        let codecs = codecs_blob.as_slice();
        if codecs.len() == 0 {
            return Err(TalsiError::NoCodecMnemonic);
        }
        let ghost stored = value@;
        let mut value = value;
        let mut i: usize = codecs.len();
        while i > 1
            invariant
                1 <= i <= codecs@.len(),
                codecs@ == self.codecs_blob@,
                stored == self.value@,
                stages_undone(codecs@.skip(1), stored) == stages_undone(
                    codecs@.subrange(1, i as int),
                    value@,
                ),
            decreases i,
        {
            i -= 1;
            proof {
                let stages = codecs@.subrange(1, i + 1);
                assert(stages.last() == codecs@[i as int]);
                assert(stages.drop_last() == codecs@.subrange(1, i as int));
            }
            match decode_from_data_and_mnemonic(DataAndMnemonic { data: value, codec: codecs[i] }) {
                Ok(plain) => {
                    value = plain;
                },
                Err(e) => {
                    return Err(e);
                },
            }
        }
        proof {
            assert(codecs@.subrange(1, 1).len() == 0);
        }
        Ok(
            InternalStoredDataAndMnemonic {
                key,
                data_and_mnemonic: DataAndMnemonic { data: value, codec: codecs[0] },
                expires_at_ms,
            },
        )
    }
}

impl InternalStoredDataAndMnemonic {
    /// Decodes the payload with its representation codec, and hands the value
    /// out with the record's key.
    pub fn into_python(self, s: &StorageSettings) -> (r: Result<(Option<String>, PyValue), TalsiError>)
        ensures
            match py_decoded(
                self.data_and_mnemonic.codec,
                self.data_and_mnemonic.data@,
                s.allow_pickle,
            ) {
                Ok(value) => r matches Ok(kv) && kv.0 == self.key && kv.1@ == value,
                Err(e) => r == Err::<(Option<String>, PyValue), TalsiError>(e),
            },
    {
        match decode_to_python_from_data_and_mnemonic(self.data_and_mnemonic, s.allow_pickle) {
            Ok(value) => Ok((self.key, value)),
            Err(e) => Err(e),
        }
    }
}

/// Reads a stored record back into a value.
pub fn decode_record(record: InternalStoredRecord, settings: &StorageSettings) -> (r: Result<
    (Option<String>, PyValue),
    TalsiError,
>)
    ensures
        match chain_decoded(record.codecs_blob@, record.value@, settings.allow_pickle) {
            ChainDecoded::Value(value) => r matches Ok(kv) && kv.0 == record.key && kv.1@ == value,
            ChainDecoded::Rejected => r matches Err(e) && e is Encoding,
            ChainDecoded::Failed(e) => r == Err::<(Option<String>, PyValue), TalsiError>(e),
        },
{
    match record.into_data_codecs_decoded() {
        Ok(decoded) => decoded.into_python(settings),
        Err(e) => Err(e),
    }
}

} // verus!
