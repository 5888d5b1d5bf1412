//! The representation stage: values of the host language and the codecs
//! that turn them into bytes and back.

use vstd::prelude::*;
use vstd::utf8::{decode_utf8, encode_utf8, valid_utf8};
use crate::error::TalsiError;
use crate::text::{string_from_utf8_lossy, utf8_lossy};
use crate::typ::{CodecMnemonic, DataAndMnemonic};

verus! {

/// A value of the host language as the store takes and gives it. Text and
/// byte strings come as they are. Every other value comes in the serial form
/// that the host made of it: its JSON text, or its pickle.
#[derive(Debug, Clone, PartialEq, Eq)]
pub enum PyValue {
    Str(String),
    Bytes(Vec<u8>),
    Json(Vec<u8>),
    Pickle(Vec<u8>),
}

/// A [`PyValue`] as contracts see it.
pub enum PyValueView {
    Str(Seq<char>),
    Bytes(Seq<u8>),
    Json(Seq<u8>),
    Pickle(Seq<u8>),
}

impl View for PyValue {
    type V = PyValueView;

    open spec fn view(&self) -> PyValueView {
        match *self {
            PyValue::Str(s) => PyValueView::Str(s@),
            PyValue::Bytes(b) => PyValueView::Bytes(b@),
            PyValue::Json(b) => PyValueView::Json(b@),
            PyValue::Pickle(b) => PyValueView::Pickle(b@),
        }
    }
}

/// What kind of value the host holds, before it has been serialised.
#[derive(Debug, Clone, Copy, PartialEq, Eq, Structural)]
pub enum PyShape {
    Str,
    Bytes,
    Other,
}

/// The text that the UTF-8 codec reads out of stored bytes: what they encode
/// where they are well-formed, and what lossy decoding makes of them where
/// they are not.
pub open spec fn text_decoded(bytes: Seq<u8>) -> Seq<char> {
    if valid_utf8(bytes) {
        decode_utf8(bytes)
    } else {
        utf8_lossy(bytes)
    }
}

/// Object graphs, as pickled by the host.
pub struct PickleCodec;

/// Structured values, as JSON text.
pub struct JsonCodec;

/// Byte strings, stored as they are.
pub struct BytesCodec;

/// Text, stored as UTF-8.
pub struct UTF8Codec;

impl PickleCodec {
    pub const MNEMONIC: CodecMnemonic = 80u8;

    /// Takes the pickle out of a pickled value; every other value is refused.
    pub fn encode(value: &PyValue) -> (r: Result<DataAndMnemonic, TalsiError>)
        ensures
            match value@ {
                PyValueView::Pickle(b) => r matches Ok(dm) && dm.data@ == b && dm.codec
                    == PickleCodec::MNEMONIC,
                _ => r == Err::<DataAndMnemonic, TalsiError>(
                    TalsiError::WrongValueType(PickleCodec::MNEMONIC),
                ),
            },
    {
        match value {
            PyValue::Pickle(data) => Ok(
                DataAndMnemonic {
                    data: vstd::slice::slice_to_vec(data.as_slice()),
                    codec: PickleCodec::MNEMONIC,
                },
            ),
            _ => Err(TalsiError::WrongValueType(PickleCodec::MNEMONIC)),
        }
    }

    /// Hands a stored pickle to the host.
    pub fn decode(data: Vec<u8>) -> (r: PyValue)
        ensures
            r@ == PyValueView::Pickle(data@),
    {
        PyValue::Pickle(data)
    }
}

impl JsonCodec {
    pub const MNEMONIC: CodecMnemonic = 74u8;

    /// Takes the JSON text out of a structured value; every other value is
    /// refused.
    pub fn encode(value: &PyValue) -> (r: Result<DataAndMnemonic, TalsiError>)
        ensures
            match value@ {
                PyValueView::Json(b) => r matches Ok(dm) && dm.data@ == b && dm.codec
                    == JsonCodec::MNEMONIC,
                _ => r == Err::<DataAndMnemonic, TalsiError>(
                    TalsiError::WrongValueType(JsonCodec::MNEMONIC),
                ),
            },
    {
        match value {
            PyValue::Json(data) => Ok(
                DataAndMnemonic {
                    data: vstd::slice::slice_to_vec(data.as_slice()),
                    codec: JsonCodec::MNEMONIC,
                },
            ),
            _ => Err(TalsiError::WrongValueType(JsonCodec::MNEMONIC)),
        }
    }

    /// Hands stored JSON text to the host.
    pub fn decode(data: Vec<u8>) -> (r: PyValue)
        ensures
            r@ == PyValueView::Json(data@),
    {
        PyValue::Json(data)
    }
}

impl BytesCodec {
    pub const MNEMONIC: CodecMnemonic = 66u8;

    /// Stores a byte string as it is; every other value is refused.
    pub fn encode(value: &PyValue) -> (r: Result<DataAndMnemonic, TalsiError>)
        ensures
            match value@ {
                PyValueView::Bytes(b) => r matches Ok(dm) && dm.data@ == b && dm.codec
                    == BytesCodec::MNEMONIC,
                _ => r == Err::<DataAndMnemonic, TalsiError>(
                    TalsiError::WrongValueType(BytesCodec::MNEMONIC),
                ),
            },
    {
        match value {
            PyValue::Bytes(data) => Ok(
                DataAndMnemonic {
                    data: vstd::slice::slice_to_vec(data.as_slice()),
                    codec: BytesCodec::MNEMONIC,
                },
            ),
            _ => Err(TalsiError::WrongValueType(BytesCodec::MNEMONIC)),
        }
    }

    /// Gives stored bytes back as a byte string.
    pub fn decode(data: Vec<u8>) -> (r: PyValue)
        ensures
            r@ == PyValueView::Bytes(data@),
    {
        PyValue::Bytes(data)
    }
}

impl UTF8Codec {
    pub const MNEMONIC: CodecMnemonic = 85u8;

    /// Stores text as its UTF-8 bytes; every other value is refused.
    pub fn encode(value: &PyValue) -> (r: Result<DataAndMnemonic, TalsiError>)
        ensures
            match value@ {
                PyValueView::Str(s) => r matches Ok(dm) && dm.data@ == encode_utf8(s) && dm.codec
                    == UTF8Codec::MNEMONIC,
                _ => r == Err::<DataAndMnemonic, TalsiError>(
                    TalsiError::WrongValueType(UTF8Codec::MNEMONIC),
                ),
            },
    {
        match value {
            PyValue::Str(s) => Ok(
                DataAndMnemonic { data: s.as_str().as_bytes_vec(), codec: UTF8Codec::MNEMONIC },
            ),
            _ => Err(TalsiError::WrongValueType(UTF8Codec::MNEMONIC)),
        }
    }

    /// Reads stored bytes as text.
    pub fn decode(data: Vec<u8>) -> (r: PyValue)
        ensures
            r@ == PyValueView::Str(text_decoded(data@)),
    {
        PyValue::Str(string_from_utf8_lossy(data.as_slice()))
    }
}

/// The mnemonic of the representation codec that encodes a value.
pub open spec fn py_mnemonic(value: PyValueView) -> CodecMnemonic {
    match value {
        PyValueView::Str(_) => UTF8Codec::MNEMONIC,
        PyValueView::Bytes(_) => BytesCodec::MNEMONIC,
        PyValueView::Json(_) => JsonCodec::MNEMONIC,
        PyValueView::Pickle(_) => PickleCodec::MNEMONIC,
    }
}

/// The bytes that its representation codec makes of a value.
pub open spec fn py_payload(value: PyValueView) -> Seq<u8> {
    match value {
        PyValueView::Str(s) => encode_utf8(s),
        PyValueView::Bytes(b) => b,
        PyValueView::Json(b) => b,
        PyValueView::Pickle(b) => b,
    }
}

/// Whether a store with this setting takes the value: a pickle only where
/// pickling is allowed.
pub open spec fn py_encodable(value: PyValueView, allow_pickle: bool) -> bool {
    value is Pickle ==> allow_pickle
}

/// The value that the representation codec `mnemonic` reads out of `data`, or
/// the failure that it ends in.
pub open spec fn py_decoded(mnemonic: CodecMnemonic, data: Seq<u8>, allow_pickle: bool) -> Result<
    PyValueView,
    TalsiError,
> {
    if mnemonic == PickleCodec::MNEMONIC {
        if allow_pickle {
            Ok(PyValueView::Pickle(data))
        } else {
            Err(TalsiError::PickleNotAllowed)
        }
    } else if mnemonic == JsonCodec::MNEMONIC {
        Ok(PyValueView::Json(data))
    } else if mnemonic == BytesCodec::MNEMONIC {
        Ok(PyValueView::Bytes(data))
    } else if mnemonic == UTF8Codec::MNEMONIC {
        Ok(PyValueView::Str(text_decoded(data)))
    } else {
        Err(TalsiError::UnknownPyMnemonic(mnemonic))
    }
}

/// The codec into whose form the host is to bring a value of this shape:
/// text and byte strings have their own; every other value is pickled where
/// that is allowed and written as JSON where it is not.
pub fn best_py_codec(shape: PyShape, allow_pickle: bool) -> (m: CodecMnemonic)
    ensures
        m == match shape {
            PyShape::Str => UTF8Codec::MNEMONIC,
            PyShape::Bytes => BytesCodec::MNEMONIC,
            PyShape::Other => if allow_pickle {
                PickleCodec::MNEMONIC
            } else {
                JsonCodec::MNEMONIC
            },
        },
{
    match shape {
        PyShape::Str => UTF8Codec::MNEMONIC,
        PyShape::Bytes => BytesCodec::MNEMONIC,
        PyShape::Other => if allow_pickle {
            PickleCodec::MNEMONIC
        } else {
            JsonCodec::MNEMONIC
        },
    }
}

/// Encodes a value with the representation codec of its form. A pickle is
/// refused by a store that does not allow pickling.
pub fn get_best_py_encoding(value: &PyValue, allow_pickle: bool) -> (r: Result<
    DataAndMnemonic,
    TalsiError,
>)
    ensures
        py_encodable(value@, allow_pickle) ==> (r matches Ok(dm) && dm.data@ == py_payload(value@)
            && dm.codec == py_mnemonic(value@)),
        !py_encodable(value@, allow_pickle) ==> r == Err::<DataAndMnemonic, TalsiError>(
            TalsiError::WrongValueType(PickleCodec::MNEMONIC),
        ),
{
    match value {
        PyValue::Str(_) => UTF8Codec::encode(value),
        PyValue::Bytes(_) => BytesCodec::encode(value),
        PyValue::Pickle(_) => {
            if allow_pickle {
                PickleCodec::encode(value)
            } else {
                Err(TalsiError::WrongValueType(PickleCodec::MNEMONIC))
            }
        },
        PyValue::Json(_) => JsonCodec::encode(value),
    }
}

/// Decodes a payload with the representation codec that its mnemonic names.
/// A pickle is not handed out by a store that does not allow pickling.
pub fn decode_to_python_from_data_and_mnemonic(
    data_and_mnemonic: DataAndMnemonic,
    allow_pickle: bool,
) -> (r: Result<PyValue, TalsiError>)
    ensures
        match py_decoded(data_and_mnemonic.codec, data_and_mnemonic.data@, allow_pickle) {
            Ok(value) => r matches Ok(v) && v@ == value,
            Err(e) => r == Err::<PyValue, TalsiError>(e),
        },
{
    let DataAndMnemonic { data, codec: mnemonic } = data_and_mnemonic;
    if mnemonic == PickleCodec::MNEMONIC {
        if allow_pickle {
            Ok(PickleCodec::decode(data))
        } else {
            Err(TalsiError::PickleNotAllowed)
        }
    } else if mnemonic == JsonCodec::MNEMONIC {
        Ok(JsonCodec::decode(data))
    } else if mnemonic == BytesCodec::MNEMONIC {
        Ok(BytesCodec::decode(data))
    } else if mnemonic == UTF8Codec::MNEMONIC {
        Ok(UTF8Codec::decode(data))
    } else {
        Err(TalsiError::UnknownPyMnemonic(mnemonic))
    }
}

} // verus!
