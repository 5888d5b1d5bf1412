//! The types that the codecs and the store share.

use vstd::prelude::*;
use smallvec::SmallVec;

verus! {

/// The byte that names a codec. Representation and compression codecs share
/// one space of mnemonics.
pub type CodecMnemonic = u8;

/// How many mnemonics a chain holds before it leaves its inline storage.
pub const CODECS_BLOB_CAPACITY: usize = 8;

/// A codec chain as it is stored beside a payload: the mnemonic of the
/// representation codec first, then those of the compression stages in the
/// order in which they were applied.
///
/// The bytes live in a `smallvec::SmallVec`, which Verus does not look into;
/// [`blob_codecs`] names them.
#[verifier::external_body]
#[derive(Debug, PartialEq, Eq)]
pub struct CodecsBlob {
    inner: SmallVec<[CodecMnemonic; CODECS_BLOB_CAPACITY]>,
}

/// The mnemonics that a [`CodecsBlob`] holds, first to last.
pub uninterp spec fn blob_codecs(blob: CodecsBlob) -> Seq<u8>;

impl View for CodecsBlob {
    type V = Seq<u8>;

    open spec fn view(&self) -> Seq<u8> {
        blob_codecs(*self)
    }
}

/// `SmallVec::from_slice`: the new vector holds a copy of the slice's items,
/// in the slice's order.
#[verifier::external_body]
pub(crate) fn blob_from_slice(codecs: &[CodecMnemonic]) -> (blob: CodecsBlob)
    ensures
        blob_codecs(blob) == codecs@,
{
    CodecsBlob { inner: SmallVec::from_slice(codecs) }
}

/// `SmallVec::as_slice`: the slice is the whole vector.
#[verifier::external_body]
pub(crate) fn blob_as_slice(blob: &CodecsBlob) -> (codecs: &[CodecMnemonic])
    ensures
        codecs@ == blob_codecs(*blob),
{
    blob.inner.as_slice()
}

impl CodecsBlob {
    /// A chain with the given mnemonics.
    pub fn from_slice(codecs: &[CodecMnemonic]) -> (blob: CodecsBlob)
        ensures
            blob@ == codecs@,
    {
        blob_from_slice(codecs)
    }

    /// The mnemonics of the chain, first to last.
    pub fn as_slice(&self) -> (codecs: &[CodecMnemonic])
        ensures
            codecs@ == self@,
    {
        blob_as_slice(self)
    }

    /// The number of mnemonics in the chain.
    pub fn len(&self) -> (n: usize)
        ensures
            n == self@.len(),
    {
        blob_as_slice(self).len()
    }
}

/// A payload and the one codec that produced it.
#[derive(Debug, Clone, PartialEq, Eq)]
pub struct DataAndMnemonic {
    pub data: Vec<u8>,
    pub codec: CodecMnemonic,
}

/// A payload and the chain of codecs that produced it.
#[derive(Debug, PartialEq, Eq)]
pub struct DataAndMnemonics {
    pub data: Vec<u8>,
    pub codecs: CodecsBlob,
}

impl DataAndMnemonics {
    /// The payload of one codec, with a chain of that codec alone.
    pub fn from_single(dm: DataAndMnemonic) -> (r: Self)
        ensures
            r.data@ == dm.data@,
            r.codecs@ == seq![dm.codec],
    {
        let DataAndMnemonic { data, codec } = dm;
        let chain: [CodecMnemonic; 1] = [codec];
        Self { data, codecs: blob_from_slice(chain.as_slice()) }
    }

    /// A payload with a chain of one codec.
    pub fn from_data(data: Vec<u8>, mnemonic: CodecMnemonic) -> (r: Self)
        ensures
            r.data@ == data@,
            r.codecs@ == seq![mnemonic],
    {
        let chain: [CodecMnemonic; 1] = [mnemonic];
        Self { data, codecs: blob_from_slice(chain.as_slice()) }
    }

    /// A payload with a chain of two codecs: `mnemonic1` was applied first.
    pub fn from_two(data: Vec<u8>, mnemonic1: CodecMnemonic, mnemonic2: CodecMnemonic) -> (r: Self)
        ensures
            r.data@ == data@,
            r.codecs@ == seq![mnemonic1, mnemonic2],
    {
        let chain: [CodecMnemonic; 2] = [mnemonic1, mnemonic2];
        Self { data, codecs: blob_from_slice(chain.as_slice()) }
    }
}

/// A namespace or a key as a caller gives it: text, or bytes that are to be
/// read as UTF-8 text.
#[derive(Debug, Clone, PartialEq, Eq)]
pub enum StringOrByteString {
    Text(String),
    Bytes(Vec<u8>),
}

} // verus!
