//! Laws of the codec chain: what is stored for a value decodes to the value.

use vstd::prelude::*;
use vstd::utf8::{encode_utf8_decode_utf8, encode_utf8_valid_utf8};
use crate::data_codecs::{
    checked, decompressed, restores, CompressionView, Decompressed, COMPRESSION_THRESHOLD,
};
use crate::error::{ErrorKind, TalsiError};
use crate::py_codecs::{py_encodable, py_payload, PickleCodec, PyValueView};
use crate::record::{chain_decoded, encoded_chain, encoded_payload, stages_undone, ChainDecoded};
use crate::typ::CodecMnemonic;

verus! {

/// A value that the store takes is read back unchanged: whenever something
/// is stored for a value, decoding it gives the value itself. This holds of
/// every value and every size, as compressed bytes are taken for storage
/// only after they were seen to decompress to the payload.
pub proof fn lemma_round_trip(value: PyValueView, allow_pickle: bool, compression: CompressionView)
    requires
        py_encodable(value, allow_pickle),
        encoded_payload(value, compression) is Some,
    ensures
        chain_decoded(
            encoded_chain(value, compression),
            encoded_payload(value, compression)->0,
            allow_pickle,
        ) == ChainDecoded::Value(value),
{
    let chain = encoded_chain(value, compression);
    let payload = py_payload(value);
    if let PyValueView::Str(s) = value {
        encode_utf8_valid_utf8(s);
        encode_utf8_decode_utf8(s);
    }
    if payload.len() < COMPRESSION_THRESHOLD {
        assert(chain.skip(1) =~= Seq::<CodecMnemonic>::empty());
    } else {
        let stages = chain.skip(1);
        assert(stages =~= seq![compression.mnemonic()]);
        assert(stages.drop_last() =~= Seq::<CodecMnemonic>::empty());
        assert(stages.last() == compression.mnemonic());
        assert(stages_undone(stages.drop_last(), payload) == Decompressed::Plain(payload));
    }
}

/// The compression stage of what is stored is undone to the payload of the
/// representation codec: whenever something is stored for a value, undoing
/// the stages that the chain names after its first mnemonic, last stage
/// first, gives the bytes that the representation codec made of the value.
pub proof fn lemma_stored_stages_are_undone(value: PyValueView, compression: CompressionView)
    requires
        encoded_payload(value, compression) is Some,
    ensures
        encoded_chain(value, compression)[0] == crate::py_codecs::py_mnemonic(value),
        stages_undone(
            encoded_chain(value, compression).skip(1),
            encoded_payload(value, compression)->0,
        ) == Decompressed::Plain(py_payload(value)),
{
    let chain = encoded_chain(value, compression);
    let payload = py_payload(value);
    if payload.len() < COMPRESSION_THRESHOLD {
        assert(chain.skip(1) =~= Seq::<CodecMnemonic>::empty());
    } else {
        let stages = chain.skip(1);
        assert(stages =~= seq![compression.mnemonic()]);
        assert(stages.drop_last() =~= Seq::<CodecMnemonic>::empty());
        assert(stages.last() == compression.mnemonic());
        assert(stages_undone(stages.drop_last(), payload) == Decompressed::Plain(payload));
    }
}

/// The stored chain names the representation codec alone below the
/// compression threshold, and the representation codec followed by the
/// store's compression codec from the threshold on.
pub proof fn lemma_chain_length(value: PyValueView, compression: CompressionView)
    ensures
        py_payload(value).len() < COMPRESSION_THRESHOLD ==> encoded_chain(value, compression).len()
            == 1,
        py_payload(value).len() >= COMPRESSION_THRESHOLD ==> encoded_chain(
            value,
            compression,
        ).len() == 2,
{
}

/// What a payload becomes when the codecs of `stages` compress it one after
/// the other, the first of them first, each stage taken as the store takes
/// compressed bytes. `None` where a stage makes nothing that can be taken.
pub open spec fn stages_applied(stages: Seq<CompressionView>, payload: Seq<u8>) -> Option<Seq<u8>>
    decreases stages.len(),
{
    if stages.len() == 0 {
        Some(payload)
    } else {
        match stages_applied(stages.drop_last(), payload) {
            Some(inner) => checked(stages.last(), inner),
            None => None,
        }
    }
}

/// The mnemonics of a sequence of compression codecs.
pub open spec fn mnemonics_of(stages: Seq<CompressionView>) -> Seq<CodecMnemonic> {
    stages.map_values(|c: CompressionView| c.mnemonic())
}

/// A chain of any number of compression stages is undone in reverse: undoing
/// the stages of a payload that went through all of them, last stage first,
/// gives the payload back.
pub proof fn lemma_stages_undone_in_reverse(stages: Seq<CompressionView>, payload: Seq<u8>)
    requires
        stages_applied(stages, payload) is Some,
    ensures
        stages_undone(mnemonics_of(stages), stages_applied(stages, payload)->0)
            == Decompressed::Plain(payload),
    decreases stages.len(),
{
    if stages.len() > 0 {
        let inner = stages.drop_last();
        lemma_stages_undone_in_reverse(inner, payload);
        assert(mnemonics_of(stages).drop_last() =~= mnemonics_of(inner));
        assert(mnemonics_of(stages).last() == stages.last().mnemonic());
    }
}

/// A store that does not allow pickling hands out no pickle: a record whose
/// chain begins with the pickle codec, and whose compression stages can be
/// undone, fails to decode, and the failure is of the kind that says so.
pub proof fn lemma_pickle_gate(chain: Seq<CodecMnemonic>, payload: Seq<u8>)
    requires
        chain.len() > 0,
        chain[0] == PickleCodec::MNEMONIC,
        stages_undone(chain.skip(1), payload) is Plain,
    ensures
        chain_decoded(chain, payload, false) == ChainDecoded::Failed(TalsiError::PickleNotAllowed),
        TalsiError::PickleNotAllowed.spec_kind() == ErrorKind::DecodeDisallowed,
{
}

/// A pickle that a store wrote is not handed out by a store that does not
/// allow pickling: whatever its size, reading what was stored for it ends in
/// the failure that says so.
pub proof fn lemma_written_pickle_is_not_read(pickle: Seq<u8>, compression: CompressionView)
    requires
        encoded_payload(PyValueView::Pickle(pickle), compression) is Some,
    ensures
        chain_decoded(
            encoded_chain(PyValueView::Pickle(pickle), compression),
            encoded_payload(PyValueView::Pickle(pickle), compression)->0,
            false,
        ) == ChainDecoded::Failed(TalsiError::PickleNotAllowed),
{
    let value = PyValueView::Pickle(pickle);
    let chain = encoded_chain(value, compression);
    if pickle.len() < COMPRESSION_THRESHOLD {
        assert(chain.skip(1) =~= Seq::<CodecMnemonic>::empty());
    } else {
        let stages = chain.skip(1);
        assert(stages =~= seq![compression.mnemonic()]);
        assert(stages.drop_last() =~= Seq::<CodecMnemonic>::empty());
        assert(stages.last() == compression.mnemonic());
        assert(stages_undone(stages.drop_last(), pickle) == Decompressed::Plain(pickle));
    }
}

} // verus!
