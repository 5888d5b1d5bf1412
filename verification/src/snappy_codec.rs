//! The framed Snappy codec, on top of the `snap` crate.

use vstd::prelude::*;
use crate::error::TalsiError;
use crate::typ::{CodecMnemonic, DataAndMnemonic};

verus! {

/// The Snappy frame stream into which `snap`'s frame encoder turns a byte
/// string.
pub uninterp spec fn snappy_frame_encoded(data: Seq<u8>) -> Seq<u8>;

/// What `snap`'s frame decoder reads out of a byte string: the plain bytes,
/// or `None` where it rejects the stream.
pub uninterp spec fn snappy_frame_decoded(data: Seq<u8>) -> Option<Seq<u8>>;

/// `snap::write::FrameEncoder` over a `Vec<u8>`: all of `data` is written, the
/// encoder is flushed and the vector taken back, which then holds the frame
/// stream of `data`. Neither step fails here: a `Vec` takes every write, and
/// the encoder refuses only a block of more than 65536 bytes or an output
/// buffer too small for one, and it cuts its input into blocks of that size
/// at most and keeps a buffer large enough for any of them.
#[verifier::external_body]
fn snappy_compress(data: &[u8]) -> (r: Result<Vec<u8>, String>)
    ensures
        r is Ok,
        r matches Ok(v) ==> v@ == snappy_frame_encoded(data@),
{
    let mut wtr = snap::write::FrameEncoder::new(Vec::new());
    match std::io::Write::write_all(&mut wtr, data) {
        Ok(()) => match wtr.into_inner() {
            Ok(v) => Ok(v),
            Err(e) => Err(e.to_string()),
        },
        Err(e) => Err(e.to_string()),
    }
}

/// `snap::read::FrameDecoder` over a byte slice, read to its end. The decoder
/// reads memory alone, so whether it succeeds and what it gives depend on the
/// bytes only.
#[verifier::external_body]
fn snappy_decompress(data: &[u8]) -> (r: Result<Vec<u8>, String>)
    ensures
        r matches Ok(v) ==> snappy_frame_decoded(data@) == Some(v@),
        r is Err ==> snappy_frame_decoded(data@) is None,
{
    let mut rdr = snap::read::FrameDecoder::new(data);
    let mut plain = Vec::new();
    match std::io::Read::read_to_end(&mut rdr, &mut plain) {
        Ok(_) => Ok(plain),
        Err(e) => Err(e.to_string()),
    }
}

/// The framed Snappy codec: fast, with no setting to choose.
#[derive(Debug, Clone, Copy, PartialEq, Eq, Structural)]
pub struct SnappyCodec;

impl SnappyCodec {
    pub const MNEMONIC: CodecMnemonic = 115u8;

    /// Compresses `data` into a Snappy frame stream. This never fails.
    pub fn encode(&self, data: &[u8]) -> (r: Result<DataAndMnemonic, TalsiError>)
        ensures
            r matches Ok(dm) && dm.codec == SnappyCodec::MNEMONIC && dm.data@
                == snappy_frame_encoded(data@),
    {
        match snappy_compress(data) {
            Ok(compressed) => Ok(DataAndMnemonic { data: compressed, codec: SnappyCodec::MNEMONIC }),
            Err(message) => Err(TalsiError::Encoding(message)),
        }
    }

    /// Reads the plain bytes back out of a Snappy frame stream.
    pub fn decode(&self, data: &[u8]) -> (r: Result<Vec<u8>, TalsiError>)
        ensures
            match snappy_frame_decoded(data@) {
                Some(plain) => r matches Ok(v) && v@ == plain,
                None => r matches Err(e) && e is Encoding,
            },
    {
        match snappy_decompress(data) {
            Ok(plain) => Ok(plain),
            Err(message) => Err(TalsiError::Encoding(message)),
        }
    }
}

} // verus!
