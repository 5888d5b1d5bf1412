//! The Zstandard codec, on top of the `zstd` crate.

use vstd::prelude::*;
use crate::error::TalsiError;
use crate::typ::{CodecMnemonic, DataAndMnemonic};

verus! {

/// The highest level that Zstandard compresses at.
pub const MAX_ZSTD_LEVEL: usize = 22;

/// The level used where the selector names none.
pub const DEFAULT_ZSTD_LEVEL: i32 = 3;

/// The Zstandard frame that `zstd` makes of a byte string at a level, or
/// `None` where it does not compress the bytes.
pub uninterp spec fn zstd_compressed(level: int, data: Seq<u8>) -> Option<Seq<u8>>;

/// What `zstd` reads out of a byte string: the plain bytes, or `None` where
/// it rejects the input.
pub uninterp spec fn zstd_decompressed(data: Seq<u8>) -> Option<Seq<u8>>;

/// `zstd::bulk::compress`: a new compressor at `level` compresses `data` in
/// one piece, into a buffer of the size that the library itself asks for.
/// Whether it succeeds and what it gives depend on the level and the bytes
/// only; a failure is handed on as its message.
#[verifier::external_body]
fn zstd_compress(level: i32, data: &[u8]) -> (r: Result<Vec<u8>, String>)
    ensures
        r matches Ok(v) ==> zstd_compressed(level as int, data@) == Some(v@),
        r is Err ==> zstd_compressed(level as int, data@) is None,
{
    match zstd::bulk::compress(data, level) {
        Ok(v) => Ok(v),
        Err(e) => Err(e.to_string()),
    }
}

/// `zstd::decode_all` over a byte slice. It reads memory alone, so whether it
/// succeeds and what it gives depend on the bytes only.
#[verifier::external_body]
fn zstd_decompress(data: &[u8]) -> (r: Result<Vec<u8>, String>)
    ensures
        r matches Ok(v) ==> zstd_decompressed(data@) == Some(v@),
        r is Err ==> zstd_decompressed(data@) is None,
{
    match zstd::decode_all(data) {
        Ok(v) => Ok(v),
        Err(e) => Err(e.to_string()),
    }
}

/// The Zstandard codec at one level, which is always from 1 to
/// [`MAX_ZSTD_LEVEL`].
#[derive(Debug, Clone, Copy, PartialEq, Eq)]
pub struct ZstdCodec {
    level: i32,
}

impl ZstdCodec {
    pub const MNEMONIC: CodecMnemonic = 122u8;

    #[verifier::type_invariant]
    spec fn level_in_range(self) -> bool {
        1 <= self.level <= MAX_ZSTD_LEVEL
    }

    /// The level that this codec compresses at.
    pub closed spec fn spec_level(&self) -> i32 {
        self.level
    }

    /// A codec at the default level.
    pub fn new_default() -> (r: Self)
        ensures
            r.spec_level() == DEFAULT_ZSTD_LEVEL,
    {
        ZstdCodec { level: DEFAULT_ZSTD_LEVEL }
    }

    /// A codec at `level`, which the caller has checked.
    pub fn new(level: i32) -> (r: Self)
        requires
            1 <= level <= MAX_ZSTD_LEVEL,
        ensures
            r.spec_level() == level,
    {
        ZstdCodec { level }
    }

    /// A codec at `level`, if that is a level of Zstandard.
    pub fn checked_new(level: i32) -> (r: Option<Self>)
        ensures
            r is Some <==> 1 <= level <= MAX_ZSTD_LEVEL,
            r matches Some(c) ==> c.spec_level() == level,
    {
        if level < 1 || level > 22 {
            None
        } else {
            Some(ZstdCodec::new(level))
        }
    }

    /// The level that this codec compresses at.
    #[verifier::when_used_as_spec(spec_level)]
    pub fn level(&self) -> (l: i32)
        ensures
            l == self.spec_level(),
            1 <= l <= MAX_ZSTD_LEVEL,
    {
        proof {
            use_type_invariant(self);
        }
        self.level
    }

    /// Compresses `data` at this codec's level.
    pub fn encode(&self, data: &[u8]) -> (r: Result<DataAndMnemonic, TalsiError>)
        ensures
            match zstd_compressed(self.spec_level() as int, data@) {
                Some(frame) => r matches Ok(dm) && dm.codec == ZstdCodec::MNEMONIC && dm.data@
                    == frame,
                None => r matches Err(e) && e is Encoding,
            },
    {
        match zstd_compress(self.level, data) {
            Ok(compressed) => Ok(DataAndMnemonic { data: compressed, codec: ZstdCodec::MNEMONIC }),
            Err(message) => Err(TalsiError::Encoding(message)),
        }
    }

    /// Reads the plain bytes back out of a Zstandard frame.
    pub fn decode(&self, data: &[u8]) -> (r: Result<Vec<u8>, TalsiError>)
        ensures
            match zstd_decompressed(data@) {
                Some(plain) => r matches Ok(v) && v@ == plain,
                None => r matches Err(e) && e is Encoding,
            },
    {
        match zstd_decompress(data) {
            Ok(plain) => Ok(plain),
            Err(message) => Err(TalsiError::Encoding(message)),
        }
    }
}

} // verus!
