//! The compression stage: which codec a selector names, when a payload is
//! compressed, and how one stage is undone.

use vstd::prelude::*;
use crate::error::TalsiError;
use crate::snappy_codec::{snappy_frame_decoded, snappy_frame_encoded, SnappyCodec};
use crate::text::{chars_equal, chars_of, chars_start_with};
use crate::typ::{CodecMnemonic, DataAndMnemonic};
use crate::zstd_codec::{zstd_compressed, zstd_decompressed, ZstdCodec, DEFAULT_ZSTD_LEVEL};

verus! {

/// Payloads of fewer bytes than this are stored as they are.
pub const COMPRESSION_THRESHOLD: usize = 1024;

/// The compression codec that a store applies to new writes.
#[derive(Debug, Clone, Copy, PartialEq, Eq)]
pub enum Compression {
    Snappy,
    Zstd(ZstdCodec),
}

/// A compression codec as contracts see it.
pub enum CompressionView {
    Snappy,
    Zstd { level: int },
}

impl View for Compression {
    type V = CompressionView;

    open spec fn view(&self) -> CompressionView {
        match *self {
            Compression::Snappy => CompressionView::Snappy,
            Compression::Zstd(codec) => CompressionView::Zstd { level: codec.spec_level() as int },
        }
    }
}

impl CompressionView {
    /// The mnemonic under which this codec's output is stored.
    pub open spec fn mnemonic(self) -> CodecMnemonic {
        match self {
            CompressionView::Snappy => SnappyCodec::MNEMONIC,
            CompressionView::Zstd { .. } => ZstdCodec::MNEMONIC,
        }
    }

    /// The bytes that this codec makes of `data`, or `None` where it does
    /// not compress them. Snappy compresses every byte string.
    pub open spec fn compressed(self, data: Seq<u8>) -> Option<Seq<u8>> {
        match self {
            CompressionView::Snappy => Some(snappy_frame_encoded(data)),
            CompressionView::Zstd { level } => zstd_compressed(level, data),
        }
    }
}

/// Whether `c` is one of the characters `0` to `9`.
pub open spec fn is_digit(c: char) -> bool {
    48 <= c as u32 <= 57
}

/// The number that a string of digits writes in base ten.
pub open spec fn decimal_value(digits: Seq<char>) -> nat
    decreases digits.len(),
{
    if digits.len() == 0 {
        0
    } else {
        (decimal_value(digits.drop_last()) * 10 + (digits.last() as u32 - 48)) as nat
    }
}

/// The level that the text after `zstd:` names: one digit or more, no sign
/// and no blank, with a value from 1 to 22.
pub open spec fn level_named(digits: Seq<char>) -> Option<int> {
    if digits.len() > 0 && (forall|i: int| 0 <= i < digits.len() ==> is_digit(#[trigger] digits[i]))
        && 1 <= decimal_value(digits) <= 22 {
        Some(decimal_value(digits) as int)
    } else {
        None
    }
}

/// The codec that a selector names, or `None` where it names none.
pub open spec fn compression_named(selector: Seq<char>) -> Option<CompressionView> {
    if selector == "snappy"@ {
        Some(CompressionView::Snappy)
    } else if selector == "zstd"@ {
        Some(CompressionView::Zstd { level: DEFAULT_ZSTD_LEVEL as int })
    } else if "zstd:"@.is_prefix_of(selector) {
        match level_named(selector.skip("zstd:"@.len() as int)) {
            Some(level) => Some(CompressionView::Zstd { level }),
            None => None,
        }
    } else {
        None
    }
}

proof fn lemma_decimal_value_grows(digits: Seq<char>)
    requires
        digits.len() > 0,
        is_digit(digits.last()),
    ensures
        decimal_value(digits) >= decimal_value(digits.drop_last()),
        decimal_value(digits) == decimal_value(digits.drop_last()) * 10 + (digits.last() as u32 - 48),
{
}

/// Reads the level out of `chars[from..]`.
fn parse_level(chars: &Vec<char>, from: usize) -> (r: Option<i32>)
    requires
        from <= chars.len(),
    ensures
        match level_named(chars@.skip(from as int)) {
            Some(level) => r == Some(level as i32),
            None => r is None,
        },
{
    let ghost digits = chars@.skip(from as int);
    if from == chars.len() {
        return None;
    }
    // `value` follows the digits read so far, held at 23 once it has passed 22.
    let mut value: i32 = 0;
    let mut i: usize = from;
    while i < chars.len()
        invariant
            from <= i <= chars.len(),
            digits == chars@.skip(from as int),
            forall|k: int| 0 <= k < i - from ==> is_digit(#[trigger] digits[k]),
            0 <= value <= 23,
            value < 23 ==> value == decimal_value(digits.take(i - from)),
            value == 23 ==> decimal_value(digits.take(i - from)) >= 23,
        decreases chars.len() - i,
    {
        let c = chars[i];
        let code: u32 = c as u32;
        if code < 48 || code > 57 {
            proof {
                assert(digits[i - from] == c);
                assert(!is_digit(digits[i - from]));
            }
            return None;
        }
        let digit: i32 = (code - 48) as i32;
        proof {
            let next = digits.take(i - from + 1);
            assert(next.drop_last() == digits.take(i - from));
            assert(next.last() == c);
            lemma_decimal_value_grows(next);
        }
        if value >= 3 {
            value = 23;
        } else {
            value = value * 10 + digit;
            if value > 22 {
                value = 23;
            }
        }
        i += 1;
    }
    proof {
        assert(digits.take(chars.len() - from) == digits);
    }
    if value < 1 || value > 22 {
        None
    } else {
        Some(value)
    }
}

impl Compression {
    /// The codec that a selector names: `snappy`, `zstd` for Zstandard at its
    /// default level, or `zstd:<level>` with a level from 1 to 22 written in
    /// digits. Every other selector is refused.
    pub fn parse(selector: &str) -> (r: Result<Compression, TalsiError>)
        ensures
            match compression_named(selector@) {
                Some(choice) => r matches Ok(c) && c@ == choice,
                None => r == Err::<Compression, TalsiError>(TalsiError::InvalidCompression),
            },
    {
        let chars = chars_of(selector);
        let snappy = chars_of("snappy");
        let zstd = chars_of("zstd");
        let zstd_with_level = chars_of("zstd:");
        if chars_equal(&chars, &snappy) {
            return Ok(Compression::Snappy);
        }
        if chars_equal(&chars, &zstd) {
            return Ok(Compression::Zstd(ZstdCodec::new_default()));
        }
        if !chars_start_with(&chars, &zstd_with_level) {
            return Err(TalsiError::InvalidCompression);
        }
        let n: usize = zstd_with_level.len();
        match parse_level(&chars, n) {
            Some(level) => Ok(Compression::Zstd(ZstdCodec::new(level))),
            None => Err(TalsiError::InvalidCompression),
        }
    }

    /// The mnemonic under which this codec's output is stored.
    pub fn mnemonic(&self) -> (m: CodecMnemonic)
        ensures
            m == self@.mnemonic(),
    {
        match self {
            Compression::Snappy => SnappyCodec::MNEMONIC,
            Compression::Zstd(_) => ZstdCodec::MNEMONIC,
        }
    }

    /// Reads the plain bytes back out of what this codec made.
    pub fn decode(&self, data: &[u8]) -> (r: Result<Vec<u8>, TalsiError>)
        ensures
            match decompressed(self@.mnemonic(), data@) {
                Decompressed::Plain(plain) => r matches Ok(v) && v@ == plain,
                _ => r matches Err(e) && e is Encoding,
            },
    {
        match self {
            Compression::Snappy => SnappyCodec.decode(data),
            Compression::Zstd(codec) => codec.decode(data),
        }
    }

    /// Compresses `data` with this codec.
    pub fn encode(&self, data: &[u8]) -> (r: Result<DataAndMnemonic, TalsiError>)
        ensures
            match self@.compressed(data@) {
                Some(bytes) => r matches Ok(dm) && dm.codec == self@.mnemonic() && dm.data@
                    == bytes,
                None => r matches Err(e) && e is Encoding,
            },
    {
        match self {
            Compression::Snappy => SnappyCodec.encode(data),
            Compression::Zstd(codec) => codec.encode(data),
        }
    }
}

/// What undoing compression makes of stored bytes.
pub enum Decompressed {
    /// The stage's codec read these plain bytes.
    Plain(Seq<u8>),
    /// The stage's codec rejected the bytes.
    Rejected,
    /// No compression codec has this mnemonic.
    UnknownMnemonic(CodecMnemonic),
}

/// Undoes one compression stage.
pub open spec fn decompressed(mnemonic: CodecMnemonic, data: Seq<u8>) -> Decompressed {
    if mnemonic == SnappyCodec::MNEMONIC {
        match snappy_frame_decoded(data) {
            Some(plain) => Decompressed::Plain(plain),
            None => Decompressed::Rejected,
        }
    } else if mnemonic == ZstdCodec::MNEMONIC {
        match zstd_decompressed(data) {
            Some(plain) => Decompressed::Plain(plain),
            None => Decompressed::Rejected,
        }
    } else {
        Decompressed::UnknownMnemonic(mnemonic)
    }
}

/// Whether undoing `compression` on what it makes of `payload` gives
/// `payload` back.
pub open spec fn restores(compression: CompressionView, payload: Seq<u8>) -> bool {
    compression.compressed(payload) matches Some(bytes) && decompressed(
        compression.mnemonic(),
        bytes,
    ) == Decompressed::Plain(payload)
}

/// What is said where compressed bytes do not decompress to what was
/// compressed.
pub const NOT_RESTORED: &'static str = "the compressed payload does not decompress to its input";

/// The compressed bytes that are taken for storage: what the codec makes of
/// `data`, where it makes something and undoing it gives `data` back.
pub open spec fn checked(compression: CompressionView, data: Seq<u8>) -> Option<Seq<u8>> {
    if restores(compression, data) {
        compression.compressed(data)
    } else {
        None
    }
}

fn bytes_equal(a: &[u8], b: &[u8]) -> (r: bool)
    ensures
        r == (a@ == b@),
{
    if a.len() != b.len() {
        return false;
    }
    let mut i: usize = 0;
    while i < a.len()
        invariant
            i <= a.len(),
            a@.len() == b@.len(),
            forall|k: int| 0 <= k < i ==> a@[k] == b@[k],
        decreases a.len() - i,
    {
        if a[i] != b[i] {
            return false;
        }
        i += 1;
    }
    proof {
        assert(a@ =~= b@);
    }
    true
}

/// Compresses a payload if it is worth it: one of [`COMPRESSION_THRESHOLD`]
/// bytes or more goes through `compression`, a smaller one is left alone and
/// `None` is returned. What was compressed is decompressed again and held
/// against the payload before it is taken, so that nothing is stored that
/// would not be read back; compressed bytes that fail this are refused.
pub fn get_best_data_encoding(data: &[u8], compression: &Compression) -> (r: Result<
    Option<DataAndMnemonic>,
    TalsiError,
>)
    ensures
        data@.len() < COMPRESSION_THRESHOLD ==> r matches Ok(None),
        data@.len() >= COMPRESSION_THRESHOLD ==> match checked(compression@, data@) {
            Some(bytes) => r matches Ok(Some(dm)) && dm.codec == compression@.mnemonic()
                && dm.data@ == bytes,
            None => r matches Err(e) && e is Encoding,
        },
{
    if data.len() < COMPRESSION_THRESHOLD {
        return Ok(None);
    }
    let dm = match compression.encode(data) {
        Ok(dm) => dm,
        Err(e) => {
            return Err(e);
        },
    };
    match compression.decode(dm.data.as_slice()) {
        Ok(plain) => {
            if bytes_equal(plain.as_slice(), data) {
                Ok(Some(dm))
            } else {
                Err(TalsiError::Encoding(String::from_str(NOT_RESTORED)))
            }
        },
        Err(e) => Err(e),
    }
}

/// Undoes the compression stage that `data_and_mnemonic` names.
pub fn decode_from_data_and_mnemonic(data_and_mnemonic: DataAndMnemonic) -> (r: Result<
    Vec<u8>,
    TalsiError,
>)
    ensures
        match decompressed(data_and_mnemonic.codec, data_and_mnemonic.data@) {
            Decompressed::Plain(plain) => r matches Ok(v) && v@ == plain,
            Decompressed::Rejected => r matches Err(e) && e is Encoding,
            Decompressed::UnknownMnemonic(m) => r == Err::<Vec<u8>, TalsiError>(
                TalsiError::UnknownDataMnemonic(m),
            ),
        },
{
    let DataAndMnemonic { data, codec: mnemonic } = data_and_mnemonic;
    if mnemonic == SnappyCodec::MNEMONIC {
        SnappyCodec.decode(data.as_slice())
    } else if mnemonic == ZstdCodec::MNEMONIC {
        ZstdCodec::new_default().decode(data.as_slice())
    } else {
        Err(TalsiError::UnknownDataMnemonic(mnemonic))
    }
}

} // verus!
