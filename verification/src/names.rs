//! Namespaces and keys, which come as text or as bytes to be read as text.

use vstd::prelude::*;
use vstd::utf8::{decode_utf8, valid_utf8};
use crate::error::TalsiError;
use crate::text::str_from_utf8;
use crate::typ::StringOrByteString;

verus! {

/// The text of a namespace or key: the text itself, or what the bytes encode
/// where they are well-formed UTF-8. Other bytes name nothing.
pub open spec fn name_of(sobs: StringOrByteString) -> Option<Seq<char>> {
    match sobs {
        StringOrByteString::Text(s) => Some(s@),
        StringOrByteString::Bytes(b) => if valid_utf8(b@) {
            Some(decode_utf8(b@))
        } else {
            None
        },
    }
}

/// Whether each of the names is text.
pub open spec fn all_named(sobses: Seq<StringOrByteString>) -> bool {
    forall|i: int| 0 <= i < sobses.len() ==> name_of(#[trigger] sobses[i]) is Some
}

/// The texts of names.
pub open spec fn names_of(sobses: Seq<StringOrByteString>) -> Seq<Seq<char>> {
    sobses.map_values(|sobs: StringOrByteString| name_of(sobs)->0)
}

/// Reads a namespace or key as text.
pub fn string_or_bytestring_as_string(sobs: StringOrByteString) -> (r: Result<String, TalsiError>)
    ensures
        match name_of(sobs) {
            Some(text) => r matches Ok(s) && s@ == text,
            None => r == Err::<String, TalsiError>(TalsiError::InvalidUtf8),
        },
{
    match sobs {
        StringOrByteString::Text(s) => Ok(s),
        StringOrByteString::Bytes(b) => match str_from_utf8(b.as_slice()) {
            Some(s) => Ok(s.to_owned()),
            None => Err(TalsiError::InvalidUtf8),
        },
    }
}

/// Reads a namespace or key as text, leaving the given value in place.
pub fn name_text(sobs: &StringOrByteString) -> (r: Result<String, TalsiError>)
    ensures
        match name_of(*sobs) {
            Some(text) => r matches Ok(s) && s@ == text,
            None => r == Err::<String, TalsiError>(TalsiError::InvalidUtf8),
        },
{
    match sobs {
        StringOrByteString::Text(s) => Ok(s.clone()),
        StringOrByteString::Bytes(b) => match str_from_utf8(b.as_slice()) {
            Some(s) => Ok(s.to_owned()),
            None => Err(TalsiError::InvalidUtf8),
        },
    }
}

/// Reads each of the names as text, in their order. One name that is not
/// text fails them all.
pub fn strings_or_bytestrings_as_strings(sobses: Vec<StringOrByteString>) -> (r: Result<
    Vec<String>,
    TalsiError,
>)
    ensures
        all_named(sobses@) ==> (r matches Ok(names) && crate::ops::texts(names@) == names_of(
            sobses@,
        )),
        !all_named(sobses@) ==> r == Err::<Vec<String>, TalsiError>(TalsiError::InvalidUtf8),
{
    let mut res: Vec<String> = Vec::with_capacity(sobses.len());
    let mut i: usize = 0;
    while i < sobses.len()
        invariant
            i <= sobses.len(),
            all_named(sobses@.take(i as int)),
            crate::ops::texts(res@) == names_of(sobses@.take(i as int)),
        decreases sobses.len() - i,
    {
        let ghost earlier = crate::ops::texts(res@);
        match name_text(&sobses[i]) {
            Ok(name) => {
                res.push(name);
                proof {
                    assert(crate::ops::texts(res@) =~= earlier.push(name_of(sobses@[i as int])->0));
                }
            },
            Err(e) => {
                return Err(e);
            },
        }
        i += 1;
        proof {
            let done = sobses@.take(i as int);
            assert(done.drop_last() =~= sobses@.take(i - 1));
            assert forall|k: int| 0 <= k < done.len() implies name_of(#[trigger] done[k]) is Some by {
                if k < i - 1 {
                    assert(done[k] == sobses@.take(i - 1)[k]);
                }
            }
            assert(names_of(done) =~= names_of(done.drop_last()).push(name_of(done.last())->0));
            assert(crate::ops::texts(res@) =~= names_of(done));
        }
    }
    proof {
        assert(sobses@.take(sobses@.len() as int) =~= sobses@);
    }
    Ok(res)
}

} // verus!
