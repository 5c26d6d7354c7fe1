//! Decoding a record's text from a raw transaction payload: the payload must
//! be valid UTF-8, NUL characters are dropped, surrounding whitespace is
//! trimmed, and an empty result is rejected.

use vstd::prelude::*;
use vstd::utf8::{decode_utf8, valid_utf8};
use crate::model::lemma_filter_push;
use crate::text::{is_space_char, push_char, trim_spec};

verus! {

/// Why a payload yields no message.
#[derive(Clone, Copy, PartialEq, Eq, Structural, Debug)]
pub enum ExtractError {
    /// The payload is not valid UTF-8.
    InvalidUtf8,
    /// The payload decodes to nothing but NUL characters and whitespace.
    EmptyMessage,
}

/// The predicate that dropping NUL characters keeps the others by.
pub open spec fn keeps_non_nul() -> spec_fn(char) -> bool {
    |c: char| c != '\u{0}'
}

/// The message a payload carries: its UTF-8 decoding with NUL characters
/// dropped and surrounding whitespace trimmed; an error when the payload is
/// not UTF-8 or nothing is left.
pub open spec fn extract_spec(bytes: Seq<u8>) -> Result<Seq<char>, ExtractError> {
    if !valid_utf8(bytes) {
        Err(ExtractError::InvalidUtf8)
    } else {
        let m = trim_spec(decode_utf8(bytes).filter(keeps_non_nul()));
        if m.len() == 0 {
            Err(ExtractError::EmptyMessage)
        } else {
            Ok(m)
        }
    }
}

/// Relies on std::str::from_utf8: it succeeds exactly on valid UTF-8 input
/// and returns the characters that input encodes, which vstd's UTF-8 model
/// writes `decode_utf8`.
#[verifier::external_body]
fn decode_utf8_bytes(bytes: &Vec<u8>) -> (r: Option<String>)
    ensures
        r is Some <==> valid_utf8(bytes@),
        r matches Some(s) ==> s@ == decode_utf8(bytes@),
{
    match std::str::from_utf8(bytes.as_slice()) {
        Ok(s) => Some(s.to_owned()),
        Err(_) => None,
    }
}

/// Decode the message of one transaction payload: UTF-8 only, NUL characters
/// dropped, surrounding whitespace trimmed. Returns `Ok` exactly when the
/// payload is valid UTF-8 and something is left after cleaning.
pub fn extract_message(input: Vec<u8>) -> (r: Result<String, ExtractError>)
    ensures
        r is Ok <==> extract_spec(input@) is Ok,
        r matches Ok(s) ==> s@ == extract_spec(input@)->Ok_0,
        r matches Err(e) ==> e == extract_spec(input@)->Err_0,
{
    let decoded = match decode_utf8_bytes(&input) {
        Some(s) => s,
        None => {
            return Err(ExtractError::InvalidUtf8);
        },
    };
    let ghost dec = decoded@;
    let n = decoded.as_str().unicode_len();
    let mut kept: Vec<char> = Vec::new();
    let mut i: usize = 0;
    while i < n
        invariant
            n == dec.len(),
            dec == decoded@,
            0 <= i <= n,
            kept@ == dec.subrange(0, i as int).filter(keeps_non_nul()),
        decreases n - i,
    {
        let c = decoded.as_str().get_char(i);
        proof {
            assert(dec.subrange(0, i + 1) =~= dec.subrange(0, i as int).push(dec[i as int]));
            lemma_filter_push(dec.subrange(0, i as int), dec[i as int], keeps_non_nul());
        }
        if c != '\u{0}' {
            kept.push(c);
        }
        i += 1;
    }
    proof {
        assert(dec.subrange(0, n as int) =~= dec);
    }
    let ghost stripped = dec.filter(keeps_non_nul());
    // trim the kept characters
    let m = kept.len();
    let mut a: usize = 0;
    while a < m && is_space_char(kept[a])
        invariant
            m == kept@.len(),
            kept@ == stripped,
            0 <= a <= m,
            crate::text::space_prefix_end(stripped, 0) == crate::text::space_prefix_end(
                stripped,
                a as int,
            ),
        decreases m - a,
    {
        a += 1;
    }
    assert(crate::text::space_prefix_end(stripped, 0) == a);
    let mut b: usize = m;
    while b > a && is_space_char(kept[b - 1])
        invariant
            m == kept@.len(),
            kept@ == stripped,
            a <= b <= m,
            crate::text::space_suffix_start(stripped, m as int) == crate::text::space_suffix_start(
                stripped,
                b as int,
            ),
        decreases b,
    {
        b -= 1;
    }
    let mut out = String::new();
    if b <= a {
        proof {
            crate::text::lemma_suffix_start_le(stripped, b as int);
            assert(trim_spec(stripped) =~= Seq::<char>::empty());
        }
        return Err(ExtractError::EmptyMessage);
    }
    assert(crate::text::space_suffix_start(stripped, b as int) == b);
    let mut k: usize = a;
    while k < b
        invariant
            m == kept@.len(),
            kept@ == stripped,
            a <= k <= b <= m,
            out@ == stripped.subrange(a as int, k as int),
        decreases b - k,
    {
        proof {
            assert(stripped.subrange(a as int, k + 1) =~= stripped.subrange(a as int, k as int).push(
                stripped[k as int],
            ));
        }
        push_char(&mut out, kept[k]);
        k += 1;
    }
    Ok(out)
}

} // verus!
