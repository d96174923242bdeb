//! Planning clipboard writes and decoding clipboard reads.
//!
//! Writing hands the operating system, for each requested format, a numeric
//! format identifier and a block of bytes; reading fetches the block stored
//! under the text identifier and decodes it as nul-terminated UTF-16.  The
//! functions here compute those blocks and decisions as plain data, so that
//! the surrounding application only performs the system calls they
//! describe.  [`lemma_write_read_round_trip`] shows that a planned text
//! write reads back unchanged.

use vstd::prelude::*;
use vstd::slice::slice_subrange;
use vstd::utf8::{decode_utf8, encode_utf8, encode_utf8_decode_utf8, encode_utf8_valid_utf8, valid_utf8};

use crate::format::{standard_format_id, str_eq, str_nul_free, text_format_name};
use crate::format::{spec_standard_format_id, spec_text_format_name, ClipboardFormat, CF_UNICODETEXT};
use crate::utf16::{decode_utf16, decode_utf16_units, encode_utf16, encode_utf16_units};
use crate::utf16::{lemma_decode_encode_utf16, lemma_encode_nul_free, nul_free};

verus! {

/// The block of bytes stored under a format identifier: UTF-16 code units
/// for the text format, raw bytes for every other format.
pub enum ClipboardPayload {
    Text(Vec<u16>),
    Bytes(Vec<u8>),
}

/// What the application must do for one requested format: store a payload
/// under a known identifier, first register the format name with the
/// operating system, or skip the format because no valid request can be
/// made from it.
pub enum PutStep {
    Store { format_id: u32, payload: ClipboardPayload },
    RegisterThenStore { name: String, payload: ClipboardPayload },
    SkipInvalidIdentifier { name: String },
    SkipInvalidText,
}

/// Relies on str::from_utf8: it succeeds exactly on UTF-8 input, and the
/// returned string consists of the characters those bytes encode.
#[verifier::external_body]
fn bytes_as_str(v: &[u8]) -> (r: Option<&str>)
    ensures
        match r {
            Some(s) => valid_utf8(v@) && encode_utf8(s@) == v@,
            None => !valid_utf8(v@),
        },
{
    std::str::from_utf8(v).ok()
}

/// Decides how one requested format is stored: the text format becomes
/// nul-terminated UTF-16 under the text identifier, a well-known name uses
/// its fixed identifier, and any other name must first be registered,
/// which its characters must permit.
pub fn plan_put_format(format: &ClipboardFormat) -> (step: PutStep)
    ensures
        (format.identifier@ == spec_text_format_name() && !valid_utf8(format.data@) ==> (step
            matches PutStep::SkipInvalidText)),
        (format.identifier@ == spec_text_format_name() && valid_utf8(format.data@) ==> (step
            matches PutStep::Store { format_id, payload } && format_id == CF_UNICODETEXT && (payload
            matches ClipboardPayload::Text(units) && units@ == encode_utf16(
            decode_utf8(format.data@),
        ).push(0u16)))),
        (format.identifier@ != spec_text_format_name() && spec_standard_format_id(
            format.identifier@,
        ) is Some ==> (step matches PutStep::Store { format_id, payload } && format_id
            == spec_standard_format_id(format.identifier@).unwrap() && (payload
            matches ClipboardPayload::Bytes(bytes) && bytes@ == format.data@))),
        (format.identifier@ != spec_text_format_name() && spec_standard_format_id(
            format.identifier@,
        ) is None && nul_free(format.identifier@) ==> (step matches PutStep::RegisterThenStore {
            name,
            payload,
        } && name@ == format.identifier@ && (payload matches ClipboardPayload::Bytes(bytes)
            && bytes@ == format.data@))),
        (format.identifier@ != spec_text_format_name() && spec_standard_format_id(
            format.identifier@,
        ) is None && !nul_free(format.identifier@) ==> (step
            matches PutStep::SkipInvalidIdentifier { name } && name@ == format.identifier@)),
{
    if str_eq(format.identifier.as_str(), text_format_name()) {
        match bytes_as_str(format.data.as_slice()) {
            Some(s) => {
                proof {
                    encode_utf8_decode_utf8(s@);
                }
                let mut units = encode_utf16_units(s);
                units.push(0);
                PutStep::Store { format_id: CF_UNICODETEXT, payload: ClipboardPayload::Text(units) }
            },
            None => PutStep::SkipInvalidText,
        }
    } else {
        let bytes = format.data.clone();
        proof {
            assert(bytes@ =~= format.data@);
        }
        match standard_format_id(format.identifier.as_str()) {
            Some(id) => PutStep::Store { format_id: id, payload: ClipboardPayload::Bytes(bytes) },
            None => {
                if str_nul_free(format.identifier.as_str()) {
                    PutStep::RegisterThenStore {
                        name: format.identifier.clone(),
                        payload: ClipboardPayload::Bytes(bytes),
                    }
                } else {
                    PutStep::SkipInvalidIdentifier { name: format.identifier.clone() }
                }
            },
        }
    }
}

/// Decides how a plain text write is stored: always a nul-terminated
/// UTF-16 payload under the text identifier.
pub fn plan_write_text(s: &str) -> (step: PutStep)
    ensures
        (step matches PutStep::Store { format_id, payload } && format_id == CF_UNICODETEXT && (
        payload matches ClipboardPayload::Text(units) && units@ == encode_utf16(s@).push(0u16))),
{
    let format = ClipboardFormat::text(s);
    proof {
        encode_utf8_valid_utf8(s@);
        encode_utf8_decode_utf8(s@);
    }
    plan_put_format(&format)
}

/// The index of the first nul unit, or the length when there is none.
pub open spec fn first_nul(u: Seq<u16>) -> int
    decreases u.len(),
{
    if u.len() == 0 {
        0
    } else if u[0] == 0 {
        0
    } else {
        1 + first_nul(u.drop_first())
    }
}

/// `first_nul` is the unique index with no nul before it and, inside the
/// sequence, a nul at it.
proof fn lemma_first_nul_is(u: Seq<u16>, i: int)
    requires
        0 <= i <= u.len(),
        forall|j: int| 0 <= j < i ==> u[j] != 0,
        i < u.len() ==> u[i] == 0,
    ensures
        first_nul(u) == i,
    decreases u.len(),
{
    if u.len() == 0 {
    } else if u[0] == 0 {
        assert(i == 0);
    } else {
        assert(i >= 1);
        lemma_first_nul_is(u.drop_first(), i - 1);
    }
}

/// The index of the first nul unit, or the length when there is none.
pub fn find_nul(u: &[u16]) -> (r: usize)
    ensures
        r == first_nul(u@),
        r <= u@.len(),
{
    let len = u.len();
    let mut i: usize = 0;
    while i < len
        invariant
            i <= len,
            len == u@.len(),
            forall|j: int| 0 <= j < i ==> u@[j] != 0,
        decreases len - i,
    {
        if u[i] == 0 {
            proof {
                lemma_first_nul_is(u@, i as int);
            }
            return i;
        }
        i = i + 1;
    }
    proof {
        lemma_first_nul_is(u@, len as int);
    }
    len
}

/// The text stored in a clipboard block: the characters encoded by the
/// units before the first nul, or `None` when they are ill-formed UTF-16.
pub open spec fn spec_clipboard_text(u: Seq<u16>) -> Option<Seq<char>> {
    decode_utf16(u.take(first_nul(u)))
}

/// Reads the text out of a clipboard block: scans for the terminating nul
/// and decodes the units before it.
pub fn read_clipboard_text(units: &[u16]) -> (r: Option<String>)
    ensures
        match r {
            Some(s) => spec_clipboard_text(units@) == Some(s@),
            None => spec_clipboard_text(units@) is None,
        },
{
    let n = find_nul(units);
    let prefix = slice_subrange(units, 0, n);
    proof {
        assert(prefix@ =~= units@.take(first_nul(units@)));
    }
    decode_utf16_units(prefix)
}

/// Round trip: a text write planned for the clipboard reads back as the
/// same text, provided the text holds no nul character, at which a read
/// would stop early.
pub proof fn lemma_write_read_round_trip(s: Seq<char>)
    requires
        nul_free(s),
    ensures
        spec_clipboard_text(encode_utf16(s).push(0u16)) == Some(s),
{
    let e = encode_utf16(s);
    let u = e.push(0u16);
    lemma_encode_nul_free(s);
    assert(forall|j: int| 0 <= j < e.len() ==> u[j] != 0);
    assert(u[e.len() as int] == 0);
    lemma_first_nul_is(u, e.len() as int);
    assert(u.take(e.len() as int) =~= e);
    lemma_decode_encode_utf16(s);
}

} // verus!
