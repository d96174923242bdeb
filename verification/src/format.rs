//! Clipboard formats and their numeric identifiers.
//!
//! The clipboard addresses each payload by a numeric format identifier.  A
//! fixed table maps the names of the well-known formats to their numbers; a
//! single text format name stands for nul-terminated UTF-16 text; any other
//! name must be registered with the operating system before use, which
//! requires it to be a valid C string.

use vstd::prelude::*;
use vstd::utf8::{char_is_scalar, char_u32_cast, encode_utf8, encode_scalar, has_width_1_encoding,
    has_width_2_encoding, has_width_3_encoding};

use crate::utf16::nul_free;

verus! {

/// The numeric identifier of the nul-terminated UTF-16 text format.
pub const CF_UNICODETEXT: u32 = 13;

/// The name under which callers request the text format.
pub open spec fn spec_text_format_name() -> Seq<char> {
    "public.utf8-plain-text"@
}

/// The name under which callers request the text format.
pub fn text_format_name() -> (r: &'static str)
    ensures
        r@ == spec_text_format_name(),
{
    "public.utf8-plain-text"
}

/// Whether two strings hold the same characters.
pub fn str_eq(a: &str, b: &str) -> (r: bool)
    ensures
        r == (a@ == b@),
{
    let la = a.unicode_len();
    let lb = b.unicode_len();
    if la != lb {
        return false;
    }
    let mut i: usize = 0;
    while i < la
        invariant
            i <= la,
            la == a@.len(),
            la == b@.len(),
            forall|j: int| 0 <= j < i ==> a@[j] == b@[j],
        decreases la - i,
    {
        let ca = a.get_char(i);
        let cb = b.get_char(i);
        if ca != cb {
            return false;
        }
        i = i + 1;
    }
    proof {
        assert(a@ =~= b@);
    }
    true
}

/// Whether the string holds no nul character, so that it can be handed to
/// a C interface as a nul-terminated string.
pub fn str_nul_free(s: &str) -> (r: bool)
    ensures
        r == nul_free(s@),
{
    let len = s.unicode_len();
    let mut i: usize = 0;
    while i < len
        invariant
            i <= len,
            len == s@.len(),
            forall|j: int| 0 <= j < i ==> s@[j] != '\0',
        decreases len - i,
    {
        if s.get_char(i) == '\0' {
            return false;
        }
        i = i + 1;
    }
    true
}

/// Each byte of a character's UTF-8 encoding is nul exactly when the
/// character itself is.
proof fn lemma_encode_scalar_nul(c: char)
    ensures
        forall|i: int|
            0 <= i < encode_scalar(c as u32).len() ==> ((#[trigger] encode_scalar(c as u32)[i])
                == 0 <==> c == '\0'),
{
    let u = c as u32;
    char_is_scalar(c);
    let e = encode_scalar(u);
    if has_width_1_encoding(u) {
        assert(e[0] == (u & 0x7F) as u8);
        assert(((u & 0x7F) as u8 == 0) == (u == 0)) by (bit_vector)
            requires
                u < 0x80,
        ;
        if u == 0 {
            char_u32_cast(c, 0);
        }
        if c == '\0' {
            assert(u == 0);
        }
    } else {
        assert(c != '\0');
        if has_width_2_encoding(u) {
            assert(e[0] == 0xC0u8 | ((u >> 6) & 0x1F) as u8);
            assert(e[1] == 0x80u8 | (u & 0x3F) as u8);
            assert((0xC0u8 | ((u >> 6) & 0x1F) as u8) != 0) by (bit_vector);
            assert((0x80u8 | (u & 0x3F) as u8) != 0) by (bit_vector);
        } else if has_width_3_encoding(u) {
            assert(e[0] == 0xE0u8 | ((u >> 12) & 0x0F) as u8);
            assert(e[1] == 0x80u8 | ((u >> 6) & 0x3F) as u8);
            assert(e[2] == 0x80u8 | (u & 0x3F) as u8);
            assert((0xE0u8 | ((u >> 12) & 0x0F) as u8) != 0) by (bit_vector);
            assert((0x80u8 | ((u >> 6) & 0x3F) as u8) != 0) by (bit_vector);
            assert((0x80u8 | (u & 0x3F) as u8) != 0) by (bit_vector);
        } else {
            assert(e[0] == 0xF0u8 | ((u >> 18) & 0x7) as u8);
            assert(e[1] == 0x80u8 | ((u >> 12) & 0x3F) as u8);
            assert(e[2] == 0x80u8 | ((u >> 6) & 0x3F) as u8);
            assert(e[3] == 0x80u8 | (u & 0x3F) as u8);
            assert((0xF0u8 | ((u >> 18) & 0x7) as u8) != 0) by (bit_vector);
            assert((0x80u8 | ((u >> 12) & 0x3F) as u8) != 0) by (bit_vector);
            assert((0x80u8 | ((u >> 6) & 0x3F) as u8) != 0) by (bit_vector);
            assert((0x80u8 | (u & 0x3F) as u8) != 0) by (bit_vector);
        }
    }
}

/// A string holds no nul character exactly when its UTF-8 bytes hold no
/// nul byte.  The registration check tests the characters of a format
/// name, while the C interface that receives the name demands
/// nul-free bytes: the two conditions agree.
pub proof fn lemma_nul_free_bytes(s: Seq<char>)
    ensures
        nul_free(s) <==> (forall|i: int| 0 <= i < encode_utf8(s).len() ==> encode_utf8(s)[i] != 0),
    decreases s.len(),
{
    if s.len() == 0 {
    } else {
        let c = s[0];
        let e0 = encode_scalar(c as u32);
        let rest = s.drop_first();
        lemma_encode_scalar_nul(c);
        lemma_nul_free_bytes(rest);
        assert(encode_utf8(s) == e0 + encode_utf8(rest));
        assert(e0.len() >= 1);
        if nul_free(s) {
            assert(c != '\0');
            assert(nul_free(rest));
            assert(forall|i: int|
                0 <= i < encode_utf8(s).len() ==> encode_utf8(s)[i] != 0) by {
                assert(forall|i: int| 0 <= i < e0.len() ==> e0[i] != 0);
            }
        }
        if forall|i: int| 0 <= i < encode_utf8(s).len() ==> encode_utf8(s)[i] != 0 {
            assert(encode_utf8(s)[0] != 0);
            assert(e0[0] == encode_utf8(s)[0]);
            assert(e0[0] != 0);
            assert(c != '\0');
            assert(forall|i: int|
                0 <= i < encode_utf8(rest).len() ==> encode_utf8(rest)[i] != 0) by {
                assert(forall|i: int|
                    0 <= i < encode_utf8(rest).len() ==> encode_utf8(rest)[i] == encode_utf8(
                        s,
                    )[e0.len() + i]);
            }
            assert(nul_free(rest));
            assert(forall|j: int| 0 <= j < s.len() ==> s[j] != '\0') by {
                assert(forall|j: int| 1 <= j < s.len() ==> s[j] == rest[j - 1]);
            }
        }
    }
}

/// The numeric identifier that the fixed table of well-known formats
/// assigns to the given name, if any.
pub open spec fn spec_standard_format_id(name: Seq<char>) -> Option<u32> {
    if name == "CF_TEXT"@ {
        Some(1u32)
    } else if name == "CF_BITMAP"@ {
        Some(2u32)
    } else if name == "CF_METAFILEPICT"@ {
        Some(3u32)
    } else if name == "CF_SYLK"@ {
        Some(4u32)
    } else if name == "CF_DIF"@ {
        Some(5u32)
    } else if name == "CF_TIFF"@ {
        Some(6u32)
    } else if name == "CF_OEMTEXT"@ {
        Some(7u32)
    } else if name == "CF_DIB"@ {
        Some(8u32)
    } else if name == "CF_PALETTE"@ {
        Some(9u32)
    } else if name == "CF_PENDATA"@ {
        Some(10u32)
    } else if name == "CF_RIFF"@ {
        Some(11u32)
    } else if name == "CF_WAVE"@ {
        Some(12u32)
    } else if name == "CF_UNICODETEXT"@ {
        Some(13u32)
    } else if name == "CF_ENHMETAFILE"@ {
        Some(14u32)
    } else if name == "CF_HDROP"@ {
        Some(15u32)
    } else if name == "CF_LOCALE"@ {
        Some(16u32)
    } else if name == "CF_DIBV5"@ {
        Some(17u32)
    } else if name == "CF_OWNERDISPLAY"@ {
        Some(0x0080u32)
    } else if name == "CF_DSPTEXT"@ {
        Some(0x0081u32)
    } else if name == "CF_DSPBITMAP"@ {
        Some(0x0082u32)
    } else if name == "CF_DSPMETAFILEPICT"@ {
        Some(0x0083u32)
    } else if name == "CF_DSPENHMETAFILE"@ {
        Some(0x008Eu32)
    } else if name == "CF_PRIVATEFIRST"@ {
        Some(0x0200u32)
    } else if name == "CF_PRIVATELAST"@ {
        Some(0x02FFu32)
    } else if name == "CF_GDIOBJFIRST"@ {
        Some(0x0300u32)
    } else if name == "CF_GDIOBJLAST"@ {
        Some(0x03FFu32)
    } else {
        None
    }
}

/// Looks the given name up in the fixed table of well-known formats.
pub fn standard_format_id(name: &str) -> (r: Option<u32>)
    ensures
        r == spec_standard_format_id(name@),
{
    if str_eq(name, "CF_TEXT") {
        Some(1)
    } else if str_eq(name, "CF_BITMAP") {
        Some(2)
    } else if str_eq(name, "CF_METAFILEPICT") {
        Some(3)
    } else if str_eq(name, "CF_SYLK") {
        Some(4)
    } else if str_eq(name, "CF_DIF") {
        Some(5)
    } else if str_eq(name, "CF_TIFF") {
        Some(6)
    } else if str_eq(name, "CF_OEMTEXT") {
        Some(7)
    } else if str_eq(name, "CF_DIB") {
        Some(8)
    } else if str_eq(name, "CF_PALETTE") {
        Some(9)
    } else if str_eq(name, "CF_PENDATA") {
        Some(10)
    } else if str_eq(name, "CF_RIFF") {
        Some(11)
    } else if str_eq(name, "CF_WAVE") {
        Some(12)
    } else if str_eq(name, "CF_UNICODETEXT") {
        Some(13)
    } else if str_eq(name, "CF_ENHMETAFILE") {
        Some(14)
    } else if str_eq(name, "CF_HDROP") {
        Some(15)
    } else if str_eq(name, "CF_LOCALE") {
        Some(16)
    } else if str_eq(name, "CF_DIBV5") {
        Some(17)
    } else if str_eq(name, "CF_OWNERDISPLAY") {
        Some(0x0080)
    } else if str_eq(name, "CF_DSPTEXT") {
        Some(0x0081)
    } else if str_eq(name, "CF_DSPBITMAP") {
        Some(0x0082)
    } else if str_eq(name, "CF_DSPMETAFILEPICT") {
        Some(0x0083)
    } else if str_eq(name, "CF_DSPENHMETAFILE") {
        Some(0x008E)
    } else if str_eq(name, "CF_PRIVATEFIRST") {
        Some(0x0200)
    } else if str_eq(name, "CF_PRIVATELAST") {
        Some(0x02FF)
    } else if str_eq(name, "CF_GDIOBJFIRST") {
        Some(0x0300)
    } else if str_eq(name, "CF_GDIOBJLAST") {
        Some(0x03FF)
    } else {
        None
    }
}

/// A clipboard payload: a format name paired with the bytes to store
/// under it.  For the text format the bytes are the UTF-8 encoding of the
/// text.
pub struct ClipboardFormat {
    pub identifier: String,
    pub data: Vec<u8>,
}

impl ClipboardFormat {
    /// The text format carrying the given string.
    pub fn text(s: &str) -> (f: ClipboardFormat)
        ensures
            f.identifier@ == spec_text_format_name(),
            f.data@ == encode_utf8(s@),
    {
        ClipboardFormat { identifier: String::from_str(text_format_name()), data: s.as_bytes_vec() }
    }

    /// A format with the given name carrying the given bytes.
    pub fn new(identifier: String, data: Vec<u8>) -> (f: ClipboardFormat)
        ensures
            f.identifier@ == identifier@,
            f.data@ == data@,
    {
        ClipboardFormat { identifier, data }
    }
}

} // verus!
