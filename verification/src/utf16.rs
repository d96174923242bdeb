//! UTF-16 encoding and decoding of character sequences.
//!
//! The system clipboard stores Unicode text as a sequence of 16-bit code
//! units: characters of the Basic Multilingual Plane are a single unit, all
//! others a surrogate pair.  [`encode_utf16`] and [`decode_utf16`] give the
//! mathematical meaning of the two directions; the executable functions are
//! proved against them, and [`lemma_decode_encode_utf16`] shows that the two
//! compose to the identity.

use vstd::prelude::*;
use vstd::arithmetic::div_mod::lemma_fundamental_div_mod;
use vstd::utf8::{char_is_scalar, char_u32_cast, is_scalar};

verus! {

/// A high surrogate: the first unit of a two-unit encoding.
pub open spec fn is_high_surrogate(u: u16) -> bool {
    0xD800 <= u < 0xDC00
}

/// A low surrogate: the second unit of a two-unit encoding.
pub open spec fn is_low_surrogate(u: u16) -> bool {
    0xDC00 <= u < 0xE000
}

/// The scalar value encoded by a surrogate pair.
pub open spec fn combine_surrogates(hi: u16, lo: u16) -> u32 {
    (0x10000 + (hi - 0xD800) * 0x400 + (lo - 0xDC00)) as u32
}

/// The UTF-16 code units of a single character.
pub open spec fn encode_char_utf16(c: char) -> Seq<u16> {
    if (c as u32) < 0x10000 {
        seq![(c as u32) as u16]
    } else {
        let v = c as u32 - 0x10000;
        seq![(0xD800 + v / 0x400) as u16, (0xDC00 + v % 0x400) as u16]
    }
}

/// The UTF-16 encoding of a character sequence.
pub open spec fn encode_utf16(s: Seq<char>) -> Seq<u16>
    decreases s.len(),
{
    if s.len() == 0 {
        Seq::empty()
    } else {
        encode_char_utf16(s[0]) + encode_utf16(s.drop_first())
    }
}

/// The characters encoded by a sequence of UTF-16 code units, or `None`
/// when the units are ill-formed: a lone or out-of-order surrogate.
pub open spec fn decode_utf16(u: Seq<u16>) -> Option<Seq<char>>
    decreases u.len(),
{
    if u.len() == 0 {
        Some(Seq::empty())
    } else if !is_high_surrogate(u[0]) && !is_low_surrogate(u[0]) {
        match decode_utf16(u.drop_first()) {
            Some(rest) => Some(seq![(u[0] as u32) as char] + rest),
            None => None,
        }
    } else if is_high_surrogate(u[0]) && u.len() >= 2 && is_low_surrogate(u[1]) {
        match decode_utf16(u.skip(2)) {
            Some(rest) => Some(seq![combine_surrogates(u[0], u[1]) as char] + rest),
            None => None,
        }
    } else {
        None
    }
}

/// Appending a character extends the encoding by that character's units.
pub proof fn lemma_encode_utf16_push(s: Seq<char>, c: char)
    ensures
        encode_utf16(s.push(c)) == encode_utf16(s) + encode_char_utf16(c),
    decreases s.len(),
{
    if s.len() == 0 {
        assert(s.push(c)[0] == c);
        let empty = Seq::<char>::empty();
        assert(s.push(c).drop_first() =~= empty);
        assert(encode_utf16(s.push(c)) == encode_char_utf16(c) + encode_utf16(empty));
        assert(encode_utf16(empty) =~= Seq::<u16>::empty());
        assert(encode_utf16(s) =~= Seq::<u16>::empty());
        assert(encode_utf16(s.push(c)) =~= encode_utf16(s) + encode_char_utf16(c));
    } else {
        assert(s.push(c)[0] == s[0]);
        assert(s.push(c).drop_first() =~= s.drop_first().push(c));
        lemma_encode_utf16_push(s.drop_first(), c);
        assert(encode_utf16(s.push(c)) =~= encode_utf16(s) + encode_char_utf16(c));
    }
}

/// The UTF-16 code units of a string, in order, without a terminator.
pub fn encode_utf16_units(s: &str) -> (r: Vec<u16>)
    ensures
        r@ == encode_utf16(s@),
{
    let len = s.unicode_len();
    let mut r: Vec<u16> = Vec::new();
    let mut i: usize = 0;
    while i < len
        invariant
            i <= len,
            len == s@.len(),
            r@ == encode_utf16(s@.take(i as int)),
        decreases len - i,
    {
        let c = s.get_char(i);
        let cv = c as u32;
        proof {
            char_is_scalar(c);
        }
        if cv < 0x10000 {
            r.push(cv as u16);
        } else {
            let v = cv - 0x10000;
            r.push((0xD800 + v / 0x400) as u16);
            r.push((0xDC00 + v % 0x400) as u16);
        }
        proof {
            lemma_encode_utf16_push(s@.take(i as int), c);
            assert(s@.take(i as int).push(c) =~= s@.take(i + 1 as int));
        }
        i = i + 1;
    }
    proof {
        assert(s@.take(len as int) =~= s@);
    }
    r
}

/// A decoded prefix placed in front of the decoding of the remaining units.
pub open spec fn prepend_decoded(prefix: Seq<char>, rest: Option<Seq<char>>) -> Option<Seq<char>> {
    match rest {
        Some(r) => Some(prefix + r),
        None => None,
    }
}

/// Relies on char::from_u32: every Unicode scalar value converts to the
/// `char` with exactly that value.
#[verifier::external_body]
fn char_from_scalar(u: u32) -> (c: char)
    requires
        is_scalar(u),
    ensures
        c as u32 == u,
{
    char::from_u32(u).unwrap()
}

/// Relies on String::push: it appends the given character to the end of
/// the string.
#[verifier::external_body]
fn push_char(s: &mut String, c: char)
    ensures
        final(s)@ == old(s)@.push(c),
{
    s.push(c);
}

/// The string whose characters the given UTF-16 code units encode, or
/// `None` when the units are ill-formed.
pub fn decode_utf16_units(u: &[u16]) -> (r: Option<String>)
    ensures
        match r {
            Some(s) => decode_utf16(u@) == Some(s@),
            None => decode_utf16(u@) is None,
        },
{
    let len = u.len();
    let mut acc = String::new();
    let mut i: usize = 0;
    proof {
        assert(u@.skip(0) =~= u@);
        lemma_prepend_empty(decode_utf16(u@));
    }
    while i < len
        invariant
            i <= len,
            len == u@.len(),
            decode_utf16(u@) == prepend_decoded(acc@, decode_utf16(u@.skip(i as int))),
        decreases len - i,
    {
        let unit = u[i];
        let ghost tail = u@.skip(i as int);
        proof {
            assert(tail[0] == u@[i as int]);
        }
        if !(0xD800 <= unit && unit < 0xE000) {
            proof {
                char_u32_cast((unit as u32) as char, unit as u32);
                assert(tail.drop_first() =~= u@.skip(i + 1 as int));
            }
            let c = char_from_scalar(unit as u32);
            push_char(&mut acc, c);
            proof {
                lemma_prepend_step(acc@.drop_last(), c, decode_utf16(u@.skip(i + 1 as int)));
            }
            i = i + 1;
        } else if unit < 0xDC00 {
            if i + 1 >= len {
                proof {
                    assert(decode_utf16(tail) is None);
                }
                return None;
            }
            let lo = u[i + 1];
            proof {
                assert(tail[1] == u@[i + 1 as int]);
            }
            if !(0xDC00 <= lo && lo < 0xE000) {
                proof {
                    assert(decode_utf16(tail) is None);
                }
                return None;
            }
            let scalar = 0x10000 + (unit as u32 - 0xD800) * 0x400 + (lo as u32 - 0xDC00);
            proof {
                char_u32_cast(combine_surrogates(unit, lo) as char, scalar);
                assert(tail.skip(2) =~= u@.skip(i + 2 as int));
            }
            let c = char_from_scalar(scalar);
            push_char(&mut acc, c);
            proof {
                lemma_prepend_step(acc@.drop_last(), c, decode_utf16(u@.skip(i + 2 as int)));
            }
            i = i + 2;
        } else {
            proof {
                assert(decode_utf16(tail) is None);
            }
            return None;
        }
    }
    proof {
        assert(u@.skip(len as int) =~= Seq::<u16>::empty());
        assert(decode_utf16(u@) == Some(acc@ + Seq::<char>::empty()));
        assert(acc@ + Seq::<char>::empty() =~= acc@);
    }
    Some(acc)
}

/// No character of the sequence is the nul character.
pub open spec fn nul_free(s: Seq<char>) -> bool {
    forall|i: int| 0 <= i < s.len() ==> s[i] != '\0'
}

/// The encoding of a nul-free character sequence contains no nul unit.
pub proof fn lemma_encode_nul_free(s: Seq<char>)
    requires
        nul_free(s),
    ensures
        forall|i: int| 0 <= i < encode_utf16(s).len() ==> encode_utf16(s)[i] != 0,
    decreases s.len(),
{
    if s.len() > 0 {
        let c = s[0];
        char_is_scalar(c);
        char_u32_cast('\0', 0);
        assert(c as u32 != 0) by {
            if c as u32 == 0 {
                char_u32_cast(c, 0);
            }
        }
        assert(forall|i: int|
            0 <= i < encode_char_utf16(c).len() ==> encode_char_utf16(c)[i] != 0);
        assert(nul_free(s.drop_first()));
        lemma_encode_nul_free(s.drop_first());
        assert(forall|i: int| 0 <= i < encode_utf16(s).len() ==> encode_utf16(s)[i] != 0) by {
            assert(encode_utf16(s) == encode_char_utf16(c) + encode_utf16(s.drop_first()));
        }
    }
}

/// Decoding inverts encoding: every character sequence is recovered from
/// its own UTF-16 code units.
pub proof fn lemma_decode_encode_utf16(s: Seq<char>)
    ensures
        decode_utf16(encode_utf16(s)) == Some(s),
    decreases s.len(),
{
    if s.len() == 0 {
        assert(encode_utf16(s) =~= Seq::<u16>::empty());
        assert(Seq::<char>::empty() =~= s);
    } else {
        let c = s[0];
        let rest = s.drop_first();
        let e = encode_utf16(s);
        char_is_scalar(c);
        lemma_decode_encode_utf16(rest);
        if (c as u32) < 0x10000 {
            let unit = (c as u32) as u16;
            assert(unit as u32 == c as u32);
            assert(!is_high_surrogate(unit) && !is_low_surrogate(unit));
            assert(e[0] == unit);
            assert(e.drop_first() =~= encode_utf16(rest));
            char_u32_cast(c, unit as u32);
            assert(seq![(unit as u32) as char] + rest =~= s);
        } else {
            let v = c as u32 - 0x10000;
            assert(v < 0x100000);
            assert(v / 0x400 < 0x400) by (nonlinear_arith)
                requires
                    v < 0x100000,
            ;
            let hi = (0xD800 + v / 0x400) as u16;
            let lo = (0xDC00 + v % 0x400) as u16;
            assert(encode_char_utf16(c) == seq![hi, lo]);
            assert(e[0] == hi && e[1] == lo);
            assert(is_high_surrogate(hi) && is_low_surrogate(lo));
            assert(combine_surrogates(hi, lo) == c as u32) by {
                lemma_fundamental_div_mod(v as int, 0x400);
            }
            char_u32_cast(c, combine_surrogates(hi, lo));
            assert(e.skip(2) =~= encode_utf16(rest));
            assert(seq![combine_surrogates(hi, lo) as char] + rest =~= s);
        }
    }
}

/// An empty prefix leaves the decoding unchanged.
proof fn lemma_prepend_empty(rest: Option<Seq<char>>)
    ensures
        prepend_decoded(Seq::empty(), rest) == rest,
{
    match rest {
        Some(r) => {
            assert(Seq::<char>::empty() + r =~= r);
        },
        None => {},
    }
}

/// Pushing one decoded character onto the prefix absorbs the head of the
/// remaining decoding.
proof fn lemma_prepend_step(prefix: Seq<char>, c: char, rest: Option<Seq<char>>)
    ensures
        prepend_decoded(prefix, prepend_decoded(seq![c], rest)) == prepend_decoded(
            prefix.push(c),
            rest,
        ),
{
    match rest {
        Some(r) => {
            assert(prefix + (seq![c] + r) =~= prefix.push(c) + r);
        },
        None => {},
    }
}

} // verus!
