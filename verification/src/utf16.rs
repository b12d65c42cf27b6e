//! UTF-16 code units. The long-poll wire protocol measures message entities
//! in UTF-16 code units, so inbound text is encoded into code units, sliced
//! at entity boundaries, and the slices decoded back to text; outbound text
//! has its entity spans computed in the same units.
use vstd::prelude::*;

verus! {

/// How many UTF-16 code units the character occupies: one inside the basic
/// plane, two (a surrogate pair) beyond it.
pub open spec fn utf16_len_char(c: char) -> nat {
    if (c as int) < 0x10000 {
        1nat
    } else {
        2nat
    }
}

/// The UTF-16 encoding of one character: its own value inside the basic
/// plane, else a high and a low surrogate carrying the offset beyond it.
pub open spec fn encode_char(c: char) -> Seq<u16> {
    let u = c as int;
    if u < 0x10000 {
        seq![u as u16]
    } else {
        seq![
            (0xD800 + (u - 0x10000) / 0x400) as u16,
            (0xDC00 + (u - 0x10000) % 0x400) as u16,
        ]
    }
}

/// The UTF-16 encoding of a character sequence.
pub open spec fn encode_utf16(s: Seq<char>) -> Seq<u16>
    decreases s.len(),
{
    if s.len() == 0 {
        Seq::empty()
    } else {
        encode_char(s[0]) + encode_utf16(s.drop_first())
    }
}

/// Whether the code unit is a high (leading) surrogate.
pub open spec fn is_high_surrogate(w: u16) -> bool {
    0xD800 <= w < 0xDC00
}

/// Whether the code unit is a low (trailing) surrogate.
pub open spec fn is_low_surrogate(w: u16) -> bool {
    0xDC00 <= w < 0xE000
}

/// The scalar value carried by a surrogate pair.
pub open spec fn combined(hi: u16, lo: u16) -> int {
    0x10000 + (hi - 0xD800) * 0x400 + (lo - 0xDC00)
}

/// The characters a UTF-16 code-unit sequence decodes to, or `None` when the
/// sequence is ill-formed: a lone surrogate, or a pair split apart.
pub open spec fn decode_utf16(u: Seq<u16>) -> Option<Seq<char>>
    decreases u.len(),
{
    if u.len() == 0 {
        Some(Seq::empty())
    } else if !is_high_surrogate(u[0]) && !is_low_surrogate(u[0]) {
        match decode_utf16(u.drop_first()) {
            Some(rest) => Some(seq![(u[0] as u32) as char] + rest),
            None => None,
        }
    } else if is_high_surrogate(u[0]) && u.len() >= 2 && is_low_surrogate(u[1]) {
        match decode_utf16(u.skip(2)) {
            Some(rest) => Some(seq![combined(u[0], u[1]) as char] + rest),
            None => None,
        }
    } else {
        None
    }
}

/// Relies on `char::from_u32`: `Some` exactly for Unicode scalar values
/// (below the surrogate range, or above it and at most 0x10FFFF), holding the
/// character with that value.
#[verifier::external_body]
fn char_from_u32(u: u32) -> (r: Option<char>)
    ensures
        r is Some <==> (u < 0xD800 || (0xE000 <= u && u <= 0x10FFFF)),
        r matches Some(c) ==> c as u32 == u,
{
    char::from_u32(u)
}

/// Appending one character appends its encoding.
pub proof fn lemma_encode_utf16_snoc(s: Seq<char>, c: char)
    ensures
        encode_utf16(s.push(c)) == encode_utf16(s) + encode_char(c),
    decreases s.len(),
{
    if s.len() == 0 {
        assert(s.push(c)[0] == c);
        assert(s.push(c).drop_first() =~= Seq::<char>::empty());
        assert(encode_utf16(Seq::<char>::empty()) == Seq::<u16>::empty());
        assert(encode_utf16(s.push(c)) =~= encode_char(c));
        assert(encode_utf16(s) + encode_char(c) =~= encode_char(c));
    } else {
        assert(s.push(c)[0] == s[0]);
        assert(s.push(c).drop_first() =~= s.drop_first().push(c));
        lemma_encode_utf16_snoc(s.drop_first(), c);
        assert(encode_utf16(s.push(c)) =~= encode_utf16(s) + encode_char(c));
    }
}

/// Encoding distributes over concatenation: the wire form of two texts in a
/// row is the two wire forms in a row.
pub proof fn lemma_encode_utf16_concat(s1: Seq<char>, s2: Seq<char>)
    ensures
        encode_utf16(s1 + s2) == encode_utf16(s1) + encode_utf16(s2),
    decreases s2.len(),
{
    if s2.len() == 0 {
        assert(s1 + s2 =~= s1);
        assert(encode_utf16(s1) + encode_utf16(s2) =~= encode_utf16(s1));
    } else {
        let s2front = s2.drop_last();
        lemma_encode_utf16_concat(s1, s2front);
        lemma_encode_utf16_snoc(s1 + s2front, s2.last());
        lemma_encode_utf16_snoc(s2front, s2.last());
        assert((s1 + s2front).push(s2.last()) =~= s1 + s2);
        assert(s2front.push(s2.last()) =~= s2);
        assert(encode_utf16(s1 + s2) =~= encode_utf16(s1) + encode_utf16(s2));
    }
}

/// The UTF-16 encoding of a string, as a code-unit vector.
pub fn utf16_of_str(s: &str) -> (r: Vec<u16>)
    ensures
        r@ == encode_utf16(s@),
{
    let n = s.unicode_len();
    let mut r: Vec<u16> = Vec::new();
    let mut i: usize = 0;
    while i < n
        invariant
            n == s@.len(),
            i <= n,
            r@ == encode_utf16(s@.subrange(0, i as int)),
        decreases n - i,
    {
        let c = s.get_char(i);
        let u = c as u32;
        proof {
            vstd::utf8::char_is_scalar(c);
        }
        if u < 0x10000 {
            r.push(u as u16);
        } else {
            let v = u - 0x10000;
            r.push(0xD800u32 as u16 + (v / 0x400) as u16);
            r.push(0xDC00u32 as u16 + (v % 0x400) as u16);
        }
        proof {
            lemma_encode_utf16_snoc(s@.subrange(0, i as int), c);
            assert(s@.subrange(0, i as int).push(c) =~= s@.subrange(0, i + 1));
            assert(r@ =~= encode_utf16(s@.subrange(0, i + 1)));
        }
        i = i + 1;
    }
    proof {
        assert(s@.subrange(0, i as int) =~= s@);
    }
    r
}

/// Decodes the code units from `from` (inclusive) to `to` (exclusive) back
/// to text; `None` exactly when that slice is ill-formed UTF-16, as when an
/// entity boundary splits a surrogate pair.
pub fn decode_utf16_range(units: &Vec<u16>, from: usize, to: usize) -> (r: Option<String>)
    requires
        from <= to <= units@.len(),
    ensures
        r matches Some(t) ==> decode_utf16(units@.subrange(from as int, to as int)) == Some(t@),
        r is None ==> decode_utf16(units@.subrange(from as int, to as int)) is None,
{
    let ghost whole = units@.subrange(from as int, to as int);
    let mut acc: Vec<char> = Vec::new();
    let mut i: usize = from;
    while i < to
        invariant
            from <= i <= to <= units@.len(),
            whole == units@.subrange(from as int, to as int),
            match decode_utf16(units@.subrange(i as int, to as int)) {
                Some(rest) => decode_utf16(whole) == Some(acc@ + rest),
                None => decode_utf16(whole) is None,
            },
        decreases to - i,
    {
        let ghost pending = units@.subrange(i as int, to as int);
        let w = units[i];
        proof {
            assert(pending[0] == units@[i as int]);
        }
        if w < 0xD800 || w >= 0xE000 {
            let c = match char_from_u32(w as u32) {
                Some(c) => c,
                None => vstd::pervasive::unreached(),
            };
            acc.push(c);
            i = i + 1;
            proof {
                vstd::utf8::char_u32_cast(c, w as u32);
                assert(pending.drop_first() =~= units@.subrange(i as int, to as int));
                assert(seq![c] =~= Seq::<char>::empty().push(c));
                match decode_utf16(units@.subrange(i as int, to as int)) {
                    Some(rest) => {
                        assert(decode_utf16(pending) == Some(seq![c] + rest));
                        assert(acc@.drop_last() + (seq![c] + rest) =~= acc@ + rest);
                    },
                    None => {
                        assert(decode_utf16(pending) is None);
                    },
                }
            }
        } else if w < 0xDC00 {
            if i + 1 < to {
                let lo = units[i + 1];
                proof {
                    assert(pending[1] == units@[i + 1]);
                }
                if lo >= 0xDC00 && lo < 0xE000 {
                    let v: u32 = 0x10000u32 + (w as u32 - 0xD800) * 0x400 + (lo as u32 - 0xDC00);
                    let c = match char_from_u32(v) {
                        Some(c) => c,
                        None => vstd::pervasive::unreached(),
                    };
                    proof {
                        vstd::utf8::char_u32_cast(c, v);
                        assert(v as int == combined(pending[0], pending[1]));
                        assert(combined(pending[0], pending[1]) as char == c);
                    }
                    acc.push(c);
                    i = i + 2;
                    proof {
                        assert(pending.skip(2) =~= units@.subrange(i as int, to as int));
                        match decode_utf16(units@.subrange(i as int, to as int)) {
                            Some(rest) => {
                                assert(decode_utf16(pending) == Some(seq![c] + rest));
                                assert(acc@.drop_last() + (seq![c] + rest) =~= acc@ + rest);
                            },
                            None => {
                                assert(decode_utf16(pending) is None);
                            },
                        }
                    }
                } else {
                    proof {
                        assert(decode_utf16(pending) is None);
                    }
                    return None;
                }
            } else {
                proof {
                    assert(pending.len() == 1);
                    assert(decode_utf16(pending) is None);
                }
                return None;
            }
        } else {
            proof {
                assert(decode_utf16(pending) is None);
            }
            return None;
        }
    }
    proof {
        assert(units@.subrange(i as int, to as int) =~= Seq::<u16>::empty());
        assert(decode_utf16(Seq::<u16>::empty()) == Some(Seq::<char>::empty()));
        assert(acc@ + Seq::<char>::empty() =~= acc@);
    }
    Some(crate::text::string_of(&acc))
}

/// Slicing a wire form at a text boundary and decoding each side is
/// lossless: cutting the code units of two texts in a row at the point
/// where the first ends gives back exactly the two texts. With
/// [`lemma_encode_utf16_concat`] this extends to any span cut out along
/// text boundaries, as the entity walk cuts them.
pub proof fn lemma_encode_slice_decode(s1: Seq<char>, s2: Seq<char>)
    ensures
        decode_utf16(encode_utf16(s1 + s2).take(encode_utf16(s1).len() as int)) == Some(s1),
        decode_utf16(encode_utf16(s1 + s2).skip(encode_utf16(s1).len() as int)) == Some(s2),
{
    lemma_encode_utf16_concat(s1, s2);
    assert(encode_utf16(s1 + s2).take(encode_utf16(s1).len() as int) =~= encode_utf16(s1));
    assert(encode_utf16(s1 + s2).skip(encode_utf16(s1).len() as int) =~= encode_utf16(s2));
    lemma_decode_encode_utf16(s1);
    lemma_decode_encode_utf16(s2);
}

/// Decoding inverts encoding: every character sequence comes back unchanged
/// from its UTF-16 wire form, surrogate pairs included.
pub proof fn lemma_decode_encode_utf16(s: Seq<char>)
    ensures
        decode_utf16(encode_utf16(s)) == Some(s),
    decreases s.len(),
{
    if s.len() == 0 {
        assert(encode_utf16(s) =~= Seq::<u16>::empty());
    } else {
        let c = s[0];
        let u = c as int;
        let units = encode_utf16(s);
        vstd::utf8::char_is_scalar(c);
        vstd::utf8::char_u32_cast(c, c as u32);
        lemma_decode_encode_utf16(s.drop_first());
        if u < 0x10000 {
            assert(units[0] == u as u16);
            assert(units.drop_first() =~= encode_utf16(s.drop_first()));
            assert(!is_high_surrogate(units[0]) && !is_low_surrogate(units[0]));
            assert((units[0] as u32) as char == c) by {
                assert(units[0] as u32 == c as u32);
            }
            assert(seq![c] + s.drop_first() =~= s);
        } else {
            assert(encode_char(c).len() == 2);
            assert(units[0] == encode_char(c)[0]);
            assert(units[1] == encode_char(c)[1]);
            assert(0 <= (u - 0x10000) / 0x400 < 0x400 && 0 <= (u - 0x10000) % 0x400 < 0x400) by {
                assert(u <= 0x10FFFF);
                assert((u - 0x10000) / 0x400 < 0x400) by (nonlinear_arith)
                    requires
                        0 <= u - 0x10000 < 0x100000,
                ;
            }
            assert(is_high_surrogate(units[0]));
            assert(is_low_surrogate(units[1]));
            assert(units.skip(2) =~= encode_utf16(s.drop_first()));
            assert(combined(units[0], units[1]) == u) by {
                assert((u - 0x10000) / 0x400 * 0x400 + (u - 0x10000) % 0x400 == u - 0x10000) by (nonlinear_arith)
                    requires
                        0 <= u - 0x10000,
                ;
            }
            assert(combined(units[0], units[1]) as char == c);
            assert(seq![c] + s.drop_first() =~= s);
        }
    }
}

} // verus!
