//! Percent-encoding of substituted values.
//!
//! Every character that is not unreserved is encoded as the uppercase-hex
//! `%XX` groups of its UTF-8 bytes. Under a reserved-preserving operator a
//! `%XX` triple already present in the value is copied through unchanged;
//! under every other operator a literal `%` is re-encoded to `%25`.

use crate::classify::is_hex_digit;
use crate::classify::is_unreserved;
use crate::classify::spec_is_hex_digit;
use crate::classify::spec_is_unreserved;
use vstd::prelude::*;
use vstd::utf8::char_is_scalar;
use vstd::utf8::encode_scalar;
use vstd::utf8::has_width_1_encoding;
use vstd::utf8::has_width_2_encoding;
use vstd::utf8::has_width_3_encoding;
use vstd::utf8::is_scalar;

verus! {

/// The uppercase hexadecimal digit of a nibble.
pub open spec fn spec_hex_upper(n: int) -> char
    recommends
        0 <= n < 16,
{
    if n == 0 {
        '0'
    } else if n == 1 {
        '1'
    } else if n == 2 {
        '2'
    } else if n == 3 {
        '3'
    } else if n == 4 {
        '4'
    } else if n == 5 {
        '5'
    } else if n == 6 {
        '6'
    } else if n == 7 {
        '7'
    } else if n == 8 {
        '8'
    } else if n == 9 {
        '9'
    } else if n == 10 {
        'A'
    } else if n == 11 {
        'B'
    } else if n == 12 {
        'C'
    } else if n == 13 {
        'D'
    } else if n == 14 {
        'E'
    } else {
        'F'
    }
}

/// The `%XX` group of one byte, uppercase hex.
pub open spec fn spec_pct_byte(b: u8) -> Seq<char> {
    seq!['%', spec_hex_upper(b as int / 16), spec_hex_upper(b as int % 16)]
}

/// The `%XX` groups of a byte sequence.
pub open spec fn spec_pct_bytes(bs: Seq<u8>) -> Seq<char>
    decreases bs.len(),
{
    if bs.len() == 0 {
        Seq::empty()
    } else {
        spec_pct_byte(bs[0]) + spec_pct_bytes(bs.drop_first())
    }
}

/// One encoded character: an unreserved character stands for itself,
/// anything else becomes the `%XX` groups of its UTF-8 bytes.
pub open spec fn spec_encoded_char(c: char) -> Seq<char> {
    if spec_is_unreserved(c) {
        seq![c]
    } else {
        spec_pct_bytes(encode_scalar(c as u32))
    }
}

/// True when the sequence begins with a percent-encoded triple `%XX`.
pub open spec fn spec_starts_pct_triple(s: Seq<char>) -> bool {
    s.len() >= 3 && s[0] == '%' && spec_is_hex_digit(s[1]) && spec_is_hex_digit(s[2])
}

/// The whole encoded value. With `preserve` set (reserved-preserving
/// operators), a leading `%XX` triple is copied through unchanged;
/// otherwise each character is encoded on its own, so a literal `%`
/// becomes `%25` and a space becomes `%20`.
pub open spec fn spec_encoded_value(s: Seq<char>, preserve: bool) -> Seq<char>
    decreases s.len(),
{
    if s.len() == 0 {
        Seq::empty()
    } else if preserve && spec_starts_pct_triple(s) {
        s.take(3) + spec_encoded_value(s.skip(3), preserve)
    } else {
        spec_encoded_char(s[0]) + spec_encoded_value(s.skip(1), preserve)
    }
}

/// The uppercase hexadecimal digit of a nibble.
pub fn hex_upper(n: u8) -> (r: char)
    requires
        n < 16,
    ensures
        r == spec_hex_upper(n as int),
{
    match n {
        0 => '0',
        1 => '1',
        2 => '2',
        3 => '3',
        4 => '4',
        5 => '5',
        6 => '6',
        7 => '7',
        8 => '8',
        9 => '9',
        10 => 'A',
        11 => 'B',
        12 => 'C',
        13 => 'D',
        14 => 'E',
        _ => 'F',
    }
}

/// The UTF-8 bytes of one character.
pub fn utf8_of_char(c: char) -> (r: Vec<u8>)
    ensures
        r@ == encode_scalar(c as u32),
{
    proof {
        char_is_scalar(c);
    }
    let u = c as u32;
    let mut r: Vec<u8> = Vec::new();
    if u <= 0x7F {
        r.push((u & 0x7F) as u8);
        proof {
            assert(has_width_1_encoding(u));
            assert(r@ =~= encode_scalar(u));
        }
    } else if u <= 0x7FF {
        r.push(0xC0 | ((u >> 6) & 0x1F) as u8);
        r.push(0x80 | (u & 0x3F) as u8);
        proof {
            assert(has_width_2_encoding(u));
            assert(r@ =~= encode_scalar(u));
        }
    } else if u <= 0xFFFF {
        r.push(0xE0 | ((u >> 12) & 0x0F) as u8);
        r.push(0x80 | ((u >> 6) & 0x3F) as u8);
        r.push(0x80 | (u & 0x3F) as u8);
        proof {
            assert(is_scalar(u) && !has_width_1_encoding(u) && !has_width_2_encoding(u));
            assert(has_width_3_encoding(u));
            assert(r@ =~= encode_scalar(u));
        }
    } else {
        r.push(0xF0 | ((u >> 18) & 0x7) as u8);
        r.push(0x80 | ((u >> 12) & 0x3F) as u8);
        r.push(0x80 | ((u >> 6) & 0x3F) as u8);
        r.push(0x80 | (u & 0x3F) as u8);
        proof {
            assert(!has_width_1_encoding(u) && !has_width_2_encoding(u) && !has_width_3_encoding(
                u,
            ));
            assert(r@ =~= encode_scalar(u));
        }
    }
    r
}

/// Appends the encoding of one character to the output.
pub fn push_encoded_char(result: &mut Vec<char>, c: char)
    ensures
        final(result)@ == old(result)@ + spec_encoded_char(c),
{
    if is_unreserved(c) {
        result.push(c);
        proof {
            assert(result@ =~= old(result)@ + spec_encoded_char(c));
        }
    } else {
        let bytes = utf8_of_char(c);
        let n = bytes.len();
        let mut i: usize = 0;
        proof {
            assert(bytes@.skip(0) =~= bytes@);
        }
        while i < n
            invariant
                n == bytes@.len(),
                i <= n,
                bytes@ == encode_scalar(c as u32),
                !spec_is_unreserved(c),
                result@ + spec_pct_bytes(bytes@.skip(i as int)) == old(result)@
                    + spec_encoded_char(c),
            decreases n - i,
        {
            let b = bytes[i];
            result.push('%');
            result.push(hex_upper(b / 16));
            result.push(hex_upper(b % 16));
            proof {
                assert(bytes@.skip(i as int)[0] == b);
                assert(bytes@.skip(i as int).drop_first() =~= bytes@.skip(i as int + 1));
                assert(result@ + spec_pct_bytes(bytes@.skip(i as int + 1)) =~= old(result)@
                    + spec_encoded_char(c));
            }
            i = i + 1;
        }
        proof {
            assert(bytes@.skip(n as int) =~= Seq::<u8>::empty());
            assert(result@ =~= old(result)@ + spec_encoded_char(c));
        }
    }
}

/// Appends the encoding of a whole value to the output, honoring the
/// reserved-preserving mode.
pub fn push_encoded_value(result: &mut Vec<char>, value: &Vec<char>, preserve: bool)
    ensures
        final(result)@ == old(result)@ + spec_encoded_value(value@, preserve),
{
    let n = value.len();
    let mut i: usize = 0;
    proof {
        assert(value@.skip(0) =~= value@);
    }
    while i < n
        invariant
            n == value@.len(),
            i <= n,
            result@ + spec_encoded_value(value@.skip(i as int), preserve) == old(result)@
                + spec_encoded_value(value@, preserve),
        decreases n - i,
    {
        let c = value[i];
        if preserve && c == '%' && n - i >= 3 && is_hex_digit(value[i + 1]) && is_hex_digit(
            value[i + 2],
        ) {
            proof {
                assert(spec_starts_pct_triple(value@.skip(i as int)));
                assert(value@.skip(i as int).take(3) =~= seq![
                    value@[i as int],
                    value@[i as int + 1],
                    value@[i as int + 2],
                ]);
                assert(value@.skip(i as int).skip(3) =~= value@.skip(i as int + 3));
            }
            result.push(c);
            result.push(value[i + 1]);
            result.push(value[i + 2]);
            proof {
                assert(result@ + spec_encoded_value(value@.skip(i as int + 3), preserve) =~= old(
                    result,
                )@ + spec_encoded_value(value@, preserve));
            }
            i = i + 3;
        } else {
            proof {
                assert(!(preserve && spec_starts_pct_triple(value@.skip(i as int))));
                assert(value@.skip(i as int)[0] == c);
                assert(value@.skip(i as int).skip(1) =~= value@.skip(i as int + 1));
            }
            push_encoded_char(result, c);
            proof {
                assert(result@ + spec_encoded_value(value@.skip(i as int + 1), preserve) =~= old(
                    result,
                )@ + spec_encoded_value(value@, preserve));
            }
            i = i + 1;
        }
    }
    proof {
        assert(value@.skip(n as int) =~= Seq::<char>::empty());
        assert(result@ =~= old(result)@ + spec_encoded_value(value@, preserve));
    }
}

} // verus!
