//! Percent-encoding: text made safe to stand as one value in a URL's query.

use vstd::prelude::*;
use vstd::utf8::{encode_utf8, encode_utf8_decode_utf8};

verus! {

/// Whether the byte `b` stands for itself in encoded text: an ASCII letter, a
/// digit, or one of `-`, `.`, `_` and `~`.
pub open spec fn is_unreserved(b: u8) -> bool {
    ||| 0x41 <= b <= 0x5A
    ||| 0x61 <= b <= 0x7A
    ||| 0x30 <= b <= 0x39
    ||| b == 0x2D
    ||| b == 0x2E
    ||| b == 0x5F
    ||| b == 0x7E
}

/// The character of the hexadecimal digit `n`, in upper case.
pub open spec fn hex_digit(n: int) -> char
    recommends
        0 <= n <= 15,
{
    if n < 10 {
        (n + 48) as char
    } else {
        (n + 55) as char
    }
}

/// What the byte `b` is written as: itself where it is unreserved, else a
/// percent sign and its two hexadecimal digits.
pub open spec fn encoded_byte(b: u8) -> Seq<char> {
    if is_unreserved(b) {
        seq![b as char]
    } else {
        seq!['%', hex_digit(b as int / 16), hex_digit(b as int % 16)]
    }
}

/// The bytes of `bytes`, each written as [`encoded_byte`] has it.
pub open spec fn encoded_bytes(bytes: Seq<u8>) -> Seq<char>
    decreases bytes.len(),
{
    if bytes.len() == 0 {
        Seq::empty()
    } else {
        encoded_byte(bytes.first()) + encoded_bytes(bytes.drop_first())
    }
}

/// `text` percent-encoded: the bytes of its UTF-8 form, each unreserved byte
/// as it stands and every other byte as `%` and two hexadecimal digits.
pub open spec fn encoded(text: Seq<char>) -> Seq<char> {
    encoded_bytes(encode_utf8(text))
}

/// Whether `c` may occur in encoded text: an ASCII letter, a digit, or one of
/// `-`, `.`, `_`, `~` and `%`.
pub open spec fn is_encoded_char(c: char) -> bool {
    ||| 'A' <= c <= 'Z'
    ||| 'a' <= c <= 'z'
    ||| '0' <= c <= '9'
    ||| c == '-'
    ||| c == '.'
    ||| c == '_'
    ||| c == '~'
    ||| c == '%'
}

/// Encoding goes byte by byte: a byte more at the end adds its own encoding
/// at the end.
proof fn lemma_encoded_push(bytes: Seq<u8>, b: u8)
    ensures
        encoded_bytes(bytes.push(b)) == encoded_bytes(bytes) + encoded_byte(b),
    decreases bytes.len(),
{
    if bytes.len() == 0 {
        assert(bytes.push(b).drop_first() == bytes);
    } else {
        assert(bytes.push(b).drop_first() == bytes.drop_first().push(b));
        lemma_encoded_push(bytes.drop_first(), b);
    }
}

/// Every character of encoded bytes is one that encoded text may hold.
proof fn lemma_encoded_bytes_are_safe(bytes: Seq<u8>)
    ensures
        forall|i: int|
            0 <= i < encoded_bytes(bytes).len() ==> is_encoded_char(
                #[trigger] encoded_bytes(bytes)[i],
            ),
    decreases bytes.len(),
{
    if bytes.len() > 0 {
        let head = encoded_byte(bytes.first());
        let tail = encoded_bytes(bytes.drop_first());
        lemma_encoded_bytes_are_safe(bytes.drop_first());
        assert forall|i: int| 0 <= i < encoded_bytes(bytes).len() implies is_encoded_char(
            #[trigger] encoded_bytes(bytes)[i],
        ) by {
            if i < head.len() {
                assert(encoded_bytes(bytes)[i] == head[i]);
            } else {
                assert(encoded_bytes(bytes)[i] == tail[i - head.len()]);
            }
        }
    }
}

/// Two byte sequences with the same encoding are the same.
proof fn lemma_encoded_bytes_are_told_apart(a: Seq<u8>, b: Seq<u8>)
    requires
        encoded_bytes(a) == encoded_bytes(b),
    ensures
        a == b,
    decreases a.len(),
{
    if a.len() > 0 && b.len() > 0 {
        let x = a.first();
        let y = b.first();
        let ea = encoded_bytes(a);
        let eb = encoded_bytes(b);
        // The first character tells an unreserved byte from a percent sign.
        assert(ea[0] == encoded_byte(x)[0]);
        assert(eb[0] == encoded_byte(y)[0]);
        if !is_unreserved(x) {
            assert(ea[1] == hex_digit(x as int / 16));
            assert(eb[1] == hex_digit(y as int / 16));
            assert(ea[2] == hex_digit(x as int % 16));
            assert(eb[2] == hex_digit(y as int % 16));
        }
        assert(x == y);
        let n = encoded_byte(x).len() as int;
        assert(ea.skip(n) == encoded_bytes(a.drop_first()));
        assert(eb.skip(n) == encoded_bytes(b.drop_first()));
        lemma_encoded_bytes_are_told_apart(a.drop_first(), b.drop_first());
        assert(a == seq![x] + a.drop_first());
        assert(b == seq![y] + b.drop_first());
    } else if a.len() > 0 {
        assert(encoded_bytes(a).len() >= encoded_byte(a.first()).len());
    } else if b.len() > 0 {
        assert(encoded_bytes(b).len() >= encoded_byte(b.first()).len());
    }
}

/// Encoded text holds nothing but letters, digits, `-`, `.`, `_`, `~` and
/// `%`: so no `&`, `#`, `=`, `+` or `?` and no blank, none of the characters
/// that part a query into names and values.
pub proof fn lemma_encoded_is_safe(text: Seq<char>)
    ensures
        forall|i: int|
            0 <= i < encoded(text).len() ==> {
                let c = #[trigger] encoded(text)[i];
                &&& is_encoded_char(c)
                &&& c != '&'
                &&& c != '#'
                &&& c != '='
                &&& c != '+'
                &&& c != '?'
                &&& c != ' '
            },
{
    lemma_encoded_bytes_are_safe(encode_utf8(text));
}

/// Encoding loses nothing: two texts with the same encoding are the same
/// text.
pub proof fn lemma_encoded_is_injective(a: Seq<char>, b: Seq<char>)
    requires
        encoded(a) == encoded(b),
    ensures
        a == b,
{
    lemma_encoded_bytes_are_told_apart(encode_utf8(a), encode_utf8(b));
    encode_utf8_decode_utf8(a);
    encode_utf8_decode_utf8(b);
}

/// The character of the hexadecimal digit `n`, in upper case.
fn hex_char(n: u8) -> (c: char)
    requires
        n <= 15,
    ensures
        c == hex_digit(n as int),
{
    if n < 10 {
        (n + 48u8) as char
    } else {
        (n + 55u8) as char
    }
}

/// Decides whether the byte `b` stands for itself in encoded text.
fn is_unreserved_byte(b: u8) -> (r: bool)
    ensures
        r == is_unreserved(b),
{
    (0x41 <= b && b <= 0x5A) || (0x61 <= b && b <= 0x7A) || (0x30 <= b && b <= 0x39) || b == 0x2D
        || b == 0x2E || b == 0x5F || b == 0x7E
}

/// Appends `text`, percent-encoded, to `out`.
pub fn push_encoded(out: &mut String, text: &str)
    ensures
        final(out)@ == old(out)@ + encoded(text@),
{
    let bytes = text.as_bytes();
    for i in 0..bytes.len()
        invariant
            bytes@ == encode_utf8(text@),
            out@ == old(out)@ + encoded_bytes(bytes@.take(i as int)),
    {
        let b = bytes[i];
        proof {
            assert(bytes@.take(i + 1) == bytes@.take(i as int).push(b));
            lemma_encoded_push(bytes@.take(i as int), b);
        }
        if is_unreserved_byte(b) {
            out.push(b as char);
        } else {
            out.push('%');
            out.push(hex_char(b / 16));
            out.push(hex_char(b % 16));
        }
    }
    assert(bytes@.take(bytes@.len() as int) == bytes@);
}

/// Percent-encodes `text`.
pub fn encode(text: &str) -> (r: String)
    ensures
        r@ == encoded(text@),
{
    let mut r = String::new();
    push_encoded(&mut r, text);
    r
}

} // verus!
