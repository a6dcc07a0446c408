//! Base64 (standard alphabet, `=` padding) for the OSC 52 clipboard escape.

use vstd::prelude::*;
use crate::text::push_char;
use vstd::arithmetic::div_mod::lemma_fundamental_div_mod_converse;

verus! {

/// The character of the standard base64 alphabet with value `v` (< 64).
pub open spec fn b64_char(v: int) -> char {
    if v < 26 {
        (65 + v) as char
    } else if v < 52 {
        (97 + (v - 26)) as char
    } else if v < 62 {
        (48 + (v - 52)) as char
    } else if v == 62 {
        '+'
    } else {
        '/'
    }
}

/// The four output characters of one input chunk of one to three bytes.
pub open spec fn b64_chunk(c: Seq<u8>) -> Seq<char> {
    let b0 = c[0] as int;
    let b1 = if c.len() > 1 { c[1] as int } else { 0 };
    let b2 = if c.len() > 2 { c[2] as int } else { 0 };
    seq![
        b64_char(b0 / 4),
        b64_char((b0 % 4) * 16 + b1 / 16),
        if c.len() > 1 { b64_char((b1 % 16) * 4 + b2 / 64) } else { '=' },
        if c.len() > 2 { b64_char(b2 % 64) } else { '=' },
    ]
}

/// Base64 of `data`: each chunk of three bytes (the last may be shorter)
/// becomes four characters, short chunks padded with `=`.
pub open spec fn b64(data: Seq<u8>) -> Seq<char>
    decreases data.len(),
{
    if data.len() == 0 {
        Seq::empty()
    } else if data.len() <= 3 {
        b64_chunk(data)
    } else {
        b64_chunk(data.take(3)) + b64(data.skip(3))
    }
}

fn alphabet(v: u32) -> (c: char)
    requires
        v < 64,
    ensures
        c == b64_char(v as int),
{
    if v < 26 {
        (65 + v) as u8 as char
    } else if v < 52 {
        (97 + (v - 26)) as u8 as char
    } else if v < 62 {
        (48 + (v - 52)) as u8 as char
    } else if v == 62 {
        '+'
    } else {
        '/'
    }
}

proof fn lemma_b64_split(data: Seq<u8>, i: int)
    requires
        0 <= i <= data.len(),
        i % 3 == 0,
        i < data.len(),
    ensures
        b64(data.skip(i)) == b64_chunk(data.subrange(i, if i + 3 <= data.len() { i + 3 } else { data.len() as int }))
            + b64(data.skip(if i + 3 <= data.len() { i + 3 } else { data.len() as int })),
{
    let rest = data.skip(i);
    let end = if i + 3 <= data.len() { i + 3 } else { data.len() as int };
    if rest.len() <= 3 {
        assert(rest =~= data.subrange(i, end));
        assert(data.skip(end).len() == 0);
        assert(b64(data.skip(end)) =~= Seq::<char>::empty());
        assert(b64(rest) =~= b64_chunk(data.subrange(i, end)) + Seq::<char>::empty());
    } else {
        assert(rest.take(3) =~= data.subrange(i, end));
        assert(rest.skip(3) =~= data.skip(end));
    }
}

/// Encodes `data` as base64.
pub fn base64_encode(data: &[u8]) -> (r: String)
    ensures
        r@ == b64(data@),
{
    let mut result = String::new();
    let n = data.len();
    let mut i: usize = 0;
    assert(data@.skip(0) =~= data@);
    assert(result@ + b64(data@) =~= b64(data@));
    while i < n
        invariant
            n == data@.len(),
            i <= n,
            i % 3 == 0 || i == n,
            b64(data@) == result@ + b64(data@.skip(i as int)),
        decreases n - i,
    {
        let len: usize = if n - i >= 3 { 3 } else { n - i };
        proof {
            lemma_b64_split(data@, i as int);
        }
        let b0 = data[i] as u32;
        let b1: u32 = if len > 1 { data[i + 1] as u32 } else { 0 };
        let b2: u32 = if len > 2 { data[i + 2] as u32 } else { 0 };
        let ghost chunk = data@.subrange(i as int, (i + len) as int);
        let ghost before = result@;
        push_char(&mut result, alphabet(b0 / 4));
        push_char(&mut result, alphabet((b0 % 4) * 16 + b1 / 16));
        if len > 1 {
            push_char(&mut result, alphabet((b1 % 16) * 4 + b2 / 64));
        } else {
            push_char(&mut result, '=');
        }
        if len > 2 {
            push_char(&mut result, alphabet(b2 % 64));
        } else {
            push_char(&mut result, '=');
        }
        assert(result@ =~= before + b64_chunk(chunk));
        i = i + len;
    }
    assert(data@.skip(n as int) =~= Seq::<u8>::empty());
    result
}


/// Whether `c` is one of the 64 characters of the standard alphabet.
pub open spec fn in_alphabet(c: char) -> bool {
    exists|v: int| 0 <= v < 64 && b64_char(v) == c
}

/// The number of `=` that pad the base64 of `n` bytes.
pub open spec fn pad_len(n: nat) -> int {
    (3 - n % 3) % 3
}

proof fn lemma_char_injective(v: int, w: int)
    requires
        0 <= v < 64,
        0 <= w < 64,
    ensures
        b64_char(v) != '=',
        in_alphabet(b64_char(v)),
        b64_char(v) == b64_char(w) ==> v == w,
{
}

proof fn lemma_digits(q1: int, r1: int, q2: int, r2: int, d: int)
    requires
        d > 0,
        0 <= r1 < d,
        0 <= r2 < d,
        q1 * d + r1 == q2 * d + r2,
    ensures
        q1 == q2,
        r1 == r2,
{
    let x = q1 * d + r1;
    lemma_fundamental_div_mod_converse(x, d, q1, r1);
    lemma_fundamental_div_mod_converse(x, d, q2, r2);
}

proof fn lemma_byte(b: int, d: int)
    requires
        0 <= b < 256,
        d > 0,
    ensures
        b == (b / d) * d + b % d,
        0 <= b % d < d,
{
    vstd::arithmetic::div_mod::lemma_fundamental_div_mod(b, d);
    vstd::arithmetic::mul::lemma_mul_is_commutative(b / d, d);
}

/// The characters of one chunk: the first two always from the alphabet,
/// the other two from it where the chunk has the byte, else `=`.
proof fn lemma_chunk_chars(c: Seq<u8>)
    requires
        1 <= c.len() <= 3,
    ensures
        b64_chunk(c).len() == 4,
        forall|k: int| 0 <= k < 4 && k <= c.len() ==> #[trigger] in_alphabet(b64_chunk(c)[k]) && b64_chunk(c)[k] != '=',
        forall|k: int| c.len() < k < 4 ==> #[trigger] b64_chunk(c)[k] == '=',
{
    let b0 = c[0] as int;
    let b1 = if c.len() > 1 { c[1] as int } else { 0 };
    let b2 = if c.len() > 2 { c[2] as int } else { 0 };
    lemma_byte(b0, 4);
    lemma_byte(b1, 16);
    lemma_byte(b2, 64);
    lemma_char_injective(b0 / 4, 0);
    lemma_char_injective((b0 % 4) * 16 + b1 / 16, 0);
    lemma_char_injective((b1 % 16) * 4 + b2 / 64, 0);
    lemma_char_injective(b2 % 64, 0);
}

proof fn lemma_chunk_injective(c: Seq<u8>, d: Seq<u8>)
    requires
        1 <= c.len() <= 3,
        1 <= d.len() <= 3,
        b64_chunk(c) == b64_chunk(d),
    ensures
        c == d,
{
    lemma_chunk_chars(c);
    lemma_chunk_chars(d);
    assert(c.len() == d.len()) by {
        assert(b64_chunk(c)[2] == b64_chunk(d)[2]);
        assert(b64_chunk(c)[3] == b64_chunk(d)[3]);
    }
    let b0 = c[0] as int;
    let b1 = if c.len() > 1 { c[1] as int } else { 0 };
    let b2 = if c.len() > 2 { c[2] as int } else { 0 };
    let e0 = d[0] as int;
    let e1 = if d.len() > 1 { d[1] as int } else { 0 };
    let e2 = if d.len() > 2 { d[2] as int } else { 0 };
    lemma_byte(b0, 4);
    lemma_byte(b1, 16);
    lemma_byte(b2, 64);
    lemma_byte(e0, 4);
    lemma_byte(e1, 16);
    lemma_byte(e2, 64);
    lemma_byte(b1, 4);
    lemma_byte(e1, 4);
    lemma_char_injective(b0 / 4, e0 / 4);
    lemma_char_injective((b0 % 4) * 16 + b1 / 16, (e0 % 4) * 16 + e1 / 16);
    lemma_char_injective((b1 % 16) * 4 + b2 / 64, (e1 % 16) * 4 + e2 / 64);
    lemma_char_injective(b2 % 64, e2 % 64);
    assert(b64_chunk(c)[0] == b64_chunk(d)[0]);
    assert(b64_chunk(c)[1] == b64_chunk(d)[1]);
    lemma_digits(b0 % 4, b1 / 16, e0 % 4, e1 / 16, 16);
    assert(b0 == e0);
    if c.len() > 1 {
        assert(b64_chunk(c)[2] == b64_chunk(d)[2]);
        lemma_digits(b1 % 16, b2 / 64, e1 % 16, e2 / 64, 4);
        assert(b1 == (b1 / 16) * 16 + b1 % 16);
        assert(e1 == (e1 / 16) * 16 + e1 % 16);
        assert(b1 == e1);
    }
    if c.len() > 2 {
        assert(b64_chunk(c)[3] == b64_chunk(d)[3]);
        assert(b2 == e2);
    }
    assert(c =~= d);
}

/// Base64 of `n` bytes has four characters per started group of three: the
/// last `(3 - n % 3) % 3` are `=`, every other one is from the alphabet.
pub proof fn law_base64_shape(data: Seq<u8>)
    ensures
        b64(data).len() == 4 * ((data.len() + 2) / 3),
        forall|i: int| 0 <= i < b64(data).len() - pad_len(data.len()) ==> #[trigger] in_alphabet(b64(data)[i]) && b64(data)[i] != '=',
        forall|i: int| b64(data).len() - pad_len(data.len()) <= i < b64(data).len() ==> #[trigger] b64(data)[i] == '=',
    decreases data.len(),
{
    if data.len() == 0 {
    } else if data.len() <= 3 {
        lemma_chunk_chars(data);
    } else {
        let head = data.take(3);
        let rest = data.skip(3);
        lemma_chunk_chars(head);
        law_base64_shape(rest);
        let out = b64(data);
        assert(out == b64_chunk(head) + b64(rest));
        assert(pad_len(data.len()) == pad_len(rest.len()));
        assert forall|i: int| 0 <= i < out.len() - pad_len(data.len()) implies #[trigger] in_alphabet(out[i]) && out[i] != '=' by {
            if i >= 4 {
                assert(out[i] == b64(rest)[i - 4]);
            } else {
                assert(out[i] == b64_chunk(head)[i]);
            }
        }
        assert forall|i: int| out.len() - pad_len(data.len()) <= i < out.len() implies #[trigger] out[i] == '=' by {
            assert(out[i] == b64(rest)[i - 4]);
        }
    }
}

/// Nothing is lost: two byte strings with the same base64 are the same.
pub proof fn law_base64_decodes(a: Seq<u8>, b: Seq<u8>)
    requires
        b64(a) == b64(b),
    ensures
        a == b,
    decreases a.len(),
{
    law_base64_shape(a);
    law_base64_shape(b);
    if a.len() == 0 || b.len() == 0 {
        assert(a.len() == 0 && b.len() == 0);
        assert(a =~= b);
    } else if a.len() <= 3 {
        assert(b.len() <= 3);
        lemma_chunk_injective(a, b);
    } else {
        assert(b.len() > 3);
        lemma_chunk_chars(a.take(3));
        lemma_chunk_chars(b.take(3));
        let oa = b64(a);
        assert(oa == b64_chunk(a.take(3)) + b64(a.skip(3)));
        assert(b64(b) == b64_chunk(b.take(3)) + b64(b.skip(3)));
        assert(b64_chunk(a.take(3)) =~= oa.take(4));
        assert(b64_chunk(b.take(3)) =~= oa.take(4));
        assert(b64(a.skip(3)) =~= oa.skip(4));
        assert(b64(b.skip(3)) =~= oa.skip(4));
        lemma_chunk_injective(a.take(3), b.take(3));
        law_base64_decodes(a.skip(3), b.skip(3));
        assert(a =~= a.take(3) + a.skip(3));
        assert(b =~= b.take(3) + b.skip(3));
    }
}


/// The standard base64 alphabet of RFC 4648: `A`-`Z` for 0-25, `a`-`z` for
/// 26-51, `0`-`9` for 52-61, `+` for 62 and `/` for 63. Every 6-bit value is
/// written as the character at its position in
/// `ABCDEFGHIJKLMNOPQRSTUVWXYZabcdefghijklmnopqrstuvwxyz0123456789+/`.
pub proof fn law_base64_uses_the_standard_alphabet(v: int)
    requires
        0 <= v < 64,
    ensures
        b64_char(v) == "ABCDEFGHIJKLMNOPQRSTUVWXYZabcdefghijklmnopqrstuvwxyz0123456789+/"@[v],
        b64_char(62) == '+',
        b64_char(63) == '/',
{
    reveal_strlit("ABCDEFGHIJKLMNOPQRSTUVWXYZabcdefghijklmnopqrstuvwxyz0123456789+/");
}

} // verus!
