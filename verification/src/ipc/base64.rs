//! Base64 text for signatures and token identifiers.
//!
//! Standard base64: every group of three input bytes becomes four
//! characters of the standard alphabet; a final group of one byte is written
//! as two characters and `==`, one of two bytes as three characters and `=`.
//! The decoder drops trailing `=` characters and turns every group of up to
//! four characters back into bytes: four characters give three bytes, three
//! give two, two or one give one. Decoding the text of any bytes gives the
//! bytes back.
use vstd::prelude::*;
use crate::text::push_char;
use vstd::utf8::encode_utf8;

verus! {

/// The ASCII code of the alphabet character for a six-bit value.
pub open spec fn b64_byte(v: u32) -> u8 {
    if v < 26 {
        (v + 65) as u8
    } else if v < 52 {
        (v + 71) as u8
    } else if v < 62 {
        (v - 4) as u8
    } else if v == 62 {
        43u8
    } else {
        47u8
    }
}

/// The alphabet character for a six-bit value.
pub open spec fn b64_char(v: u32) -> char {
    b64_byte(v) as char
}

/// Whether a byte is the code of an alphabet character.
pub open spec fn is_b64_byte(b: u8) -> bool {
    (65 <= b <= 90) || (97 <= b <= 122) || (48 <= b <= 57) || b == 43 || b == 47
}

/// The six-bit value of an alphabet character's code.
pub open spec fn b64_value(b: u8) -> u32 {
    if 65 <= b <= 90 {
        (b - 65) as u32
    } else if 97 <= b <= 122 {
        (b - 71) as u32
    } else if 48 <= b <= 57 {
        (b + 4) as u32
    } else if b == 43 {
        62
    } else {
        63
    }
}

/// The number of four-character groups that encode `n` bytes.
pub open spec fn group_count(n: nat) -> nat {
    (n + 2) / 3
}

/// The byte at `i`, or zero past the end.
pub open spec fn byte_or_zero(s: Seq<u8>, i: int) -> u32 {
    if 0 <= i < s.len() {
        s[i] as u32
    } else {
        0
    }
}

/// The 24-bit value of the `g`-th group of three bytes.
pub open spec fn triple(s: Seq<u8>, g: int) -> u32 {
    (byte_or_zero(s, 3 * g) << 16) | (byte_or_zero(s, 3 * g + 1) << 8) | byte_or_zero(s, 3 * g + 2)
}

/// The `k`-th six-bit value, from the top, of a 24-bit value.
pub open spec fn sextet(t: u32, k: int) -> u32 {
    if k == 0 {
        (t >> 18) & 0x3f
    } else if k == 1 {
        (t >> 12) & 0x3f
    } else if k == 2 {
        (t >> 6) & 0x3f
    } else {
        t & 0x3f
    }
}

/// Whether character `j` of the text of `n` bytes is padding: the third or
/// fourth character of a group whose bytes run out before it.
pub open spec fn is_pad_position(n: nat, j: int) -> bool {
    j % 4 >= 2 && 3 * (j / 4) + j % 4 - 1 >= n
}

/// How many `=` characters end the text of `n` bytes.
pub open spec fn pad_count(n: nat) -> nat {
    ((3 - n % 3) % 3) as nat
}

/// The text that encodes a byte sequence.
pub open spec fn b64_encode(s: Seq<u8>) -> Seq<char> {
    Seq::new(
        4 * group_count(s.len()),
        |j: int|
            if is_pad_position(s.len(), j) {
                '='
            } else {
                b64_char(sextet(triple(s, j / 4), j % 4))
            },
    )
}

/// The bytes left when trailing `=` bytes are dropped.
pub open spec fn trim_padding(s: Seq<u8>) -> Seq<u8>
    decreases s.len(),
{
    if s.len() > 0 && s.last() == 61 {
        trim_padding(s.drop_last())
    } else {
        s
    }
}

/// Whether every byte is the code of an alphabet character.
pub open spec fn all_b64(s: Seq<u8>) -> bool {
    forall|i: int| 0 <= i < s.len() ==> is_b64_byte(#[trigger] s[i])
}

/// Whether the decoder accepts the text whose UTF-8 bytes are `s`: every
/// character left after the trailing `=` are dropped is in the alphabet.
pub open spec fn decodable(s: Seq<u8>) -> bool {
    all_b64(trim_padding(s))
}

/// The six-bit value of the character at `i`, or zero past the end.
pub open spec fn value_or_zero(t: Seq<u8>, i: int) -> u32 {
    if 0 <= i < t.len() {
        b64_value(t[i])
    } else {
        0
    }
}

/// The 24-bit value of the `g`-th group of four characters.
pub open spec fn quad(t: Seq<u8>, g: int) -> u32 {
    (value_or_zero(t, 4 * g) << 18) | (value_or_zero(t, 4 * g + 1) << 12) | (value_or_zero(
        t,
        4 * g + 2,
    ) << 6) | value_or_zero(t, 4 * g + 3)
}

/// How many bytes the last, partial group of `r` characters gives.
pub open spec fn partial_group_bytes(r: nat) -> nat {
    if r == 0 {
        0
    } else if r == 3 {
        2
    } else {
        1
    }
}

/// How many bytes `m` characters decode to.
pub open spec fn decoded_len(m: nat) -> nat {
    3 * (m / 4) + partial_group_bytes(m % 4)
}

/// The `k`-th byte, from the top, of a 24-bit value.
pub open spec fn group_byte(q: u32, k: int) -> u8 {
    if k == 0 {
        (q >> 16) as u8
    } else if k == 1 {
        (q >> 8) as u8
    } else {
        q as u8
    }
}

/// The bytes that the text with UTF-8 bytes `s` decodes to.
pub open spec fn b64_decode(s: Seq<u8>) -> Seq<u8> {
    let t = trim_padding(s);
    Seq::new(decoded_len(t.len()), |j: int| group_byte(quad(t, j / 3), j % 3))
}

/// The alphabet character for a six-bit value.
fn sextet_char(v: u32) -> (c: char)
    requires
        v < 64,
    ensures
        c == b64_char(v),
{
    let b: u8 = if v < 26 {
        (v + 65) as u8
    } else if v < 52 {
        (v + 71) as u8
    } else if v < 62 {
        (v - 4) as u8
    } else if v == 62 {
        43u8
    } else {
        47u8
    };
    b as char
}

/// The six-bit value of an alphabet character's code.
fn byte_value(b: u8) -> (v: u32)
    requires
        is_b64_byte(b),
    ensures
        v == b64_value(b),
        v < 64,
{
    if 65 <= b && b <= 90 {
        (b - 65) as u32
    } else if 97 <= b && b <= 122 {
        (b - 71) as u32
    } else if 48 <= b && b <= 57 {
        (b + 4) as u32
    } else if b == 43 {
        62
    } else {
        63
    }
}

/// Encodes bytes as text, four characters for every group of three bytes.
pub fn encode(bytes: &[u8]) -> (r: String)
    ensures
        r@ == b64_encode(bytes@),
{
    let n = bytes.len();
    let groups = n / 3 + if n % 3 == 0 { 0 } else { 1 };
    assert(groups == group_count(n as nat));
    let mut result = String::new();
    let mut g: usize = 0;
    while g < groups
        invariant
            n == bytes@.len(),
            groups == group_count(n as nat),
            g <= groups,
            result@.len() == 4 * g,
            forall|j: int|
                0 <= j < 4 * g ==> #[trigger] result@[j] == b64_encode(bytes@)[j],
        decreases groups - g,
    {
        let i = 3 * g;
        let a: u32 = bytes[i] as u32;
        let b: u32 = if i + 1 < n { bytes[i + 1] as u32 } else { 0 };
        let c: u32 = if i + 2 < n { bytes[i + 2] as u32 } else { 0 };
        let t: u32 = (a << 16) | (b << 8) | c;
        assert(t == triple(bytes@, g as int));
        assert((t >> 18) & 0x3f < 64 && (t >> 12) & 0x3f < 64 && (t >> 6) & 0x3f < 64 && t & 0x3f
            < 64) by (bit_vector);
        let ghost before = result@;
        push_char(&mut result, sextet_char((t >> 18) & 0x3f));
        push_char(&mut result, sextet_char((t >> 12) & 0x3f));
        let c2 = if i + 1 < n {
            sextet_char((t >> 6) & 0x3f)
        } else {
            '='
        };
        let c3 = if i + 2 < n {
            sextet_char(t & 0x3f)
        } else {
            '='
        };
        push_char(&mut result, c2);
        push_char(&mut result, c3);
        assert forall|j: int| 0 <= j < 4 * (g + 1) implies #[trigger] result@[j] == b64_encode(
            bytes@,
        )[j] by {
            if j >= 4 * g {
                assert(j / 4 == g);
                assert(j % 4 == j - 4 * g);
            } else {
                assert(result@[j] == before[j]);
            }
        }
        g = g + 1;
    }
    assert(result@ =~= b64_encode(bytes@));
    result
}

/// The length left when trailing `=` bytes are dropped.
fn trimmed_len(bytes: &[u8]) -> (m: usize)
    ensures
        m <= bytes@.len(),
        trim_padding(bytes@) == bytes@.take(m as int),
{
    let ghost s = bytes@;
    let mut m: usize = bytes.len();
    assert(s.take(m as int) =~= s);
    while m > 0 && bytes[m - 1] == 61
        invariant
            s == bytes@,
            m <= s.len(),
            trim_padding(s) == trim_padding(s.take(m as int)),
        decreases m,
    {
        assert(s.take(m as int).drop_last() =~= s.take(m - 1));
        m = m - 1;
    }
    m
}

/// The 24-bit value of the group of up to four characters that starts at
/// `i`, counting characters at or past `m` as zero.
fn group_value(bytes: &[u8], i: usize, m: usize) -> (q: u32)
    requires
        m <= bytes@.len(),
        i < m,
        i % 4 == 0,
        all_b64(bytes@.take(m as int)),
    ensures
        q == quad(bytes@.take(m as int), i as int / 4),
{
    let ghost t = bytes@.take(m as int);
    assert(t[i as int] == bytes@[i as int]);
    let a = byte_value(bytes[i]);
    let b = if i + 1 < m {
        assert(t[i + 1] == bytes@[i + 1]);
        byte_value(bytes[i + 1])
    } else {
        0
    };
    let c = if i + 2 < m {
        assert(t[i + 2] == bytes@[i + 2]);
        byte_value(bytes[i + 2])
    } else {
        0
    };
    let d = if i + 3 < m {
        assert(t[i + 3] == bytes@[i + 3]);
        byte_value(bytes[i + 3])
    } else {
        0
    };
    assert(4 * (i as int / 4) == i);
    (a << 18) | (b << 12) | (c << 6) | d
}

/// Whether [`decode`] accepts a text: every character left after the
/// trailing `=` are dropped must be in the alphabet.
pub fn is_decodable(input: &str) -> (r: bool)
    ensures
        r == decodable(encode_utf8(input@)),
{
    let bytes = input.as_bytes();
    let m = trimmed_len(bytes);
    for i in 0..m
        invariant
            m <= bytes@.len(),
            bytes@ == encode_utf8(input@),
            trim_padding(bytes@) == bytes@.take(m as int),
            forall|j: int| 0 <= j < i ==> is_b64_byte(#[trigger] bytes@.take(m as int)[j]),
    {
        let b = bytes[i];
        assert(bytes@.take(m as int)[i as int] == b);
        if !((65 <= b && b <= 90) || (97 <= b && b <= 122) || (48 <= b && b <= 57) || b == 43 || b
            == 47) {
            assert(!is_b64_byte(bytes@.take(m as int)[i as int]));
            return false;
        }
    }
    true
}

/// Decodes text written by [`encode`], after dropping trailing `=`.
pub fn decode(input: &str) -> (r: Result<Vec<u8>, String>)
    requires
        decodable(encode_utf8(input@)),
    ensures
        r matches Ok(v) && v@ == b64_decode(encode_utf8(input@)),
{
    let bytes = input.as_bytes();
    let m = trimmed_len(bytes);
    let ghost t = bytes@.take(m as int);
    let full = m / 4;
    let mut result: Vec<u8> = Vec::new();
    let mut g: usize = 0;
    while g < full
        invariant
            t == bytes@.take(m as int),
            m <= bytes@.len(),
            full == m / 4,
            all_b64(t),
            g <= full,
            result@.len() == 3 * g,
            forall|j: int|
                0 <= j < 3 * g ==> #[trigger] result@[j] == group_byte(quad(t, j / 3), j % 3),
        decreases full - g,
    {
        let q = group_value(bytes, 4 * g, m);
        let ghost before = result@;
        result.push((q >> 16) as u8);
        result.push((q >> 8) as u8);
        result.push(q as u8);
        assert forall|j: int| 0 <= j < 3 * (g + 1) implies #[trigger] result@[j] == group_byte(
            quad(t, j / 3),
            j % 3,
        ) by {
            if j >= 3 * g {
                assert(j / 3 == g);
            } else {
                assert(result@[j] == before[j]);
            }
        }
        g = g + 1;
    }
    let rest = m - 4 * full;
    if rest > 0 {
        let q = group_value(bytes, 4 * full, m);
        let ghost before = result@;
        result.push((q >> 16) as u8);
        if rest > 2 {
            result.push((q >> 8) as u8);
        }
        assert forall|j: int| 0 <= j < result@.len() implies #[trigger] result@[j] == group_byte(
            quad(t, j / 3),
            j % 3,
        ) by {
            if j >= 3 * full {
                assert(j / 3 == full);
            } else {
                assert(result@[j] == before[j]);
            }
        }
    }
    assert(result@ =~= b64_decode(bytes@));
    Ok(result)
}

/// Facts about one alphabet character.
proof fn lemma_alphabet(v: u32)
    requires
        v < 64,
    ensures
        is_b64_byte(b64_byte(v)),
        b64_value(b64_byte(v)) == v,
        b64_byte(v) != 61,
        b64_byte(v) < 128,
        b64_char(v) as u8 == b64_byte(v),
        '\0' <= b64_char(v) <= '\u{7f}',
{
}

/// Splitting a 24-bit group into four six-bit values and joining them again
/// gives the group back, whose three bytes are the ones it was made of.
proof fn lemma_group_bits(a: u32, b: u32, c: u32)
    requires
        a < 256,
        b < 256,
        c < 256,
    ensures
        ({
            let t = (a << 16) | (b << 8) | c;
            &&& (((t >> 18) & 0x3f) << 18) | (((t >> 12) & 0x3f) << 12) | (((t >> 6) & 0x3f) << 6)
                | (t & 0x3f) == t
            &&& (t >> 16) as u8 == a
            &&& (t >> 8) as u8 == b
            &&& t as u8 == c
            &&& (t >> 18) & 0x3f < 64
            &&& (t >> 12) & 0x3f < 64
            &&& (t >> 6) & 0x3f < 64
            &&& t & 0x3f < 64
        }),
{
    assert((((((a << 16) | (b << 8) | c) >> 18) & 0x3f) << 18) | (((((a << 16) | (b << 8) | c)
        >> 12) & 0x3f) << 12) | (((((a << 16) | (b << 8) | c) >> 6) & 0x3f) << 6) | (((a << 16) | (b
        << 8) | c) & 0x3f) == ((a << 16) | (b << 8) | c)) by (bit_vector)
        requires
            a < 256,
            b < 256,
            c < 256,
    ;
    assert((((a << 16) | (b << 8) | c) >> 16) as u8 == a && (((a << 16) | (b << 8) | c) >> 8) as u8
        == b && ((a << 16) | (b << 8) | c) as u8 == c) by (bit_vector)
        requires
            a < 256,
            b < 256,
            c < 256,
    ;
    assert((((a << 16) | (b << 8) | c) >> 18) & 0x3f < 64 && (((a << 16) | (b << 8) | c) >> 12)
        & 0x3f < 64 && (((a << 16) | (b << 8) | c) >> 6) & 0x3f < 64 && ((a << 16) | (b << 8) | c)
        & 0x3f < 64) by (bit_vector);
}

/// A six-bit value that the encoder writes as padding is zero: the bytes
/// it is made of lie past the end.
proof fn lemma_pad_sextet_zero(s: Seq<u8>, g: int, i: int)
    requires
        0 <= g,
        0 <= i < 4,
        is_pad_position(s.len(), 4 * g + i),
    ensures
        sextet(triple(s, g), i) == 0,
{
    assert((4 * g + i) / 4 == g && (4 * g + i) % 4 == i);
    let a = byte_or_zero(s, 3 * g);
    let b = byte_or_zero(s, 3 * g + 1);
    assert(a < 256 && b < 256);
    if i == 2 {
        assert(byte_or_zero(s, 3 * g + 1) == 0 && byte_or_zero(s, 3 * g + 2) == 0);
        assert(((((a << 16) | (0u32 << 8) | 0u32) >> 6) & 0x3f) == 0) by (bit_vector)
            requires
                a < 256,
        ;
    } else {
        assert(i == 3);
        assert(byte_or_zero(s, 3 * g + 2) == 0);
        assert((((a << 16) | (b << 8) | 0u32) & 0x3f) == 0) by (bit_vector)
            requires
                a < 256,
                b < 256,
        ;
    }
}

/// Dropping trailing `=` bytes leaves the first `m` bytes when the bytes
/// from `m` on are all `=` and the one before them is not.
proof fn lemma_trim_to(b: Seq<u8>, m: int)
    requires
        0 <= m <= b.len(),
        forall|j: int| m <= j < b.len() ==> b[j] == 61,
        m > 0 ==> b[m - 1] != 61,
    ensures
        trim_padding(b) == b.take(m),
    decreases b.len(),
{
    if b.len() == m {
        assert(b.take(m) =~= b);
    } else {
        assert(b.last() == 61);
        let c = b.drop_last();
        assert forall|j: int| m <= j < c.len() implies c[j] == 61 by {
            assert(c[j] == b[j]);
        }
        if m > 0 {
            assert(c[m - 1] == b[m - 1]);
        }
        lemma_trim_to(c, m);
        assert(c.take(m) =~= b.take(m));
    }
}

/// Decoding the text of a byte sequence gives the bytes back; the text is
/// four characters for every started group of three bytes, and ends with
/// [`pad_count`] `=` characters.
pub proof fn lemma_decode_encode(s: Seq<u8>)
    ensures
        decodable(encode_utf8(b64_encode(s))),
        b64_decode(encode_utf8(b64_encode(s))) == s,
        b64_encode(s).len() == 4 * group_count(s.len()),
        forall|j: int|
            0 <= j < b64_encode(s).len() ==> (#[trigger] b64_encode(s)[j] == '=' <==> j >= 4
                * group_count(s.len()) - pad_count(s.len())),
{
    let n = s.len();
    let e = b64_encode(s);
    let ng = group_count(n);
    let p = pad_count(n);
    let m: int = 4 * ng - p;
    assert(n % 3 == 0 ==> p == 0 && 3 * ng == n);
    assert(n % 3 == 1 ==> p == 2 && 3 * ng == n + 2);
    assert(n % 3 == 2 ==> p == 1 && 3 * ng == n + 1);
    assert forall|j: int| 0 <= j < e.len() implies (is_pad_position(n, j) <==> j >= m) by {
        assert(j == 4 * (j / 4) + j % 4);
        assert(j / 4 < ng);
    }
    assert forall|j: int| 0 <= j < e.len() implies '\0' <= #[trigger] e[j] <= '\u{7f}' && (
    !is_pad_position(n, j) ==> e[j] == b64_char(sextet(triple(s, j / 4), j % 4))) by {
        lemma_group_bits(
            byte_or_zero(s, 3 * (j / 4)),
            byte_or_zero(s, 3 * (j / 4) + 1),
            byte_or_zero(s, 3 * (j / 4) + 2),
        );
        lemma_alphabet(sextet(triple(s, j / 4), j % 4));
    }
    vstd::utf8::is_ascii_chars_encode_utf8(e);
    let b = encode_utf8(e);
    assert forall|j: int| 0 <= j < b.len() implies (j < m ==> b[j] == b64_byte(
        sextet(triple(s, j / 4), j % 4),
    ) && is_b64_byte(b[j]) && b[j] != 61) && (j >= m ==> #[trigger] b[j] == 61) by {
        assert(e[j] as u8 == b[j]);
        lemma_group_bits(
            byte_or_zero(s, 3 * (j / 4)),
            byte_or_zero(s, 3 * (j / 4) + 1),
            byte_or_zero(s, 3 * (j / 4) + 2),
        );
        lemma_alphabet(sextet(triple(s, j / 4), j % 4));
    }
    if m > 0 {
        assert(b[m - 1] != 61);
    }
    lemma_trim_to(b, m);
    let t = b.take(m);
    assert(trim_padding(b) == t);
    assert forall|j: int| 0 <= j < t.len() implies is_b64_byte(#[trigger] t[j]) by {
        assert(t[j] == b[j]);
    }
    assert(all_b64(t));
    let d = b64_decode(b);
    assert(m / 4 == ng - 1 || p == 0);
    assert(decoded_len(m as nat) == n);
    assert(d.len() == n);
    assert forall|j: int| 0 <= j < d.len() implies d[j] == s[j] by {
        let g = j / 3;
        let k = j % 3;
        assert(0 <= g < ng);
        let a0 = byte_or_zero(s, 3 * g);
        let a1 = byte_or_zero(s, 3 * g + 1);
        let a2 = byte_or_zero(s, 3 * g + 2);
        lemma_group_bits(a0, a1, a2);
        let tr = triple(s, g);
        assert forall|i: int| 0 <= i < 4 implies value_or_zero(t, 4 * g + i) == sextet(tr, i) by {
            let jj = 4 * g + i;
            assert(jj / 4 == g && jj % 4 == i);
            if jj < m {
                assert(t[jj] == b[jj]);
                assert(b[jj] == b64_byte(sextet(triple(s, jj / 4), jj % 4)));
                lemma_alphabet(sextet(tr, i));
            } else {
                assert(is_pad_position(n, jj));
                lemma_pad_sextet_zero(s, g, i);
            }
        }
        assert(value_or_zero(t, 4 * g) == sextet(tr, 0));
        assert(value_or_zero(t, 4 * g + 1) == sextet(tr, 1));
        assert(value_or_zero(t, 4 * g + 2) == sextet(tr, 2));
        assert(value_or_zero(t, 4 * g + 3) == sextet(tr, 3));
        assert(quad(t, g) == tr);
        assert(3 * g + k == j);
    }
    assert(d =~= s);
}

} // verus!
