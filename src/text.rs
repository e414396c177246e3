//! Text encodings used to build provisioning URIs, stated over bytes and characters.
use vstd::prelude::*;
use vstd::arithmetic::power2::pow2;
use vstd::utf8::encode_utf8;

verus! {

pub open spec fn hex_upper(n: u8) -> char {
    if n < 10 {
        (n + 48) as char
    } else {
        (n + 55) as char
    }
}

/// `%XX` with upper-case hexadecimal digits.
pub open spec fn percent_triplet(b: u8) -> Seq<char> {
    seq!['%', hex_upper(b / 16), hex_upper(b % 16)]
}

pub open spec fn is_ascii_alnum(b: u8) -> bool {
    (48 <= b <= 57) || (65 <= b <= 90) || (97 <= b <= 122)
}

/// Every byte outside `[A-Za-z0-9]` escaped as `%XX`.
pub open spec fn percent_encoded(s: Seq<u8>) -> Seq<char> {
    s.map_values(
        |b: u8|
            if is_ascii_alnum(b) {
                seq![b as char]
            } else {
                percent_triplet(b)
            },
    ).flatten()
}

/// Bytes that the form-urlencoded serializer passes through.
pub open spec fn form_unchanged(b: u8) -> bool {
    is_ascii_alnum(b) || b == 42 || b == 45 || b == 46 || b == 95
}

/// The `application/x-www-form-urlencoded` byte serializer.
pub open spec fn form_encoded(s: Seq<u8>) -> Seq<char> {
    s.map_values(
        |b: u8|
            if form_unchanged(b) {
                seq![b as char]
            } else if b == 32 {
                seq!['+']
            } else {
                percent_triplet(b)
            },
    ).flatten()
}

/// Bit `i` of `x`, counting from the most significant of `width` bits.
pub open spec fn bit_of(x: int, width: int, i: int) -> int {
    (x / pow2((width - 1 - i) as nat) as int) % 2
}

/// Bit `k` of `s`, most significant bit of each byte first; zero past the end.
pub open spec fn bit_at(s: Seq<u8>, k: int) -> int {
    if 0 <= k < 8 * s.len() {
        bit_of(s[k / 8] as int, 8, k % 8)
    } else {
        0
    }
}

/// The `i`-th group of five bits.
pub open spec fn quintet(s: Seq<u8>, i: int) -> int {
    16 * bit_at(s, 5 * i) + 8 * bit_at(s, 5 * i + 1) + 4 * bit_at(s, 5 * i + 2) + 2 * bit_at(
        s,
        5 * i + 3,
    ) + bit_at(s, 5 * i + 4)
}

/// The RFC 4648 base32 alphabet: `A`-`Z` then `2`-`7`.
pub open spec fn base32_char(v: int) -> char {
    if v < 26 {
        (v + 65) as char
    } else {
        (v + 24) as char
    }
}

/// RFC 4648 base32 without padding: one character for each started group of five bits.
pub open spec fn base32_unpadded(s: Seq<u8>) -> Seq<char> {
    Seq::new(((8 * s.len() + 4) / 5) as nat, |i: int| base32_char(quintet(s, i)))
}

pub open spec fn is_base32_char(c: char) -> bool {
    ('A' <= c <= 'Z') || ('2' <= c <= '7')
}

/// Decimal digits of `n`, without leading zeros.
pub open spec fn decimal(n: nat) -> Seq<char>
    decreases n,
{
    if n < 10 {
        seq![(n + 48) as char]
    } else {
        decimal(n / 10).push(((n % 10) + 48) as char)
    }
}

/// The decimal text of the signed 64-bit integer whose two's complement bits are `c`.
pub open spec fn signed_decimal(c: u64) -> Seq<char> {
    if c < 0x8000_0000_0000_0000 {
        decimal(c as nat)
    } else {
        seq!['-'] + decimal((0x1_0000_0000_0000_0000 - c) as nat)
    }
}

/// Relies on `percent_encoding::utf8_percent_encode` with `NON_ALPHANUMERIC`:
/// each UTF-8 byte outside `[A-Za-z0-9]` becomes `%XX`.
#[verifier::external_body]
pub(crate) fn percent_encode_non_alnum(s: &str) -> (r: String)
    ensures
        r@ == percent_encoded(encode_utf8(s@)),
{
    percent_encoding::utf8_percent_encode(s, percent_encoding::NON_ALPHANUMERIC).to_string()
}

/// Relies on `form_urlencoded::byte_serialize` over the UTF-8 bytes of `s`.
#[verifier::external_body]
pub(crate) fn form_serialize(s: &str) -> (r: String)
    ensures
        r@ == form_encoded(encode_utf8(s@)),
{
    form_urlencoded::byte_serialize(s.as_bytes()).collect()
}

/// Relies on `base32::encode` with the RFC 4648 alphabet and no padding.
#[verifier::external_body]
pub(crate) fn base32_encode(b: &[u8]) -> (r: String)
    ensures
        r@ == base32_unpadded(b@),
{
    base32::encode(base32::Alphabet::RFC4648 { padding: false }, b)
}

/// Relies on `String::push`: appends one character.
#[verifier::external_body]
pub(crate) fn push_char(s: &mut String, c: char)
    ensures
        final(s)@ == old(s)@.push(c),
{
    s.push(c)
}

/// Appends the decimal digits of `n` to `out`.
pub fn push_decimal(out: &mut String, n: u64)
    ensures
        final(out)@ == old(out)@ + decimal(n as nat),
    decreases n,
{
    if n < 10 {
        push_char(out, ((n as u8) + 48) as char);
        assert(final(out)@ =~= old(out)@ + decimal(n as nat));
    } else {
        push_decimal(out, n / 10);
        push_char(out, (((n % 10) as u8) + 48) as char);
        assert(final(out)@ =~= old(out)@ + decimal(n as nat));
    }
}

/// The decimal text of a signed 64-bit counter given by its two's complement bits.
pub fn counter_text(c: u64) -> (r: String)
    ensures
        r@ == signed_decimal(c),
{
    let mut out = String::new();
    if c < 0x8000_0000_0000_0000 {
        push_decimal(&mut out, c);
    } else {
        push_char(&mut out, '-');
        let m: u64 = (u64::MAX - c) + 1;
        push_decimal(&mut out, m);
    }
    assert(out@ =~= signed_decimal(c));
    out
}

/// Unpadded base32 uses only RFC 4648 alphabet characters: never `=`.
pub proof fn base32_alphabet_only(s: Seq<u8>)
    ensures
        forall|i: int|
            0 <= i < base32_unpadded(s).len() ==> is_base32_char(#[trigger] base32_unpadded(s)[i])
                && base32_unpadded(s)[i] != '=',
{
    assert forall|i: int| 0 <= i < base32_unpadded(s).len() implies is_base32_char(
        #[trigger] base32_unpadded(s)[i],
    ) && base32_unpadded(s)[i] != '=' by {
        assert forall|k: int| 0 <= #[trigger] bit_at(s, k) <= 1 by {}
        let v = quintet(s, i);
        assert(0 <= v < 32);
    }
}

} // verus!
