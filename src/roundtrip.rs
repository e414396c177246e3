//! Reading a provisioning URI's query back.
use vstd::prelude::*;
use vstd::utf8::encode_utf8;
use crate::account::{canonical_uri, kind_of, label_of, pair_text, query_pairs, query_string};
use crate::record::RecordView;
use vstd::arithmetic::power2::{lemma2_to64, pow2};
use crate::text::{
    base32_char, base32_unpadded, bit_at, bit_of, quintet, form_encoded, form_unchanged, hex_upper, is_ascii_alnum, percent_encoded, percent_triplet,
};

verus! {

pub open spec fn hex_value(c: char) -> int {
    if '0' <= c <= '9' {
        c as int - 48
    } else {
        c as int - 55
    }
}

/// Reverses the form-urlencoded byte serializer: `+` is a space, `%XX` a byte.
pub open spec fn form_decoded(s: Seq<char>) -> Seq<u8>
    decreases s.len(),
{
    if s.len() == 0 {
        seq![]
    } else if s[0] == '+' {
        seq![32u8] + form_decoded(s.drop_first())
    } else if s[0] == '%' && s.len() >= 3 {
        seq![(16 * hex_value(s[1]) + hex_value(s[2])) as u8] + form_decoded(s.subrange(3, s.len() as int))
    } else {
        seq![s[0] as u8] + form_decoded(s.drop_first())
    }
}

pub open spec fn form_piece(b: u8) -> Seq<char> {
    if form_unchanged(b) {
        seq![b as char]
    } else if b == 32 {
        seq!['+']
    } else {
        percent_triplet(b)
    }
}

proof fn lemma_hex(n: u8)
    requires
        n < 16,
    ensures
        hex_value(hex_upper(n)) == n,
        hex_upper(n) != '&' && hex_upper(n) != '=' && hex_upper(n) != '+' && hex_upper(n) != '%',
{
}

proof fn lemma_piece(b: u8, rest: Seq<char>)
    ensures
        form_decoded(form_piece(b) + rest) == seq![b] + form_decoded(rest),
        !form_piece(b).contains('&') && !form_piece(b).contains('='),
{
    let p = form_piece(b);
    let s = p + rest;
    if form_unchanged(b) {
        assert(s.drop_first() =~= rest);
        assert((b as char) as u8 == b);
    } else if b == 32 {
        assert(s.drop_first() =~= rest);
    } else {
        lemma_hex(b / 16);
        lemma_hex(b % 16);
        assert(s.subrange(3, s.len() as int) =~= rest);
        assert(s[1] == hex_upper(b / 16));
        assert(s[2] == hex_upper(b % 16));
    }
    assert(!p.contains('&')) by {
        if p.contains('&') {
            let i = choose|i: int| 0 <= i < p.len() && p[i] == '&';
            if form_unchanged(b) {
            } else if b != 32 {
                lemma_hex(b / 16);
                lemma_hex(b % 16);
            }
        }
    }
    assert(!p.contains('=')) by {
        if p.contains('=') {
            let i = choose|i: int| 0 <= i < p.len() && p[i] == '=';
            if form_unchanged(b) {
            } else if b != 32 {
                lemma_hex(b / 16);
                lemma_hex(b % 16);
            }
        }
    }
}

proof fn lemma_form_encoded_unfold(b: Seq<u8>)
    requires
        b.len() > 0,
    ensures
        form_encoded(b) == form_piece(b[0]) + form_encoded(b.drop_first()),
{
    let f = |x: u8|
        if form_unchanged(x) {
            seq![x as char]
        } else if x == 32 {
            seq!['+']
        } else {
            percent_triplet(x)
        };
    assert(b.map_values(f).drop_first() =~= b.drop_first().map_values(f));
    assert(b.map_values(f).first() == form_piece(b[0]));
}

/// Form decoding undoes form encoding, and form-encoded text holds neither `&` nor `=`.
pub proof fn form_round_trip(b: Seq<u8>)
    ensures
        form_decoded(form_encoded(b)) == b,
        !form_encoded(b).contains('&'),
        !form_encoded(b).contains('='),
    decreases b.len(),
{
    if b.len() == 0 {
        assert(form_encoded(b) =~= Seq::<char>::empty());
    } else {
        lemma_form_encoded_unfold(b);
        form_round_trip(b.drop_first());
        lemma_piece(b[0], form_encoded(b.drop_first()));
        assert(seq![b[0]] + b.drop_first() =~= b);
        let p = form_piece(b[0]);
        let r = form_encoded(b.drop_first());
        assert forall|c: char| (c == '&' || c == '=') implies !(p + r).contains(c) by {
            if (p + r).contains(c) {
                let i = choose|i: int| 0 <= i < (p + r).len() && (p + r)[i] == c;
                if i < p.len() {
                    assert(p[i] == c);
                } else {
                    assert(r[i - p.len()] == c);
                }
            }
        }
    }
}

/// The pieces of `s` between occurrences of `sep`.
pub open spec fn split_on(s: Seq<char>, sep: char) -> Seq<Seq<char>>
    decreases s.len(),
{
    if s.len() == 0 {
        seq![seq![]]
    } else {
        let rest = split_on(s.drop_last(), sep);
        if s.last() == sep {
            rest.push(seq![])
        } else {
            rest.update(rest.len() - 1, rest.last().push(s.last()))
        }
    }
}

proof fn lemma_split_len(s: Seq<char>, sep: char)
    ensures
        split_on(s, sep).len() >= 1,
    decreases s.len(),
{
    if s.len() > 0 {
        lemma_split_len(s.drop_last(), sep);
    }
}

proof fn lemma_split_tail(a: Seq<Seq<char>>, s: Seq<char>, b: Seq<char>, sep: char)
    requires
        !b.contains(sep),
        a.len() >= 1,
        split_on(s, sep) == a.update(a.len() - 1, a.last()),
    ensures
        split_on(s + b, sep) == a.update(a.len() - 1, a.last() + b),
    decreases b.len(),
{
    if b.len() == 0 {
        assert(s + b =~= s);
        assert(a.last() + b =~= a.last());
    } else {
        let b0 = b.drop_last();
        assert(!b0.contains(sep)) by {
            if b0.contains(sep) {
                let i = choose|i: int| 0 <= i < b0.len() && b0[i] == sep;
                assert(b[i] == sep);
            }
        }
        lemma_split_tail(a, s, b0, sep);
        assert((s + b).drop_last() =~= s + b0);
        assert((s + b).last() == b.last());
        assert(b.contains(b.last()));
        assert(a.last() + b0 + seq![b.last()] =~= a.last() + b);
        let rest = split_on(s + b0, sep);
        assert(rest == a.update(a.len() - 1, a.last() + b0));
        assert(rest.len() == a.len());
        assert(rest.last() == a.last() + b0);
        assert(b.last() != sep);
        assert(split_on(s + b, sep) == rest.update(rest.len() - 1, rest.last().push(b.last())));
        assert(rest.last().push(b.last()) =~= a.last() + b);
        assert(split_on(s + b, sep) =~= a.update(a.len() - 1, a.last() + b));
    }
}

/// Splitting text that holds no separator gives the text itself.
proof fn lemma_split_none(b: Seq<char>, sep: char)
    requires
        !b.contains(sep),
    ensures
        split_on(b, sep) == seq![b],
{
    let e = Seq::<char>::empty();
    assert(split_on(e, sep) == seq![e].update(0, e));
    lemma_split_tail(seq![e], e, b, sep);
    assert(e + b =~= b);
    assert(seq![e].update(0, e + b) =~= seq![b]);
}

/// Splitting after a separator adds one piece.
proof fn lemma_split_push(s: Seq<char>, b: Seq<char>, sep: char)
    requires
        !b.contains(sep),
    ensures
        split_on(s + seq![sep] + b, sep) == split_on(s, sep).push(b),
{
    let t = s + seq![sep];
    assert(t.drop_last() =~= s);
    let a = split_on(s, sep).push(Seq::<char>::empty());
    assert(split_on(t, sep) == a);
    assert(a.update(a.len() - 1, a.last()) =~= a);
    lemma_split_tail(a, t, b, sep);
    assert(Seq::<char>::empty() + b =~= b);
    assert(a.update(a.len() - 1, a.last() + b) =~= split_on(s, sep).push(b));
}

/// A query string read back: pieces between `&`, each split at `=`, both sides form-decoded.
pub open spec fn parse_query(s: Seq<char>) -> Seq<(Seq<u8>, Seq<u8>)> {
    split_on(s, '&').map_values(
        |p: Seq<char>|
            {
                let kv = split_on(p, '=');
                (form_decoded(kv[0]), form_decoded(kv[1]))
            },
    )
}

pub open spec fn pairs_bytes(pairs: Seq<(Seq<char>, Seq<char>)>) -> Seq<(Seq<u8>, Seq<u8>)> {
    pairs.map_values(|p: (Seq<char>, Seq<char>)| (encode_utf8(p.0), encode_utf8(p.1)))
}

proof fn lemma_pair_text(p: (Seq<char>, Seq<char>))
    ensures
        !pair_text(p).contains('&'),
        split_on(pair_text(p), '=') == seq![form_encoded(encode_utf8(p.0)), form_encoded(encode_utf8(p.1))],
{
    let k = form_encoded(encode_utf8(p.0));
    let v = form_encoded(encode_utf8(p.1));
    form_round_trip(encode_utf8(p.0));
    form_round_trip(encode_utf8(p.1));
    lemma_split_none(k, '=');
    lemma_split_push(k, v, '=');
    assert(!pair_text(p).contains('&')) by {
        if pair_text(p).contains('&') {
            let i = choose|i: int| 0 <= i < pair_text(p).len() && pair_text(p)[i] == '&';
            if i < k.len() {
                assert(k[i] == '&');
            } else if i > k.len() {
                assert(v[i - k.len() - 1] == '&');
            }
        }
    }
}

/// Reading the query string of key/value pairs back gives the UTF-8 bytes of each key and
/// value, in order.
pub proof fn query_round_trip(pairs: Seq<(Seq<char>, Seq<char>)>)
    requires
        pairs.len() >= 1,
    ensures
        parse_query(query_string(pairs)) == pairs_bytes(pairs),
    decreases pairs.len(),
{
    let f = |p: Seq<char>|
        {
            let kv = split_on(p, '=');
            (form_decoded(kv[0]), form_decoded(kv[1]))
        };
    let last = pairs.last();
    lemma_pair_text(last);
    form_round_trip(encode_utf8(last.0));
    form_round_trip(encode_utf8(last.1));
    if pairs.len() == 1 {
        lemma_split_none(pair_text(pairs[0]), '&');
        assert(parse_query(query_string(pairs)) =~= pairs_bytes(pairs));
    } else {
        let init = pairs.drop_last();
        query_round_trip(init);
        lemma_split_push(query_string(init), pair_text(last), '&');
        assert(split_on(query_string(pairs), '&').map_values(f) =~= split_on(query_string(init), '&').map_values(f).push(f(pair_text(last))));
        assert(pairs_bytes(pairs) =~= pairs_bytes(init).push((encode_utf8(last.0), encode_utf8(last.1))));
    }
}

/// Reverses percent-encoding: `%XX` is a byte, any other character stands for itself.
pub open spec fn percent_decoded(s: Seq<char>) -> Seq<u8>
    decreases s.len(),
{
    if s.len() == 0 {
        seq![]
    } else if s[0] == '%' && s.len() >= 3 {
        seq![(16 * hex_value(s[1]) + hex_value(s[2])) as u8] + percent_decoded(s.subrange(3, s.len() as int))
    } else {
        seq![s[0] as u8] + percent_decoded(s.drop_first())
    }
}

pub open spec fn percent_piece(b: u8) -> Seq<char> {
    if is_ascii_alnum(b) {
        seq![b as char]
    } else {
        percent_triplet(b)
    }
}

proof fn lemma_percent_encoded_unfold(b: Seq<u8>)
    requires
        b.len() > 0,
    ensures
        percent_encoded(b) == percent_piece(b[0]) + percent_encoded(b.drop_first()),
{
    let f = |x: u8|
        if is_ascii_alnum(x) {
            seq![x as char]
        } else {
            percent_triplet(x)
        };
    assert(b.map_values(f).drop_first() =~= b.drop_first().map_values(f));
    assert(b.map_values(f).first() == percent_piece(b[0]));
}

/// Percent decoding undoes percent-encoding, and encoded text holds no `?`.
pub proof fn percent_round_trip(b: Seq<u8>)
    ensures
        percent_decoded(percent_encoded(b)) == b,
        !percent_encoded(b).contains('?'),
    decreases b.len(),
{
    if b.len() == 0 {
        assert(percent_encoded(b) =~= Seq::<char>::empty());
    } else {
        lemma_percent_encoded_unfold(b);
        percent_round_trip(b.drop_first());
        let p = percent_piece(b[0]);
        let r = percent_encoded(b.drop_first());
        let s = p + r;
        if is_ascii_alnum(b[0]) {
            assert(s.drop_first() =~= r);
            assert((b[0] as char) as u8 == b[0]);
        } else {
            lemma_hex(b[0] / 16);
            lemma_hex(b[0] % 16);
            assert(s.subrange(3, s.len() as int) =~= r);
            assert(s[1] == hex_upper(b[0] / 16));
            assert(s[2] == hex_upper(b[0] % 16));
        }
        assert(seq![b[0]] + b.drop_first() =~= b);
        assert(!s.contains('?')) by {
            if s.contains('?') {
                let i = choose|i: int| 0 <= i < s.len() && s[i] == '?';
                if i >= p.len() {
                    assert(r[i - p.len()] == '?');
                } else if !is_ascii_alnum(b[0]) {
                    lemma_hex(b[0] / 16);
                    lemma_hex(b[0] % 16);
                }
            }
        }
    }
}

/// The value of an RFC 4648 base32 character.
pub open spec fn base32_value(c: char) -> int {
    if 'A' <= c <= 'Z' {
        c as int - 65
    } else {
        c as int - 24
    }
}

/// Bit `k` of the bits that base32 text stands for, five to a character.
pub open spec fn text_bit(t: Seq<char>, k: int) -> int {
    bit_of(base32_value(t[k / 5]), 5, k % 5)
}

/// Unpadded base32 text decoded: each whole group of eight bits is a byte.
pub open spec fn base32_decoded(t: Seq<char>) -> Seq<u8> {
    Seq::new(
        (5 * t.len() / 8) as nat,
        |j: int|
            (128 * text_bit(t, 8 * j) + 64 * text_bit(t, 8 * j + 1) + 32 * text_bit(t, 8 * j + 2) + 16
                * text_bit(t, 8 * j + 3) + 8 * text_bit(t, 8 * j + 4) + 4 * text_bit(t, 8 * j + 5) + 2
                * text_bit(t, 8 * j + 6) + text_bit(t, 8 * j + 7)) as u8,
    )
}

proof fn lemma_byte_bits(x: int)
    requires
        0 <= x < 256,
    ensures
        x == 128 * bit_of(x, 8, 0) + 64 * bit_of(x, 8, 1) + 32 * bit_of(x, 8, 2) + 16 * bit_of(x, 8, 3)
            + 8 * bit_of(x, 8, 4) + 4 * bit_of(x, 8, 5) + 2 * bit_of(x, 8, 6) + bit_of(x, 8, 7),
{
    lemma2_to64();
    assert(pow2(7) == 128 && pow2(6) == 64 && pow2(5) == 32 && pow2(4) == 16 && pow2(3) == 8
        && pow2(2) == 4 && pow2(1) == 2 && pow2(0) == 1);
    assert(x / 64 == 2 * (x / 128) + (x / 64) % 2);
    assert(x / 32 == 2 * (x / 64) + (x / 32) % 2);
    assert(x / 16 == 2 * (x / 32) + (x / 16) % 2);
    assert(x / 8 == 2 * (x / 16) + (x / 8) % 2);
    assert(x / 4 == 2 * (x / 8) + (x / 4) % 2);
    assert(x / 2 == 2 * (x / 4) + (x / 2) % 2);
    assert(x == 2 * (x / 2) + x % 2);
    assert(x / 128 == (x / 128) % 2);
    assert(bit_of(x, 8, 0) == (x / 128) % 2);
    assert(bit_of(x, 8, 1) == (x / 64) % 2);
    assert(bit_of(x, 8, 2) == (x / 32) % 2);
    assert(bit_of(x, 8, 3) == (x / 16) % 2);
    assert(bit_of(x, 8, 4) == (x / 8) % 2);
    assert(bit_of(x, 8, 5) == (x / 4) % 2);
    assert(bit_of(x, 8, 6) == (x / 2) % 2);
    assert(x / 1 == x);
    assert(bit_of(x, 8, 7) == x % 2);
}

proof fn lemma_quintet_bits(s: Seq<u8>, m: int, r: int)
    requires
        0 <= r < 5,
    ensures
        bit_of(quintet(s, m), 5, r) == bit_at(s, 5 * m + r),
{
    lemma2_to64();
    assert(pow2(4) == 16 && pow2(3) == 8 && pow2(2) == 4 && pow2(1) == 2 && pow2(0) == 1);
    let b0 = bit_at(s, 5 * m);
    let b1 = bit_at(s, 5 * m + 1);
    let b2 = bit_at(s, 5 * m + 2);
    let b3 = bit_at(s, 5 * m + 3);
    let b4 = bit_at(s, 5 * m + 4);
    assert forall|k: int| 0 <= #[trigger] bit_at(s, k) <= 1 by {}
    let q = quintet(s, m);
    assert(q == 16 * b0 + 8 * b1 + 4 * b2 + 2 * b3 + b4);
    if r == 0 {
        assert(bit_of(q, 5, 0) == (q / 16) % 2);
        assert(q / 16 == b0);
    } else if r == 1 {
        assert(bit_of(q, 5, 1) == (q / 8) % 2);
        assert(q / 8 == 2 * b0 + b1);
    } else if r == 2 {
        assert(bit_of(q, 5, 2) == (q / 4) % 2);
        assert(q / 4 == 4 * b0 + 2 * b1 + b2);
    } else if r == 3 {
        assert(bit_of(q, 5, 3) == (q / 2) % 2);
        assert(q / 2 == 8 * b0 + 4 * b1 + 2 * b2 + b3);
    } else {
        assert(q / 1 == q);
        assert(bit_of(q, 5, 4) == q % 2);
        assert(q % 2 == b4);
    }
}

proof fn lemma_text_bit(s: Seq<u8>, k: int)
    requires
        0 <= k < 8 * s.len(),
    ensures
        text_bit(base32_unpadded(s), k) == bit_at(s, k),
{
    let t = base32_unpadded(s);
    let m = k / 5;
    let r = k % 5;
    assert(m < t.len()) by (nonlinear_arith)
        requires
            m == k / 5,
            0 <= k < 8 * s.len(),
            t.len() == (8 * s.len() + 4) / 5,
    ;
    lemma_quintet_bits(s, m, r);
    assert forall|i: int| 0 <= #[trigger] bit_at(s, i) <= 1 by {}
    assert(0 <= quintet(s, m) < 32);
    assert(base32_value(base32_char(quintet(s, m))) == quintet(s, m));
    assert(5 * m + r == k);
}

/// Decoding unpadded base32 gives the bytes back.
pub proof fn base32_round_trip(s: Seq<u8>)
    ensures
        base32_decoded(base32_unpadded(s)) == s,
{
    let t = base32_unpadded(s);
    assert(5 * ((8 * s.len() + 4) / 5) / 8 == s.len()) by (nonlinear_arith);
    assert forall|j: int| 0 <= j < s.len() implies #[trigger] base32_decoded(t)[j] == s[j] by {
        assert(0 <= 8 * j && 8 * j + 7 < 8 * s.len());
        lemma_text_bit(s, 8 * j);
        lemma_text_bit(s, 8 * j + 1);
        lemma_text_bit(s, 8 * j + 2);
        lemma_text_bit(s, 8 * j + 3);
        lemma_text_bit(s, 8 * j + 4);
        lemma_text_bit(s, 8 * j + 5);
        lemma_text_bit(s, 8 * j + 6);
        lemma_text_bit(s, 8 * j + 7);
        lemma_byte_bits(s[j] as int);
        assert((8 * j) / 8 == j && (8 * j + 1) / 8 == j && (8 * j + 2) / 8 == j && (8 * j + 3) / 8 == j
            && (8 * j + 4) / 8 == j && (8 * j + 5) / 8 == j && (8 * j + 6) / 8 == j && (8 * j + 7) / 8
            == j);
    }
    assert(base32_decoded(t) =~= s);
}

/// A record's URI reads back: the label, which the first `?` ends, percent-decodes to the
/// UTF-8 bytes of `issuer:name` (of the name alone without an issuer), and the query reads
/// back to the bytes of each parameter in order: the base32 secret, the counter of a HOTP
/// record, the issuer, the algorithm and the digit count. The first parameter is the
/// secret, and its text decodes to the secret's bytes.
pub proof fn uri_round_trip(r: RecordView)
    ensures
        canonical_uri(r) == "otpauth://"@ + kind_of(r.otp_type) + "/"@ + label_of(r) + "?"@
            + query_string(query_pairs(r)),
        !label_of(r).contains('?'),
        percent_decoded(label_of(r)) == (if r.issuer.len() > 0 {
            encode_utf8(r.issuer + seq![':'] + r.name)
        } else {
            encode_utf8(r.name)
        }),
        parse_query(query_string(query_pairs(r))) == pairs_bytes(query_pairs(r)),
        query_pairs(r)[0].0 == "secret"@,
        base32_decoded(query_pairs(r)[0].1) == r.secret,
{
    base32_round_trip(r.secret);
    if r.issuer.len() > 0 {
        percent_round_trip(encode_utf8(r.issuer + seq![':'] + r.name));
    } else {
        percent_round_trip(encode_utf8(r.name));
    }
    query_round_trip(query_pairs(r));
}

} // verus!
