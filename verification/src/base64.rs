//! Base64: the encoder for cover art, and the decoder for the URLs that the UI
//! hands over.

use vstd::prelude::*;
use vstd::utf8::{encode_utf8, is_ascii_chars, is_ascii_chars_encode_utf8};

verus! {

/// The symbol of the standard alphabet for a value below 64.
pub open spec fn symbol_of(v: int) -> char {
    if v < 26 {
        (65 + v) as u8 as char
    } else if v < 52 {
        (71 + v) as u8 as char
    } else if v < 62 {
        (v - 4) as u8 as char
    } else if v == 62 {
        '+'
    } else {
        '/'
    }
}

/// Byte `i` of `data`, or zero behind its end.
pub open spec fn byte_at(data: Seq<u8>, i: int) -> int {
    if 0 <= i < data.len() {
        data[i] as int
    } else {
        0
    }
}

/// The `k`-th group of six bits of `data`, most significant first.
pub open spec fn sextet(data: Seq<u8>, k: int) -> int {
    let i = k / 4 * 3;
    if k % 4 == 0 {
        byte_at(data, i) / 4
    } else if k % 4 == 1 {
        byte_at(data, i) % 4 * 16 + byte_at(data, i + 1) / 16
    } else if k % 4 == 2 {
        byte_at(data, i + 1) % 16 * 4 + byte_at(data, i + 2) / 64
    } else {
        byte_at(data, i + 2) % 64
    }
}

/// How many groups of six bits hold the bits of `n` bytes.
pub open spec fn sextets(n: int) -> int {
    (4 * n + 2) / 3
}

/// `data` in Base64 with the standard alphabet, padded with `=` to a multiple
/// of four symbols.
pub open spec fn encoded(data: Seq<u8>) -> Seq<char> {
    Seq::new(
        ((data.len() + 2) / 3 * 4) as nat,
        |k: int|
            if k < sextets(data.len() as int) {
                symbol_of(sextet(data, k))
            } else {
                '='
            },
    )
}

/// The symbol for a value below 64.
fn symbol(v: u8) -> (c: char)
    requires
        v < 64,
    ensures
        c == symbol_of(v as int),
{
    if v < 26 {
        (65 + v) as char
    } else if v < 52 {
        (71 + v) as char
    } else if v < 62 {
        (v - 4) as char
    } else if v == 62 {
        '+'
    } else {
        '/'
    }
}

/// Encodes bytes in Base64 with padding.
pub fn base64_encode(data: &[u8]) -> (out: String)
    ensures
        out@ == encoded(data@),
{
    let mut out = String::new();
    let n = data.len();
    let mut i: usize = 0;
    while i < n
        invariant
            n == data@.len(),
            i <= n,
            i % 3 == 0 || i == n,
            out@ == encoded(data@).take((i + 2) / 3 * 4),
        decreases n - i,
    {
        let ghost before = out@;
        let len = n - i;
        let b0 = data[i];
        let b1 = if len > 1 {
            data[i + 1]
        } else {
            0
        };
        let b2 = if len > 2 {
            data[i + 2]
        } else {
            0
        };
        let ghost k = i / 3 * 4;
        out.push(symbol(b0 / 4));
        out.push(symbol(b0 % 4 * 16 + b1 / 16));
        if len > 1 {
            out.push(symbol(b1 % 16 * 4 + b2 / 64));
        } else {
            out.push('=');
        }
        if len > 2 {
            out.push(symbol(b2 % 64));
        } else {
            out.push('=');
        }
        let next = if len > 3 {
            i + 3
        } else {
            n
        };
        proof {
            let e = encoded(data@);
            assert(k as int / 4 * 3 == i);
            assert((k + 1) as int / 4 * 3 == i);
            assert((k + 2) as int / 4 * 3 == i);
            assert((k + 3) as int / 4 * 3 == i);
            assert((next + 2) / 3 * 4 == k + 4);
            assert(out@ =~= e.take(k + 4));
        }
        i = next;
    }
    assert(encoded(data@).take((n + 2) / 3 * 4) =~= encoded(data@));
    out
}

/// What a symbol stands for. Both the standard and the URL-safe alphabet are
/// understood.
pub open spec fn value_of(c: u8) -> Option<int> {
    if 65 <= c <= 90 {
        Some(c - 65)
    } else if 97 <= c <= 122 {
        Some(c - 71)
    } else if 48 <= c <= 57 {
        Some(c + 4)
    } else if c == 45 || c == 43 {
        Some(62)
    } else if c == 95 || c == 47 {
        Some(63)
    } else {
        None
    }
}

/// The number of bytes before the first `=`.
pub open spec fn payload_len(text: Seq<u8>) -> int
    decreases text.len(),
{
    if text.len() == 0 || text[0] == 61 {
        0
    } else {
        1 + payload_len(text.skip(1))
    }
}

/// Byte `j` of what the symbols `text` stand for.
pub open spec fn decoded_byte(text: Seq<u8>, j: int) -> int {
    let k = j / 3 * 4;
    if j % 3 == 0 {
        value_of(text[k])->0 * 4 + value_of(text[k + 1])->0 / 16
    } else if j % 3 == 1 {
        value_of(text[k + 1])->0 % 16 * 16 + value_of(text[k + 2])->0 / 4
    } else {
        value_of(text[k + 2])->0 % 4 * 64 + value_of(text[k + 3])->0
    }
}

/// What `text` encodes: everything from the first `=` on is padding, each
/// symbol before it must be of the alphabet, and bits that do not fill a byte
/// are left out.
pub open spec fn decoded(text: Seq<u8>) -> Option<Seq<u8>> {
    let n = payload_len(text);
    if forall|k: int| 0 <= k < n ==> value_of(#[trigger] text[k]) is Some {
        Some(Seq::new((n * 3 / 4) as nat, |j: int| decoded_byte(text, j) as u8))
    } else {
        None
    }
}

fn value(c: u8) -> (v: Option<u8>)
    ensures
        v is Some <==> value_of(c) is Some,
        v matches Some(v) ==> value_of(c) == Some(v as int) && v < 64,
{
    if 65 <= c && c <= 90 {
        Some(c - 65)
    } else if 97 <= c && c <= 122 {
        Some(c - 71)
    } else if 48 <= c && c <= 57 {
        Some(c + 4)
    } else if c == 45 || c == 43 {
        Some(62)
    } else if c == 95 || c == 47 {
        Some(63)
    } else {
        None
    }
}

proof fn lemma_payload(text: Seq<u8>, n: int)
    requires
        0 <= n <= text.len(),
        forall|k: int| 0 <= k < n ==> #[trigger] text[k] != 61,
        n < text.len() ==> text[n] == 61,
    ensures
        payload_len(text) == n,
    decreases text.len(),
{
    if text.len() > 0 && text[0] != 61 {
        assert forall|k: int| 0 <= k < n - 1 implies #[trigger] text.skip(1)[k] != 61 by {
            assert(text[k + 1] != 61);
        }
        lemma_payload(text.skip(1), n - 1);
    }
}

proof fn lemma_payload_reaches(text: Seq<u8>, n: int)
    requires
        0 <= n < text.len(),
        forall|k: int| 0 <= k <= n ==> #[trigger] text[k] != 61,
    ensures
        payload_len(text) > n,
    decreases n,
{
    assert(text[0] != 61);
    if n > 0 {
        assert forall|k: int| 0 <= k <= n - 1 implies #[trigger] text.skip(1)[k] != 61 by {
            assert(text[k + 1] != 61);
        }
        lemma_payload_reaches(text.skip(1), n - 1);
    } else {
        assert(payload_len(text.skip(1)) >= 0) by {
            lemma_payload_bounds(text.skip(1));
        }
    }
}

proof fn lemma_payload_bounds(text: Seq<u8>)
    ensures
        0 <= payload_len(text) <= text.len(),
    decreases text.len(),
{
    if text.len() > 0 && text[0] != 61 {
        lemma_payload_bounds(text.skip(1));
    }
}

/// Decodes base64url, with or without padding.
pub fn b64url_decode(s: &str) -> (out: Option<Vec<u8>>)
    ensures
        out is Some <==> decoded(encode_utf8(s@)) is Some,
        out matches Some(v) ==> v@ == decoded(encode_utf8(s@))->0,
{
    let text = s.as_bytes();
    let mut out: Vec<u8> = Vec::new();
    let mut hold: u8 = 0;
    let mut k: usize = 0;
    while k < text.len() && text[k] != 61
        invariant
            text@ == encode_utf8(s@),
            k <= text@.len(),
            hold < 64,
            forall|i: int|
                0 <= i < k ==> value_of(#[trigger] text@[i]) is Some && text@[i] != 61,
            k % 4 != 0 ==> value_of(text@[k - 1]) == Some(hold as int),
            out@.len() == k * 3 / 4,
            forall|j: int| 0 <= j < out@.len() ==> #[trigger] out@[j] == decoded_byte(text@, j),
        decreases text@.len() - k,
    {
        let v = match value(text[k]) {
            Some(v) => v,
            None => {
                proof {
                    lemma_payload_reaches(text@, k as int);
                    assert(value_of(text@[k as int]) is None);
                }
                return None;
            },
        };
        let r = k % 4;
        if r == 1 {
            out.push(hold * 4 + v / 16);
        } else if r == 2 {
            out.push(hold % 16 * 16 + v / 4);
        } else if r == 3 {
            out.push(hold % 4 * 64 + v);
        }
        hold = v;
        k += 1;
    }
    proof {
        lemma_payload(text@, k as int);
        assert(out@ =~= decoded(text@)->0);
    }
    Some(out)
}

proof fn lemma_symbol(v: int)
    requires
        0 <= v < 64,
    ensures
        symbol_of(v) as nat == symbol_of(v) as u8,
        (symbol_of(v) as nat) < 128,
        value_of(symbol_of(v) as u8) == Some(v),
{
}

proof fn lemma_sextet_range(data: Seq<u8>, k: int)
    requires
        0 <= k,
    ensures
        0 <= sextet(data, k) < 64,
{
}

/// Each byte can be put together again from the two groups that its bits are in.
proof fn lemma_byte_from_sextets(data: Seq<u8>, j: int)
    requires
        0 <= j < data.len(),
    ensures
        j % 3 == 0 ==> sextet(data, j / 3 * 4) * 4 + sextet(data, j / 3 * 4 + 1) / 16 == data[j],
        j % 3 == 1 ==> sextet(data, j / 3 * 4 + 1) % 16 * 16 + sextet(data, j / 3 * 4 + 2) / 4
            == data[j],
        j % 3 == 2 ==> sextet(data, j / 3 * 4 + 2) % 4 * 64 + sextet(data, j / 3 * 4 + 3)
            == data[j],
        j / 3 * 4 + j % 3 + 1 < sextets(data.len() as int),
{
    let k = j / 3 * 4;
    let i = j / 3 * 3;
    assert(k / 4 * 3 == i && k % 4 == 0);
    assert((k + 1) / 4 * 3 == i && (k + 1) % 4 == 1);
    assert((k + 2) / 4 * 3 == i && (k + 2) % 4 == 2);
    assert((k + 3) / 4 * 3 == i && (k + 3) % 4 == 3);
    assert(j == i + j % 3);
    let b0 = byte_at(data, i);
    let b1 = byte_at(data, i + 1);
    let b2 = byte_at(data, i + 2);
    assert(0 <= b0 < 256 && 0 <= b1 < 256 && 0 <= b2 < 256);
    assert(b0 / 4 * 4 + (b0 % 4 * 16 + b1 / 16) / 16 == b0);
    assert((b0 % 4 * 16 + b1 / 16) % 16 * 16 + (b1 % 16 * 4 + b2 / 64) / 4 == b1);
    assert((b1 % 16 * 4 + b2 / 64) % 4 * 64 + b2 % 64 == b2);
}

/// Symbols that stand for the groups of `data`, and end there, decode to it.
proof fn lemma_decodes_to(text: Seq<u8>, data: Seq<u8>)
    requires
        sextets(data.len() as int) <= text.len(),
        sextets(data.len() as int) < text.len() ==> text[sextets(data.len() as int)] == 61,
        forall|k: int|
            0 <= k < sextets(data.len() as int) ==> value_of(#[trigger] text[k]) == Some(
                sextet(data, k),
            ),
    ensures
        decoded(text) == Some(data),
{
    let n = data.len() as int;
    assert forall|k: int| 0 <= k < sextets(n) implies #[trigger] text[k] != 61 by {
        assert(value_of(text[k]) is Some);
    }
    lemma_payload(text, sextets(n));
    let d = decoded(text)->0;
    assert forall|j: int| 0 <= j < n implies #[trigger] d[j] == data[j] by {
        lemma_byte_from_sextets(data, j);
        let k = j / 3 * 4;
        assert(value_of(text[k + j % 3]) == Some(sextet(data, k + j % 3)));
        assert(value_of(text[k + j % 3 + 1]) == Some(sextet(data, k + j % 3 + 1)));
    }
    assert(d =~= data);
}

/// Decoding what was encoded gives the bytes back.
pub proof fn law_base64_round_trip(data: Seq<u8>)
    ensures
        decoded(encode_utf8(encoded(data))) == Some(data),
{
    let e = encoded(data);
    let n = data.len() as int;
    assert forall|k: int| 0 <= k < sextets(n) implies (#[trigger] e[k]) as nat == e[k] as u8 && (
    e[k] as nat) < 128 && value_of(e[k] as u8) == Some(sextet(data, k)) by {
        lemma_sextet_range(data, k);
        lemma_symbol(sextet(data, k));
    }
    assert(is_ascii_chars(e)) by {
        assert forall|k: int| 0 <= k < e.len() implies 0 <= #[trigger] e[k] as nat && (
        e[k] as nat) < 128 by {
            if k >= sextets(n) {
                assert(e[k] == '=');
            }
        }
    }
    is_ascii_chars_encode_utf8(e);
    let text = encode_utf8(e);
    assert forall|k: int| 0 <= k < sextets(n) implies value_of(#[trigger] text[k]) == Some(
        sextet(data, k),
    ) by {
        assert(text[k] == e[k] as u8);
    }
    if sextets(n) < text.len() {
        assert(e[sextets(n)] == '=');
    }
    lemma_decodes_to(text, data);
}

/// The symbol of the URL-safe alphabet for a value below 64.
pub open spec fn url_symbol_of(v: int) -> char {
    if v == 62 {
        '-'
    } else if v == 63 {
        '_'
    } else {
        symbol_of(v)
    }
}

/// `data` in base64url: the URL-safe alphabet, without padding.
pub open spec fn url_encoded(data: Seq<u8>) -> Seq<char> {
    Seq::new(sextets(data.len() as int) as nat, |k: int| url_symbol_of(sextet(data, k)))
}

/// Decoding gives back what was encoded in base64url, without padding.
pub proof fn law_base64url_round_trip(data: Seq<u8>)
    ensures
        decoded(encode_utf8(url_encoded(data))) == Some(data),
{
    let e = url_encoded(data);
    let n = data.len() as int;
    assert forall|k: int| 0 <= k < sextets(n) implies (#[trigger] e[k]) as nat == e[k] as u8 && (
    e[k] as nat) < 128 && value_of(e[k] as u8) == Some(sextet(data, k)) by {
        lemma_sextet_range(data, k);
        lemma_symbol(sextet(data, k));
    }
    assert(is_ascii_chars(e));
    is_ascii_chars_encode_utf8(e);
    let text = encode_utf8(e);
    assert forall|k: int| 0 <= k < sextets(n) implies value_of(#[trigger] text[k]) == Some(
        sextet(data, k),
    ) by {
        assert(text[k] == e[k] as u8);
    }
    lemma_decodes_to(text, data);
}

/// The standard alphabet: the capitals, the small letters and the digits, each in
/// their order, then a plus sign and a slash.
pub proof fn law_the_alphabet_is_in_order(v: int)
    requires
        0 <= v < 64,
    ensures
        v < 26 ==> symbol_of(v) as nat == 'A' as nat + v,
        26 <= v < 52 ==> symbol_of(v) as nat == 'a' as nat + (v - 26),
        52 <= v < 62 ==> symbol_of(v) as nat == '0' as nat + (v - 52),
        v == 62 ==> symbol_of(v) == '+',
        v == 63 ==> symbol_of(v) == '/',
{
}

/// Every symbol is read as what it stands for, in either alphabet, and nothing
/// else is a symbol. The URL-safe one differs in its last two symbols alone.
pub proof fn law_symbols_are_read_as_written(v: int, c: u8)
    requires
        0 <= v < 64,
    ensures
        value_of(symbol_of(v) as u8) == Some(v),
        value_of(url_symbol_of(v) as u8) == Some(v),
        v < 62 ==> url_symbol_of(v) == symbol_of(v),
        url_symbol_of(v) != '+' && url_symbol_of(v) != '/' && url_symbol_of(v) != '=',
        value_of(c) == Some(v) ==> c as char == symbol_of(v) || c as char == url_symbol_of(v),
        value_of(c) matches Some(x) ==> 0 <= x < 64,
{
    lemma_symbol(v);
}

/// Four symbols hold the bits of three bytes, in their order.
pub proof fn law_four_symbols_hold_three_bytes(data: Seq<u8>, g: int)
    requires
        0 <= g,
        3 * g + 2 < data.len(),
    ensures
        sextet(data, 4 * g) * 262_144 + sextet(data, 4 * g + 1) * 4_096 + sextet(data, 4 * g + 2)
            * 64 + sextet(data, 4 * g + 3) == data[3 * g] * 65_536 + data[3 * g + 1] * 256 + data[3
            * g + 2],
{
    let k = 4 * g;
    assert(k / 4 * 3 == 3 * g && k % 4 == 0);
    assert((k + 1) / 4 * 3 == 3 * g && (k + 1) % 4 == 1);
    assert((k + 2) / 4 * 3 == 3 * g && (k + 2) % 4 == 2);
    assert((k + 3) / 4 * 3 == 3 * g && (k + 3) % 4 == 3);
    let b0 = data[3 * g] as int;
    let b1 = data[3 * g + 1] as int;
    let b2 = data[3 * g + 2] as int;
    assert(b0 / 4 * 4 + b0 % 4 == b0);
    assert(b1 / 16 * 16 + b1 % 16 == b1);
    assert(b2 / 64 * 64 + b2 % 64 == b2);
}

/// The text is a multiple of four symbols long, with one group for each three
/// bytes begun. It is padded where the last group is not full: with one sign where
/// a byte is missing, with two where two are. No sign but the padding is `=`.
pub proof fn law_padding_fills_the_last_group(data: Seq<u8>, k: int)
    requires
        0 <= k < encoded(data).len(),
    ensures
        encoded(data).len() % 4 == 0,
        3 * encoded(data).len() >= 4 * data.len(),
        3 * encoded(data).len() < 4 * data.len() + 12,
        data.len() % 3 == 0 ==> encoded(data)[k] != '=',
        data.len() % 3 == 2 ==> (encoded(data)[k] == '=' <==> k == encoded(data).len() - 1),
        data.len() % 3 == 1 ==> (encoded(data)[k] == '=' <==> k >= encoded(data).len() - 2),
{
    if k < sextets(data.len() as int) {
        lemma_sextet_range(data, k);
        lemma_symbol(sextet(data, k));
        assert(value_of('=' as u8) is None);
    }
}

/// Groups are encoded one by one: the text of what follows full groups follows
/// their text.
pub proof fn law_groups_are_encoded_one_by_one(a: Seq<u8>, b: Seq<u8>)
    requires
        a.len() % 3 == 0,
    ensures
        encoded(a + b) == encoded(a) + encoded(b),
{
    let n = a.len() as int / 3 * 4;
    let whole = encoded(a + b);
    let parts = encoded(a) + encoded(b);
    assert(encoded(a).len() == n);
    assert(whole.len() == parts.len());
    assert forall|k: int| 0 <= k < whole.len() implies whole[k] == parts[k] by {
        let i = k / 4 * 3;
        if k < n {
            assert(k < sextets(a.len() as int));
            assert(k < sextets((a + b).len() as int));
            assert(i + 2 < a.len());
            assert(sextet(a + b, k) == sextet(a, k));
        } else {
            let h = k - n;
            assert((k < sextets((a + b).len() as int)) == (h < sextets(b.len() as int)));
            assert(k % 4 == h % 4);
            assert(h / 4 * 3 == i - a.len());
            assert(byte_at(a + b, i) == byte_at(b, h / 4 * 3));
            assert(byte_at(a + b, i + 1) == byte_at(b, h / 4 * 3 + 1));
            assert(byte_at(a + b, i + 2) == byte_at(b, h / 4 * 3 + 2));
            assert(sextet(a + b, k) == sextet(b, h));
        }
    }
    assert(whole =~= parts);
}

/// Reading ends at the first `=`: what stands behind it does not matter, and
/// neither does whether it stands there at all.
pub proof fn law_reading_ends_at_the_padding(text: Seq<u8>, rest: Seq<u8>)
    ensures
        decoded(text + seq![61u8] + rest) == decoded(text),
{
    let padded = text + seq![61u8] + rest;
    lemma_same_payload(text, rest);
    lemma_payload_bounds(text);
    let n = payload_len(text);
    assert forall|k: int| 0 <= k < n implies #[trigger] padded[k] == text[k] by {}
    if decoded(text) is Some {
        assert forall|k: int| 0 <= k < n implies value_of(#[trigger] padded[k]) is Some by {
            assert(value_of(text[k]) is Some);
        }
        assert(decoded(padded)->0 =~= decoded(text)->0);
    } else {
        let k = choose|k: int| 0 <= k < n && !(value_of(#[trigger] text[k]) is Some);
        assert(value_of(padded[k]) is None);
    }
}

proof fn lemma_same_payload(text: Seq<u8>, rest: Seq<u8>)
    ensures
        payload_len(text + seq![61u8] + rest) == payload_len(text),
    decreases text.len(),
{
    let padded = text + seq![61u8] + rest;
    if text.len() > 0 {
        assert(padded[0] == text[0]);
        assert(padded.skip(1) =~= text.skip(1) + seq![61u8] + rest);
        lemma_same_payload(text.skip(1), rest);
    } else {
        assert(padded[0] == 61);
    }
}

/// A text without padding is read if and only if it is of the alphabet, every
/// symbol of it. It then stands for three bytes in four symbols, where bits that
/// do not fill a byte are left out.
pub proof fn law_only_the_alphabet_is_read(text: Seq<u8>)
    requires
        !text.contains(61u8),
    ensures
        decoded(text) is Some <==> forall|k: int|
            0 <= k < text.len() ==> {
                let c = #[trigger] text[k] as char;
                'A' <= c <= 'Z' || 'a' <= c <= 'z' || '0' <= c <= '9' || c == '-' || c == '_' || c
                    == '+' || c == '/'
            },
        decoded(text) matches Some(data) ==> data.len() == 3 * text.len() / 4,
{
    assert forall|k: int| 0 <= k < text.len() implies #[trigger] text[k] != 61 by {
        assert(text.contains(text[k]));
    }
    lemma_payload(text, text.len() as int);
    if decoded(text) is Some {
        assert forall|k: int| 0 <= k < text.len() implies {
            let c = #[trigger] text[k] as char;
            'A' <= c <= 'Z' || 'a' <= c <= 'z' || '0' <= c <= '9' || c == '-' || c == '_' || c
                == '+' || c == '/'
        } by {
            assert(value_of(text[k]) is Some);
        }
    }
}

} // verus!
