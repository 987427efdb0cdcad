//! The sample as text: Base64 with the standard alphabet and padding.
use base64::Engine;
use vstd::prelude::*;

verus! {

/// The symbol of the standard alphabet for the six bits `v`:
/// `A` to `Z`, `a` to `z`, `0` to `9`, `+` and `/`.
pub open spec fn base64_symbol(v: int) -> char {
    if v < 26 {
        ('A' as int + v) as char
    } else if v < 52 {
        ('a' as int + v - 26) as char
    } else if v < 62 {
        ('0' as int + v - 52) as char
    } else if v == 62 {
        '+'
    } else {
        '/'
    }
}

/// Byte `i` of `data`, and 0 past its end.
pub open spec fn byte_at(data: Seq<u8>, i: int) -> int {
    if i < data.len() {
        data[i] as int
    } else {
        0
    }
}

/// Bits `6 * k` to `6 * k + 5` of `data`, most significant bit first, with zeros
/// past its end. Four such groups of six bits make up three bytes.
pub open spec fn six_bits(data: Seq<u8>, k: int) -> int {
    let i = k / 4 * 3;
    let triple = byte_at(data, i) * 0x10000 + byte_at(data, i + 1) * 0x100 + byte_at(data, i + 2);
    if k % 4 == 0 {
        triple / 0x40000
    } else if k % 4 == 1 {
        triple / 0x1000 % 64
    } else if k % 4 == 2 {
        triple / 64 % 64
    } else {
        triple % 64
    }
}

/// How many characters the encoding of `n` bytes has.
pub open spec fn base64_len(n: nat) -> nat {
    4 * ((n + 2) / 3)
}

/// The Base64 encoding of `data`: a symbol for each six bits that hold a bit of
/// `data`, then `=` up to a multiple of four characters.
pub open spec fn base64_text(data: Seq<u8>) -> Seq<char> {
    Seq::new(
        base64_len(data.len()),
        |k: int|
            if 6 * k < 8 * data.len() {
                base64_symbol(six_bits(data, k))
            } else {
                '='
            },
    )
}

/// `Engine::encode` of the `base64` crate, on its engine
/// `engine::general_purpose::STANDARD`: Base64 with the standard alphabet and
/// with padding. The claim is that the result is `base64_text` of the bytes. The
/// call panics where the encoding would be longer than a string can be, so such
/// input is left out.
#[verifier::external_body]
fn standard_encode(data: &[u8]) -> (res: String)
    requires
        base64_len(data@.len()) <= isize::MAX,
    ensures
        res@ == base64_text(data@),
{
    base64::engine::general_purpose::STANDARD.encode(data)
}

/// Encodes bytes as Base64.
pub fn encode_to_base64(data: &[u8]) -> (res: String)
    requires
        base64_len(data@.len()) <= isize::MAX,
    ensures
        res@ == base64_text(data@),
{
    standard_encode(data)
}

proof fn lemma_symbol_is_injective(v: int, w: int)
    requires
        0 <= v < 64,
        0 <= w < 64,
    ensures
        base64_symbol(v) != '=',
        base64_symbol(v) == base64_symbol(w) ==> v == w,
{
}

proof fn lemma_six_bits_range(data: Seq<u8>, k: int)
    requires
        0 <= k,
    ensures
        0 <= six_bits(data, k) < 64,
        6 * k >= 8 * data.len() ==> six_bits(data, k) == 0,
{
}

/// The three bytes from `i` on, as one number.
spec fn triple_at(data: Seq<u8>, i: int) -> int {
    byte_at(data, i) * 0x10000 + byte_at(data, i + 1) * 0x100 + byte_at(data, i + 2)
}

proof fn lemma_number_from_six_bits(t: int)
    requires
        0 <= t < 0x1000000,
    ensures
        t == t / 0x40000 * 0x40000 + t / 0x1000 % 64 * 0x1000 + t / 64 % 64 * 64 + t % 64,
{
    let high = t / 0x1000;
    let low = t / 64;
    assert(high / 64 == t / 0x40000);
    assert(low / 64 == high);
}

proof fn lemma_triple_from_six_bits(data: Seq<u8>, j: int)
    requires
        0 <= j,
    ensures
        triple_at(data, 3 * j) == six_bits(data, 4 * j) * 0x40000 + six_bits(data, 4 * j + 1)
            * 0x1000 + six_bits(data, 4 * j + 2) * 64 + six_bits(data, 4 * j + 3),
{
    lemma_number_from_six_bits(triple_at(data, 3 * j));
}

proof fn lemma_bytes_from_triple(a: Seq<u8>, b: Seq<u8>, i: int)
    requires
        triple_at(a, i) == triple_at(b, i),
    ensures
        byte_at(a, i) == byte_at(b, i),
        byte_at(a, i + 1) == byte_at(b, i + 1),
        byte_at(a, i + 2) == byte_at(b, i + 2),
{
}

proof fn lemma_same_text_same_len(a: Seq<u8>, b: Seq<u8>)
    requires
        base64_text(a) == base64_text(b),
    ensures
        a.len() >= b.len(),
{
    assert(base64_text(a).len() == base64_len(a.len()));
    assert(base64_text(b).len() == base64_len(b.len()));
    if a.len() < b.len() {
        let c = (a.len() + 2) / 3;
        assert(c == (b.len() + 2) / 3);
        assert(3 * (c - 1) < a.len() < b.len() <= 3 * c);
        let k = 4 * (c - 1) + (a.len() - 3 * (c - 1)) + 1;
        assert(base64_text(a)[k] == '=');
        lemma_six_bits_range(b, k);
        lemma_symbol_is_injective(six_bits(b, k), 0);
        assert(base64_text(b)[k] == base64_symbol(six_bits(b, k)));
    }
}

proof fn lemma_same_six_bits(a: Seq<u8>, b: Seq<u8>, k: int)
    requires
        base64_text(a) == base64_text(b),
        a.len() == b.len(),
        0 <= k < base64_len(a.len()),
    ensures
        six_bits(a, k) == six_bits(b, k),
{
    lemma_six_bits_range(a, k);
    lemma_six_bits_range(b, k);
    if 6 * k < 8 * a.len() {
        assert(base64_text(a)[k] == base64_symbol(six_bits(a, k)));
        assert(base64_text(b)[k] == base64_symbol(six_bits(b, k)));
    }
    lemma_symbol_is_injective(six_bits(a, k), six_bits(b, k));
}

/// The encoding loses nothing: different bytes never give the same text.
pub proof fn lemma_base64_is_injective(a: Seq<u8>, b: Seq<u8>)
    requires
        base64_text(a) == base64_text(b),
    ensures
        a == b,
{
    lemma_same_text_same_len(a, b);
    lemma_same_text_same_len(b, a);
    assert forall|i: int| 0 <= i < a.len() implies a[i] == b[i] by {
        let j = i / 3;
        lemma_same_six_bits(a, b, 4 * j);
        lemma_same_six_bits(a, b, 4 * j + 1);
        lemma_same_six_bits(a, b, 4 * j + 2);
        lemma_same_six_bits(a, b, 4 * j + 3);
        lemma_triple_from_six_bits(a, j);
        lemma_triple_from_six_bits(b, j);
        lemma_bytes_from_triple(a, b, 3 * j);
        assert(i == 3 * j || i == 3 * j + 1 || i == 3 * j + 2);
        assert(byte_at(a, i) == byte_at(b, i));
    }
    assert(a =~= b);
}

/// The text is whole groups of four characters, and no shorter than the bytes.
pub proof fn lemma_base64_text_len(data: Seq<u8>)
    ensures
        base64_text(data).len() % 4 == 0,
        3 * base64_text(data).len() >= 4 * data.len(),
        3 * base64_text(data).len() < 4 * data.len() + 12,
{
}

/// The six bits that a symbol of the standard alphabet stands for.
pub open spec fn symbol_value(c: char) -> int {
    if 'A' <= c && c <= 'Z' {
        c as int - 65
    } else if 'a' <= c && c <= 'z' {
        c as int - 71
    } else if '0' <= c && c <= '9' {
        c as int + 4
    } else if c == '+' {
        62
    } else {
        63
    }
}

/// Whether `c` is a symbol of the standard alphabet.
pub open spec fn is_symbol(c: char) -> bool {
    ('A' <= c && c <= 'Z') || ('a' <= c && c <= 'z') || ('0' <= c && c <= '9') || c == '+' || c
        == '/'
}

proof fn lemma_symbol_reads_back(v: int)
    requires
        0 <= v < 64,
    ensures
        is_symbol(base64_symbol(v)),
        symbol_value(base64_symbol(v)) == v,
{
}

proof fn lemma_text_at(data: Seq<u8>, k: int)
    requires
        0 <= k < 4 * ((data.len() + 2) / 3),
    ensures
        0 <= k < base64_text(data).len(),
        6 * k < 8 * data.len() ==> is_symbol(base64_text(data)[k]) && symbol_value(
            base64_text(data)[k],
        ) == six_bits(data, k),
        6 * k >= 8 * data.len() ==> base64_text(data)[k] == '=',
{
    lemma_six_bits_range(data, k);
    lemma_symbol_reads_back(six_bits(data, k));
}

proof fn lemma_split_triple(a: int, b: int, c: int)
    requires
        0 <= a < 256,
        0 <= b < 256,
        0 <= c < 256,
    ensures
        ({
            let t = a * 0x10000 + b * 0x100 + c;
            &&& t / 0x40000 == a / 4
            &&& t / 0x1000 % 64 == a % 4 * 16 + b / 16
            &&& t / 64 % 64 == b % 16 * 4 + c / 64
            &&& t % 64 == c % 64
        }),
{
    let t = a * 0x10000 + b * 0x100 + c;
    assert(t / 0x1000 == a * 16 + b / 16);
    assert(t / 64 == a * 1024 + b * 4 + c / 64);
}

/// The text is read back as the bytes. Each three bytes are four symbols, that
/// is 24 bits in the same order. One or two bytes at the end are two or three
/// symbols, filled up with zero bits, and `=` in place of the others.
pub proof fn lemma_base64_reads_back(data: Seq<u8>, j: int)
    requires
        0 <= j,
        3 * j < data.len(),
    ensures
        ({
            let t = base64_text(data);
            let a = symbol_value(t[4 * j]);
            let b = symbol_value(t[4 * j + 1]);
            let c = symbol_value(t[4 * j + 2]);
            let d = symbol_value(t[4 * j + 3]);
            &&& 4 * j + 3 < t.len()
            &&& is_symbol(t[4 * j]) && is_symbol(t[4 * j + 1])
            &&& data[3 * j] == a * 4 + b / 16
            &&& 3 * j + 1 == data.len() ==> b % 16 == 0 && t[4 * j + 2] == '='
            &&& 3 * j + 1 < data.len() ==> is_symbol(t[4 * j + 2]) && data[3 * j + 1] == b % 16 * 16
                + c / 4
            &&& 3 * j + 2 == data.len() ==> c % 4 == 0
            &&& 3 * j + 2 >= data.len() ==> t[4 * j + 3] == '='
            &&& 3 * j + 2 < data.len() ==> is_symbol(t[4 * j + 3]) && data[3 * j + 2] == c % 4 * 64
                + d
        }),
        base64_text(data).len() == 4 * ((data.len() + 2) / 3),
{
    lemma_text_at(data, 4 * j);
    lemma_text_at(data, 4 * j + 1);
    lemma_text_at(data, 4 * j + 2);
    lemma_text_at(data, 4 * j + 3);
    lemma_split_triple(
        byte_at(data, 3 * j),
        byte_at(data, 3 * j + 1),
        byte_at(data, 3 * j + 2),
    );
}

} // verus!
