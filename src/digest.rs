//! Digests of byte strings, written as lowercase hexadecimal text.
use vstd::prelude::*;
use vstd::utf8::*;

verus! {

/// The SHA-256 digest of a byte string.
pub uninterp spec fn sha256_of(data: Seq<u8>) -> Seq<u8>;

/// Relies on sha2's `Sha256::digest` (the `Digest` trait): the SHA-256 digest
/// of the bytes, which depends on the bytes alone.
#[verifier::external_body]
fn sha256(data: &Vec<u8>) -> (r: Vec<u8>)
    ensures
        r@ == sha256_of(data@),
{
    <sha2::Sha256 as sha2::Digest>::digest(data.as_slice()).to_vec()
}

/// Relies on std's `String::from_utf8`: it succeeds exactly on valid UTF-8
/// and keeps the bytes, so the text is what they decode to.
#[verifier::external_body]
pub(crate) fn string_from_utf8(b: Vec<u8>) -> (r: Option<String>)
    ensures
        r is Some <==> valid_utf8(b@),
        r is Some ==> r->Some_0@ == decode_utf8(b@),
{
    String::from_utf8(b).ok()
}

/// The ASCII code of the lowercase hexadecimal digit for `d` (below 16).
pub open spec fn hex_byte(d: u8) -> u8 {
    if d < 10 {
        (48 + d) as u8
    } else {
        (87 + d) as u8
    }
}

/// Each byte as two lowercase hexadecimal digits, high digit first (ASCII codes).
pub open spec fn hex_bytes(b: Seq<u8>) -> Seq<u8>
    decreases b.len(),
{
    if b.len() == 0 {
        Seq::empty()
    } else {
        seq![hex_byte(b[0] / 16), hex_byte(b[0] % 16)] + hex_bytes(b.drop_first())
    }
}

/// Each byte as two lowercase hexadecimal digits, high digit first.
pub open spec fn hex_of(b: Seq<u8>) -> Seq<char> {
    decode_utf8(hex_bytes(b))
}

/// The text form of the SHA-256 digest of `data`.
pub open spec fn digest_hex(data: Seq<u8>) -> Seq<char> {
    hex_of(sha256_of(data))
}

proof fn lemma_hex_bytes_push(b: Seq<u8>, x: u8)
    ensures
        hex_bytes(b.push(x)) == hex_bytes(b) + seq![hex_byte(x / 16), hex_byte(x % 16)],
    decreases b.len(),
{
    if b.len() == 0 {
        assert(b.push(x).drop_first() =~= Seq::<u8>::empty());
        assert(b.push(x)[0] == x);
        assert(hex_bytes(b.push(x).drop_first()) == Seq::<u8>::empty());
        assert(hex_bytes(b.push(x)) =~= hex_bytes(b) + seq![hex_byte(x / 16), hex_byte(x % 16)]);
    } else {
        assert(b.push(x).drop_first() =~= b.drop_first().push(x));
        assert(b.push(x)[0] == b[0]);
        lemma_hex_bytes_push(b.drop_first(), x);
        assert(hex_bytes(b.push(x)) =~= hex_bytes(b) + seq![hex_byte(x / 16), hex_byte(x % 16)]);
    }
}

proof fn lemma_hex_bytes_ascii(b: Seq<u8>)
    ensures
        forall|i: int| 0 <= i < hex_bytes(b).len() ==> #[trigger] hex_bytes(b)[i] < 128,
        hex_bytes(b).len() == 2 * b.len(),
    decreases b.len(),
{
    if b.len() > 0 {
        lemma_hex_bytes_ascii(b.drop_first());
    }
}

/// ASCII bytes are valid UTF-8, and decode to the characters of the same codes.
proof fn lemma_ascii_text(bytes: Seq<u8>)
    requires
        forall|i: int| 0 <= i < bytes.len() ==> #[trigger] bytes[i] < 128,
    ensures
        valid_utf8(bytes),
{
    let chars = Seq::new(bytes.len(), |i: int| bytes[i] as char);
    assert(is_ascii_chars(chars));
    is_ascii_chars_encode_utf8(chars);
    assert(encode_utf8(chars) =~= bytes);
    encode_utf8_valid_utf8(chars);
}

fn hex_digit(d: u8) -> (r: u8)
    requires
        d < 16,
    ensures
        r == hex_byte(d),
{
    if d < 10 {
        48 + d
    } else {
        87 + d
    }
}

/// The lowercase hexadecimal text of the SHA-256 digest of `data`.
pub fn sha256_hex(data: &Vec<u8>) -> (r: String)
    ensures
        r@ == digest_hex(data@),
{
    let d = sha256(data);
    let mut out: Vec<u8> = Vec::new();
    let mut i: usize = 0;
    while i < d.len()
        invariant
            i <= d.len(),
            out@ == hex_bytes(d@.take(i as int)),
        decreases d.len() - i,
    {
        let x = d[i];
        out.push(hex_digit(x / 16));
        out.push(hex_digit(x % 16));
        proof {
            assert(d@.take(i + 1) =~= d@.take(i as int).push(x));
            lemma_hex_bytes_push(d@.take(i as int), x);
        }
        i = i + 1;
        assert(out@ =~= hex_bytes(d@.take(i as int)));
    }
    assert(d@.take(d@.len() as int) =~= d@);
    proof {
        lemma_hex_bytes_ascii(d@);
        lemma_ascii_text(out@);
    }
    match string_from_utf8(out) {
        Some(s) => s,
        None => String::new(),
    }
}

} // verus!
