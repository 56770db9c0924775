//! SHA-256 digests and Base64 text, computed by the `sha2` and `base64` crates.

use crate::numerals::{hex, to_hex};
use base64::Engine;
use sha2::Digest;
use vstd::prelude::*;

verus! {

/// A running SHA-256 computation, held by `sha2::Sha256`.
#[verifier::external_body]
pub struct HashState {
    inner: sha2::Sha256,
}

/// The SHA-256 digest of `data`.
pub uninterp spec fn sha256(data: Seq<u8>) -> Seq<u8>;

/// The bytes that a running computation has taken in.
pub uninterp spec fn absorbed(state: HashState) -> Seq<u8>;

/// `sha2::Sha256::new` starts a computation that has taken in nothing.
#[verifier::external_body]
fn start_hash() -> (state: HashState)
    ensures
        absorbed(state) == Seq::<u8>::empty(),
{
    HashState { inner: sha2::Sha256::new() }
}

/// `sha2::Digest::update` takes in `data` after all that came before.
#[verifier::external_body]
fn feed_hash(state: &mut HashState, data: &[u8])
    ensures
        absorbed(*final(state)) == absorbed(*old(state)) + data@,
{
    state.inner.update(data)
}

/// `sha2::Digest::finalize` returns the digest of the bytes taken in, which is
/// 32 bytes long.
#[verifier::external_body]
fn end_hash(state: HashState) -> (d: Vec<u8>)
    ensures
        d@ == sha256(absorbed(state)),
        d@.len() == 32,
{
    state.inner.finalize().to_vec()
}

/// The letter that stands for six bits in the standard Base64 alphabet.
pub open spec fn base64_letter(bits: int) -> char {
    if bits < 26 {
        ('A' as u8 + bits) as char
    } else if bits < 52 {
        ('a' as u8 + bits - 26) as char
    } else if bits < 62 {
        ('0' as u8 + bits - 52) as char
    } else if bits == 62 {
        '+'
    } else {
        '/'
    }
}

/// The byte at position `i`; zero behind the end.
pub open spec fn byte_at(data: Seq<u8>, i: int) -> int {
    if i < data.len() {
        data[i] as int
    } else {
        0
    }
}

/// The `i`-th six bits of `data`, four to every three bytes.
pub open spec fn six_bits(data: Seq<u8>, i: int) -> int {
    let k = i / 4 * 3;
    if i % 4 == 0 {
        byte_at(data, k) / 4
    } else if i % 4 == 1 {
        byte_at(data, k) % 4 * 16 + byte_at(data, k + 1) / 16
    } else if i % 4 == 2 {
        byte_at(data, k + 1) % 16 * 4 + byte_at(data, k + 2) / 64
    } else {
        byte_at(data, k + 2) % 64
    }
}

/// The Base64 text of `data` with the standard alphabet and no padding: a letter for
/// every six bits begun.
pub open spec fn base64_no_pad_text(data: Seq<u8>) -> Seq<char> {
    Seq::new(((4 * data.len() + 2) / 3) as nat, |i: int| base64_letter(six_bits(data, i)))
}

/// The Base64 text of `data` with the standard alphabet and padding: filled up with `=`
/// to a multiple of four characters.
pub open spec fn base64_text(data: Seq<u8>) -> Seq<char> {
    base64_no_pad_text(data) + Seq::new(((3 - data.len() % 3) % 3) as nat, |i: int| '=')
}

/// `base64`'s `STANDARD` engine, applied by `Engine::encode`: the Base64 text with
/// padding. The bound keeps the length of the text within what a `String` can hold.
#[verifier::external_body]
pub(crate) fn base64_standard(bytes: &[u8]) -> (r: String)
    requires
        bytes@.len() <= isize::MAX / 2,
    ensures
        r@ == base64_text(bytes@),
{
    base64::engine::general_purpose::STANDARD.encode(bytes)
}

/// `base64`'s `STANDARD_NO_PAD` engine, applied by `Engine::encode`: the Base64 text
/// without padding. The bound keeps the length of the text within what a `String` can
/// hold.
#[verifier::external_body]
pub(crate) fn base64_no_pad(bytes: &[u8]) -> (r: String)
    requires
        bytes@.len() <= isize::MAX / 2,
    ensures
        r@ == base64_no_pad_text(bytes@),
{
    base64::engine::general_purpose::STANDARD_NO_PAD.encode(bytes)
}

/// The six bits of `data` are a number below 64, and so their letter is no `=`.
pub proof fn lemma_base64_letters(data: Seq<u8>, i: int)
    requires
        i >= 0,
    ensures
        0 <= six_bits(data, i) < 64,
        base64_letter(six_bits(data, i)) != '=',
        base64_letter(six_bits(data, i)) != '\n',
        base64_letter(six_bits(data, i)) != ' ',
{
    let k = i / 4 * 3;
    assert(0 <= byte_at(data, k) < 256);
    assert(0 <= byte_at(data, k + 1) < 256);
    assert(0 <= byte_at(data, k + 2) < 256);
}

/// A SHA-256 checksum over data that arrives in parts.
pub struct Checksum {
    state: HashState,
}

impl View for Checksum {
    type V = Seq<u8>;

    /// The bytes taken in so far.
    closed spec fn view(&self) -> Seq<u8> {
        absorbed(self.state)
    }
}

impl Checksum {
    /// A checksum over no data yet.
    pub fn new() -> (c: Self)
        ensures
            c@ == Seq::<u8>::empty(),
    {
        Checksum { state: start_hash() }
    }

    /// Takes in the next part of the data.
    pub fn update(&mut self, part: &[u8])
        ensures
            final(self)@ == old(self)@ + part@,
    {
        feed_hash(&mut self.state, part);
    }

    /// The digest of all data taken in.
    pub fn digest(self) -> (d: Vec<u8>)
        ensures
            d@ == sha256(self@),
            d@.len() == 32,
    {
        end_hash(self.state)
    }

    /// The digest of all data taken in, as 64 lower-case hexadecimal digits.
    pub fn finish(self) -> (r: String)
        ensures
            r@ == hex(sha256(self@)),
            r@.len() == 64,
    {
        let d = self.digest();
        proof {
            crate::numerals::lemma_hex_len(d@);
        }
        to_hex(&d)
    }
}

/// The letters of Base64 stand for six bits each by their place in the alphabet.
pub proof fn law_base64_alphabet(i: int)
    requires
        0 <= i < 64,
    ensures
        base64_letter(i) == "ABCDEFGHIJKLMNOPQRSTUVWXYZabcdefghijklmnopqrstuvwxyz0123456789+/"@[i],
{
    reveal_strlit("ABCDEFGHIJKLMNOPQRSTUVWXYZabcdefghijklmnopqrstuvwxyz0123456789+/");
}

/// Four letters stand for three bytes: what their places in the alphabet stand for, put
/// together, is the bytes.
pub proof fn law_base64_denotes(data: Seq<u8>, k: int)
    requires
        k >= 0,
        3 * k + 2 < data.len(),
    ensures
        ((six_bits(data, 4 * k) * 64 + six_bits(data, 4 * k + 1)) * 64 + six_bits(data, 4 * k + 2))
            * 64 + six_bits(data, 4 * k + 3) == (data[3 * k] * 256 + data[3 * k + 1]) * 256
            + data[3 * k + 2],
        forall|i: int|
            4 * k <= i < 4 * k + 4 ==> #[trigger] base64_no_pad_text(data)[i] == base64_letter(
                six_bits(data, i),
            ),
{
    let a = data[3 * k] as int;
    let b = data[3 * k + 1] as int;
    let c = data[3 * k + 2] as int;
    assert((4 * k) / 4 * 3 == 3 * k && (4 * k) % 4 == 0);
    assert((4 * k + 1) / 4 * 3 == 3 * k && (4 * k + 1) % 4 == 1);
    assert((4 * k + 2) / 4 * 3 == 3 * k && (4 * k + 2) % 4 == 2);
    assert((4 * k + 3) / 4 * 3 == 3 * k && (4 * k + 3) % 4 == 3);
    assert(a == a / 4 * 4 + a % 4);
    assert(b == b / 16 * 16 + b % 16);
    assert(c == c / 64 * 64 + c % 64);
}

/// The padding fills the text up to a multiple of four characters.
pub proof fn law_base64_padding(data: Seq<u8>)
    ensures
        base64_text(data).len() % 4 == 0,
        base64_text(data).take(base64_no_pad_text(data).len() as int) == base64_no_pad_text(data),
        base64_text(data).len() - base64_no_pad_text(data).len() <= 2,
        base64_text(data).len() == (data.len() + 2) / 3 * 4,
{
    let n = data.len();
    assert(base64_text(data).take(base64_no_pad_text(data).len() as int) == base64_no_pad_text(
        data,
    ));
    if n % 3 == 0 {
    } else if n % 3 == 1 {
    } else {
    }
}

} // verus!
