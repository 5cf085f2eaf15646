//! Hexadecimal text and the TLS presentation of byte strings.

use vstd::prelude::*;
use vstd::string::*;
use tls_codec::{Deserialize, Serialize};

verus! {

/// Why a text is no hexadecimal number of whole bytes.
#[derive(Clone, Copy, Debug, PartialEq, Eq, Structural)]
pub enum HexError {
    /// A character other than `0-9`, `a-f` and `A-F`.
    InvalidHexCharacter { c: char, index: usize },
    /// The text has an odd number of digits.
    OddLength,
    /// The text does not fill the container that it is read into.
    InvalidStringLength,
}

/// The value of one hexadecimal digit, in either case.
pub open spec fn hex_value(c: u8) -> Option<int> {
    if 0x30 <= c <= 0x39 {
        Some(c - 0x30)
    } else if 0x61 <= c <= 0x66 {
        Some(c - 0x61 + 10)
    } else if 0x41 <= c <= 0x46 {
        Some(c - 0x41 + 10)
    } else {
        None
    }
}

/// The lower-case digit for a value below sixteen.
pub open spec fn hex_digit(v: int) -> char {
    if v < 10 {
        (0x30 + v) as char
    } else {
        (0x61 + v - 10) as char
    }
}

/// The lower-case hexadecimal text of a byte string: two digits for each byte, high digit first.
pub open spec fn hex_text(b: Seq<u8>) -> Seq<char> {
    Seq::new(
        2 * b.len(),
        |i: int|
            if i % 2 == 0 {
                hex_digit(b[i / 2] as int / 16)
            } else {
                hex_digit(b[i / 2] as int % 16)
            },
    )
}

/// Whether every byte of an ASCII text is a hexadecimal digit.
pub open spec fn all_hex(t: Seq<u8>) -> bool {
    forall|i: int| 0 <= i < t.len() ==> (#[trigger] hex_value(t[i])) is Some
}

/// Whether `i` is where the first byte that is no hexadecimal digit stands.
pub open spec fn first_bad_digit(t: Seq<u8>, i: int) -> bool {
    &&& 0 <= i < t.len()
    &&& hex_value(t[i]) is None
    &&& forall|j: int| 0 <= j < i ==> (#[trigger] hex_value(t[j])) is Some
}

/// The bytes that pairs of hexadecimal digits stand for.
pub open spec fn hex_bytes(t: Seq<u8>) -> Seq<u8> {
    Seq::new(
        t.len() / 2,
        |i: int| (hex_value(t[2 * i])->0 * 16 + hex_value(t[2 * i + 1])->0) as u8,
    )
}

/// `hex::encode`: the lower-case hexadecimal text of `data`.
#[verifier::external_body]
pub(crate) fn hex_encode(data: &[u8]) -> (text: String)
    requires
        2 * data@.len() <= isize::MAX,
    ensures
        text@ == hex_text(data@),
{
    hex::encode(data)
}

/// `hex::decode`: reads pairs of digits of either case. An odd number of bytes is refused first,
/// then the first byte that is no digit, which is reported as a character with its position.
#[verifier::external_body]
pub(crate) fn hex_decode(text: &str) -> (r: Result<Vec<u8>, HexError>)
    ensures
        match r {
            Ok(b) => text.spec_bytes().len() % 2 == 0 && all_hex(text.spec_bytes()) && b@
                == hex_bytes(text.spec_bytes()),
            Err(HexError::OddLength) => text.spec_bytes().len() % 2 != 0,
            Err(HexError::InvalidHexCharacter { c, index }) => text.spec_bytes().len() % 2 == 0
                && first_bad_digit(text.spec_bytes(), index as int) && c as int
                == text.spec_bytes()[index as int],
            Err(HexError::InvalidStringLength) => false,
        },
{
    hex::decode(text).map_err(
        |e| match e {
            hex::FromHexError::InvalidHexCharacter { c, index } => HexError::InvalidHexCharacter { c, index },
            hex::FromHexError::OddLength => HexError::OddLength,
            hex::FromHexError::InvalidStringLength => HexError::InvalidStringLength,
        },
    )
}

/// Reading a hexadecimal text that was written from bytes gives these bytes back.
pub proof fn hex_round_trip(b: Seq<u8>)
    ensures
        vstd::utf8::encode_utf8(hex_text(b)).len() == 2 * b.len(),
        all_hex(vstd::utf8::encode_utf8(hex_text(b))),
        hex_bytes(vstd::utf8::encode_utf8(hex_text(b))) == b,
{
    let t = hex_text(b);
    assert(vstd::utf8::is_ascii_chars(t));
    vstd::utf8::is_ascii_chars_encode_utf8(t);
    let u = vstd::utf8::encode_utf8(t);
    assert forall|i: int| 0 <= i < u.len() implies (#[trigger] hex_value(u[i])) is Some && hex_value(u[i])->0 == (if i
        % 2 == 0 {
        b[i / 2] as int / 16
    } else {
        b[i / 2] as int % 16
    }) by {
        assert(t[i] as u8 == u[i]);
    }
    assert forall|i: int| 0 <= i < b.len() implies hex_bytes(u)[i] == b[i] by {
        assert(hex_value(u[2 * i]) is Some);
        assert(hex_value(u[2 * i + 1]) is Some);
        assert((2 * i) / 2 == i);
        assert((2 * i + 1) / 2 == i);
    }
    assert(hex_bytes(u) =~= b);
}

/// What `std::str::from_utf8` says of bytes that encode no text.
pub uninterp spec fn utf8_error_text(b: Seq<u8>) -> Seq<char>;

/// `std::str::from_utf8`: the text that a byte string encodes, if it encodes one. What the error says of
/// bytes that encode none is a function of these bytes.
#[verifier::external_body]
pub(crate) fn utf8_text(b: &[u8]) -> (r: Result<String, String>)
    ensures
        match r {
            Ok(s) => vstd::utf8::valid_utf8(b@) && vstd::utf8::encode_utf8(s@) == b@,
            Err(e) => !vstd::utf8::valid_utf8(b@) && e@ == utf8_error_text(b@),
        },
{
    std::str::from_utf8(b).map(|s| s.to_string()).map_err(|e| e.to_string())
}

/// What can go wrong in the TLS presentation of a value.
#[derive(Debug, PartialEq, Eq)]
pub enum TlsCodecError {
    EncodingError(String),
    InvalidVectorLength,
    InvalidWriteLength(String),
    InvalidInput,
    DecodingError(String),
    EndOfStream,
    TrailingData,
    UnknownValue(u64),
    LibraryError,
}

/// The number that a big-endian byte string stands for.
pub open spec fn big_endian(b: Seq<u8>) -> nat
    decreases b.len(),
{
    if b.len() == 0 {
        0
    } else {
        256 * big_endian(b.drop_last()) + b.last() as nat
    }
}

/// How many bytes a length takes whose first byte is `first`: its two high bits tell.
pub open spec fn length_size(first: u8) -> nat {
    if first < 0x40 {
        1
    } else if first < 0x80 {
        2
    } else if first < 0xc0 {
        4
    } else {
        8
    }
}

/// The length that the first bytes of `b` announce.
pub open spec fn announced_length(b: Seq<u8>) -> nat {
    big_endian(seq![b[0] % 64] + b.subrange(1, length_size(b[0]) as int))
}

/// A length written in the fewest bytes.
pub open spec fn length_bytes(n: nat) -> Seq<u8> {
    if n < 0x40 {
        seq![n as u8]
    } else if n < 0x4000 {
        seq![(0x40 + n / 0x100) as u8, (n % 0x100) as u8]
    } else if n < 0x4000_0000 {
        seq![
            (0x80 + n / 0x100_0000) as u8,
            (n / 0x1_0000 % 0x100) as u8,
            (n / 0x100 % 0x100) as u8,
            (n % 0x100) as u8,
        ]
    } else {
        seq![
            (0xc0 + n / 0x100_0000_0000_0000) as u8,
            (n / 0x1_0000_0000_0000 % 0x100) as u8,
            (n / 0x100_0000_0000 % 0x100) as u8,
            (n / 0x1_0000_0000 % 0x100) as u8,
            (n / 0x100_0000 % 0x100) as u8,
            (n / 0x1_0000 % 0x100) as u8,
            (n / 0x100 % 0x100) as u8,
            (n % 0x100) as u8,
        ]
    }
}

/// The longest content that a length can announce.
pub const MAX_VECTOR_LENGTH: u64 = 0x3fff_ffff_ffff_ffff;

/// A byte string behind its length.
pub open spec fn with_length(content: Seq<u8>) -> Seq<u8> {
    length_bytes(content.len()) + content
}

/// Reads a byte string that stands behind its length and fills the input to its end.
pub open spec fn content_of(b: Seq<u8>) -> Result<Seq<u8>, TlsCodecError> {
    if b.len() == 0 {
        Err(TlsCodecError::InvalidVectorLength)
    } else if b.len() < length_size(b[0]) || b.len() < length_size(b[0]) + announced_length(b) {
        Err(TlsCodecError::EndOfStream)
    } else if b.len() > length_size(b[0]) + announced_length(b) {
        Err(TlsCodecError::TrailingData)
    } else {
        Ok(b.subrange(length_size(b[0]) as int, b.len() as int))
    }
}

/// Whether the announced length fits into a machine word.
pub open spec fn length_fits_word(b: Seq<u8>) -> bool {
    b.len() == 0 || length_size(b[0]) != 8 || usize::BITS == 64
}

/// Whether an outcome in memory is the one that a model of it gives.
pub open spec fn is_reading(r: Result<Vec<u8>, TlsCodecError>, model: Result<Seq<u8>, TlsCodecError>) -> bool {
    match r {
        Ok(content) => model is Ok && model->Ok_0 == content@,
        Err(e) => model is Err && model->Err_0 == e,
    }
}

/// `tls_codec::Serialize::tls_serialize_detached` on a byte vector: the content behind its length,
/// which takes as few bytes as it can. It succeeds on every length that can be announced. This holds
/// while the feature `mls` of that crate is off; with it on, contents of 2^30 bytes and more are refused.
#[verifier::external_body]
pub(crate) fn write_with_length(content: &Vec<u8>) -> (r: Option<Vec<u8>>)
    requires
        content@.len() <= MAX_VECTOR_LENGTH,
    ensures
        r is Some,
        r->0@ == with_length(content@),
{
    content.tls_serialize_detached().ok()
}

/// `tls_codec::Deserialize::tls_deserialize_exact` of a byte vector: the content behind its length.
/// Nothing is claimed of lengths of eight bytes on a machine whose words are shorter. This holds while the
/// feature `mls` of that crate is off; with it on, lengths of eight bytes are refused, and so are lengths
/// that take more bytes than they need.
#[verifier::external_body]
pub(crate) fn read_with_length(b: &[u8]) -> (r: Result<Vec<u8>, TlsCodecError>)
    ensures
        length_fits_word(b@) ==> is_reading(r, content_of(b@)),
{
    Vec::<u8>::tls_deserialize_exact(b).map_err(|e| match e {
        tls_codec::Error::EncodingError(s) => TlsCodecError::EncodingError(s),
        tls_codec::Error::InvalidVectorLength => TlsCodecError::InvalidVectorLength,
        tls_codec::Error::InvalidWriteLength(s) => TlsCodecError::InvalidWriteLength(s),
        tls_codec::Error::InvalidInput => TlsCodecError::InvalidInput,
        tls_codec::Error::DecodingError(s) => TlsCodecError::DecodingError(s),
        tls_codec::Error::EndOfStream => TlsCodecError::EndOfStream,
        tls_codec::Error::TrailingData => TlsCodecError::TrailingData,
        tls_codec::Error::UnknownValue(v) => TlsCodecError::UnknownValue(v),
        tls_codec::Error::LibraryError => TlsCodecError::LibraryError,
    })
}

proof fn lemma_big_endian_push(b: Seq<u8>, x: u8)
    ensures
        big_endian(b.push(x)) == 256 * big_endian(b) + x,
{
    assert(b.push(x).drop_last() =~= b);
}

proof fn lemma_big_endian_four(a: u8, b: u8, c: u8, d: u8)
    ensures
        big_endian(seq![a]) == a,
        big_endian(seq![a, b]) == 0x100 * a + b,
        big_endian(seq![a, b, c, d]) == 0x100_0000 * a + 0x1_0000 * b + 0x100 * c + d,
{
    let e = Seq::<u8>::empty();
    lemma_big_endian_push(e, a);
    lemma_big_endian_push(e.push(a), b);
    lemma_big_endian_push(e.push(a).push(b), c);
    lemma_big_endian_push(e.push(a).push(b).push(c), d);
    assert(seq![a] =~= e.push(a));
    assert(seq![a, b] =~= e.push(a).push(b));
    assert(seq![a, b, c, d] =~= e.push(a).push(b).push(c).push(d));
}

proof fn lemma_next_digit(n: int, d: int)
    requires
        0 <= n,
        0 < d,
    ensures
        n / d == 256 * (n / (d * 256)) + n / d % 256,
{
    vstd::arithmetic::div_mod::lemma_div_denominator(n, d, 256);
}

proof fn lemma_length_four(n: nat)
    requires
        0x4000 <= n < 0x4000_0000,
    ensures
        big_endian(
            seq![
                (n / 0x100_0000) as u8,
                (n / 0x1_0000 % 0x100) as u8,
                (n / 0x100 % 0x100) as u8,
                (n % 0x100) as u8,
            ],
        ) == n,
{
    lemma_big_endian_four(
        (n / 0x100_0000) as u8,
        (n / 0x1_0000 % 0x100) as u8,
        (n / 0x100 % 0x100) as u8,
        (n % 0x100) as u8,
    );
}

proof fn lemma_length_eight(n: nat)
    requires
        0x4000_0000 <= n <= MAX_VECTOR_LENGTH,
    ensures
        big_endian(
            seq![
                (n / 0x100_0000_0000_0000) as u8,
                (n / 0x1_0000_0000_0000 % 0x100) as u8,
                (n / 0x100_0000_0000 % 0x100) as u8,
                (n / 0x1_0000_0000 % 0x100) as u8,
                (n / 0x100_0000 % 0x100) as u8,
                (n / 0x1_0000 % 0x100) as u8,
                (n / 0x100 % 0x100) as u8,
                (n % 0x100) as u8,
            ],
        ) == n,
{
    let s = seq![
        (n / 0x100_0000_0000_0000) as u8,
        (n / 0x1_0000_0000_0000 % 0x100) as u8,
        (n / 0x100_0000_0000 % 0x100) as u8,
        (n / 0x1_0000_0000 % 0x100) as u8,
    ];
    let e = (n / 0x100_0000 % 0x100) as u8;
    let f = (n / 0x1_0000 % 0x100) as u8;
    let g = (n / 0x100 % 0x100) as u8;
    let h = (n % 0x100) as u8;
    lemma_big_endian_four(s[0], s[1], s[2], s[3]);
    lemma_next_digit(n as int, 0x1_0000_0000_0000);
    lemma_next_digit(n as int, 0x100_0000_0000);
    lemma_next_digit(n as int, 0x1_0000_0000);
    lemma_next_digit(n as int, 0x100_0000);
    lemma_next_digit(n as int, 0x1_0000);
    lemma_next_digit(n as int, 0x100);
    lemma_next_digit(n as int, 1);
    assert(s =~= seq![s[0], s[1], s[2], s[3]]);
    assert(big_endian(s) == n / 0x1_0000_0000);
    lemma_big_endian_push(s, e);
    lemma_big_endian_push(s.push(e), f);
    lemma_big_endian_push(s.push(e).push(f), g);
    lemma_big_endian_push(s.push(e).push(f).push(g), h);
    assert(seq![s[0], s[1], s[2], s[3], e, f, g, h] =~= s.push(e).push(f).push(g).push(h));
}

/// A byte string written behind its length is read back as it was.
pub proof fn length_round_trip(content: Seq<u8>)
    requires
        content.len() <= MAX_VECTOR_LENGTH,
    ensures
        content_of(with_length(content)) == Ok::<_, TlsCodecError>(content),
{
    let n = content.len();
    let b = with_length(content);
    let head = length_bytes(n);
    assert(b[0] == head[0]);
    assert(length_size(b[0]) == head.len());
    let digits = seq![b[0] % 64] + b.subrange(1, head.len() as int);
    assert(digits =~= head.update(0, head[0] % 64));
    if n < 0x40 {
        lemma_big_endian_four(n as u8, 0, 0, 0);
        assert(digits =~= seq![n as u8]);
    } else if n < 0x4000 {
        lemma_big_endian_four((n / 0x100) as u8, (n % 0x100) as u8, 0, 0);
        assert(digits =~= seq![(n / 0x100) as u8, (n % 0x100) as u8]);
    } else if n < 0x4000_0000 {
        lemma_length_four(n);
        assert(digits =~= seq![
            (n / 0x100_0000) as u8,
            (n / 0x1_0000 % 0x100) as u8,
            (n / 0x100 % 0x100) as u8,
            (n % 0x100) as u8,
        ]);
    } else {
        lemma_length_eight(n);
        assert(digits =~= seq![
            (n / 0x100_0000_0000_0000) as u8,
            (n / 0x1_0000_0000_0000 % 0x100) as u8,
            (n / 0x100_0000_0000 % 0x100) as u8,
            (n / 0x1_0000_0000 % 0x100) as u8,
            (n / 0x100_0000 % 0x100) as u8,
            (n / 0x1_0000 % 0x100) as u8,
            (n / 0x100 % 0x100) as u8,
            (n % 0x100) as u8,
        ]);
    }
    assert(big_endian(digits) == n);
    assert(b.subrange(head.len() as int, b.len() as int) =~= content);
}

} // verus!
