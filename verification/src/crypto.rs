//! Digests, encodings and fresh identifiers.
use base64::Engine;
use sha2::Digest;
use subtle::ConstantTimeEq;
use vstd::prelude::*;

verus! {

/// The SHA-256 digest of some bytes.
pub uninterp spec fn sha256(data: Seq<u8>) -> Seq<u8>;

/// `sha2::Sha256::digest`: the digest of the bytes, always 32 bytes long.
#[verifier::external_body]
pub(crate) fn digest(data: &[u8]) -> (r: [u8; 32])
    ensures
        r@ == sha256(data@),
{
    sha2::Sha256::digest(data).into()
}

/// `subtle::ConstantTimeEq::ct_eq` on byte slices: whether they hold the same
/// bytes.
#[verifier::external_body]
pub(crate) fn same_bytes(a: &[u8], b: &[u8]) -> (r: bool)
    ensures
        r == (a@ == b@),
{
    bool::from(a.ct_eq(b))
}

/// The standard base64 text of some bytes, with padding.
pub uninterp spec fn base64_text(data: Seq<u8>) -> Seq<char>;

/// The bytes that a standard base64 text stands for, if it is one.
pub uninterp spec fn base64_bytes(text: Seq<char>) -> Option<Seq<u8>>;

/// `base64::Engine::encode` of the standard alphabet with padding. The text
/// decodes to the bytes again. `encode` panics where the length of the text
/// does not fit a `usize`, which the bound rules out.
#[verifier::external_body]
pub(crate) fn encode_base64(data: &[u8]) -> (r: String)
    requires
        data@.len() <= 0x1000_0000,
    ensures
        r@ == base64_text(data@),
        base64_bytes(r@) == Some(data@),
{
    base64::engine::general_purpose::STANDARD.encode(data)
}

/// `base64::Engine::decode` of the standard alphabet with padding.
#[verifier::external_body]
pub(crate) fn decode_base64(text: &str) -> (r: Option<Vec<u8>>)
    ensures
        match r {
            Some(data) => base64_bytes(text@) == Some(data@),
            None => base64_bytes(text@) is None,
        },
{
    base64::engine::general_purpose::STANDARD.decode(text).ok()
}

/// The URL-safe base64 text of some bytes, without padding.
pub uninterp spec fn base64_url_text(data: Seq<u8>) -> Seq<char>;

/// A letter, a digit, a hyphen or an underscore.
pub open spec fn url_safe_char(c: char) -> bool {
    ||| 'a' <= c && c <= 'z'
    ||| 'A' <= c && c <= 'Z'
    ||| '0' <= c && c <= '9'
    ||| c == '-'
    ||| c == '_'
}

/// `base64::Engine::encode` of the URL-safe alphabet without padding: four
/// characters for every three bytes, and no more than are needed for the rest.
/// `encode` panics where the length of the text does not fit a `usize`, which
/// the bound rules out.
#[verifier::external_body]
pub(crate) fn encode_base64_url(data: &[u8]) -> (r: String)
    requires
        data@.len() <= 0x1000_0000,
    ensures
        r@ == base64_url_text(data@),
        r@.len() == (data@.len() * 4 + 2) / 3,
        forall|i: int| 0 <= i < r@.len() ==> url_safe_char(#[trigger] r@[i]),
{
    base64::engine::general_purpose::URL_SAFE_NO_PAD.encode(data)
}

/// The lowercase hexadecimal digit of a number below sixteen.
pub open spec fn hex_digit(n: int) -> char {
    if n < 10 {
        (n + 48) as char
    } else {
        (n + 87) as char
    }
}

/// The lowercase hexadecimal text of some bytes.
pub open spec fn hex_text(data: Seq<u8>) -> Seq<char>
    decreases data.len(),
{
    if data.len() == 0 {
        Seq::empty()
    } else {
        hex_text(data.drop_last()).push(hex_digit(data.last() as int / 16)).push(
            hex_digit(data.last() as int % 16),
        )
    }
}

fn nibble(n: u8) -> (r: &'static str)
    requires
        n < 16,
    ensures
        r@ == seq![hex_digit(n as int)],
{
    proof {
        reveal_strlit("0");
        reveal_strlit("1");
        reveal_strlit("2");
        reveal_strlit("3");
        reveal_strlit("4");
        reveal_strlit("5");
        reveal_strlit("6");
        reveal_strlit("7");
        reveal_strlit("8");
        reveal_strlit("9");
        reveal_strlit("a");
        reveal_strlit("b");
        reveal_strlit("c");
        reveal_strlit("d");
        reveal_strlit("e");
        reveal_strlit("f");
    }
    match n {
        0 => "0",
        1 => "1",
        2 => "2",
        3 => "3",
        4 => "4",
        5 => "5",
        6 => "6",
        7 => "7",
        8 => "8",
        9 => "9",
        10 => "a",
        11 => "b",
        12 => "c",
        13 => "d",
        14 => "e",
        _ => "f",
    }
}

/// Writes bytes as lowercase hexadecimal digits.
pub fn hex(data: &[u8]) -> (r: String)
    ensures
        r@ == hex_text(data@),
        r@.len() == 2 * data@.len(),
{
    let mut out = String::new();
    let mut i: usize = 0;
    while i < data.len()
        invariant
            i <= data.len(),
            out@ == hex_text(data@.take(i as int)),
            out@.len() == 2 * i,
        decreases data.len() - i,
    {
        let b = data[i];
        out.append(nibble(b / 16));
        out.append(nibble(b % 16));
        proof {
            let next = data@.take(i as int + 1);
            assert(next.drop_last() =~= data@.take(i as int));
            assert(out@ =~= hex_text(next));
        }
        i += 1;
    }
    assert(data@.take(data@.len() as int) =~= data@);
    out
}

/// The hexadecimal SHA-256 digest of some bytes.
pub open spec fn fingerprint_text(data: Seq<u8>) -> Seq<char> {
    hex_text(sha256(data))
}

/// Fingerprints some bytes: the SHA-256 digest in hexadecimal digits.
pub fn fingerprint(data: &[u8]) -> (r: String)
    ensures
        r@ == fingerprint_text(data@),
        r@.len() == 64,
{
    hex(&digest(data))
}

/// Whether a text is a UUID in one of the accepted forms.
pub uninterp spec fn uuid_text(s: Seq<char>) -> bool;

/// `uuid::Uuid::parse_str`: whether it accepts the text.
#[verifier::external_body]
pub(crate) fn is_uuid(s: &str) -> (r: bool)
    ensures
        r == uuid_text(s@),
{
    uuid::Uuid::parse_str(s).is_ok()
}

/// `uuid::Uuid::now_v7` as text: an identifier that time and chance made, in
/// the hyphenated form, which `parse_str` accepts.
#[verifier::external_body]
pub(crate) fn fresh_uuid() -> (r: String)
    ensures
        uuid_text(r@),
        r@.len() == 36,
        forall|i: int| 0 <= i < r@.len() ==> url_safe_char(#[trigger] r@[i]),
{
    uuid::Uuid::now_v7().to_string()
}

/// `uuid::Uuid::now_v7` as a number: whatever time and chance made.
#[verifier::external_body]
pub(crate) fn fresh_bits() -> (r: u128) {
    uuid::Uuid::now_v7().as_u128()
}

/// `getrandom::fill` of 24 bytes: whatever the system hands out, or the text of
/// the error where it fails.
#[verifier::external_body]
pub(crate) fn entropy_24() -> (r: Result<[u8; 24], String>) {
    let mut bytes = [0u8; 24];
    getrandom::fill(&mut bytes).map(|_| bytes).map_err(|error| error.to_string())
}

/// `getrandom::fill` of 32 bytes: whatever the system hands out, or nothing
/// where it fails.
#[verifier::external_body]
pub(crate) fn entropy_32() -> (r: Option<[u8; 32]>) {
    let mut bytes = [0u8; 32];
    getrandom::fill(&mut bytes).ok().map(|_| bytes)
}

/// Hexadecimal text has two digits for each byte, and tells any two contents of one length
/// apart.
pub proof fn law_hexadecimal_text_is_exact(a: Seq<u8>, b: Seq<u8>)
    requires
        a.len() == b.len(),
    ensures
        hex_text(a).len() == 2 * a.len(),
        hex_text(a) == hex_text(b) ==> a == b,
    decreases a.len(),
{
    if a.len() > 0 {
        law_hexadecimal_text_is_exact(a.drop_last(), b.drop_last());
        law_hexadecimal_text_is_exact(b.drop_last(), b.drop_last());
        let n = hex_text(a.drop_last()).len() as int;
        if hex_text(a) == hex_text(b) {
            assert(hex_text(a).take(n) =~= hex_text(a.drop_last()));
            assert(hex_text(b).take(n) =~= hex_text(b.drop_last()));
            assert(hex_text(a)[n] == hex_digit(a.last() as int / 16));
            assert(hex_text(b)[n] == hex_digit(b.last() as int / 16));
            assert(hex_text(a)[n + 1] == hex_digit(a.last() as int % 16));
            assert(hex_text(b)[n + 1] == hex_digit(b.last() as int % 16));
            assert(a.last() == b.last());
            assert(a =~= a.drop_last().push(a.last()));
            assert(b =~= b.drop_last().push(b.last()));
        }
    } else {
        assert(a =~= b);
    }
}

} // verus!
