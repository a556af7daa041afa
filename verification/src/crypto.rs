//! Digests, encodings and random values: `sha2`, `base64` and `rand` compute them; the hex
//! rendering of a digest is the library's own.
use vstd::prelude::*;
use base64::Engine;
use rand::RngCore;
use sha2::Digest;

verus! {

/// The SHA-256 digest of a byte string.
pub uninterp spec fn sha256_digest(data: Seq<u8>) -> Seq<u8>;

/// `sha2::Sha256::digest`: the digest of the bytes, 32 bytes long.
#[verifier::external_body]
pub(crate) fn sha256(data: &[u8]) -> (d: Vec<u8>)
    ensures
        d@ == sha256_digest(data@),
        d@.len() == 32,
{
    sha2::Sha256::digest(data).to_vec()
}

/// The character of the URL-safe base64 alphabet for a six-bit value.
pub open spec fn base64url_char(v: nat) -> char {
    if v < 26 {
        (('A' as nat) + v) as char
    } else if v < 52 {
        (('a' as nat) + v - 26) as char
    } else if v < 62 {
        (('0' as nat) + v - 52) as char
    } else if v == 62 {
        '-'
    } else {
        '_'
    }
}

/// The unpadded URL-safe base64 text of a byte string: each group of three bytes gives four
/// characters of six bits each, high bits first; a final one or two bytes give two or three
/// characters, the missing low bits taken as zero.
pub open spec fn base64url_text(data: Seq<u8>) -> Seq<char>
    decreases data.len(),
{
    if data.len() == 0 {
        Seq::empty()
    } else if data.len() == 1 {
        let b0 = data[0] as nat;
        seq![base64url_char(b0 / 4), base64url_char((b0 % 4) * 16)]
    } else if data.len() == 2 {
        let b0 = data[0] as nat;
        let b1 = data[1] as nat;
        seq![base64url_char(b0 / 4), base64url_char((b0 % 4) * 16 + b1 / 16), base64url_char((b1 % 16) * 4)]
    } else {
        let b0 = data[0] as nat;
        let b1 = data[1] as nat;
        let b2 = data[2] as nat;
        seq![
            base64url_char(b0 / 4),
            base64url_char((b0 % 4) * 16 + b1 / 16),
            base64url_char((b1 % 16) * 4 + b2 / 64),
            base64url_char(b2 % 64),
        ] + base64url_text(data.skip(3))
    }
}

/// Whether a character belongs to the URL-safe base64 alphabet.
pub open spec fn is_base64url_char(c: char) -> bool {
    ('A' <= c <= 'Z') || ('a' <= c <= 'z') || ('0' <= c <= '9') || c == '-' || c == '_'
}

/// The base64url text of `n` bytes has `(4n + 2) / 3` characters, all of the URL-safe alphabet.
pub proof fn lemma_base64url_shape(data: Seq<u8>)
    ensures
        base64url_text(data).len() == (4 * data.len() + 2) / 3,
        forall|i: int| 0 <= i < base64url_text(data).len() ==> is_base64url_char(#[trigger] base64url_text(data)[i]),
    decreases data.len(),
{
    assert forall|v: nat| v < 64 implies is_base64url_char(#[trigger] base64url_char(v)) by {}
    if data.len() >= 3 {
        lemma_base64url_shape(data.skip(3));
        let b0 = data[0] as nat;
        let b1 = data[1] as nat;
        let b2 = data[2] as nat;
        let head = seq![
            base64url_char(b0 / 4),
            base64url_char((b0 % 4) * 16 + b1 / 16),
            base64url_char((b1 % 16) * 4 + b2 / 64),
            base64url_char(b2 % 64),
        ];
        let t = base64url_text(data);
        assert(t == head + base64url_text(data.skip(3)));
        assert forall|i: int| 0 <= i < t.len() implies is_base64url_char(#[trigger] t[i]) by {
            if i >= 4 {
                assert(t[i] == base64url_text(data.skip(3))[i - 4]);
            }
        }
    }
}

/// `base64::engine::general_purpose::URL_SAFE_NO_PAD.encode`: the unpadded URL-safe base64
/// text of the bytes.
#[verifier::external_body]
pub(crate) fn base64url_encode(data: &[u8]) -> (s: String)
    ensures
        s@ == base64url_text(data@),
{
    base64::engine::general_purpose::URL_SAFE_NO_PAD.encode(data)
}

/// `rand::rng().fill_bytes` on `n` bytes. Of the bytes, only their number is claimed.
#[verifier::external_body]
pub(crate) fn random_bytes(n: usize) -> (b: Vec<u8>)
    ensures
        b@.len() == n,
{
    let mut bytes = vec![0u8; n];
    rand::rng().fill_bytes(&mut bytes);
    bytes
}

/// `uuid::Uuid::new_v4().to_string()`: a fresh random identifier in the hyphenated form, 36
/// characters long. Which identifier is not claimed.
#[verifier::external_body]
pub(crate) fn new_uuid() -> (s: String)
    ensures
        s@.len() == 36,
{
    uuid::Uuid::new_v4().to_string()
}

/// The lower-case hex digit of a value below sixteen.
pub open spec fn hex_digit(v: nat) -> char {
    if v < 10 {
        (('0' as nat) + v) as char
    } else {
        (('a' as nat) + v - 10) as char
    }
}

/// The lower-case hex text of a byte string: two digits a byte, high half first.
pub open spec fn hex_text(data: Seq<u8>) -> Seq<char>
    decreases data.len(),
{
    if data.len() == 0 {
        Seq::empty()
    } else {
        hex_text(data.drop_last()) + seq![
            hex_digit((data.last() / 16) as nat),
            hex_digit((data.last() % 16) as nat),
        ]
    }
}

fn hex_char(v: u8) -> (c: char)
    requires
        v < 16,
    ensures
        c == hex_digit(v as nat),
{
    let table = "0123456789abcdef";
    proof {
        reveal_strlit("0123456789abcdef");
    }
    table.get_char(v as usize)
}

/// Render bytes as lower-case hex.
pub fn lower_hex(data: &[u8]) -> (s: String)
    ensures
        s@ == hex_text(data@),
        s@.len() == 2 * data@.len(),
{
    let mut s = String::new();
    let mut i: usize = 0;
    proof {
        assert(data@.subrange(0, 0) =~= Seq::<u8>::empty());
    }
    while i < data.len()
        invariant
            i <= data@.len(),
            s@ == hex_text(data@.subrange(0, i as int)),
            s@.len() == 2 * i,
        decreases data@.len() - i,
    {
        let b = data[i];
        s.push(hex_char(b / 16));
        s.push(hex_char(b % 16));
        proof {
            let pre = data@.subrange(0, i as int + 1);
            assert(pre.drop_last() =~= data@.subrange(0, i as int));
            assert(pre.last() == b);
        }
        i = i + 1;
    }
    proof {
        assert(data@.subrange(0, data@.len() as int) =~= data@);
    }
    s
}

/// Law: hex text holds only the digits `0-9` and `a-f`.
pub proof fn lemma_hex_text_digits(data: Seq<u8>)
    ensures
        forall|i: int|
            0 <= i < hex_text(data).len() ==> ('0' <= #[trigger] hex_text(data)[i] <= '9') || (
            'a' <= hex_text(data)[i] <= 'f'),
        hex_text(data).len() == 2 * data.len(),
    decreases data.len(),
{
    if data.len() > 0 {
        lemma_hex_text_digits(data.drop_last());
        let p = hex_text(data.drop_last());
        let h = hex_text(data);
        assert forall|i: int| 0 <= i < h.len() implies ('0' <= #[trigger] h[i] <= '9') || ('a'
            <= h[i] <= 'f') by {
            if i < p.len() {
                assert(h[i] == p[i]);
            }
        }
    }
}

/// The lower-case hex SHA-256 digest of a text's UTF-8 bytes.
pub fn sha256_hex(text: &str) -> (s: String)
    ensures
        s@ == hex_text(sha256_digest(vstd::utf8::encode_utf8(text@))),
        s@.len() == 64,
{
    let d = sha256(text.as_bytes());
    lower_hex(d.as_slice())
}

} // verus!
