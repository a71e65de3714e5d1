//! The `/hash` command: MD5, SHA-1, SHA-256 and SHA-512 digests of text.

use vstd::prelude::*;
use vstd::utf8::encode_utf8;
use vstd::string::StringSliceAdditionalSpecFns;
use crate::cipher::{byte_truncated, cut_ok, lower_hex, hex_digit_lower, truncate};
use crate::options::{CommandOption, last_string, last_string_value};
use crate::text::{push_char, text_eq};

verus! {

/// The MD5 digest of the bytes.
pub uninterp spec fn md5_digest(data: Seq<u8>) -> Seq<u8>;

/// The SHA-1 digest of the bytes.
pub uninterp spec fn sha1_digest(data: Seq<u8>) -> Seq<u8>;

/// The SHA-256 digest of the bytes.
pub uninterp spec fn sha256_digest(data: Seq<u8>) -> Seq<u8>;

/// The SHA-512 digest of the bytes.
pub uninterp spec fn sha512_digest(data: Seq<u8>) -> Seq<u8>;

/// MD5 of the bytes (`md5::Md5::digest`), 16 bytes long.
#[verifier::external_body]
fn md5(data: &[u8]) -> (r: Vec<u8>)
    ensures
        r@ == md5_digest(data@),
        r@.len() == 16,
{
    <md5::Md5 as md5::Digest>::digest(data).to_vec()
}

/// SHA-1 of the bytes (`sha1::Sha1::digest`), 20 bytes long.
#[verifier::external_body]
fn sha1(data: &[u8]) -> (r: Vec<u8>)
    ensures
        r@ == sha1_digest(data@),
        r@.len() == 20,
{
    <sha1::Sha1 as sha1::Digest>::digest(data).to_vec()
}

/// SHA-256 of the bytes (`sha2::Sha256::digest`), 32 bytes long.
#[verifier::external_body]
fn sha256(data: &[u8]) -> (r: Vec<u8>)
    ensures
        r@ == sha256_digest(data@),
        r@.len() == 32,
{
    <sha2::Sha256 as sha2::Digest>::digest(data).to_vec()
}

/// SHA-512 of the bytes (`sha2::Sha512::digest`), 64 bytes long.
#[verifier::external_body]
fn sha512(data: &[u8]) -> (r: Vec<u8>)
    ensures
        r@ == sha512_digest(data@),
        r@.len() == 64,
{
    <sha2::Sha512 as sha2::Digest>::digest(data).to_vec()
}

/// Lower-case hex of bytes (what `{:x}` prints for a digest).
pub fn to_lower_hex(bytes: &Vec<u8>) -> (r: String)
    ensures
        r@ == lower_hex(bytes@),
{
    let mut out = String::new();
    let mut i: usize = 0;
    while i < bytes.len()
        invariant
            i <= bytes.len(),
            out@ == lower_hex(bytes@.take(i as int)),
        decreases bytes.len() - i,
    {
        let b = bytes[i];
        push_char(&mut out, hex_char(b / 16));
        push_char(&mut out, hex_char(b % 16));
        assert(out@ =~= lower_hex(bytes@.take(i + 1))) by {
            let t = bytes@.take(i + 1);
            assert forall|j: int| 0 <= j < 2 * t.len() implies out@[j] == lower_hex(t)[j] by {
                if j < 2 * i {
                    assert(bytes@.take(i as int)[j / 2] == t[j / 2]);
                }
            }
        }
        i = i + 1;
    }
    assert(bytes@.take(bytes.len() as int) == bytes@);
    out
}

fn hex_char(d: u8) -> (c: char)
    requires
        d < 16,
    ensures
        c == hex_digit_lower(d as int),
{
    if d < 10 {
        crate::num::digit_char_of(d as u64)
    } else {
        ((d - 10) + 97) as char
    }
}

/// Digest algorithms of `/hash`: its name as shown and its size in bits.
pub open spec fn hash_info(htype: Seq<char>) -> Option<(Seq<char>, u32)> {
    if htype == "md5"@ { Some(("MD5"@, 128u32)) }
    else if htype == "sha1"@ { Some(("SHA-1"@, 160u32)) }
    else if htype == "sha256"@ { Some(("SHA-256"@, 256u32)) }
    else if htype == "sha512"@ { Some(("SHA-512"@, 512u32)) }
    else { None }
}

/// The digest that `htype` selects, of the bytes.
pub open spec fn digest_of(htype: Seq<char>, data: Seq<u8>) -> Seq<u8> {
    if htype == "md5"@ { md5_digest(data) }
    else if htype == "sha1"@ { sha1_digest(data) }
    else if htype == "sha256"@ { sha256_digest(data) }
    else { sha512_digest(data) }
}

/// What the `/hash` command answers.
pub enum HashReply {
    /// The type or the input is missing or empty.
    MissingOptions,
    /// The type names no supported algorithm.
    UnknownType,
    /// The digest: title, input as shown, lower-case hex, and length text.
    Digest { title: String, input: String, hash: String, length: String },
}

/// Computes the reply of `/hash` for a type and an input.
pub fn respond(htype: &str, input: &str) -> (r: HashReply)
    requires
        hash_info(htype@) is Some && input@.len() > 0 ==> cut_ok(input@, 200),
    ensures
        htype@.len() == 0 || input@.len() == 0 ==> r is MissingOptions,
        htype@.len() > 0 && input@.len() > 0 ==> match hash_info(htype@) {
            None => r is UnknownType,
            Some((name, bits)) => r matches HashReply::Digest { title, input: shown, hash, length }
                && title@ == "#️⃣ "@ + name
                && shown@ == byte_truncated(input@, 200)
                && hash@ == lower_hex(digest_of(htype@, encode_utf8(input@)))
                && length@ == crate::num::dec(bits as nat) + " bits"@,
        },
{
    if htype.unicode_len() == 0 || input.unicode_len() == 0 {
        return HashReply::MissingOptions;
    }
    let data = input.as_bytes();
    let (digest, bits, name): (Vec<u8>, u64, &str) = if text_eq(htype, "md5") {
        (md5(data), 128, "MD5")
    } else if text_eq(htype, "sha1") {
        (sha1(data), 160, "SHA-1")
    } else if text_eq(htype, "sha256") {
        (sha256(data), 256, "SHA-256")
    } else if text_eq(htype, "sha512") {
        (sha512(data), 512, "SHA-512")
    } else {
        return HashReply::UnknownType;
    };
    let mut title = String::from_str("#️⃣ ");
    title.append(name);
    let digits = crate::num::dec_u64(bits);
    let mut length = crate::text::string_of(&digits);
    length.append(" bits");
    HashReply::Digest { title, input: truncate(input, 200), hash: to_lower_hex(&digest), length }
}

/// Whether the type names a supported algorithm.
fn known_type(htype: &str) -> (r: bool)
    ensures
        r == hash_info(htype@) is Some,
{
    text_eq(htype, "md5") || text_eq(htype, "sha1") || text_eq(htype, "sha256") || text_eq(htype, "sha512")
}

/// Handles `/hash`: reads the `type` and `input` options and answers. Gives
/// `None` exactly where the reply would cut the input inside a character.
pub fn handle(options: &Vec<CommandOption>) -> (r: Option<HashReply>)
    ensures
        ({
            let (t, i) = (last_string(options@, "type"@), last_string(options@, "input"@));
            &&& r is None <==> (t.len() > 0 && i.len() > 0 && hash_info(t) is Some && !cut_ok(i, 200))
            &&& r matches Some(reply) ==> {
                &&& t.len() == 0 || i.len() == 0 ==> reply is MissingOptions
                &&& t.len() > 0 && i.len() > 0 ==> match hash_info(t) {
                    None => reply is UnknownType,
                    Some((name, bits)) => reply matches HashReply::Digest { title, input: shown, hash, length }
                        && title@ == "#️⃣ "@ + name
                        && shown@ == byte_truncated(i, 200)
                        && hash@ == lower_hex(digest_of(t, encode_utf8(i)))
                        && length@ == crate::num::dec(bits as nat) + " bits"@,
                }
            }
        }),
{
    let htype = last_string_value(options, "type");
    let input = last_string_value(options, "input");
    proof {
        reveal_strlit("md5");
        reveal_strlit("sha1");
        reveal_strlit("sha256");
        reveal_strlit("sha512");
    }
    let known = known_type(htype.as_str());
    if known && input.as_str().unicode_len() > 0 {
        let ib = input.as_str().as_bytes().len();
        if ib > 200 && !input.as_str().is_char_boundary(200) {
            return None;
        }
    }
    Some(respond(htype.as_str(), input.as_str()))
}

} // verus!
