//! The `/cipher` command: encodings and classical ciphers on text.

use vstd::prelude::*;
use crate::options::{CommandOption, OptionValue, last_string};
use crate::text::{text_eq, chars_of, string_of, string_from_utf8, join, words, views, no_ws, is_ws,
    split_whitespace, join_chars, lemma_words_of_join, split_on, split_chars, trim, words_from, flush,
    lemma_words_leading_ws, lemma_words_trailing_ws, lemma_split_on_cons};
use crate::num::{parse_int, parse_u8_binary, digits_num, all_digits, is_digit_in, digit_char,
    digit_value};
use vstd::utf8::{encode_utf8, valid_utf8, decode_utf8};
use vstd::string::StringSliceAdditionalSpecFns;

verus! {

/// Decoded bytes, or the text of an error.
pub type BytesOrError = Result<Seq<u8>, Seq<char>>;

/// Decoded text, or the text of an error.
pub type TextOrError = Result<Seq<char>, Seq<char>>;

// ── Byte-length truncation ───────────────────────────────────────────────────

/// The first `max_len` bytes of `s`, then `...`, when `s` is longer than
/// `max_len` bytes.
pub open spec fn byte_truncated(s: Seq<char>, max_len: nat) -> Seq<char> {
    if encode_utf8(s).len() > max_len {
        decode_utf8(encode_utf8(s).take(max_len as int)) + crate::util::ellipsis()
    } else {
        s
    }
}

/// Whether cutting `s` after `max_len` bytes falls between two characters
/// (slicing there does not panic).
pub open spec fn cut_ok(s: Seq<char>, max_len: nat) -> bool {
    encode_utf8(s).len() > max_len ==> vstd::utf8::is_char_boundary(encode_utf8(s), max_len as int)
}

/// Truncates by bytes, as `&s[..max_len]` does.
pub fn truncate(s: &str, max_len: usize) -> (r: String)
    requires
        cut_ok(s@, max_len as nat),
    ensures
        r@ == byte_truncated(s@, max_len as nat),
{
    let n = s.as_bytes().len();
    if n > max_len {
        let (head, _tail) = s.split_at(max_len);
        proof {
            vstd::utf8::encode_utf8_decode_utf8(head@);
            assert(encode_utf8(s@).take(max_len as int) =~= encode_utf8(s@).subrange(0, max_len as int));
            reveal_strlit("...");
            assert(head.spec_bytes() == encode_utf8(head@));
            assert(encode_utf8(head@) == encode_utf8(s@).take(max_len as int));
            assert(decode_utf8(encode_utf8(head@)) == head@);
        }
        let mut out = head.to_owned();
        out.append("...");
        assert(out@ == head@ + crate::util::ellipsis());
        out
    } else {
        s.to_owned()
    }
}

// ── Base64, Base32, hex and URL encodings ────────────────────────────────────

/// What `base64`'s standard engine (with padding) encodes the bytes to.
pub uninterp spec fn base64_encoding(bytes: Seq<u8>) -> Seq<char>;

/// What `base64`'s standard engine decodes the text to: the bytes, or the
/// text of its error.
pub uninterp spec fn base64_decoding(text: Seq<char>) -> Result<Seq<u8>, Seq<char>>;

/// Standard Base64 of the bytes (`base64::engine::general_purpose::STANDARD.encode`).
/// Decoding the result with the same engine gives back the bytes.
#[verifier::external_body]
fn base64_encode(bytes: &[u8]) -> (r: String)
    ensures
        r@ == base64_encoding(bytes@),
        base64_decoding(r@) == BytesOrError::Ok(bytes@),
{
    base64::Engine::encode(&base64::engine::general_purpose::STANDARD, bytes)
}

/// Decodes standard Base64 (`STANDARD.decode`); the error is the decode
/// error's text.
#[verifier::external_body]
fn base64_decode(text: &str) -> (r: Result<Vec<u8>, String>)
    ensures
        match r {
            Ok(v) => base64_decoding(text@) == BytesOrError::Ok(v@),
            Err(m) => base64_decoding(text@) == BytesOrError::Err(m@),
        },
{
    match base64::Engine::decode(&base64::engine::general_purpose::STANDARD, text) {
        Ok(v) => Ok(v),
        Err(e) => Err(e.to_string()),
    }
}

/// What `data_encoding::BASE32` encodes the bytes to.
pub uninterp spec fn base32_encoding(bytes: Seq<u8>) -> Seq<char>;

/// What `data_encoding::BASE32` decodes the text's bytes to, or its error's text.
pub uninterp spec fn base32_decoding(text: Seq<char>) -> Result<Seq<u8>, Seq<char>>;

/// RFC 4648 Base32 with padding (`data_encoding::BASE32.encode`). Decoding the
/// result with the same encoding gives back the bytes.
#[verifier::external_body]
fn base32_encode(bytes: &[u8]) -> (r: String)
    ensures
        r@ == base32_encoding(bytes@),
        base32_decoding(r@) == BytesOrError::Ok(bytes@),
{
    data_encoding::BASE32.encode(bytes)
}

/// Decodes Base32 (`data_encoding::BASE32.decode`); the error is the decode
/// error's text.
#[verifier::external_body]
fn base32_decode(text: &str) -> (r: Result<Vec<u8>, String>)
    ensures
        match r {
            Ok(v) => base32_decoding(text@) == BytesOrError::Ok(v@),
            Err(m) => base32_decoding(text@) == BytesOrError::Err(m@),
        },
{
    match data_encoding::BASE32.decode(text.as_bytes()) {
        Ok(v) => Ok(v),
        Err(e) => Err(e.to_string()),
    }
}

pub open spec fn hex_digit_lower(d: int) -> char {
    if d < 10 { digit_char(d) } else { ((d - 10) + ('a' as int)) as char }
}

pub open spec fn hex_digit_upper(d: int) -> char {
    if d < 10 { digit_char(d) } else { ((d - 10) + ('A' as int)) as char }
}

/// Two lower-case hex digits per byte.
pub open spec fn lower_hex(bytes: Seq<u8>) -> Seq<char> {
    Seq::new(2 * bytes.len(), |i: int|
        hex_digit_lower(if i % 2 == 0 { bytes[i / 2] / 16 } else { bytes[i / 2] % 16 } as int))
}

/// The value of a hex digit byte, either case.
pub open spec fn hex_val(b: u8) -> Option<int> {
    if 48 <= b <= 57 {
        Some(b - 48)
    } else if 97 <= b <= 102 {
        Some(b - 87)
    } else if 65 <= b <= 70 {
        Some(b - 55)
    } else {
        None
    }
}

/// The bytes that hex text stands for: an even number of hex digits, two per byte.
pub open spec fn hex_decoded(bytes: Seq<u8>) -> Option<Seq<u8>> {
    if bytes.len() % 2 == 0 && forall|i: int| 0 <= i < bytes.len() ==> (#[trigger] hex_val(bytes[i])) is Some {
        Some(Seq::new(bytes.len() / 2, |i: int|
            (16 * hex_val(bytes[2 * i]).unwrap() + hex_val(bytes[2 * i + 1]).unwrap()) as u8))
    } else {
        None
    }
}

/// The text of `hex::decode`'s error for the text.
pub uninterp spec fn hex_error(text: Seq<char>) -> Seq<char>;

/// Lower-case hex of the bytes (`hex::encode`).
#[verifier::external_body]
fn hex_encode(bytes: &[u8]) -> (r: String)
    ensures
        r@ == lower_hex(bytes@),
{
    hex::encode(bytes)
}

/// Decodes hex text (`hex::decode`): it succeeds exactly on an even number of
/// hex digits of either case; the error is the decode error's text.
#[verifier::external_body]
fn hex_decode(text: &str) -> (r: Result<Vec<u8>, String>)
    ensures
        match r {
            Ok(v) => hex_decoded(encode_utf8(text@)) == Some(v@),
            Err(m) => hex_decoded(encode_utf8(text@)) is None && m@ == hex_error(text@),
        },
{
    match hex::decode(text) {
        Ok(v) => Ok(v),
        Err(e) => Err(e.to_string()),
    }
}

pub open spec fn url_unreserved(b: u8) -> bool {
    (48 <= b <= 57) || (65 <= b <= 90) || (97 <= b <= 122) || b == 45 || b == 46 || b == 95 || b == 126
}

/// Percent-encoding of bytes: alphanumerics and `-`, `.`, `_`, `~` as they are,
/// every other byte as `%` and two upper-case hex digits.
pub open spec fn percent_encoded(bytes: Seq<u8>) -> Seq<char>
    decreases bytes.len(),
{
    if bytes.len() == 0 {
        seq![]
    } else {
        let b = bytes[0];
        let head = if url_unreserved(b) {
            seq![b as char]
        } else {
            seq!['%', hex_digit_upper((b / 16) as int), hex_digit_upper((b % 16) as int)]
        };
        head + percent_encoded(bytes.drop_first())
    }
}

/// What `urlencoding::decode` gives for the text: the decoded text, or the
/// text of its error.
pub uninterp spec fn url_decoding(text: Seq<char>) -> Result<Seq<char>, Seq<char>>;

/// Percent-encodes the UTF-8 bytes of the text (`urlencoding::encode`).
/// Decoding the result gives back the text.
#[verifier::external_body]
pub(crate) fn url_encode(text: &str) -> (r: String)
    ensures
        r@ == percent_encoded(encode_utf8(text@)),
        url_decoding(r@) == TextOrError::Ok(text@),
{
    urlencoding::encode(text).into_owned()
}

/// Decodes percent-encoding (`urlencoding::decode`); the error is the error's text.
#[verifier::external_body]
fn url_decode(text: &str) -> (r: Result<String, String>)
    ensures
        match r {
            Ok(s) => url_decoding(text@) == TextOrError::Ok(s@),
            Err(m) => url_decoding(text@) == TextOrError::Err(m@),
        },
{
    match urlencoding::decode(text) {
        Ok(s) => Ok(s.into_owned()),
        Err(e) => Err(e.to_string()),
    }
}

// ── The encodings as text operations ─────────────────────────────────────────

/// Decoded bytes read as UTF-8 text; `kind` names the encoding in the messages.
pub open spec fn bytes_to_text(r: BytesOrError, kind: Seq<char>) -> TextOrError {
    match r {
        Ok(b) => if valid_utf8(b) {
            Ok(decode_utf8(b))
        } else {
            Err(kind + " decode yielded invalid UTF-8"@)
        },
        Err(e) => Err(kind + " decode error: "@ + e),
    }
}

fn bytes_result_to_text(r: Result<Vec<u8>, String>, kind: &str) -> (out: Result<String, String>)
    ensures
        match out {
            Ok(s) => bytes_to_text(match r { Ok(v) => BytesOrError::Ok(v@), Err(m) => BytesOrError::Err(m@) }, kind@) == TextOrError::Ok(s@),
            Err(m) => bytes_to_text(match r { Ok(v) => BytesOrError::Ok(v@), Err(m) => BytesOrError::Err(m@) }, kind@) == TextOrError::Err(m@),
        },
{
    match r {
        Ok(bytes) => match string_from_utf8(bytes) {
            Some(s) => Ok(s),
            None => {
                let mut m = String::from_str(kind);
                m.append(" decode yielded invalid UTF-8");
                Err(m)
            },
        },
        Err(e) => {
            let mut m = String::from_str(kind);
            m.append(" decode error: ");
            m.append(e.as_str());
            Err(m)
        },
    }
}

/// What decoding Base64 text gives.
pub open spec fn base64_text(input: Seq<char>) -> TextOrError {
    bytes_to_text(base64_decoding(input), "Base64"@)
}

/// What decoding Base32 text gives.
pub open spec fn base32_text(input: Seq<char>) -> TextOrError {
    bytes_to_text(base32_decoding(input), "Base32"@)
}

/// What decoding hex text gives.
pub open spec fn hex_text(input: Seq<char>) -> TextOrError {
    bytes_to_text(
        match hex_decoded(encode_utf8(input)) {
            Some(b) => BytesOrError::Ok(b),
            None => BytesOrError::Err(hex_error(input)),
        },
        "Hex"@,
    )
}

/// What decoding percent-encoded text gives.
pub open spec fn url_text(input: Seq<char>) -> TextOrError {
    match url_decoding(input) {
        Ok(s) => Ok(s),
        Err(e) => Err("URL decode error: "@ + e),
    }
}

/// Base64 of the text's UTF-8 bytes; decoding it gives back the text.
pub fn encode_base64(input: &str) -> (r: String)
    ensures
        r@ == base64_encoding(encode_utf8(input@)),
        base64_text(r@) == TextOrError::Ok(input@),
{
    let r = base64_encode(input.as_bytes());
    proof {
        vstd::utf8::encode_utf8_valid_utf8(input@);
        vstd::utf8::encode_utf8_decode_utf8(input@);
    }
    r
}

pub fn decode_base64(input: &str) -> (r: Result<String, String>)
    ensures
        match r {
            Ok(s) => base64_text(input@) == TextOrError::Ok(s@),
            Err(e) => base64_text(input@) == TextOrError::Err(e@),
        },
{
    bytes_result_to_text(base64_decode(input), "Base64")
}

/// Base32 of the text's UTF-8 bytes; decoding it gives back the text.
pub fn encode_base32(input: &str) -> (r: String)
    ensures
        r@ == base32_encoding(encode_utf8(input@)),
        base32_text(r@) == TextOrError::Ok(input@),
{
    let r = base32_encode(input.as_bytes());
    proof {
        vstd::utf8::encode_utf8_valid_utf8(input@);
        vstd::utf8::encode_utf8_decode_utf8(input@);
    }
    r
}

pub fn decode_base32(input: &str) -> (r: Result<String, String>)
    ensures
        match r {
            Ok(s) => base32_text(input@) == TextOrError::Ok(s@),
            Err(e) => base32_text(input@) == TextOrError::Err(e@),
        },
{
    bytes_result_to_text(base32_decode(input), "Base32")
}

/// Lower-case hex of the text's UTF-8 bytes.
pub fn encode_hex(input: &str) -> (r: String)
    ensures
        r@ == lower_hex(encode_utf8(input@)),
{
    hex_encode(input.as_bytes())
}

pub fn decode_hex(input: &str) -> (r: Result<String, String>)
    ensures
        match r {
            Ok(s) => hex_text(input@) == TextOrError::Ok(s@),
            Err(e) => hex_text(input@) == TextOrError::Err(e@),
        },
{
    bytes_result_to_text(hex_decode(input), "Hex")
}

/// Percent-encoding of the text's UTF-8 bytes; decoding it gives back the text.
pub fn encode_url(input: &str) -> (r: String)
    ensures
        r@ == percent_encoded(encode_utf8(input@)),
        url_text(r@) == TextOrError::Ok(input@),
{
    url_encode(input)
}

pub fn decode_url(input: &str) -> (r: Result<String, String>)
    ensures
        match r {
            Ok(s) => url_text(input@) == TextOrError::Ok(s@),
            Err(e) => url_text(input@) == TextOrError::Err(e@),
        },
{
    match url_decode(input) {
        Ok(s) => Ok(s),
        Err(e) => {
            let mut m = String::from_str("URL decode error: ");
            m.append(e.as_str());
            Err(m)
        },
    }
}

proof fn lemma_hex_digit_lower(d: int)
    requires
        0 <= d < 16,
    ensures
        ('\0' <= hex_digit_lower(d) <= '\u{7f}'),
        hex_val(hex_digit_lower(d) as u8) == Some(d),
{
}

/// Decoding the hex of a text gives back the text.
pub proof fn lemma_hex_roundtrip(s: Seq<char>)
    ensures
        hex_text(lower_hex(encode_utf8(s))) == TextOrError::Ok(s),
{
    let b = encode_utf8(s);
    let h = lower_hex(b);
    assert forall|i: int| 0 <= i < h.len() implies '\0' <= #[trigger] h[i] <= '\u{7f}' by {
        lemma_hex_digit_lower(if i % 2 == 0 { b[i / 2] / 16 } else { b[i / 2] % 16 } as int);
    }
    assert(vstd::utf8::is_ascii_chars(h));
    vstd::utf8::is_ascii_chars_encode_utf8(h);
    let hb = encode_utf8(h);
    assert forall|i: int| 0 <= i < hb.len() implies (#[trigger] hex_val(hb[i])) is Some by {
        assert(hb[i] == h[i] as u8);
        lemma_hex_digit_lower(if i % 2 == 0 { b[i / 2] / 16 } else { b[i / 2] % 16 } as int);
    }
    assert(hb.len() % 2 == 0);
    let d = hex_decoded(hb).unwrap();
    assert(d =~= b) by {
        assert forall|i: int| 0 <= i < b.len() implies d[i] == b[i] by {
            assert(hb[2 * i] == h[2 * i] as u8);
            assert(hb[2 * i + 1] == h[2 * i + 1] as u8);
            assert((2 * i) % 2 == 0);
            assert((2 * i + 1) % 2 == 1);
            assert((2 * i) / 2 == i);
            assert((2 * i + 1) / 2 == i);
            lemma_hex_digit_lower((b[i] / 16) as int);
            lemma_hex_digit_lower((b[i] % 16) as int);
            assert(16 * (b[i] / 16) + b[i] % 16 == b[i]);
        }
    }
    vstd::utf8::encode_utf8_valid_utf8(s);
    vstd::utf8::encode_utf8_decode_utf8(s);
}

// ── The command ──────────────────────────────────────────────────────────────

/// What the `/cipher` command computes for a type and a mode.
pub open spec fn cipher_result(ctype: Seq<char>, mode: Seq<char>, input: Seq<char>) -> TextOrError {
    if ctype == "base64"@ && mode == "encode"@ {
        Ok(base64_encoding(encode_utf8(input)))
    } else if ctype == "base64"@ && mode == "decode"@ {
        base64_text(input)
    } else if ctype == "base32"@ && mode == "encode"@ {
        Ok(base32_encoding(encode_utf8(input)))
    } else if ctype == "base32"@ && mode == "decode"@ {
        base32_text(input)
    } else if ctype == "hex"@ && mode == "encode"@ {
        Ok(lower_hex(encode_utf8(input)))
    } else if ctype == "hex"@ && mode == "decode"@ {
        hex_text(input)
    } else if ctype == "url"@ && mode == "encode"@ {
        Ok(percent_encoded(encode_utf8(input)))
    } else if ctype == "url"@ && mode == "decode"@ {
        url_text(input)
    } else if ctype == "rot13"@ {
        Ok(rot13_text(input))
    } else if ctype == "binary"@ && mode == "encode"@ {
        Ok(binary_text(encode_utf8(input)))
    } else if ctype == "binary"@ && mode == "decode"@ {
        binary_decoded(input)
    } else if ctype == "morse"@ && mode == "encode"@ {
        Ok(morse_text(unicode_uppercase(input)))
    } else if ctype == "morse"@ && mode == "decode"@ {
        morse_decoded(input)
    } else if ctype == "atbash"@ {
        Ok(atbash_text(input))
    } else {
        Err("Unknown cipher type or mode"@)
    }
}

/// Runs the cipher that `ctype` and `mode` select on the input.
pub fn apply_cipher(ctype: &str, mode: &str, input: &str) -> (r: Result<String, String>)
    ensures
        match r {
            Ok(s) => cipher_result(ctype@, mode@, input@) == TextOrError::Ok(s@),
            Err(e) => cipher_result(ctype@, mode@, input@) == TextOrError::Err(e@),
        },
{
    let enc = text_eq(mode, "encode");
    let dec = text_eq(mode, "decode");
    if text_eq(ctype, "base64") && enc {
        Ok(encode_base64(input))
    } else if text_eq(ctype, "base64") && dec {
        decode_base64(input)
    } else if text_eq(ctype, "base32") && enc {
        Ok(encode_base32(input))
    } else if text_eq(ctype, "base32") && dec {
        decode_base32(input)
    } else if text_eq(ctype, "hex") && enc {
        Ok(encode_hex(input))
    } else if text_eq(ctype, "hex") && dec {
        decode_hex(input)
    } else if text_eq(ctype, "url") && enc {
        Ok(encode_url(input))
    } else if text_eq(ctype, "url") && dec {
        decode_url(input)
    } else if text_eq(ctype, "rot13") {
        Ok(rot13(input))
    } else if text_eq(ctype, "binary") && enc {
        Ok(encode_binary(input))
    } else if text_eq(ctype, "binary") && dec {
        decode_binary(input)
    } else if text_eq(ctype, "morse") && enc {
        Ok(encode_morse(input))
    } else if text_eq(ctype, "morse") && dec {
        decode_morse(input)
    } else if text_eq(ctype, "atbash") {
        Ok(atbash(input))
    } else {
        Err(String::from_str("Unknown cipher type or mode"))
    }
}

/// The title word for a cipher type.
pub open spec fn type_title(ctype: Seq<char>) -> Seq<char> {
    if ctype == "base64"@ { "Base64"@ } else if ctype == "base32"@ { "Base32"@ }
    else if ctype == "hex"@ { "Hex"@ } else if ctype == "url"@ { "URL"@ }
    else if ctype == "rot13"@ { "ROT13"@ } else if ctype == "binary"@ { "Binary"@ }
    else if ctype == "morse"@ { "Morse"@ } else if ctype == "atbash"@ { "Atbash"@ }
    else { "Unknown"@ }
}

/// The title word for a mode.
pub open spec fn mode_title(mode: Seq<char>) -> Seq<char> {
    if mode == "encode"@ { "Encode"@ } else if mode == "decode"@ { "Decode"@ } else { "Unknown"@ }
}

fn type_title_exec(ctype: &str) -> (r: &'static str)
    ensures
        r@ == type_title(ctype@),
{
    if text_eq(ctype, "base64") { "Base64" } else if text_eq(ctype, "base32") { "Base32" }
    else if text_eq(ctype, "hex") { "Hex" } else if text_eq(ctype, "url") { "URL" }
    else if text_eq(ctype, "rot13") { "ROT13" } else if text_eq(ctype, "binary") { "Binary" }
    else if text_eq(ctype, "morse") { "Morse" } else if text_eq(ctype, "atbash") { "Atbash" }
    else { "Unknown" }
}

fn mode_title_exec(mode: &str) -> (r: &'static str)
    ensures
        r@ == mode_title(mode@),
{
    if text_eq(mode, "encode") { "Encode" } else if text_eq(mode, "decode") { "Decode" } else { "Unknown" }
}

/// `🔐 <type> — <mode>`.
pub open spec fn reply_title(t: Seq<char>, m: Seq<char>) -> Seq<char> {
    "🔐 "@ + t + " — "@ + m
}

fn make_title(t: &str, m: &str) -> (r: String)
    ensures
        r@ == reply_title(t@, m@),
{
    let mut s = String::from_str("🔐 ");
    s.append(t);
    s.append(" — ");
    s.append(m);
    s
}

/// The note appended to output that was cut.
pub open spec fn cut_note() -> Seq<char> {
    "\n\n*(output bị cắt do quá dài)*"@
}

/// The output, cut after 1900 bytes with a note when it is longer.
pub open spec fn clipped(out: Seq<char>) -> Seq<char> {
    if encode_utf8(out).len() > 1900 {
        decode_utf8(encode_utf8(out).take(1900)) + cut_note()
    } else {
        out
    }
}

/// Cuts long output (`String::truncate(1900)` and the note).
pub fn clip_output(out: String) -> (r: String)
    requires
        cut_ok(out@, 1900),
    ensures
        r@ == clipped(out@),
{
    let n = out.as_str().as_bytes().len();
    if n > 1900 {
        let (head, _tail) = out.as_str().split_at(1900);
        proof {
            vstd::utf8::encode_utf8_decode_utf8(head@);
            assert(encode_utf8(out@).take(1900) =~= encode_utf8(out@).subrange(0, 1900));
        }
        let mut r = head.to_owned();
        r.append("\n\n*(output bị cắt do quá dài)*");
        r
    } else {
        out
    }
}

/// What the `/cipher` command answers.
pub enum CipherReply {
    /// A type, mode or input is missing or empty.
    MissingOptions,
    /// The cipher ran: the title, the input as shown, and the (possibly cut) output.
    Output { title: String, input: String, output: String },
    /// The cipher failed: the title, the input as shown, and the error.
    Failure { title: String, input: String, error: String },
}

/// Whether the reply to these values can be made without slicing text inside a
/// character (the input is shown cut after 200 bytes, the output after 1900).
pub open spec fn reply_cuts_ok(ctype: Seq<char>, mode: Seq<char>, input: Seq<char>) -> bool {
    &&& cut_ok(input, 200)
    &&& (cipher_result(ctype, mode, input) matches Ok(out) ==> cut_ok(out, 1900))
}

/// The reply of `/cipher` to a type, mode and input: `MissingOptions` when one
/// is empty; else the cipher's output under the title of the type and mode,
/// or its error under the upper-cased type and mode; the input is shown cut
/// after 200 bytes and the output after 1900.
pub open spec fn is_cipher_reply(r: CipherReply, ctype: Seq<char>, mode: Seq<char>, input: Seq<char>) -> bool {
    if ctype.len() == 0 || mode.len() == 0 || input.len() == 0 {
        r is MissingOptions
    } else {
        match cipher_result(ctype, mode, input) {
            Ok(out) => r matches CipherReply::Output { title, input: shown, output }
                && title@ == reply_title(type_title(ctype), mode_title(mode))
                && shown@ == byte_truncated(input, 200)
                && output@ == clipped(out),
            Err(e) => r matches CipherReply::Failure { title, input: shown, error }
                && title@ == reply_title(unicode_uppercase(ctype), unicode_uppercase(mode))
                && shown@ == byte_truncated(input, 200)
                && error@ == e,
        }
    }
}

/// The reply of `/cipher` for the given type, mode and input.
pub fn respond(ctype: &str, mode: &str, input: &str) -> (r: CipherReply)
    requires
        ctype@.len() > 0 && mode@.len() > 0 && input@.len() > 0 ==> reply_cuts_ok(ctype@, mode@, input@),
    ensures
        is_cipher_reply(r, ctype@, mode@, input@),
{
    if ctype.unicode_len() == 0 || mode.unicode_len() == 0 || input.unicode_len() == 0 {
        return CipherReply::MissingOptions;
    }
    match apply_cipher(ctype, mode, input) {
        Ok(out) => {
            let output = clip_output(out);
            let title = make_title(type_title_exec(ctype), mode_title_exec(mode));
            CipherReply::Output { title, input: truncate(input, 200), output }
        },
        Err(e) => {
            let t = to_uppercase(ctype);
            let m = to_uppercase(mode);
            let title = make_title(t.as_str(), m.as_str());
            CipherReply::Failure { title, input: truncate(input, 200), error: e }
        },
    }
}

/// Reads the `type`, `mode` and `input` options.
pub fn read_options(options: &Vec<CommandOption>) -> (r: (String, String, String))
    ensures
        r.0@ == last_string(options@, "type"@),
        r.1@ == last_string(options@, "mode"@),
        r.2@ == last_string(options@, "input"@),
{
    let mut ctype = String::new();
    let mut mode = String::new();
    let mut input = String::new();
    let mut i: usize = 0;
    while i < options.len()
        invariant
            i <= options.len(),
            ctype@ == last_string(options@.take(i as int), "type"@),
            mode@ == last_string(options@.take(i as int), "mode"@),
            input@ == last_string(options@.take(i as int), "input"@),
        decreases options.len() - i,
    {
        let ghost pre = options@.take(i as int);
        let ghost nxt = options@.take(i + 1);
        assert(nxt.drop_last() == pre);
        assert(nxt.last() == options@[i as int]);
        proof {
            reveal_strlit("type");
            reveal_strlit("mode");
            reveal_strlit("input");
            assert("type"@[0] != "mode"@[0]);
            assert("type"@.len() != "input"@.len());
            assert("mode"@.len() != "input"@.len());
        }
        let o = &options[i];
        if let OptionValue::String(s) = &o.value {
            if text_eq(o.name.as_str(), "type") {
                ctype = s.clone();
            } else if text_eq(o.name.as_str(), "mode") {
                mode = s.clone();
            } else if text_eq(o.name.as_str(), "input") {
                input = s.clone();
            }
        }
        i = i + 1;
    }
    assert(options@.take(options.len() as int) == options@);
    (ctype, mode, input)
}

/// Handles `/cipher`: reads the options and answers. Gives `None` exactly where
/// the reply would cut text inside a character.
pub fn handle(options: &Vec<CommandOption>) -> (r: Option<CipherReply>)
    ensures
        ({
            let (t, m, i) = (last_string(options@, "type"@), last_string(options@, "mode"@),
                last_string(options@, "input"@));
            &&& (t.len() == 0 || m.len() == 0 || i.len() == 0) ==> r is Some
            &&& (t.len() > 0 && m.len() > 0 && i.len() > 0) ==> (r is Some <==> reply_cuts_ok(t, m, i))
            &&& r matches Some(reply) ==> is_cipher_reply(reply, t, m, i)
        }),
{
    let (ctype, mode, input) = read_options(options);
    if ctype.as_str().unicode_len() == 0 || mode.as_str().unicode_len() == 0 || input.as_str().unicode_len() == 0 {
        return Some(CipherReply::MissingOptions);
    }
    let ib = input.as_str().as_bytes().len();
    if ib > 200 && !input.as_str().is_char_boundary(200) {
        return None;
    }
    match apply_cipher(ctype.as_str(), mode.as_str(), input.as_str()) {
        Ok(out) => {
            let ob = out.as_str().as_bytes().len();
            if ob > 1900 && !out.as_str().is_char_boundary(1900) {
                return None;
            }
        },
        Err(_) => {},
    }
    Some(respond(ctype.as_str(), mode.as_str(), input.as_str()))
}

// ── ROT13 ────────────────────────────────────────────────────────────────────

pub open spec fn rot13_char(c: char) -> char {
    if ('a' <= c && c <= 'm') || ('A' <= c && c <= 'M') {
        ((c as int) + 13) as char
    } else if ('n' <= c && c <= 'z') || ('N' <= c && c <= 'Z') {
        ((c as int) - 13) as char
    } else {
        c
    }
}

/// ROT13 of every character.
pub open spec fn rot13_text(s: Seq<char>) -> Seq<char> {
    Seq::new(s.len(), |i: int| rot13_char(s[i]))
}

fn rot13_char_exec(c: char) -> (r: char)
    ensures
        r == rot13_char(c),
{
    if ('a' <= c && c <= 'm') || ('A' <= c && c <= 'M') {
        ((c as u8) + 13) as char
    } else if ('n' <= c && c <= 'z') || ('N' <= c && c <= 'Z') {
        ((c as u8) - 13) as char
    } else {
        c
    }
}

pub fn rot13(input: &str) -> (r: String)
    ensures
        r@ == rot13_text(input@),
{
    let chars = chars_of(input);
    let mut out: Vec<char> = Vec::new();
    let mut i: usize = 0;
    while i < chars.len()
        invariant
            i <= chars.len(),
            out@ == rot13_text(chars@.take(i as int)),
        decreases chars.len() - i,
    {
        out.push(rot13_char_exec(chars[i]));
        assert(out@ =~= rot13_text(chars@.take(i + 1)));
        i = i + 1;
    }
    assert(chars@.take(chars.len() as int) == chars@);
    string_of(&out)
}

/// Applying ROT13 twice gives back the input.
pub proof fn lemma_rot13_involution(s: Seq<char>)
    ensures
        rot13_text(rot13_text(s)) == s,
{
    assert(rot13_text(rot13_text(s)) =~= s);
}

// ── Atbash ───────────────────────────────────────────────────────────────────

pub open spec fn atbash_char(c: char) -> char {
    if 'a' <= c && c <= 'z' {
        (('z' as int) - ((c as int) - ('a' as int))) as char
    } else if 'A' <= c && c <= 'Z' {
        (('Z' as int) - ((c as int) - ('A' as int))) as char
    } else {
        c
    }
}

/// Atbash of every character: each ASCII letter is mirrored within its case.
pub open spec fn atbash_text(s: Seq<char>) -> Seq<char> {
    Seq::new(s.len(), |i: int| atbash_char(s[i]))
}

fn atbash_char_exec(c: char) -> (r: char)
    ensures
        r == atbash_char(c),
{
    if 'a' <= c && c <= 'z' {
        (('z' as u8) - ((c as u8) - ('a' as u8))) as char
    } else if 'A' <= c && c <= 'Z' {
        (('Z' as u8) - ((c as u8) - ('A' as u8))) as char
    } else {
        c
    }
}

pub fn atbash(input: &str) -> (r: String)
    ensures
        r@ == atbash_text(input@),
{
    let chars = chars_of(input);
    let mut out: Vec<char> = Vec::new();
    let mut i: usize = 0;
    while i < chars.len()
        invariant
            i <= chars.len(),
            out@ == atbash_text(chars@.take(i as int)),
        decreases chars.len() - i,
    {
        out.push(atbash_char_exec(chars[i]));
        assert(out@ =~= atbash_text(chars@.take(i + 1)));
        i = i + 1;
    }
    assert(chars@.take(chars.len() as int) == chars@);
    string_of(&out)
}

/// Applying Atbash twice gives back the input.
pub proof fn lemma_atbash_involution(s: Seq<char>)
    ensures
        atbash_text(atbash_text(s)) == s,
{
    assert(atbash_text(atbash_text(s)) =~= s);
}

// ── Binary ───────────────────────────────────────────────────────────────────

/// The last `k` binary digits of `n`, most significant first.
pub open spec fn bits(n: nat, k: nat) -> Seq<char>
    decreases k,
{
    if k == 0 {
        seq![]
    } else {
        bits(n / 2, (k - 1) as nat).push(digit_char((n % 2) as int))
    }
}

/// Each byte as eight binary digits (`{:08b}`), separated by single spaces.
pub open spec fn binary_text(bytes: Seq<u8>) -> Seq<char> {
    join(Seq::new(bytes.len(), |i: int| bits(bytes[i] as nat, 8)), seq![' '])
}

fn bits_exec(n: u64, k: u64) -> (out: Vec<char>)
    ensures
        out@ == bits(n as nat, k as nat),
    decreases k,
{
    if k == 0 {
        Vec::new()
    } else {
        let mut v = bits_exec(n / 2, k - 1);
        v.push(if n % 2 == 0 { '0' } else { '1' });
        v
    }
}

pub fn encode_binary(input: &str) -> (r: String)
    ensures
        r@ == binary_text(encode_utf8(input@)),
{
    let bytes = input.as_bytes();
    let mut parts: Vec<Vec<char>> = Vec::new();
    let mut i: usize = 0;
    while i < bytes.len()
        invariant
            i <= bytes.len(),
            bytes@ == encode_utf8(input@),
            views(parts@) == Seq::new(i as nat, |j: int| bits(bytes@[j] as nat, 8)),
        decreases bytes.len() - i,
    {
        let b = bits_exec(bytes[i] as u64, 8);
        assert(b@ == bits(bytes@[i as int] as nat, 8));
        let ghost before = views(parts@);
        parts.push(b);
        assert(views(parts@) =~= before.push(bits(bytes@[i as int] as nat, 8)));
        assert(views(parts@) =~= Seq::new((i + 1) as nat, |j: int| bits(bytes@[j] as nat, 8)));
        i = i + 1;
    }
    let sep = vec![' '];
    let out = join_chars(&parts, &sep);
    assert(sep@ =~= seq![' ']);
    assert(Seq::new(bytes@.len(), |j: int| bits(bytes@[j] as nat, 8))
        =~= Seq::new(i as nat, |j: int| bits(bytes@[j] as nat, 8)));
    string_of(&out)
}

/// Bytes read from binary words, or the first word that is not a byte in binary.
pub open spec fn parse_bytes(ws: Seq<Seq<char>>) -> Result<Seq<u8>, Seq<char>>
    decreases ws.len(),
{
    if ws.len() == 0 {
        Ok(seq![])
    } else {
        match parse_int(ws[0], 2, false, 0, 255) {
            Some(v) => match parse_bytes(ws.drop_first()) {
                Ok(rest) => Ok(seq![v as u8] + rest),
                Err(w) => Err(w),
            },
            None => Err(ws[0]),
        }
    }
}

/// What `decode_binary` gives: the text whose UTF-8 bytes are written in
/// binary by the whitespace-separated words, or the error message.
pub open spec fn binary_decoded(s: Seq<char>) -> Result<Seq<char>, Seq<char>> {
    match parse_bytes(words(s)) {
        Err(w) => Err("Invalid binary part: "@ + w),
        Ok(bytes) => if valid_utf8(bytes) {
            Ok(decode_utf8(bytes))
        } else {
            Err("Binary decode yielded invalid UTF-8"@)
        },
    }
}

pub fn decode_binary(input: &str) -> (r: Result<String, String>)
    ensures
        match r {
            Ok(s) => binary_decoded(input@) == TextOrError::Ok(s@),
            Err(e) => binary_decoded(input@) == TextOrError::Err(e@),
        },
{
    let chars = chars_of(input);
    let ws = split_whitespace(&chars);
    let ghost wv = views(ws@);
    let mut bytes: Vec<u8> = Vec::new();
    let mut i: usize = 0;
    assert(wv.skip(0) == wv);
    while i < ws.len()
        invariant
            i <= ws.len(),
            wv == views(ws@),
            wv == words(input@),
            parse_bytes(wv) == match parse_bytes(wv.skip(i as int)) {
                Ok(rest) => Ok(bytes@ + rest),
                Err(w) => BytesOrError::Err(w),
            },
        decreases ws.len() - i,
    {
        let ghost rest = wv.skip(i as int);
        assert(rest[0] == ws[i as int]@);
        assert(rest.drop_first() == wv.skip(i + 1));
        match parse_u8_binary(&ws[i]) {
            Some(b) => {
                let ghost before = bytes@;
                bytes.push(b);
                proof {
                    match parse_bytes(wv.skip(i + 1)) {
                        Ok(r2) => {
                            assert(before + (seq![b] + r2) =~= bytes@ + r2);
                        },
                        Err(_) => {},
                    }
                }
            },
            None => {
                let mut msg = String::from_str("Invalid binary part: ");
                let word = string_of(&ws[i]);
                msg.append(word.as_str());
                return Err(msg);
            },
        }
        i = i + 1;
    }
    assert(wv.skip(i as int).len() == 0);
    assert(bytes@ + seq![] =~= bytes@);
    match string_from_utf8(bytes) {
        Some(s) => Ok(s),
        None => Err(String::from_str("Binary decode yielded invalid UTF-8")),
    }
}

proof fn lemma_bits(n: nat, k: nat)
    ensures
        bits(n, k).len() == k,
        all_digits(bits(n, k), 2),
        digits_num(bits(n, k), 2) == n % pow2(k),
    decreases k,
{
    if k > 0 {
        lemma_bits(n / 2, (k - 1) as nat);
        let s = bits(n, k);
        assert(s.drop_last() == bits(n / 2, (k - 1) as nat));
        assert(s.last() == digit_char((n % 2) as int));
        assert(digit_value(digit_char((n % 2) as int)) == n % 2);
        assert forall|i: int| 0 <= i < s.len() implies is_digit_in(#[trigger] s[i], 2) by {
            if i < s.len() - 1 {
                assert(s[i] == bits(n / 2, (k - 1) as nat)[i]);
            }
        }
        assert(digits_num(s, 2) == 2 * digits_num(s.drop_last(), 2) + digit_value(s.last()));
        let p = pow2((k - 1) as nat);
        assert(pow2(k) == 2 * p);
        assert(p > 0) by { lemma_pow2_pos((k - 1) as nat); }
        vstd::arithmetic::div_mod::lemma_mod_breakdown(n as int, 2, p as int);
    } else {
        assert(n % 1 == 0);
    }
}

pub open spec fn pow2(k: nat) -> nat
    decreases k,
{
    if k == 0 { 1 } else { 2 * pow2((k - 1) as nat) }
}

proof fn lemma_pow2_pos(k: nat)
    ensures
        pow2(k) > 0,
    decreases k,
{
    if k > 0 {
        lemma_pow2_pos((k - 1) as nat);
    }
}

proof fn lemma_parse_bits8(b: u8)
    ensures
        parse_int(bits(b as nat, 8), 2, false, 0, 255) == Some(b as int),
        bits(b as nat, 8).len() > 0,
        no_ws(bits(b as nat, 8)),
{
    lemma_bits(b as nat, 8);
    reveal_with_fuel(pow2, 9);
    assert(pow2(8) == 256);
    let s = bits(b as nat, 8);
    assert(is_digit_in(s[0], 2));
    assert forall|i: int| 0 <= i < s.len() implies !is_ws(#[trigger] s[i]) by {
        assert(is_digit_in(s[i], 2));
    }
}

proof fn lemma_parse_bytes_of_bits(bytes: Seq<u8>)
    ensures
        parse_bytes(Seq::new(bytes.len(), |i: int| bits(bytes[i] as nat, 8))) == BytesOrError::Ok(bytes),
    decreases bytes.len(),
{
    let ws = Seq::new(bytes.len(), |i: int| bits(bytes[i] as nat, 8));
    if bytes.len() > 0 {
        lemma_parse_bits8(bytes[0]);
        lemma_parse_bytes_of_bits(bytes.drop_first());
        assert(ws.drop_first() =~= Seq::new(bytes.drop_first().len(), |i: int| bits(bytes.drop_first()[i] as nat, 8)));
        assert(seq![bytes[0]] + bytes.drop_first() =~= bytes);
    } else {
        assert(bytes =~= seq![]);
    }
}

/// Decoding the binary encoding of a text gives back the text.
pub proof fn lemma_binary_roundtrip(s: Seq<char>)
    ensures
        binary_decoded(binary_text(encode_utf8(s))) == TextOrError::Ok(s),
{
    let bytes = encode_utf8(s);
    let ws = Seq::new(bytes.len(), |i: int| bits(bytes[i] as nat, 8));
    assert forall|i: int| 0 <= i < ws.len() implies (#[trigger] ws[i]).len() > 0 && no_ws(ws[i]) by {
        lemma_parse_bits8(bytes[i]);
    }
    lemma_words_of_join(ws);
    lemma_parse_bytes_of_bits(bytes);
    vstd::utf8::encode_utf8_valid_utf8(s);
    vstd::utf8::encode_utf8_decode_utf8(s);
}

// ── Morse ────────────────────────────────────────────────────────────────────

/// The Morse code of a character as a number: a leading 1 bit, then one bit
/// per symbol (0 for `.`, 1 for `-`); 0 for characters without a code.
pub open spec fn code_num(c: char) -> nat {
    if c == 'A' { 5 } else if c == 'B' { 24 } else if c == 'C' { 26 } else if c == 'D' { 12 }
    else if c == 'E' { 2 } else if c == 'F' { 18 } else if c == 'G' { 14 } else if c == 'H' { 16 }
    else if c == 'I' { 4 } else if c == 'J' { 23 } else if c == 'K' { 13 } else if c == 'L' { 20 }
    else if c == 'M' { 7 } else if c == 'N' { 6 } else if c == 'O' { 15 } else if c == 'P' { 22 }
    else if c == 'Q' { 29 } else if c == 'R' { 10 } else if c == 'S' { 8 } else if c == 'T' { 3 }
    else if c == 'U' { 9 } else if c == 'V' { 17 } else if c == 'W' { 11 } else if c == 'X' { 25 }
    else if c == 'Y' { 27 } else if c == 'Z' { 28 } else if c == '0' { 63 } else if c == '1' { 47 }
    else if c == '2' { 39 } else if c == '3' { 35 } else if c == '4' { 33 } else if c == '5' { 32 }
    else if c == '6' { 48 } else if c == '7' { 56 } else if c == '8' { 60 } else if c == '9' { 62 }
    else { 0 }
}

/// The character whose Morse code has the given number.
pub open spec fn char_of_code(n: int) -> Option<char> {
    if n == 5 { Some('A') } else if n == 24 { Some('B') } else if n == 26 { Some('C') }
    else if n == 12 { Some('D') } else if n == 2 { Some('E') } else if n == 18 { Some('F') }
    else if n == 14 { Some('G') } else if n == 16 { Some('H') } else if n == 4 { Some('I') }
    else if n == 23 { Some('J') } else if n == 13 { Some('K') } else if n == 20 { Some('L') }
    else if n == 7 { Some('M') } else if n == 6 { Some('N') } else if n == 15 { Some('O') }
    else if n == 22 { Some('P') } else if n == 29 { Some('Q') } else if n == 10 { Some('R') }
    else if n == 8 { Some('S') } else if n == 3 { Some('T') } else if n == 9 { Some('U') }
    else if n == 17 { Some('V') } else if n == 11 { Some('W') } else if n == 25 { Some('X') }
    else if n == 27 { Some('Y') } else if n == 28 { Some('Z') } else if n == 63 { Some('0') }
    else if n == 47 { Some('1') } else if n == 39 { Some('2') } else if n == 35 { Some('3') }
    else if n == 33 { Some('4') } else if n == 32 { Some('5') } else if n == 48 { Some('6') }
    else if n == 56 { Some('7') } else if n == 60 { Some('8') } else if n == 62 { Some('9') }
    else { None }
}

/// The dots and dashes that a code number stands for.
pub open spec fn code_seq(n: nat) -> Seq<char>
    decreases n,
{
    if n <= 1 {
        seq![]
    } else {
        code_seq(n / 2).push(if n % 2 == 0 { '.' } else { '-' })
    }
}

/// The code number of a sequence of dots and dashes.
pub open spec fn seq_code(m: Seq<char>) -> Option<int>
    decreases m.len(),
{
    if m.len() == 0 {
        Some(1)
    } else {
        match seq_code(m.drop_last()) {
            Some(p) => if m.last() == '.' {
                Some(2 * p)
            } else if m.last() == '-' {
                Some(2 * p + 1)
            } else {
                None
            },
            None => None,
        }
    }
}

/// The character a Morse token stands for.
pub open spec fn morse_char(m: Seq<char>) -> Option<char> {
    match seq_code(m) {
        Some(n) => char_of_code(n),
        None => None,
    }
}

/// The codes of the characters of `w` that have one, in order.
pub open spec fn morse_codes(w: Seq<char>) -> Seq<Seq<char>>
    decreases w.len(),
{
    if w.len() == 0 {
        seq![]
    } else if code_num(w[0]) > 0 {
        seq![code_seq(code_num(w[0]))] + morse_codes(w.drop_first())
    } else {
        morse_codes(w.drop_first())
    }
}

pub open spec fn morse_word(w: Seq<char>) -> Seq<char> {
    join(morse_codes(w), seq![' '])
}

/// Morse text of already upper-cased text: the codes of each word's characters
/// separated by spaces, and the words separated by ` / `.
pub open spec fn morse_text(upper: Seq<char>) -> Seq<char> {
    join(Seq::new(words(upper).len(), |i: int| morse_word(words(upper)[i])), seq![' ', '/', ' '])
}

/// What `str::to_uppercase` gives (Unicode uppercase mapping).
pub uninterp spec fn unicode_uppercase(s: Seq<char>) -> Seq<char>;

pub open spec fn ascii_upper_char(c: char) -> char {
    if 'a' <= c && c <= 'z' { ((c as int) - 32) as char } else { c }
}

pub open spec fn ascii_upper(s: Seq<char>) -> Seq<char> {
    Seq::new(s.len(), |i: int| ascii_upper_char(s[i]))
}

/// Upper-cases a string with `str::to_uppercase`; on ASCII text this maps
/// `a`..`z` to `A`..`Z` and keeps every other character.
#[verifier::external_body]
fn to_uppercase(s: &str) -> (r: String)
    ensures
        r@ == unicode_uppercase(s@),
        vstd::utf8::is_ascii_chars(s@) ==> r@ == ascii_upper(s@),
{
    s.to_uppercase()
}

fn code_of(c: char) -> (r: u64)
    ensures
        r == code_num(c),
{
    if c == 'A' { 5 } else if c == 'B' { 24 } else if c == 'C' { 26 } else if c == 'D' { 12 }
    else if c == 'E' { 2 } else if c == 'F' { 18 } else if c == 'G' { 14 } else if c == 'H' { 16 }
    else if c == 'I' { 4 } else if c == 'J' { 23 } else if c == 'K' { 13 } else if c == 'L' { 20 }
    else if c == 'M' { 7 } else if c == 'N' { 6 } else if c == 'O' { 15 } else if c == 'P' { 22 }
    else if c == 'Q' { 29 } else if c == 'R' { 10 } else if c == 'S' { 8 } else if c == 'T' { 3 }
    else if c == 'U' { 9 } else if c == 'V' { 17 } else if c == 'W' { 11 } else if c == 'X' { 25 }
    else if c == 'Y' { 27 } else if c == 'Z' { 28 } else if c == '0' { 63 } else if c == '1' { 47 }
    else if c == '2' { 39 } else if c == '3' { 35 } else if c == '4' { 33 } else if c == '5' { 32 }
    else if c == '6' { 48 } else if c == '7' { 56 } else if c == '8' { 60 } else if c == '9' { 62 }
    else { 0 }
}

fn char_of(n: u64) -> (r: Option<char>)
    ensures
        r == char_of_code(n as int),
{
    if n == 5 { Some('A') } else if n == 24 { Some('B') } else if n == 26 { Some('C') }
    else if n == 12 { Some('D') } else if n == 2 { Some('E') } else if n == 18 { Some('F') }
    else if n == 14 { Some('G') } else if n == 16 { Some('H') } else if n == 4 { Some('I') }
    else if n == 23 { Some('J') } else if n == 13 { Some('K') } else if n == 20 { Some('L') }
    else if n == 7 { Some('M') } else if n == 6 { Some('N') } else if n == 15 { Some('O') }
    else if n == 22 { Some('P') } else if n == 29 { Some('Q') } else if n == 10 { Some('R') }
    else if n == 8 { Some('S') } else if n == 3 { Some('T') } else if n == 9 { Some('U') }
    else if n == 17 { Some('V') } else if n == 11 { Some('W') } else if n == 25 { Some('X') }
    else if n == 27 { Some('Y') } else if n == 28 { Some('Z') } else if n == 63 { Some('0') }
    else if n == 47 { Some('1') } else if n == 39 { Some('2') } else if n == 35 { Some('3') }
    else if n == 33 { Some('4') } else if n == 32 { Some('5') } else if n == 48 { Some('6') }
    else if n == 56 { Some('7') } else if n == 60 { Some('8') } else if n == 62 { Some('9') }
    else { None }
}

fn code_seq_exec(n: u64) -> (out: Vec<char>)
    ensures
        out@ == code_seq(n as nat),
    decreases n,
{
    if n <= 1 {
        Vec::new()
    } else {
        let mut v = code_seq_exec(n / 2);
        v.push(if n % 2 == 0 { '.' } else { '-' });
        v
    }
}

proof fn lemma_seq_code_bound(m: Seq<char>)
    ensures
        seq_code(m) matches Some(n) ==> n >= pow2(m.len() as nat),
    decreases m.len(),
{
    if m.len() > 0 {
        lemma_seq_code_bound(m.drop_last());
    }
}

/// The character a Morse token stands for.
fn morse_char_exec(m: &Vec<char>) -> (r: Option<char>)
    ensures
        r == morse_char(m@),
{
    if m.len() > 5 {
        proof {
            lemma_seq_code_bound(m@);
            reveal_with_fuel(pow2, 7);
            lemma_pow2_mono(6, m@.len() as nat);
        }
        return None;
    }
    let mut code: u64 = 1;
    let mut i: usize = 0;
    while i < m.len()
        invariant
            i <= m.len() <= 5,
            seq_code(m@.take(i as int)) == Some(code as int),
            code < pow2(i as nat) * 2,
        decreases m.len() - i,
    {
        assert(m@.take(i + 1).drop_last() == m@.take(i as int));
        assert(m@.take(i + 1).last() == m@[i as int]);
        proof {
            reveal_with_fuel(pow2, 7);
            lemma_pow2_mono(i as nat, 4);
        }
        if m[i] == '.' {
            code = code * 2;
        } else if m[i] == '-' {
            code = code * 2 + 1;
        } else {
            proof {
                lemma_seq_code_none_extends(m@, i + 1);
            }
            return None;
        }
        i = i + 1;
    }
    assert(m@.take(m.len() as int) == m@);
    char_of(code)
}

proof fn lemma_pow2_mono(a: nat, b: nat)
    requires
        a <= b,
    ensures
        pow2(a) <= pow2(b),
    decreases b,
{
    if a < b {
        lemma_pow2_mono(a, (b - 1) as nat);
    }
}

proof fn lemma_seq_code_none_extends(m: Seq<char>, k: int)
    requires
        0 <= k <= m.len(),
        seq_code(m.take(k)) is None,
    ensures
        seq_code(m) is None,
    decreases m.len(),
{
    if k < m.len() {
        assert(m.drop_last().take(k) == m.take(k));
        lemma_seq_code_none_extends(m.drop_last(), k);
    } else {
        assert(m.take(k) == m);
    }
}

fn morse_word_exec(w: &Vec<char>) -> (out: Vec<char>)
    ensures
        out@ == morse_word(w@),
{
    let mut codes: Vec<Vec<char>> = Vec::new();
    let mut i: usize = 0;
    assert(w@.skip(0) == w@);
    assert(views(codes@) =~= Seq::<Seq<char>>::empty());
    while i < w.len()
        invariant
            i <= w.len(),
            morse_codes(w@) == views(codes@) + morse_codes(w@.skip(i as int)),
        decreases w.len() - i,
    {
        let ghost rest = w@.skip(i as int);
        assert(rest[0] == w@[i as int]);
        assert(rest.drop_first() == w@.skip(i + 1));
        let n = code_of(w[i]);
        if n > 0 {
            let cs = code_seq_exec(n);
            let ghost before = views(codes@);
            codes.push(cs);
            assert(views(codes@) =~= before.push(cs@));
            assert(before + (seq![cs@] + morse_codes(rest.drop_first()))
                =~= before.push(cs@) + morse_codes(rest.drop_first()));
        }
        i = i + 1;
    }
    assert(w@.skip(i as int) =~= Seq::<char>::empty());
    assert(views(codes@) + Seq::<Seq<char>>::empty() =~= views(codes@));
    let sep = vec![' '];
    assert(sep@ =~= seq![' ']);
    join_chars(&codes, &sep)
}

/// Morse code of already upper-cased text.
pub fn encode_morse_upper(upper: &str) -> (r: String)
    ensures
        r@ == morse_text(upper@),
{
    let chars = chars_of(upper);
    let ws = split_whitespace(&chars);
    let ghost wv = views(ws@);
    let mut encoded: Vec<Vec<char>> = Vec::new();
    let mut i: usize = 0;
    while i < ws.len()
        invariant
            i <= ws.len(),
            wv == views(ws@),
            wv == words(upper@),
            views(encoded@) == Seq::new(i as nat, |j: int| morse_word(wv[j])),
        decreases ws.len() - i,
    {
        assert(wv[i as int] == ws[i as int]@);
        let e = morse_word_exec(&ws[i]);
        let ghost before = views(encoded@);
        encoded.push(e);
        assert(views(encoded@) =~= before.push(morse_word(wv[i as int])));
        assert(views(encoded@) =~= Seq::new((i + 1) as nat, |j: int| morse_word(wv[j])));
        i = i + 1;
    }
    let sep = vec![' ', '/', ' '];
    assert(sep@ =~= seq![' ', '/', ' ']);
    assert(views(encoded@) =~= Seq::new(words(upper@).len(), |j: int| morse_word(words(upper@)[j])));
    let out = join_chars(&encoded, &sep);
    string_of(&out)
}

/// Morse code of a text: it is upper-cased first, characters without a code are
/// left out.
pub fn encode_morse(input: &str) -> (r: String)
    ensures
        r@ == morse_text(unicode_uppercase(input@)),
        vstd::utf8::is_ascii_chars(input@) ==> r@ == morse_text(ascii_upper(input@)),
{
    let upper = to_uppercase(input);
    encode_morse_upper(upper.as_str())
}

/// Characters of Morse tokens, or the first token that is not a code.
pub open spec fn decode_tokens(ts: Seq<Seq<char>>) -> Result<Seq<char>, Seq<char>>
    decreases ts.len(),
{
    if ts.len() == 0 {
        Ok(seq![])
    } else {
        match morse_char(ts[0]) {
            Some(c) => match decode_tokens(ts.drop_first()) {
                Ok(rest) => Ok(seq![c] + rest),
                Err(t) => Err(t),
            },
            None => Err(ts[0]),
        }
    }
}

/// Each `/`-separated group decoded and followed by one space.
pub open spec fn decode_groups(gs: Seq<Seq<char>>) -> Result<Seq<char>, Seq<char>>
    decreases gs.len(),
{
    if gs.len() == 0 {
        Ok(seq![])
    } else {
        match decode_tokens(words(gs[0])) {
            Ok(t) => match decode_groups(gs.drop_first()) {
                Ok(rest) => Ok(t.push(' ') + rest),
                Err(e) => Err(e),
            },
            Err(e) => Err(e),
        }
    }
}

/// What `decode_morse` gives: the decoded text without surrounding whitespace,
/// or the message naming the first token that is not a code.
pub open spec fn morse_decoded(s: Seq<char>) -> Result<Seq<char>, Seq<char>> {
    match decode_groups(split_on(s, '/')) {
        Ok(t) => Ok(trim(t)),
        Err(m) => Err("Invalid morse sequence: "@ + m),
    }
}

pub fn decode_morse(input: &str) -> (r: Result<String, String>)
    ensures
        match r {
            Ok(s) => morse_decoded(input@) == TextOrError::Ok(s@),
            Err(e) => morse_decoded(input@) == TextOrError::Err(e@),
        },
{
    let chars = chars_of(input);
    let groups = split_chars(&chars, '/');
    let ghost gv = views(groups@);
    let mut text: Vec<char> = Vec::new();
    let mut g: usize = 0;
    assert(gv.skip(0) == gv);
    while g < groups.len()
        invariant
            g <= groups.len(),
            gv == views(groups@),
            gv == split_on(input@, '/'),
            decode_groups(gv) == match decode_groups(gv.skip(g as int)) {
                Ok(rest) => Ok(text@ + rest),
                Err(e) => TextOrError::Err(e),
            },
        decreases groups.len() - g,
    {
        let ghost grest = gv.skip(g as int);
        assert(grest[0] == groups[g as int]@);
        assert(grest.drop_first() == gv.skip(g + 1));
        let toks = split_whitespace(&groups[g]);
        let ghost tv = views(toks@);
        let ghost start = text@;
        let mut k: usize = 0;
        assert(tv.skip(0) == tv);
        while k < toks.len()
            invariant
                k <= toks.len(),
                g < groups.len(),
                gv == views(groups@),
                gv == split_on(input@, '/'),
                grest == gv.skip(g as int),
                grest[0] == groups[g as int]@,
                grest.drop_first() == gv.skip(g + 1),
                decode_groups(gv) == match decode_groups(grest) {
                    Ok(rest) => Ok(start + rest),
                    Err(e) => TextOrError::Err(e),
                },
                tv == views(toks@),
                tv == words(groups[g as int]@),
                decode_tokens(tv) == match decode_tokens(tv.skip(k as int)) {
                    Ok(rest) => Ok(text@.subrange(start.len() as int, text@.len() as int) + rest),
                    Err(e) => TextOrError::Err(e),
                },
                text@.len() >= start.len(),
                text@.subrange(0, start.len() as int) == start,
            decreases toks.len() - k,
        {
            let ghost trest = tv.skip(k as int);
            assert(trest[0] == toks[k as int]@);
            assert(trest.drop_first() == tv.skip(k + 1));
            match morse_char_exec(&toks[k]) {
                Some(c) => {
                    let ghost before = text@;
                    text.push(c);
                    proof {
                        assert(text@.subrange(0, start.len() as int) =~= start);
                        match decode_tokens(tv.skip(k + 1)) {
                            Ok(r2) => {
                                assert(before.subrange(start.len() as int, before.len() as int)
                                    + (seq![c] + r2) =~= text@.subrange(start.len() as int, text@.len() as int) + r2);
                            },
                            Err(_) => {},
                        }
                    }
                },
                None => {
                    proof {
                        let bad = toks[k as int]@;
                        assert(decode_tokens(trest) == TextOrError::Err(bad));
                        assert(decode_tokens(tv) == TextOrError::Err(bad));
                        assert(decode_groups(grest) == TextOrError::Err(bad));
                        assert(decode_groups(gv) == TextOrError::Err(bad));
                    }
                    let mut msg = String::from_str("Invalid morse sequence: ");
                    let tok = string_of(&toks[k]);
                    msg.append(tok.as_str());
                    return Err(msg);
                },
            }
            k = k + 1;
        }
        assert(tv.skip(k as int).len() == 0);
        let ghost decoded = text@.subrange(start.len() as int, text@.len() as int);
        assert(decode_tokens(tv) == TextOrError::Ok(decoded)) by {
            assert(decoded + Seq::<char>::empty() =~= decoded);
        }
        assert(text@ =~= start + decoded);
        text.push(' ');
        proof {
            match decode_groups(gv.skip(g + 1)) {
                Ok(r2) => {
                    assert(start + (decoded.push(' ') + r2) =~= text@ + r2);
                },
                Err(_) => {},
            }
        }
        g = g + 1;
    }
    assert(gv.skip(g as int).len() == 0);
    assert(text@ + Seq::<char>::empty() =~= text@);
    let trimmed = crate::text::trim_chars(&text);
    Ok(string_of(&trimmed))
}

// ── Morse round trip ─────────────────────────────────────────────────────────

/// Reading the dots and dashes of a code number gives the number back.
pub proof fn lemma_seq_code_of_code_seq(n: nat)
    requires
        n >= 1,
    ensures
        seq_code(code_seq(n)) == Some(n as int),
        n >= 2 ==> code_seq(n).len() > 0,
        forall|i: int| 0 <= i < code_seq(n).len() ==> (#[trigger] code_seq(n)[i] == '.' || code_seq(n)[i] == '-'),
    decreases n,
{
    if n >= 2 {
        lemma_seq_code_of_code_seq(n / 2);
        let s = code_seq(n);
        assert(s.drop_last() == code_seq(n / 2));
        assert forall|i: int| 0 <= i < s.len() implies (#[trigger] s[i] == '.' || s[i] == '-') by {
            if i < s.len() - 1 {
                assert(s[i] == code_seq(n / 2)[i]);
            }
        }
    }
}

/// The Morse code of a character that has one reads back as that character.
pub proof fn lemma_morse_char_of_code(c: char)
    requires
        code_num(c) > 0,
    ensures
        morse_char(code_seq(code_num(c))) == Some(c),
        code_seq(code_num(c)).len() > 0,
        no_ws(code_seq(code_num(c))),
        !code_seq(code_num(c)).contains('/'),
{
    lemma_seq_code_of_code_seq(code_num(c));
    let s = code_seq(code_num(c));
    assert(no_ws(s)) by {
        assert forall|i: int| 0 <= i < s.len() implies !is_ws(#[trigger] s[i]) by {
            assert(s[i] == '.' || s[i] == '-');
        }
    }
    assert(!s.contains('/')) by {
        if s.contains('/') {
            let i = choose|i: int| 0 <= i < s.len() && s[i] == '/';
            assert(s[i] == '.' || s[i] == '-');
        }
    }
}

pub open spec fn all_coded(w: Seq<char>) -> bool {
    forall|i: int| 0 <= i < w.len() ==> code_num(#[trigger] w[i]) > 0
}

/// Decoding the codes of a word whose characters all have one gives the word;
/// the codes are non-empty runs of dots and dashes.
proof fn lemma_word_codes(w: Seq<char>)
    requires
        all_coded(w),
    ensures
        decode_tokens(morse_codes(w)) == TextOrError::Ok(w),
        morse_codes(w).len() == w.len(),
        forall|i: int| 0 <= i < morse_codes(w).len() ==> (#[trigger] morse_codes(w)[i]).len() > 0
            && no_ws(morse_codes(w)[i]) && !morse_codes(w)[i].contains('/'),
    decreases w.len(),
{
    if w.len() == 0 {
        assert(w =~= Seq::<char>::empty());
    } else {
        assert(code_num(w[0]) > 0);
        assert(all_coded(w.drop_first())) by {
            assert forall|i: int| 0 <= i < w.drop_first().len() implies code_num(#[trigger] w.drop_first()[i]) > 0 by {
                assert(w.drop_first()[i] == w[i + 1]);
            }
        }
        lemma_word_codes(w.drop_first());
        lemma_morse_char_of_code(w[0]);
        let cs = morse_codes(w);
        let head = code_seq(code_num(w[0]));
        assert(cs == seq![head] + morse_codes(w.drop_first()));
        assert(cs[0] == head);
        assert(cs.drop_first() =~= morse_codes(w.drop_first()));
        assert(seq![w[0]] + w.drop_first() =~= w);
        assert(decode_tokens(cs) == TextOrError::Ok(seq![w[0]] + w.drop_first()));
        assert forall|i: int| 0 <= i < cs.len() implies (#[trigger] cs[i]).len() > 0 && no_ws(cs[i])
            && !cs[i].contains('/') by {
            if i > 0 {
                assert(cs[i] == morse_codes(w.drop_first())[i - 1]);
            }
        }
    }
}

/// The Morse code of a coded word: its tokens are the codes of its characters,
/// and it holds no `/`.
proof fn lemma_morse_word(w: Seq<char>)
    requires
        all_coded(w),
        w.len() > 0,
    ensures
        words(morse_word(w)) == morse_codes(w),
        decode_tokens(words(morse_word(w))) == TextOrError::Ok(w),
        !morse_word(w).contains('/'),
{
    lemma_word_codes(w);
    lemma_words_of_join(morse_codes(w));
    lemma_join_no_char(morse_codes(w), seq![' '], '/');
}

/// Joined parts hold a character only when a part or the separator does.
proof fn lemma_join_no_char(parts: Seq<Seq<char>>, sep: Seq<char>, c: char)
    requires
        forall|i: int| 0 <= i < parts.len() ==> !(#[trigger] parts[i]).contains(c),
        !sep.contains(c),
    ensures
        !join(parts, sep).contains(c),
    decreases parts.len(),
{
    if parts.len() >= 2 {
        let rest = parts.drop_first();
        assert forall|i: int| 0 <= i < rest.len() implies !(#[trigger] rest[i]).contains(c) by {
            assert(rest[i] == parts[i + 1]);
        }
        lemma_join_no_char(rest, sep, c);
        let j = join(parts, sep);
        assert(j == parts[0] + sep + join(rest, sep));
        assert(!parts[0].contains(c));
        if j.contains(c) {
            let k = choose|k: int| 0 <= k < j.len() && j[k] == c;
            if k < parts[0].len() {
                assert(parts[0][k] == c);
            } else if k < parts[0].len() + sep.len() {
                assert(sep[k - parts[0].len()] == c);
            } else {
                assert(join(rest, sep)[k - parts[0].len() - sep.len()] == c);
            }
        }
    } else if parts.len() == 1 {
        assert(!parts[0].contains(c));
    }
}

/// Each word followed by one space.
pub open spec fn spaced(ws: Seq<Seq<char>>) -> Seq<char>
    decreases ws.len(),
{
    if ws.len() == 0 {
        seq![]
    } else {
        ws[0].push(' ') + spaced(ws.drop_first())
    }
}

pub open spec fn morse_words(ws: Seq<Seq<char>>) -> Seq<Seq<char>> {
    Seq::new(ws.len(), |i: int| morse_word(ws[i]))
}

proof fn lemma_decode_joined(ws: Seq<Seq<char>>, lead: Seq<char>)
    requires
        ws.len() > 0,
        forall|i: int| 0 <= i < ws.len() ==> all_coded(#[trigger] ws[i]) && ws[i].len() > 0,
        lead == Seq::<char>::empty() || lead == seq![' '],
    ensures
        decode_groups(split_on(lead + join(morse_words(ws), seq![' ', '/', ' ']), '/'))
            == TextOrError::Ok(spaced(ws)),
    decreases ws.len(),
{
    let e: Seq<char> = seq![];
    let mw = morse_words(ws);
    let w0 = ws[0];
    assert(all_coded(w0) && w0.len() > 0);
    lemma_morse_word(w0);
    let e0 = morse_word(w0);
    assert(mw[0] == e0);
    assert(!lead.contains('/')) by {
        if lead.contains('/') {
            let i = choose|i: int| 0 <= i < lead.len() && lead[i] == '/';
            assert(lead[i] == ' ');
        }
    }
    if ws.len() == 1 {
        assert(join(mw, seq![' ', '/', ' ']) == e0);
        let piece = lead + e0;
        assert(!piece.contains('/')) by {
            if piece.contains('/') {
                let i = choose|i: int| 0 <= i < piece.len() && piece[i] == '/';
                if i < lead.len() {
                    assert(lead[i] == '/');
                } else {
                    assert(e0[i - lead.len()] == '/');
                }
            }
        }
        lemma_split_on_cons(piece, '/', e);
        assert(words(piece) == words(e0)) by {
            if lead.len() == 1 {
                lemma_words_leading_ws(' ', e0);
                assert(piece =~= seq![' '] + e0);
            } else {
                assert(piece =~= e0);
            }
        }
        let gs = seq![piece];
        assert(gs[0] == piece);
        assert(gs.drop_first() =~= Seq::<Seq<char>>::empty());
        assert(decode_groups(Seq::<Seq<char>>::empty()) == TextOrError::Ok(e));
        assert(decode_groups(gs) == TextOrError::Ok(w0.push(' ') + Seq::<char>::empty()));
        assert(ws.drop_first() =~= Seq::<Seq<char>>::empty());
        assert(spaced(ws) == w0.push(' ') + spaced(ws.drop_first()));
    } else {
        let rest = ws.drop_first();
        assert forall|i: int| 0 <= i < rest.len() implies all_coded(#[trigger] rest[i]) && rest[i].len() > 0 by {
            assert(rest[i] == ws[i + 1]);
        }
        lemma_decode_joined(rest, seq![' ']);
        assert(mw.drop_first() =~= morse_words(rest));
        let jr = join(morse_words(rest), seq![' ', '/', ' ']);
        assert(join(mw, seq![' ', '/', ' ']) == e0 + seq![' ', '/', ' '] + jr);
        let piece = (lead + e0).push(' ');
        assert(lead + (e0 + seq![' ', '/', ' '] + jr) =~= piece + seq!['/'] + (seq![' '] + jr));
        assert(!piece.contains('/')) by {
            if piece.contains('/') {
                let i = choose|i: int| 0 <= i < piece.len() && piece[i] == '/';
                if i < lead.len() {
                    assert(lead[i] == '/');
                } else if i < lead.len() + e0.len() {
                    assert(e0[i - lead.len()] == '/');
                } else {
                    assert(piece[i] == ' ');
                }
            }
        }
        lemma_split_on_cons(piece, '/', seq![' '] + jr);
        assert(words(piece) == words(e0)) by {
            lemma_words_trailing_ws(lead + e0, ' ', e);
            if lead.len() == 1 {
                lemma_words_leading_ws(' ', e0);
                assert(lead + e0 =~= seq![' '] + e0);
            } else {
                assert(lead + e0 =~= e0);
            }
        }
        let gs = seq![piece] + split_on(seq![' '] + jr, '/');
        assert(gs[0] == piece);
        assert(gs.drop_first() =~= split_on(seq![' '] + jr, '/'));
        assert(spaced(ws) == w0.push(' ') + spaced(rest));
    }
}

proof fn lemma_spaced_join(ws: Seq<Seq<char>>)
    requires
        ws.len() > 0,
        forall|i: int| 0 <= i < ws.len() ==> (#[trigger] ws[i]).len() > 0 && no_ws(ws[i]),
    ensures
        spaced(ws) == join(ws, seq![' ']).push(' '),
        join(ws, seq![' ']).len() > 0,
        !is_ws(join(ws, seq![' '])[0]),
        !is_ws(join(ws, seq![' ']).last()),
    decreases ws.len(),
{
    let w0 = ws[0];
    assert(w0.len() > 0 && no_ws(w0));
    assert(!is_ws(w0[0]));
    assert(!is_ws(w0.last()));
    if ws.len() == 1 {
        assert(ws.drop_first() =~= Seq::<Seq<char>>::empty());
        assert(spaced(ws.drop_first()) == Seq::<char>::empty());
        assert(w0.push(' ') + Seq::<char>::empty() =~= w0.push(' '));
        assert(join(ws, seq![' ']) == w0);
    } else {
        let rest = ws.drop_first();
        assert forall|i: int| 0 <= i < rest.len() implies (#[trigger] rest[i]).len() > 0 && no_ws(rest[i]) by {
            assert(rest[i] == ws[i + 1]);
        }
        lemma_spaced_join(rest);
        let jr = join(rest, seq![' ']);
        assert(join(ws, seq![' ']) == w0 + seq![' '] + jr);
        assert(spaced(ws) == w0.push(' ') + spaced(rest));
        assert(w0.push(' ') + jr.push(' ') =~= (w0 + seq![' '] + jr).push(' '));
        assert((w0 + seq![' '] + jr)[0] == w0[0]);
        assert((w0 + seq![' '] + jr).last() == jr.last());
    }
}

proof fn lemma_trim_spaced(x: Seq<char>)
    requires
        x.len() > 0,
        !is_ws(x[0]),
        !is_ws(x.last()),
    ensures
        crate::text::trim(x.push(' ')) == x,
{
    let y = x.push(' ');
    assert(y[0] == x[0]);
    assert(crate::text::trim_start(y) == y);
    assert(y.drop_last() =~= x);
    assert(crate::text::trim_end(y) == crate::text::trim_end(x));
    assert(crate::text::trim_end(x) == x);
}

/// Every word of a text is a non-empty run of non-whitespace characters taken
/// from the text.
proof fn lemma_words_coded(s: Seq<char>, cur: Seq<char>)
    requires
        forall|i: int| 0 <= i < s.len() ==> is_ws(#[trigger] s[i]) || code_num(s[i]) > 0,
        all_coded(cur),
        no_ws(cur),
    ensures
        forall|i: int| 0 <= i < words_from(s, cur).len() ==> all_coded(#[trigger] words_from(s, cur)[i])
            && words_from(s, cur)[i].len() > 0 && no_ws(words_from(s, cur)[i]),
    decreases s.len(),
{
    if s.len() == 0 {
        let f = flush(cur);
        assert forall|i: int| 0 <= i < f.len() implies all_coded(#[trigger] f[i]) && f[i].len() > 0
            && no_ws(f[i]) by {
            assert(f[i] == cur);
        }
    } else {
        let rest = s.drop_first();
        assert forall|i: int| 0 <= i < rest.len() implies is_ws(#[trigger] rest[i]) || code_num(rest[i]) > 0 by {
            assert(rest[i] == s[i + 1]);
        }
        if is_ws(s[0]) {
            lemma_words_coded(rest, seq![]);
            assert(words_from(s, cur) == flush(cur) + words_from(rest, seq![]));
            let f = flush(cur);
            let r = words_from(rest, seq![]);
            assert forall|i: int| 0 <= i < (f + r).len() implies all_coded(#[trigger] (f + r)[i])
                && (f + r)[i].len() > 0 && no_ws((f + r)[i]) by {
                if i >= f.len() {
                    assert((f + r)[i] == r[i - f.len()]);
                } else {
                    assert((f + r)[i] == cur);
                }
            }
        } else {
            let c2 = cur.push(s[0]);
            assert(all_coded(c2)) by {
                assert forall|i: int| 0 <= i < c2.len() implies code_num(#[trigger] c2[i]) > 0 by {
                    if i < cur.len() { assert(c2[i] == cur[i]); }
                }
            }
            assert(no_ws(c2)) by {
                assert forall|i: int| 0 <= i < c2.len() implies !is_ws(#[trigger] c2[i]) by {
                    if i < cur.len() { assert(c2[i] == cur[i]); }
                }
            }
            lemma_words_coded(rest, c2);
            assert(words_from(s, cur) == words_from(rest, c2));
        }
    }
}

/// For text whose non-whitespace characters all have a Morse code (upper-case
/// letters and digits), decoding its Morse code gives back its words separated
/// by single spaces.
pub proof fn lemma_morse_roundtrip(u: Seq<char>)
    requires
        forall|i: int| 0 <= i < u.len() ==> is_ws(#[trigger] u[i]) || code_num(u[i]) > 0,
    ensures
        morse_decoded(morse_text(u)) == TextOrError::Ok(join(words(u), seq![' '])),
{
    let e: Seq<char> = seq![];
    let ws = words(u);
    lemma_words_coded(u, e);
    assert(Seq::new(ws.len(), |i: int| morse_word(ws[i])) == morse_words(ws));
    if ws.len() == 0 {
        assert(morse_text(u) == e);
        lemma_split_on_cons(e, '/', e);
        assert(split_on(e, '/') == seq![e]);
        assert(words(e) =~= Seq::<Seq<char>>::empty());
        assert(decode_tokens(Seq::<Seq<char>>::empty()) == TextOrError::Ok(e));
        assert(seq![e].drop_first() =~= Seq::<Seq<char>>::empty());
        let g1: Seq<Seq<char>> = seq![e];
        assert(g1[0] == e);
        assert(g1.drop_first() =~= Seq::<Seq<char>>::empty());
        assert(decode_groups(Seq::<Seq<char>>::empty()) == TextOrError::Ok(e));
        assert(decode_groups(g1) == TextOrError::Ok(e.push(' ') + e));
        assert(e.push(' ') + e =~= seq![' ']);
        let sp: Seq<char> = seq![' '];
        assert(sp[0] == ' ');
        assert(sp.drop_first() =~= e);
        assert(crate::text::trim_start(sp) == crate::text::trim_start(e));
        assert(crate::text::trim(sp) == e);
    } else {
        assert(e + join(morse_words(ws), seq![' ', '/', ' ']) =~= join(morse_words(ws), seq![' ', '/', ' ']));
        lemma_decode_joined(ws, e);
        lemma_spaced_join(ws);
        lemma_trim_spaced(join(ws, seq![' ']));
    }
}

/// The Morse table and its reverse agree: exactly the upper-case letters and
/// the digits have a code, each code leads back to its character, and each
/// character the reverse table gives has that code.
pub proof fn lemma_morse_table_inverse(c: char, n: int)
    ensures
        code_num(c) > 0 <==> (('A' <= c && c <= 'Z') || ('0' <= c && c <= '9')),
        code_num(c) > 0 ==> char_of_code(code_num(c) as int) == Some(c),
        char_of_code(n) matches Some(d) ==> code_num(d) == n,
{
}

/// An ASCII letter or digit.
pub open spec fn ascii_alnum(c: char) -> bool {
    ||| ('A' <= c && c <= 'Z')
    ||| ('a' <= c && c <= 'z')
    ||| ('0' <= c && c <= '9')
}

/// One or more words of ASCII letters and digits separated by single spaces,
/// with no space at either end.
pub open spec fn spaced_alnum_words(s: Seq<char>) -> bool {
    &&& s.len() > 0
    &&& forall|i: int| 0 <= i < s.len() ==> ascii_alnum(#[trigger] s[i]) || s[i] == ' '
    &&& s[0] != ' '
    &&& s.last() != ' '
    &&& forall|i: int| 0 <= i < s.len() - 1 && #[trigger] s[i] == ' ' ==> s[i + 1] != ' '
}

pub open spec fn upper_words(ws: Seq<Seq<char>>) -> Seq<Seq<char>> {
    Seq::new(ws.len(), |i: int| ascii_upper(ws[i]))
}

/// Such text is its words of letters and digits joined by single spaces.
proof fn lemma_spaced_split(s: Seq<char>) -> (ws: Seq<Seq<char>>)
    requires
        spaced_alnum_words(s),
    ensures
        ws.len() > 0,
        s == join(ws, seq![' ']),
        forall|i: int| 0 <= i < ws.len() ==> (#[trigger] ws[i]).len() > 0
            && forall|j: int| 0 <= j < ws[i].len() ==> ascii_alnum(#[trigger] ws[i][j]),
    decreases s.len(),
{
    crate::text::lemma_find_char(s, ' ');
    match crate::text::find_char(s, ' ') {
        None => {
            let ws = seq![s];
            assert forall|j: int| 0 <= j < ws[0].len() implies ascii_alnum(#[trigger] ws[0][j]) by {
                assert(s[j] != ' ');
            }
            ws
        },
        Some(k) => {
            assert(k > 0);
            assert(k < s.len() - 1);
            let p = s.take(k);
            let r = s.skip(k + 1);
            assert(r[0] == s[k + 1]);
            assert(r.last() == s.last());
            assert forall|i: int| 0 <= i < r.len() implies ascii_alnum(#[trigger] r[i]) || r[i] == ' ' by {
                assert(r[i] == s[k + 1 + i]);
            }
            assert forall|i: int| 0 <= i < r.len() - 1 && #[trigger] r[i] == ' ' implies r[i + 1] != ' ' by {
                assert(r[i] == s[k + 1 + i]);
                assert(r[i + 1] == s[k + 1 + i + 1]);
            }
            let wr = lemma_spaced_split(r);
            let ws = seq![p] + wr;
            assert(ws[0] == p);
            assert(ws.drop_first() =~= wr);
            assert(s =~= p + seq![' '] + r);
            assert forall|j: int| 0 <= j < p.len() implies ascii_alnum(#[trigger] p[j]) by {
                assert(p[j] == s[j]);
                assert(s[j] != ' ');
            }
            assert forall|i: int| 0 <= i < ws.len() implies (#[trigger] ws[i]).len() > 0
                && forall|j: int| 0 <= j < ws[i].len() ==> ascii_alnum(#[trigger] ws[i][j]) by {
                if i > 0 {
                    assert(ws[i] == wr[i - 1]);
                }
            }
            ws
        },
    }
}

/// Upper-casing joined words upper-cases each word.
proof fn lemma_upper_join(ws: Seq<Seq<char>>)
    ensures
        ascii_upper(join(ws, seq![' '])) == join(upper_words(ws), seq![' ']),
    decreases ws.len(),
{
    if ws.len() == 0 {
        assert(ascii_upper(Seq::<char>::empty()) =~= Seq::<char>::empty());
    } else if ws.len() == 1 {
    } else {
        lemma_upper_join(ws.drop_first());
        assert(upper_words(ws).drop_first() =~= upper_words(ws.drop_first()));
        let a = ws[0];
        let t = join(ws.drop_first(), seq![' ']);
        assert(ascii_upper(a + seq![' '] + t) =~= ascii_upper(a) + seq![' '] + ascii_upper(t));
    }
}

/// Decoding the Morse code of words of ASCII letters and digits separated by
/// single spaces gives the text upper-cased. On such (ASCII) text
/// `encode_morse` gives `morse_text(ascii_upper(s))`, and `decode_morse` of
/// that is `Ok` of the decoding stated here.
pub proof fn lemma_morse_roundtrip_mixed_case(s: Seq<char>)
    requires
        spaced_alnum_words(s),
    ensures
        vstd::utf8::is_ascii_chars(s),
        morse_decoded(morse_text(ascii_upper(s))) == TextOrError::Ok(ascii_upper(s)),
{
    let ws = lemma_spaced_split(s);
    let u = ascii_upper(s);
    lemma_upper_join(ws);
    let uw = upper_words(ws);
    assert forall|i: int| 0 <= i < uw.len() implies (#[trigger] uw[i]).len() > 0 && no_ws(uw[i]) by {
        assert(ws[i].len() > 0);
        assert forall|j: int| 0 <= j < uw[i].len() implies !is_ws(#[trigger] uw[i][j]) by {
            assert(ascii_alnum(ws[i][j]));
            assert(uw[i][j] == ascii_upper_char(ws[i][j]));
        }
    }
    lemma_words_of_join(uw);
    assert(words(u) == uw);
    assert forall|i: int| 0 <= i < u.len() implies is_ws(#[trigger] u[i]) || code_num(u[i]) > 0 by {
        assert(ascii_alnum(s[i]) || s[i] == ' ');
        lemma_morse_table_inverse(u[i], 0);
    }
    lemma_morse_roundtrip(u);
    assert forall|i: int| 0 <= i < s.len() implies '\0' <= #[trigger] s[i] <= '\u{7f}' by {
        assert(ascii_alnum(s[i]) || s[i] == ' ');
    }
}

/// A run of dots and dashes that reads as a code number is that number's code.
pub proof fn lemma_code_seq_of_seq_code(m: Seq<char>)
    ensures
        seq_code(m) matches Some(n) ==> n >= 1 && code_seq(n as nat) == m,
    decreases m.len(),
{
    if m.len() > 0 {
        lemma_code_seq_of_seq_code(m.drop_last());
        if let Some(n) = seq_code(m) {
            let p = seq_code(m.drop_last()).unwrap();
            assert(n == 2 * p || n == 2 * p + 1);
            assert(n / 2 == p);
            assert(code_seq(n as nat) == code_seq((n / 2) as nat).push(if n % 2 == 0 { '.' } else { '-' }));
            assert(m == m.drop_last().push(m.last()));
        }
    }
}

/// The Morse table read as text is one-to-one: the dots and dashes of each
/// character that has a code read back as that character, and every token that
/// reads as a character is exactly that character's code.
pub proof fn lemma_morse_text_inverse(c: char, m: Seq<char>)
    ensures
        code_num(c) > 0 ==> morse_char(code_seq(code_num(c))) == Some(c),
        morse_char(m) matches Some(d) ==> code_num(d) > 0 && m == code_seq(code_num(d)),
{
    if code_num(c) > 0 {
        lemma_morse_char_of_code(c);
    }
    lemma_code_seq_of_seq_code(m);
    if let Some(d) = morse_char(m) {
        let n = seq_code(m).unwrap();
        lemma_morse_table_inverse(d, n);
    }
}

/// International Morse code, written out: the dots and dashes of each upper-case
/// letter and digit; empty for any other character.
pub open spec fn international_morse(c: char) -> Seq<char> {
    if c == 'A' { seq!['.', '-'] }
    else if c == 'B' { seq!['-', '.', '.', '.'] }
    else if c == 'C' { seq!['-', '.', '-', '.'] }
    else if c == 'D' { seq!['-', '.', '.'] }
    else if c == 'E' { seq!['.'] }
    else if c == 'F' { seq!['.', '.', '-', '.'] }
    else if c == 'G' { seq!['-', '-', '.'] }
    else if c == 'H' { seq!['.', '.', '.', '.'] }
    else if c == 'I' { seq!['.', '.'] }
    else if c == 'J' { seq!['.', '-', '-', '-'] }
    else if c == 'K' { seq!['-', '.', '-'] }
    else if c == 'L' { seq!['.', '-', '.', '.'] }
    else if c == 'M' { seq!['-', '-'] }
    else if c == 'N' { seq!['-', '.'] }
    else if c == 'O' { seq!['-', '-', '-'] }
    else if c == 'P' { seq!['.', '-', '-', '.'] }
    else if c == 'Q' { seq!['-', '-', '.', '-'] }
    else if c == 'R' { seq!['.', '-', '.'] }
    else if c == 'S' { seq!['.', '.', '.'] }
    else if c == 'T' { seq!['-'] }
    else if c == 'U' { seq!['.', '.', '-'] }
    else if c == 'V' { seq!['.', '.', '.', '-'] }
    else if c == 'W' { seq!['.', '-', '-'] }
    else if c == 'X' { seq!['-', '.', '.', '-'] }
    else if c == 'Y' { seq!['-', '.', '-', '-'] }
    else if c == 'Z' { seq!['-', '-', '.', '.'] }
    else if c == '0' { seq!['-', '-', '-', '-', '-'] }
    else if c == '1' { seq!['.', '-', '-', '-', '-'] }
    else if c == '2' { seq!['.', '.', '-', '-', '-'] }
    else if c == '3' { seq!['.', '.', '.', '-', '-'] }
    else if c == '4' { seq!['.', '.', '.', '.', '-'] }
    else if c == '5' { seq!['.', '.', '.', '.', '.'] }
    else if c == '6' { seq!['-', '.', '.', '.', '.'] }
    else if c == '7' { seq!['-', '-', '.', '.', '.'] }
    else if c == '8' { seq!['-', '-', '-', '.', '.'] }
    else if c == '9' { seq!['-', '-', '-', '-', '.'] }
    else { seq![] }
}

/// The code of every letter and digit is its International Morse code: the
/// characters with a code are exactly those the international table lists, and
/// the dots and dashes of each are the table's.
pub proof fn lemma_morse_table_is_international(c: char)
    ensures
        code_num(c) > 0 <==> international_morse(c).len() > 0,
        code_num(c) > 0 ==> code_seq(code_num(c)) == international_morse(c),
{
    reveal_with_fuel(code_seq, 7);
    if c == 'A' { assert(code_seq(5) =~= seq!['.', '-']); }
    if c == 'B' { assert(code_seq(24) =~= seq!['-', '.', '.', '.']); }
    if c == 'C' { assert(code_seq(26) =~= seq!['-', '.', '-', '.']); }
    if c == 'D' { assert(code_seq(12) =~= seq!['-', '.', '.']); }
    if c == 'E' { assert(code_seq(2) =~= seq!['.']); }
    if c == 'F' { assert(code_seq(18) =~= seq!['.', '.', '-', '.']); }
    if c == 'G' { assert(code_seq(14) =~= seq!['-', '-', '.']); }
    if c == 'H' { assert(code_seq(16) =~= seq!['.', '.', '.', '.']); }
    if c == 'I' { assert(code_seq(4) =~= seq!['.', '.']); }
    if c == 'J' { assert(code_seq(23) =~= seq!['.', '-', '-', '-']); }
    if c == 'K' { assert(code_seq(13) =~= seq!['-', '.', '-']); }
    if c == 'L' { assert(code_seq(20) =~= seq!['.', '-', '.', '.']); }
    if c == 'M' { assert(code_seq(7) =~= seq!['-', '-']); }
    if c == 'N' { assert(code_seq(6) =~= seq!['-', '.']); }
    if c == 'O' { assert(code_seq(15) =~= seq!['-', '-', '-']); }
    if c == 'P' { assert(code_seq(22) =~= seq!['.', '-', '-', '.']); }
    if c == 'Q' { assert(code_seq(29) =~= seq!['-', '-', '.', '-']); }
    if c == 'R' { assert(code_seq(10) =~= seq!['.', '-', '.']); }
    if c == 'S' { assert(code_seq(8) =~= seq!['.', '.', '.']); }
    if c == 'T' { assert(code_seq(3) =~= seq!['-']); }
    if c == 'U' { assert(code_seq(9) =~= seq!['.', '.', '-']); }
    if c == 'V' { assert(code_seq(17) =~= seq!['.', '.', '.', '-']); }
    if c == 'W' { assert(code_seq(11) =~= seq!['.', '-', '-']); }
    if c == 'X' { assert(code_seq(25) =~= seq!['-', '.', '.', '-']); }
    if c == 'Y' { assert(code_seq(27) =~= seq!['-', '.', '-', '-']); }
    if c == 'Z' { assert(code_seq(28) =~= seq!['-', '-', '.', '.']); }
    if c == '0' { assert(code_seq(63) =~= seq!['-', '-', '-', '-', '-']); }
    if c == '1' { assert(code_seq(47) =~= seq!['.', '-', '-', '-', '-']); }
    if c == '2' { assert(code_seq(39) =~= seq!['.', '.', '-', '-', '-']); }
    if c == '3' { assert(code_seq(35) =~= seq!['.', '.', '.', '-', '-']); }
    if c == '4' { assert(code_seq(33) =~= seq!['.', '.', '.', '.', '-']); }
    if c == '5' { assert(code_seq(32) =~= seq!['.', '.', '.', '.', '.']); }
    if c == '6' { assert(code_seq(48) =~= seq!['-', '.', '.', '.', '.']); }
    if c == '7' { assert(code_seq(56) =~= seq!['-', '-', '.', '.', '.']); }
    if c == '8' { assert(code_seq(60) =~= seq!['-', '-', '-', '.', '.']); }
    if c == '9' { assert(code_seq(62) =~= seq!['-', '-', '-', '-', '.']); }
}

/// `encode_morse` of a single ASCII letter or digit (of either case) is the
/// International Morse code of its upper-case form, and `decode_morse` of that
/// code is the upper-case character.
pub proof fn lemma_encode_morse_char(c: char)
    requires
        ascii_alnum(c),
    ensures
        morse_text(ascii_upper(seq![c])) == international_morse(ascii_upper_char(c)),
        morse_decoded(international_morse(ascii_upper_char(c))) == TextOrError::Ok(seq![ascii_upper_char(c)]),
{
    let d = ascii_upper_char(c);
    let u = ascii_upper(seq![c]);
    assert(u =~= seq![d]);
    lemma_morse_table_inverse(d, 0);
    lemma_morse_table_is_international(d);
    assert(!is_ws(d));
    let w: Seq<Seq<char>> = seq![seq![d]];
    assert(no_ws(w[0]));
    lemma_words_of_join(w);
    assert(join(w, seq![' ']) == seq![d]);
    assert(words(u) == w);
    let code = code_seq(code_num(d));
    let sd: Seq<char> = seq![d];
    assert(sd[0] == d);
    assert(sd.drop_first() =~= Seq::<char>::empty());
    assert(morse_codes(Seq::<char>::empty()) =~= Seq::<Seq<char>>::empty());
    assert(morse_codes(sd) == seq![code] + morse_codes(sd.drop_first()));
    assert(morse_codes(sd) =~= seq![code]);
    assert(morse_word(seq![d]) == code);
    let mw = Seq::new(words(u).len(), |i: int| morse_word(words(u)[i]));
    assert(mw =~= seq![code]);
    assert(morse_text(u) == code);
    assert(spaced_alnum_words(seq![c]));
    lemma_morse_roundtrip_mixed_case(seq![c]);
}

} // verus!
