use yotsuba::cipher::{
    apply_cipher, atbash, clip_output, decode_base32, decode_base64, decode_binary, decode_hex,
    decode_morse, decode_url, encode_base32, encode_base64, encode_binary, encode_hex, encode_morse,
    encode_url, handle, respond, rot13, truncate, CipherReply,
};
use yotsuba::options::{CommandOption, OptionValue};

fn opt(name: &str, value: &str) -> CommandOption {
    CommandOption { name: name.to_string(), value: OptionValue::String(value.to_string()) }
}

#[test]
fn base64_encodes_and_decodes() {
    assert_eq!(encode_base64("hello"), "aGVsbG8=");
    assert_eq!(decode_base64("aGVsbG8="), Ok("hello".to_string()));
    assert!(decode_base64("!!!").is_err());
}

#[test]
fn base64_decode_rejects_invalid_utf8() {
    assert_eq!(decode_base64("/w=="), Err("Base64 decode yielded invalid UTF-8".to_string()));
}

#[test]
fn base32_encodes_and_decodes() {
    assert_eq!(encode_base32("hello"), "NBSWY3DP");
    assert_eq!(decode_base32("NBSWY3DP"), Ok("hello".to_string()));
    assert!(decode_base32("1").is_err());
}

#[test]
fn hex_encodes_lower_case_and_decodes() {
    assert_eq!(encode_hex("Hi!"), "486921");
    assert_eq!(decode_hex("486921"), Ok("Hi!".to_string()));
    assert!(decode_hex("4").unwrap_err().starts_with("Hex decode error: "));
    assert_eq!(decode_hex("ff"), Err("Hex decode yielded invalid UTF-8".to_string()));
}

#[test]
fn url_encodes_and_decodes() {
    assert_eq!(encode_url("a b&c/é"), "a%20b%26c%2F%C3%A9");
    assert_eq!(decode_url("a%20b"), Ok("a b".to_string()));
}

#[test]
fn rot13_and_atbash_are_involutions() {
    assert_eq!(rot13("Hello, World!"), "Uryyb, Jbeyq!");
    assert_eq!(rot13(&rot13("Verus 123")), "Verus 123");
    assert_eq!(atbash("abc XYZ"), "zyx CBA");
    assert_eq!(atbash(&atbash("Secret!")), "Secret!");
}

#[test]
fn binary_round_trip() {
    assert_eq!(encode_binary("Hi"), "01001000 01101001");
    assert_eq!(decode_binary("01001000 01101001"), Ok("Hi".to_string()));
    assert_eq!(decode_binary(&encode_binary("é!")), Ok("é!".to_string()));
    assert_eq!(decode_binary("2"), Err("Invalid binary part: 2".to_string()));
    assert_eq!(decode_binary("11111111"), Err("Binary decode yielded invalid UTF-8".to_string()));
}

#[test]
fn morse_encodes_words_and_decodes() {
    assert_eq!(encode_morse("sos help"), "... --- ... / .... . .-.. .--.");
    assert_eq!(decode_morse("... --- ... / .... . .-.. .--."), Ok("SOS HELP".to_string()));
    assert_eq!(encode_morse("a#b"), ".- -...");
    assert_eq!(decode_morse("...---"), Err("Invalid morse sequence: ...---".to_string()));
}

#[test]
fn apply_cipher_selects_by_type_and_mode() {
    assert_eq!(apply_cipher("rot13", "anything", "abc"), Ok("nop".to_string()));
    assert_eq!(apply_cipher("hex", "encode", "A"), Ok("41".to_string()));
    assert_eq!(apply_cipher("hex", "sideways", "A"), Err("Unknown cipher type or mode".to_string()));
}

#[test]
fn byte_truncate_and_clip() {
    assert_eq!(truncate("abcdef", 3), "abc...");
    assert_eq!(truncate("abc", 3), "abc");
    let long = "x".repeat(2000);
    let clipped = clip_output(long);
    assert!(clipped.starts_with(&"x".repeat(1900)));
    assert!(clipped.ends_with("\n\n*(output bị cắt do quá dài)*"));
    assert_eq!(clip_output("short".to_string()), "short");
}

#[test]
fn respond_builds_titles() {
    match respond("base64", "encode", "hello") {
        CipherReply::Output { title, input, output } => {
            assert_eq!(title, "🔐 Base64 — Encode");
            assert_eq!(input, "hello");
            assert_eq!(output, "aGVsbG8=");
        }
        _ => panic!("expected output"),
    }
    match respond("hex", "decode", "zz") {
        CipherReply::Failure { title, error, .. } => {
            assert_eq!(title, "🔐 HEX — DECODE");
            assert!(error.starts_with("Hex decode error: "));
        }
        _ => panic!("expected failure"),
    }
    assert!(matches!(respond("", "encode", "x"), CipherReply::MissingOptions));
}

#[test]
fn handle_reads_the_last_string_options() {
    let options = vec![opt("type", "hex"), opt("mode", "encode"), opt("input", "a"), opt("input", "b")];
    match handle(&options) {
        Some(CipherReply::Output { output, .. }) => assert_eq!(output, "62"),
        _ => panic!("expected output"),
    }
    assert!(matches!(handle(&vec![opt("type", "hex")]), Some(CipherReply::MissingOptions)));
}

#[test]
fn encodings_round_trip() {
    for s in ["", "hello", "é ü 漢字", "a/b?c=d&e"] {
        assert_eq!(decode_base64(&encode_base64(s)), Ok(s.to_string()));
        assert_eq!(decode_base32(&encode_base32(s)), Ok(s.to_string()));
        assert_eq!(decode_hex(&encode_hex(s)), Ok(s.to_string()));
        assert_eq!(decode_url(&encode_url(s)), Ok(s.to_string()));
        assert_eq!(decode_binary(&encode_binary(s)), Ok(s.to_string()));
    }
    assert_eq!(decode_morse(&encode_morse("  two   words ")), Ok("TWO WORDS".to_string()));
}

#[test]
fn handle_decodes_rot13() {
    let options = vec![opt("type", "rot13"), opt("mode", "decode"), opt("input", "Uryyb, Jbeyq!")];
    match handle(&options) {
        Some(CipherReply::Output { title, input, output }) => {
            assert_eq!(title, "🔐 ROT13 — Decode");
            assert_eq!(input, "Uryyb, Jbeyq!");
            assert_eq!(output, "Hello, World!");
        }
        _ => panic!("expected output"),
    }
}

#[test]
fn handle_reports_unknown_type_or_mode() {
    for (t, m) in [("base64", "x"), ("xor", "encode")] {
        let options = vec![opt("type", t), opt("mode", m), opt("input", "abc")];
        match handle(&options) {
            Some(CipherReply::Failure { title, input, error }) => {
                assert_eq!(title, format!("🔐 {} — {}", t.to_uppercase(), m.to_uppercase()));
                assert_eq!(input, "abc");
                assert_eq!(error, "Unknown cipher type or mode");
            }
            _ => panic!("expected a failure"),
        }
    }
    assert!(matches!(handle(&vec![opt("type", "rot13"), opt("mode", ""), opt("input", "a")]),
        Some(CipherReply::MissingOptions)));
}

#[test]
fn morse_round_trip_upper_cases_mixed_case_words() {
    for s in ["Hello World", "abc 123 XyZ", "q"] {
        assert_eq!(decode_morse(&encode_morse(s)), Ok(s.to_uppercase()));
    }
}

#[test]
fn morse_table_codes_lead_back_to_their_characters() {
    for c in "ABCDEFGHIJKLMNOPQRSTUVWXYZ0123456789".chars() {
        let code = encode_morse(&c.to_string());
        assert!(!code.is_empty());
        assert_eq!(decode_morse(&code), Ok(c.to_string()));
    }
}
