use yotsuba::hash::{handle, respond, to_lower_hex, HashReply};
use yotsuba::options::{CommandOption, OptionValue};

#[test]
fn digests_of_abc() {
    let cases = [
        ("md5", "#️⃣ MD5", "900150983cd24fb0d6963f7d28e17f72", "128 bits"),
        ("sha1", "#️⃣ SHA-1", "a9993e364706816aba3e25717850c26c9cd0d89d", "160 bits"),
        ("sha256", "#️⃣ SHA-256", "ba7816bf8f01cfea414140de5dae2223b00361a396177a9cb410ff61f20015ad", "256 bits"),
    ];
    for (t, expected_title, expected_hash, expected_len) in cases {
        match respond(t, "abc") {
            HashReply::Digest { title, input, hash, length } => {
                assert_eq!(title, expected_title);
                assert_eq!(input, "abc");
                assert_eq!(hash, expected_hash);
                assert_eq!(length, expected_len);
            }
            _ => panic!("expected a digest"),
        }
    }
}

#[test]
fn sha512_has_128_hex_digits() {
    match respond("sha512", "abc") {
        HashReply::Digest { hash, length, .. } => {
            assert_eq!(hash.len(), 128);
            assert!(hash.starts_with("ddaf35a193617aba"));
            assert_eq!(length, "512 bits");
        }
        _ => panic!("expected a digest"),
    }
}

#[test]
fn unknown_and_missing() {
    assert!(matches!(respond("crc32", "abc"), HashReply::UnknownType));
    assert!(matches!(respond("md5", ""), HashReply::MissingOptions));
    let opts = vec![CommandOption { name: "type".into(), value: OptionValue::String("md5".into()) }];
    assert!(matches!(handle(&opts), Some(HashReply::MissingOptions)));
}

#[test]
fn lower_hex_of_bytes() {
    assert_eq!(to_lower_hex(&vec![0x00, 0xab, 0x10]), "00ab10");
}

fn hash_opts(t: &str, input: &str) -> Vec<CommandOption> {
    vec![
        CommandOption { name: "type".into(), value: OptionValue::String(t.into()) },
        CommandOption { name: "input".into(), value: OptionValue::String(input.into()) },
    ]
}

#[test]
fn handle_digests_abc() {
    match handle(&hash_opts("md5", "abc")) {
        Some(HashReply::Digest { title, input, hash, length }) => {
            assert_eq!(title, "#️⃣ MD5");
            assert_eq!(input, "abc");
            assert_eq!(hash, "900150983cd24fb0d6963f7d28e17f72");
            assert_eq!(length, "128 bits");
        }
        _ => panic!("expected a digest"),
    }
}

#[test]
fn handle_checks_the_type_before_cutting_the_input() {
    // 199 ASCII bytes then a two-byte character: byte 200 falls inside it.
    let long = format!("{}é", "a".repeat(199));
    assert!(matches!(handle(&hash_opts("crc32", &long)), Some(HashReply::UnknownType)));
    assert!(handle(&hash_opts("sha1", &long)).is_none());
}
