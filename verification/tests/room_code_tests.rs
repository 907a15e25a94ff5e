use chatcall::room_code::{decode_code, decode_ip, encode_ip, from_base36, to_base36, CodeError, CODE_LEN};

#[test]
fn test_roundtrip_common_ips() {
    let ips = [
        "1.1.1.1",
        "8.8.8.8",
        "8.8.4.4",
        "1.2.3.4",
        "203.0.113.42",
        "192.168.1.1",
        "10.0.0.1",
        "255.255.255.255",
        "0.0.0.0",
    ];
    for ip in &ips {
        let code = encode_ip(ip).unwrap_or_else(|e| panic!("encode({ip}): {:?}", e));
        assert_eq!(code.len(), CODE_LEN, "wrong length for {ip}: {code}");
        let decoded = decode_ip(&code).unwrap_or_else(|e| panic!("decode({code}): {:?}", e));
        assert_eq!(decoded, *ip, "roundtrip failed: {ip} → {code} → {decoded}");
    }
}

#[test]
fn test_codes_look_different() {
    let codes: Vec<_> = ["8.8.8.8", "8.8.4.4", "1.1.1.1", "9.9.9.9"]
        .iter()
        .map(|ip| encode_ip(ip).unwrap())
        .collect();

    // All codes must be unique
    for i in 0..codes.len() {
        for j in (i + 1)..codes.len() {
            assert_ne!(codes[i], codes[j]);
        }
    }
}

#[test]
fn test_codes_not_plaintext_ip() {
    // Codes should not look like IPs — no dots, no decimals
    let code = encode_ip("8.8.8.8").unwrap();
    assert!(!code.contains('.'));
    assert_eq!(code.len(), CODE_LEN);
}

#[test]
fn test_case_insensitive_decode() {
    let code = encode_ip("1.2.3.4").unwrap();
    let lower = code.to_lowercase();
    let decoded = decode_ip(&lower).unwrap();
    assert_eq!(decoded, "1.2.3.4");
}

#[test]
fn test_invalid_code_length() {
    assert!(matches!(decode_ip("TOOSHORT"), Err(CodeError::InvalidLength { .. })));
    assert!(matches!(decode_ip("TOOLONGCODE"), Err(CodeError::InvalidLength { .. })));
}

#[test]
fn test_invalid_code_char() {
    // '!' is not in our alphabet
    assert!(matches!(decode_ip("!!!!!!"), Err(_)));
}

#[test]
fn decode_user_code() {
    // The user's friend's code
    let code = "7ULFJ7Z";
    match decode_ip(code) {
        Ok(ip) => println!("Code '{}' decodes to IP: {}", code, ip),
        Err(e) => println!("Failed to decode '{}': {:?}", code, e),
    }
}

#[test]
fn test_roundtrip_verify() {
    let test_ips = [
        "0.0.0.0",
        "1.1.1.1",
        "8.8.8.8",
        "192.168.1.1",
        "10.0.0.1",
        "103.25.200.50",
        "49.36.100.200",
        "255.255.255.255",
    ];

    println!("\n=== IP <-> code roundtrip table ===");
    for ip in &test_ips {
        match encode_ip(ip) {
            Ok(code) => {
                let decoded = decode_ip(&code).unwrap_or_else(|e| format!("ERROR: {:?}", e));
                let ok = if decoded == *ip { "ok" } else { "MISMATCH" };
                println!("{} {} -> {} -> {}", ok, ip, code, decoded);
            }
            Err(e) => println!("encode({}) failed: {:?}", ip, e),
        }
    }
}

#[test]
fn what_does_0_0_0_0_encode_to() {
    let code = encode_ip("0.0.0.0").unwrap();
    println!("0.0.0.0 encodes to: {}", code);

    let code2 = encode_ip("127.0.0.1").unwrap();
    println!("127.0.0.1 encodes to: {}", code2);
}

// ── Further cases ────────────────────────────────────────────

#[test]
fn known_code_for_zero_address() {
    // 0 ^ KEY_A = A3F2B781; shuffle [2,0,3,1] -> B7A381F2; ^ KEY_B = FBB9FEC1
    let n: u32 = 0xFBB9_FEC1;
    let expected = to_base36(n);
    assert_eq!(encode_ip("0.0.0.0").unwrap(), expected);
    assert_eq!(from_base36(&expected).unwrap(), n);
}

#[test]
fn base36_digits_and_value() {
    // 0 is seven copies of the first alphabet character.
    assert_eq!(to_base36(0), "7777777");
    // 35 is the last alphabet character in the last place.
    assert_eq!(to_base36(35), "7777775");
    assert_eq!(from_base36("7777775").unwrap(), 35);
    assert_eq!(to_base36(36), "77777Z7");
}

#[test]
fn encode_accepts_surrounding_whitespace() {
    assert_eq!(encode_ip("  10.0.0.1\n").unwrap(), encode_ip("10.0.0.1").unwrap());
}

#[test]
fn encode_rejects_bad_addresses() {
    for bad in ["", "1.2.3", "1.2.3.4.5", "256.1.1.1", "01.2.3.4", "a.b.c.d", "1..2.3", "1.2.3.4 x"] {
        assert_eq!(encode_ip(bad), Err(CodeError::InvalidIp), "accepted {bad:?}");
    }
}

#[test]
fn decode_reports_length_and_char() {
    assert_eq!(decode_ip("TOOSHORT"), Err(CodeError::InvalidLength { got: 8 }));
    assert_eq!(decode_ip("!!!!!!"), Err(CodeError::InvalidLength { got: 6 }));
    assert_eq!(decode_ip("77777!7"), Err(CodeError::InvalidChar('!')));
    // decode_code neither trims nor folds case
    let code = encode_ip("1.2.3.4").unwrap();
    let lower = code.to_lowercase();
    assert!(decode_code(&lower).is_err() || lower == code);
    assert_eq!(decode_code(&code).unwrap(), "1.2.3.4");
}

#[test]
fn decode_trims_whitespace() {
    let code = encode_ip("192.168.1.1").unwrap();
    let padded = format!("  {}\t", code);
    assert_eq!(decode_ip(&padded).unwrap(), "192.168.1.1");
}

#[test]
fn decode_lowercase_and_padded_variants() {
    for ip in ["8.8.8.8", "203.0.113.42", "0.0.0.0", "255.255.255.255"] {
        let code = encode_ip(ip).unwrap();
        assert_eq!(decode_ip(&code).unwrap(), ip);
        assert_eq!(decode_ip(&code.to_lowercase()).unwrap(), ip);
        assert_eq!(decode_ip(&format!(" {} ", code)).unwrap(), ip);
        assert_eq!(decode_ip(&format!("\n{}\u{3000}", code.to_lowercase())).unwrap(), ip);
    }
}

#[test]
fn decode_rejects_chars_outside_alphabet_by_whole_char() {
    // U+0143 has the low byte 0x43 ('C'), which is in the alphabet; the whole
    // character is not.
    let code: String = std::iter::repeat('\u{143}').take(7).collect();
    assert_eq!(decode_ip(&code), Err(CodeError::InvalidChar('\u{143}')));
    assert_eq!(from_base36(&code), Err(CodeError::InvalidChar('\u{143}')));
}

#[test]
fn zero_address_code() {
    assert_eq!(encode_ip("0.0.0.0").unwrap(), "ZOSJYNZ");
    assert_eq!(decode_ip("ZOSJYNZ").unwrap(), "0.0.0.0");
    assert_eq!(decode_ip("zosjynz").unwrap(), "0.0.0.0");
}
