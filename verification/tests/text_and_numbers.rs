use agent_gateway::address::{ipv4_text, ipv6_text, socket_addr_text};
use agent_gateway::number::{
    decimal_text, hex_text, hex_u32_text, parse_hex_u32, parse_u16, signed_decimal_text, IntFault,
};
use agent_gateway::text::{chars_of, string_of, to_lowercase, trim, white_space};
use rcgen::{CertificateParams, SanType};

fn chars(s: &str) -> Vec<char> {
    s.chars().collect()
}

#[test]
fn white_space_is_that_of_std() {
    for u in 0u32..=0x10ffff {
        if let Some(c) = char::from_u32(u) {
            assert_eq!(white_space(c), c.is_whitespace(), "{u:x}");
        }
    }
}

#[test]
fn trimming_is_that_of_std() {
    for s in ["", " ", "a", " a", "a ", "\u{2003}a b\u{3000}", "\u{200b}a", "\n\t x \r\n"] {
        let c = chars_of(s);
        assert_eq!(string_of(trim(&c)), s.trim());
    }
}

#[test]
fn lower_case_is_that_of_std() {
    for s in ["", "ABC-xyz.09[]", "ÄÖÜ", "ὈΔΥΣΣΕΎΣ", "İ", "ǅ"] {
        assert_eq!(to_lowercase(s), s.to_lowercase());
    }
}

#[test]
fn ports_are_parsed_like_std() {
    for n in 0u32..=70000 {
        let s = n.to_string();
        assert_eq!(parse_u16(&chars(&s)).ok(), s.parse::<u16>().ok());
    }
    for s in [
        "", "+", "-", "+1", "-1", "++1", "1+", " 1", "1 ", "00001", "065535", "99999999999999999999",
        "6553x", "65536x", "x65536", "１",
    ] {
        assert_eq!(parse_u16(&chars(s)).ok(), s.parse::<u16>().ok(), "{s}");
    }
    assert_eq!(parse_u16(&chars("")), Err(IntFault::Empty));
    assert_eq!(parse_u16(&chars("+")), Err(IntFault::InvalidDigit));
    assert_eq!(parse_u16(&chars("65536")), Err(IntFault::TooLarge));
}

#[test]
fn integer_faults_have_the_texts_of_std() {
    for s in ["", "+", "x", "65536", "6553x", "65536x", "99999x"] {
        let ours = parse_u16(&chars(s)).unwrap_err().message();
        let theirs = s.parse::<u16>().unwrap_err().to_string();
        assert_eq!(ours, theirs, "{s}");
    }
}

#[test]
fn hexadecimal_is_parsed_like_std() {
    for s in [
        "", "+", "0", "f", "F", "ffffffff", "FFFFFFFF", "100000000", "+81010004", "-1", "g", "0x1",
        "000000000001", "fffffffg", "1ffffffffg",
    ] {
        assert_eq!(
            parse_hex_u32(&chars(s)).ok(),
            u32::from_str_radix(s, 16).ok(),
            "{s}"
        );
    }
}

#[test]
fn numbers_are_written_like_std() {
    for n in [0u64, 1, 9, 10, 99, 100, 65535, 4294967296, u64::MAX] {
        assert_eq!(decimal_text(n), n.to_string());
    }
    for n in [0i64, -1, 1, i64::MIN, i64::MAX, -10] {
        assert_eq!(signed_decimal_text(n), n.to_string());
    }
    for n in [0u32, 1, 0x81010004, u32::MAX] {
        assert_eq!(hex_u32_text(n), format!("{n:08x}"));
    }
    assert_eq!(hex_text(&[0x00, 0x9a, 0xff]), "009aff");
}

/// Whether a subject name is taken for an IP address.
fn is_ip(s: &str) -> bool {
    match CertificateParams::new(vec![s.to_owned()]) {
        Ok(params) => matches!(params.subject_alt_names[0], SanType::IpAddress(_)),
        Err(_) => false,
    }
}

#[test]
fn ip_addresses_are_recognized() {
    let pieces = ["", "0", "1", "ffff", "FFFF", "10000", "g", "1.2.3.4", "1.2.3", "256.0.0.1"];
    let mut corpus: Vec<String> = vec![
        "::".into(),
        ":::".into(),
        "::1::".into(),
        "1:2:3:4:5:6:7:8".into(),
        "1:2:3:4:5:6:7".into(),
        "1:2:3:4:5:6:7:8:9".into(),
        "1:2:3:4:5:6:7::".into(),
        "::2:3:4:5:6:7:8".into(),
        "1::2:3:4:5:6:7:8".into(),
        "1:2:3:4:5:6:1.2.3.4".into(),
        "1:2:3:4:5:6:7:1.2.3.4".into(),
        "::1.2.3.4".into(),
        "1::1.2.3.4".into(),
        "1:2:3:4:5::1.2.3.4".into(),
        "1.2.3.4::".into(),
        "::1.2.3.4:5".into(),
        "fe80::1%1".into(),
        " ::1".into(),
        "::1 ".into(),
        "[::1]".into(),
    ];
    for a in pieces {
        for b in pieces {
            corpus.push(format!("{a}:{b}"));
            for c in pieces {
                corpus.push(format!("{a}:{b}:{c}"));
                corpus.push(format!("{a}::{b}:{c}"));
                corpus.push(format!("{a}:1:2:3:4:5:{b}:{c}"));
            }
        }
    }
    for s in &corpus {
        assert_eq!(ipv6_text(&chars(s)), s.contains(':') && is_ip(s), "{s}");
    }
    for s in ["1.2.3.4", "01.2.3.4", "1.2.3", "1.2.3.4.5", "255.255.255.255", "256.1.1.1", "", "..."] {
        assert_eq!(ipv4_text(&chars(s)), is_ip(s), "{s}");
    }
}

#[test]
fn socket_addresses_are_recognized() {
    for s in [
        "0.0.0.0:8443",
        "127.0.0.1:0",
        "127.0.0.1:65535",
        "127.0.0.1:00080",
        "127.0.0.1:0000000080",
        "[::1]:8443",
        "[::1%5]:80",
        "[::1%4294967295]:80",
        "[::1%007]:80",
    ] {
        assert!(socket_addr_text(&chars(s)), "{s}");
    }
    for s in [
        "127.0.0.1:65536",
        "127.0.0.1:",
        "127.0.0.1",
        "127.0.0.1:+1",
        "[::1]",
        "[::1]:",
        "[::1%]:80",
        "[::1%4294967296]:80",
        "::1:80",
        "localhost:80",
        "",
        ":80",
        "[1.2.3.4]:80",
        "[::1] :80",
        "[::1]:80 ",
    ] {
        assert!(!socket_addr_text(&chars(s)), "{s}");
    }
}
