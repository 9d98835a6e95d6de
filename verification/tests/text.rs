use telecom_client::text::{
    chars_of, contains, first_word, hex_text, lines, parse_u16, push_decimal, push_hex,
    push_signed, split, split_once, string_of, strip, strip_prefix, trim,
};

fn c(s: &str) -> Vec<char> {
    chars_of(s)
}

fn strings(parts: Vec<&[char]>) -> Vec<String> {
    parts.into_iter().map(string_of).collect()
}

#[test]
fn trimming_agrees_with_std() {
    let samples = [
        "", " ", "a", " a ", "\t\r\na b\u{a0}", "\u{2003}x\u{3000}", "\u{200b}x", "\u{85}\u{1680}",
    ];
    for s in samples {
        assert_eq!(string_of(trim(&c(s))), s.trim());
        assert_eq!(string_of(strip(&c(s), 'a')), s.trim_matches('a'));
    }
    for u in 0..0x11_0000u32 {
        if let Some(ch) = char::from_u32(u) {
            assert_eq!(telecom_client::text::white_space(ch), ch.is_whitespace());
        }
    }
}

#[test]
fn splitting_agrees_with_std() {
    for s in ["", ";", "a", "a;b", ";a;;b;", "ü;ß"] {
        let want: Vec<String> = s.split(';').map(|p| p.to_string()).collect();
        assert_eq!(strings(split(&c(s), ';')), want);
        let got = split_once(&c(s), ';').map(|(a, b)| (string_of(a), string_of(b)));
        assert_eq!(got, s.split_once(';').map(|(a, b)| (a.to_string(), b.to_string())));
    }
}

#[test]
fn lines_agree_with_std() {
    for s in ["", "\n", "\r\n", "a", "a\n", "a\r\nb", "a\rb\n\nc\r", "\n\n", "a\r\r\n"] {
        let want: Vec<String> = s.lines().map(|p| p.to_string()).collect();
        assert_eq!(strings(lines(&c(s))), want);
    }
}

#[test]
fn searching_agrees_with_std() {
    for s in ["", "abc", "<sip:x>;tag=1", ";tag", "xx;tag="] {
        assert_eq!(contains(&c(s), ";tag="), s.contains(";tag="));
        assert_eq!(contains(&c(s), ""), s.contains(""));
        assert_eq!(
            strip_prefix(&c(s), "xx").map(string_of),
            s.strip_prefix("xx").map(|r| r.to_string())
        );
        assert_eq!(
            first_word(&c(s)).map(string_of),
            s.split_whitespace().next().map(|w| w.to_string())
        );
    }
    assert_eq!(first_word(&c("  \t8000 RTP")).map(string_of), Some("8000".to_string()));
}

#[test]
fn numbers_are_read_as_std_reads_them() {
    let samples = [
        "", "+", "-", "0", "+0", "-0", "007", "65535", "65536", "99999999999999999999", "1a", "a1",
        " 1", "++1", "\u{0661}", "00000000000000000000001",
    ];
    for s in samples {
        assert_eq!(parse_u16(&c(s)), s.parse::<u16>().ok());
    }
}

#[test]
fn numbers_are_written_as_std_writes_them() {
    for n in [0u64, 9, 10, 65535, u64::MAX] {
        let mut out = String::from("n=");
        push_decimal(&mut out, n);
        assert_eq!(out, format!("n={}", n));
    }
    for n in [0i64, -1, 42, i64::MIN, i64::MAX] {
        let mut out = String::new();
        push_signed(&mut out, n);
        assert_eq!(out, n.to_string());
    }
    for n in [0u32, 15, 16, 0xbeef, u32::MAX] {
        let mut out = String::new();
        push_hex(&mut out, n);
        assert_eq!(out, format!("{:x}", n));
    }
    assert_eq!(hex_text(&[0x00, 0x0f, 0xbe, 0xff]), "000fbeff");
}

#[test]
fn every_port_is_read_back() {
    for port in 0..=u16::MAX {
        let mut out = String::new();
        push_decimal(&mut out, port as u64);
        assert_eq!(parse_u16(&c(&out)), Some(port));
    }
}
