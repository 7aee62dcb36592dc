use znappr::text::{first_token_of, lines, parse_i64_chars, parse_u32_chars, split_chars, white_space};

fn chars(s: &str) -> Vec<char> {
    s.chars().collect()
}

const SAMPLES: &[&str] = &[
    "", "0", "7", "+7", "-7", "+", "-", "++1", "+-1", "-+1", "007", "1_000", " 1", "1 ", "1a",
    "٣", "4294967295", "4294967296", "+4294967295", "99999999999999999999",
    "9223372036854775807", "9223372036854775808", "-9223372036854775808",
    "-9223372036854775809", "-0", "12345678901234567890123",
];

#[test]
fn parse_u32_agrees_with_std() {
    for s in SAMPLES {
        assert_eq!(parse_u32_chars(&chars(s)), s.parse::<u32>().ok(), "input {:?}", s);
    }
}

#[test]
fn parse_i64_agrees_with_std() {
    for s in SAMPLES {
        assert_eq!(parse_i64_chars(&chars(s)), s.parse::<i64>().ok(), "input {:?}", s);
    }
}

#[test]
fn split_agrees_with_std() {
    for s in ["", ",", "a", "a,b", ",a,", "a,,b", "1,3-6,24"] {
        let ours: Vec<String> = split_chars(&chars(s), ',').iter().map(|p| p.iter().collect()).collect();
        let std: Vec<String> = s.split(',').map(|p| p.to_string()).collect();
        assert_eq!(ours, std, "input {:?}", s);
    }
}

#[test]
fn lines_agree_with_std() {
    for s in ["", "\n", "a", "a\n", "a\nb", "a\r\nb\r\n", "a\r", "a\n\nb\n", "\r\n", "x\r\ry\n"] {
        let ours: Vec<String> = lines(&chars(s)).iter().map(|p| p.iter().collect()).collect();
        let std: Vec<String> = s.lines().map(|p| p.to_string()).collect();
        assert_eq!(ours, std, "input {:?}", s);
    }
}

#[test]
fn white_space_agrees_with_std() {
    for u in 0u32..=0x10ffff {
        if let Some(c) = char::from_u32(u) {
            assert_eq!(white_space(c), c.is_whitespace(), "code point {:x}", u);
        }
    }
    for c in ['\u{feff}', '\u{200b}', '\u{180e}', 'a', '\u{10ffff}'] {
        assert_eq!(white_space(c), c.is_whitespace());
    }
}

#[test]
fn first_token_agrees_with_std() {
    for s in ["", "   ", "a", "  zroot/ROOT  /", "\u{3000}x\ty", "x\u{a0}y"] {
        let ours: Option<String> = first_token_of(&chars(s)).map(|t| t.iter().collect());
        let std: Option<String> = s.split_whitespace().next().map(|t| t.to_string());
        assert_eq!(ours, std, "input {:?}", s);
    }
}
