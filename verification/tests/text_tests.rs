use albert_eyes::text::{
    chars_of, lowercase, parse_i32, parse_u16, parse_u64, push_decimal, push_padded,
    split_fields, split_lines, trimmed,
};

fn text(v: &Vec<char>) -> String {
    v.iter().collect()
}

#[test]
fn fields_like_split_whitespace() {
    let samples = ["", "   ", "a", " a  b\tc\n", "\u{a0}x\u{3000}y ", "one two  three"];
    for s in samples {
        let got: Vec<String> = split_fields(&chars_of(s)).iter().map(text).collect();
        let want: Vec<String> = s.split_whitespace().map(String::from).collect();
        assert_eq!(got, want, "{s:?}");
    }
}

#[test]
fn lines_like_str_lines() {
    let samples = ["", "\n", "a", "a\n", "a\r\nb", "a\n\nb\n", "x\r", "\r\n\r\n", "a\rb\n"];
    for s in samples {
        let got: Vec<String> = split_lines(&chars_of(s)).iter().map(text).collect();
        let want: Vec<String> = s.lines().map(String::from).collect();
        assert_eq!(got, want, "{s:?}");
    }
}

#[test]
fn trim_like_str_trim() {
    for s in ["", "  a b  ", "\n\tx\u{2003}", "none"] {
        assert_eq!(text(&trimmed(&chars_of(s))), s.trim());
    }
}

#[test]
fn numbers_like_str_parse() {
    for s in ["0", "+5", "-5", "", "+", "18446744073709551615", "18446744073709551616", "007", "1 "] {
        assert_eq!(parse_u64(&chars_of(s)), s.parse::<u64>().ok(), "{s:?}");
    }
    for s in ["65535", "65536", "12", "-1"] {
        assert_eq!(parse_u16(&chars_of(s)), s.parse::<u16>().ok(), "{s:?}");
    }
    for s in ["-2147483648", "-2147483649", "2147483647", "2147483648", "-", "-0", "+-1", "42"] {
        assert_eq!(parse_i32(&chars_of(s)), s.parse::<i32>().ok(), "{s:?}");
    }
}

#[test]
fn decimal_and_padding_like_format() {
    for n in [0u64, 7, 10, 99, 100, 65535, u64::MAX] {
        let mut out = Vec::new();
        push_decimal(&mut out, n);
        assert_eq!(text(&out), format!("{n}"));
    }
    let mut out = Vec::new();
    push_padded(&mut out, &chars_of("AL"), 5);
    assert_eq!(text(&out), format!("{:<5}", "AL"));
    let mut out = Vec::new();
    push_padded(&mut out, &chars_of("BERTIE"), 5);
    assert_eq!(text(&out), "BERTIE");
}

#[test]
fn ascii_lowercase_only() {
    assert_eq!(text(&lowercase(&chars_of("MoRNING Ä"))), "MoRNING Ä".to_ascii_lowercase());
}
