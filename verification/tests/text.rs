use dictionary::text::{append_decimal, chars_of, find_char_in, parse_u32_in, str_eq, trim_bounds};

fn chars(s: &str) -> Vec<char> {
    s.chars().collect()
}

#[test]
fn decimal_notation() {
    for (n, text) in [
        (0u64, "0"),
        (7, "7"),
        (10, "10"),
        (1000, "1000"),
        (4294967295, "4294967295"),
        (18446744073709551615, "18446744073709551615"),
    ] {
        let mut s = String::from("x=");
        append_decimal(&mut s, n);
        assert_eq!(s, format!("x={text}"));
    }
}

#[test]
fn decimal_reads_back() {
    for n in [0u32, 7, 10, 3000, 4294967295] {
        let mut s = String::new();
        append_decimal(&mut s, n as u64);
        let v = chars(&s);
        assert_eq!(parse_u32_in(&v, 0, v.len()), Some(n));
    }
}

#[test]
fn parse_u32_limits() {
    let v = chars("4294967296");
    assert_eq!(parse_u32_in(&v, 0, v.len()), None);
    let v = chars("12a");
    assert_eq!(parse_u32_in(&v, 0, v.len()), None);
    assert_eq!(parse_u32_in(&v, 0, 2), Some(12));
    assert_eq!(parse_u32_in(&v, 0, 0), None);
    let v = chars("007");
    assert_eq!(parse_u32_in(&v, 0, 3), Some(7));
}

#[test]
fn trimming_blanks() {
    let v = chars(" \t слово \r");
    let (a, b) = trim_bounds(&v, 0, v.len());
    assert_eq!(v[a..b].iter().collect::<String>(), "слово");
    let v = chars("   ");
    let (a, b) = trim_bounds(&v, 0, v.len());
    assert_eq!(a, b);
}

#[test]
fn finding_a_character() {
    let v = chars("ab\ncd\n");
    assert_eq!(find_char_in(&v, 0, v.len(), '\n'), 2);
    assert_eq!(find_char_in(&v, 3, v.len(), '\n'), 5);
    assert_eq!(find_char_in(&v, 3, 5, '\n'), 5);
    assert_eq!(find_char_in(&v, 0, v.len(), 'z'), v.len());
}

#[test]
fn comparing_strings() {
    assert!(str_eq("способность", "способность"));
    assert!(!str_eq("able", "ability"));
    assert!(!str_eq("abc", "abd"));
    assert!(str_eq("", ""));
    assert_eq!(chars_of("привет"), chars("привет"));
}
