use chunkmydocs::text::{chars_of, find_dot, parse_i32_range, push_decimal, same_text, skip_bullets, trim_range};

fn parse(s: &str) -> Option<i32> {
    let v = chars_of(s);
    parse_i32_range(&v, 0, v.len())
}

#[test]
fn parse_matches_std() {
    for s in ["0", "7", "+7", "-7", "-0", "007", "2147483647", "-2147483648", "2147483648",
              "-2147483649", "", "+", "-", "1a", " 1", "1 ", "+-1", "99999999999999999999", "١"] {
        assert_eq!(parse(s), s.parse::<i32>().ok(), "input {:?}", s);
    }
}

#[test]
fn decimal_matches_display() {
    for n in [0, 1, -1, 9, 10, -10, 123456, i32::MAX, i32::MIN] {
        let mut out = String::from("x");
        push_decimal(&mut out, n);
        assert_eq!(out, format!("x{}", n));
    }
}

#[test]
fn trim_matches_std() {
    for s in ["  a b  ", "\u{3000}x\u{2028}", "", "   ", "\t\n y \r", "\u{200B}z"] {
        let v = chars_of(s);
        let (a, b) = trim_range(&v, 0, v.len());
        let got: String = v[a..b].iter().collect();
        assert_eq!(got, s.trim(), "input {:?}", s);
    }
}

#[test]
fn bullets_and_dots() {
    let v = chars_of("-* \u{2022}x.y.z");
    let k = skip_bullets(&v, 0);
    assert_eq!(k, 4);
    let d = find_dot(&v, k, v.len());
    assert_eq!(v[d], '.');
    assert_eq!(d, 5);
    let w = chars_of("nodot");
    assert_eq!(find_dot(&w, 0, w.len()), w.len());
    assert!(same_text("abc", "abc"));
    assert!(!same_text("abc", "abd"));
}
