use objmesh::number::{is_decimal_digit, is_float, parse_index};
use objmesh::record::{classify, parse_group, RecordKind};
use objmesh::tokenizer::{is_whitespace, words};

#[test]
fn words_are_the_runs_between_white_space() {
    assert_eq!(words("v 1.0  2.0\t3.0"), vec!["v", "1.0", "2.0", "3.0"]);
    assert_eq!(words("  f 1//1 2//1 3//1  \r"), vec!["f", "1//1", "2//1", "3//1"]);
    assert_eq!(words("one"), vec!["one"]);
    assert_eq!(words("a\u{3000}b\u{a0}c\u{2003}d"), vec!["a", "b", "c", "d"]);
    assert_eq!(words("h\u{e9}llo w\u{f6}rld"), vec!["h\u{e9}llo", "w\u{f6}rld"]);
}

#[test]
fn blank_line_has_no_words() {
    assert!(words("").is_empty());
    assert!(words(" ").is_empty());
    assert!(words(" \t \r\n \u{2028}").is_empty());
}

#[test]
fn words_agree_with_split_whitespace() {
    let samples = [
        "",
        " ",
        "a",
        " a",
        "a ",
        " a b  c   d ",
        "\tv\t1\t2\t3\n",
        "vn 0.0 -1.0 0.0",
        "x\u{85}y\u{1680}z",
        "\u{200b}zero width is no space\u{feff}",
    ];
    for s in samples {
        let expected: Vec<&str> = s.split_whitespace().collect();
        assert_eq!(words(s), expected, "{:?}", s);
    }
}

#[test]
fn no_word_is_empty_or_holds_white_space() {
    for w in words("  the quick\t\tbrown \u{2009} fox  ") {
        assert!(!w.is_empty());
        assert!(!w.chars().any(|c| c.is_whitespace()));
    }
}

#[test]
fn white_space_is_what_the_standard_library_says() {
    for u in 0..=0x10FFFFu32 {
        if let Some(c) = char::from_u32(u) {
            assert_eq!(is_whitespace(c), c.is_whitespace(), "U+{:04X}", u);
        }
    }
}

#[test]
fn digits_are_the_ascii_digits() {
    for u in 0..=0x10FFFFu32 {
        if let Some(c) = char::from_u32(u) {
            assert_eq!(is_decimal_digit(c), c.is_ascii_digit(), "U+{:04X}", u);
        }
    }
}

#[test]
fn index_tokens() {
    assert_eq!(parse_index("1"), Some(1));
    assert_eq!(parse_index("99"), Some(99));
    assert_eq!(parse_index("0"), Some(0));
    assert_eq!(parse_index("007"), Some(7));
    assert_eq!(parse_index("+12"), Some(12));
    assert_eq!(parse_index("1234567890"), Some(1234567890));
    assert_eq!(parse_index(""), None);
    assert_eq!(parse_index("+"), None);
    assert_eq!(parse_index("-1"), None);
    assert_eq!(parse_index("++1"), None);
    assert_eq!(parse_index("1 "), None);
    assert_eq!(parse_index("1.0"), None);
    assert_eq!(parse_index("12a"), None);
    assert_eq!(parse_index("\u{661}"), None);
}

#[test]
fn index_tokens_at_the_limit() {
    let max = usize::MAX.to_string();
    assert_eq!(parse_index(&max), Some(usize::MAX));
    let mut over = max.clone();
    over.push('0');
    assert_eq!(parse_index(&over), None);
    let last = max.chars().last().unwrap();
    if last != '9' {
        let mut next = max[..max.len() - 1].to_string();
        next.push(char::from_digit(last.to_digit(10).unwrap() + 1, 10).unwrap());
        assert_eq!(parse_index(&next), None);
    }
    assert_eq!(parse_index("99999999999999999999999999999999999999"), None);
}

fn next_random(state: &mut u64) -> u64 {
    *state = state.wrapping_mul(6364136223846793005).wrapping_add(1442695040888963407);
    *state >> 33
}

fn random_token(state: &mut u64, alphabet: &[char], max_len: u64) -> String {
    let len = next_random(state) % (max_len + 1);
    let mut s = String::new();
    for _ in 0..len {
        s.push(alphabet[(next_random(state) % alphabet.len() as u64) as usize]);
    }
    s
}

#[test]
fn index_tokens_agree_with_the_standard_library() {
    let alphabet: Vec<char> = "0123456789+- a".chars().collect();
    let mut state = 7u64;
    for _ in 0..20000 {
        let s = random_token(&mut state, &alphabet, 6);
        assert_eq!(parse_index(&s), s.parse::<usize>().ok(), "{:?}", s);
    }
    let digits: Vec<char> = "0123456789".chars().collect();
    for _ in 0..20000 {
        let s = random_token(&mut state, &digits, 24);
        assert_eq!(parse_index(&s), s.parse::<usize>().ok(), "{:?}", s);
    }
}

#[test]
fn float_literals() {
    for s in [
        "0", "1", "-1", "+1", "3.14", "-3.14", "2.5E10", "2.5e-10", "5.", ".5", "0.0", "1e5",
        "1E+5", "1.e5", ".5e-3", "inf", "-inf", "+infinity", "NaN", "nan", "INF", "Infinity",
        "-NAN", "000.000", "1e0007", "123456789012345678901234567890", "1e999", "+.0",
    ] {
        assert!(is_float(s), "{:?}", s);
        assert!(s.parse::<f32>().is_ok(), "{:?}", s);
    }
    for s in [
        "", "+", "-", ".", "e", "e5", "1e", "1e+", "1e-", "+-1", "--1", "1..2", "1.2.3", "1e5.0",
        "1e5e5", ".e5", "+.", "-.e1", "in", "infinit", "infinityy", "na", "nann", "1f", "0x10",
        " 1", "1 ", "1,5", "1_000", "one", "1e 5", "\u{661}", "i", "n", "+e1", "1.5f32",
    ] {
        assert!(!is_float(s), "{:?}", s);
        assert!(s.parse::<f32>().is_err(), "{:?}", s);
    }
}

#[test]
fn float_literals_agree_with_the_standard_library() {
    let alphabet: Vec<char> = "0123456789..++--eEinfatyNIFA x".chars().collect();
    let mut state = 11u64;
    for _ in 0..60000 {
        let s = random_token(&mut state, &alphabet, 7);
        assert_eq!(is_float(&s), s.parse::<f32>().is_ok(), "{:?}", s);
    }
    let narrow: Vec<char> = "0123456789.+-eE".chars().collect();
    for _ in 0..60000 {
        let s = random_token(&mut state, &narrow, 9);
        assert_eq!(is_float(&s), s.parse::<f32>().is_ok(), "{:?}", s);
    }
    let letters: Vec<char> = "infatyINFATY+-".chars().collect();
    for _ in 0..60000 {
        let s = random_token(&mut state, &letters, 9);
        assert_eq!(is_float(&s), s.parse::<f32>().is_ok(), "{:?}", s);
    }
}

#[test]
fn field_groups() {
    assert_eq!(parse_group("1//1"), Some((1, 1)));
    assert_eq!(parse_group("12/34/56"), Some((12, 56)));
    assert_eq!(parse_group("3/x/4"), Some((3, 4)));
    assert_eq!(parse_group("3/2/4/5"), Some((3, 4)));
    assert_eq!(parse_group("3//4/"), Some((3, 4)));
    assert_eq!(parse_group("0//0"), Some((0, 0)));
    assert_eq!(parse_group("1"), None);
    assert_eq!(parse_group("1/2"), None);
    assert_eq!(parse_group("1/2/"), None);
    assert_eq!(parse_group("/2/3"), None);
    assert_eq!(parse_group("//"), None);
    assert_eq!(parse_group(""), None);
    assert_eq!(parse_group("a//1"), None);
    assert_eq!(parse_group("1//b"), None);
    assert_eq!(parse_group("-1//1"), None);
}

#[test]
fn field_groups_agree_with_split() {
    let alphabet: Vec<char> = "0123//+x".chars().collect();
    let mut state = 3u64;
    for _ in 0..40000 {
        let s = random_token(&mut state, &alphabet, 8);
        let mut g = s.split("/");
        let p = g.next();
        let n = g.nth(1);
        let expected = match (p, n) {
            (Some(p), Some(n)) => match (p.parse::<usize>(), n.parse::<usize>()) {
                (Ok(p), Ok(n)) => Some((p, n)),
                _ => None,
            },
            _ => None,
        };
        assert_eq!(parse_group(&s), expected, "{:?}", s);
    }
}

#[test]
fn first_word_selects_the_record() {
    assert_eq!(classify(&words("v 1 2 3")), RecordKind::Position);
    assert_eq!(classify(&words("vn 1 2 3")), RecordKind::Normal);
    assert_eq!(classify(&words("  f 1//1 2//2 3//3")), RecordKind::Face);
    assert_eq!(classify(&words("")), RecordKind::Ignored);
    assert_eq!(classify(&words("vt 0 0")), RecordKind::Ignored);
    assert_eq!(classify(&words("V 1 2 3")), RecordKind::Ignored);
    assert_eq!(classify(&words("# v 1 2 3")), RecordKind::Ignored);
    assert_eq!(classify(&words("vnn")), RecordKind::Ignored);
    assert_eq!(classify(&words("ff")), RecordKind::Ignored);
    assert_eq!(classify(&words("g")), RecordKind::Ignored);
}
