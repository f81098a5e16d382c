use csvsql::names::{normalize_col, dedup_cols, normalize_headers, lowercase_chars, alphabetic_char};

#[test]
fn test_normalize_col() {
    for (value, expected) in &[
        ("", ""),
        ("abc", "abc"),
        ("(S)AO", "sao"),
        ("abc (123)", "abc"),
        ("2/6/2000", "c_2_6_2000"),
        ("COMBO#", "combo"),
    ] {
        assert_eq!(&normalize_col(value), expected);
    }
}

#[test]
fn normalize_trims_and_replaces() {
    assert_eq!(normalize_col("  Unit Price  "), "unit_price");
    assert_eq!(normalize_col("a.b-c/d,e&f"), "a_b_c_d_e_f");
    assert_eq!(normalize_col("What? When: Where#"), "what_when_where");
    assert_eq!(normalize_col("_x"), "c__x");
}

#[test]
fn normalize_is_fixed_on_own_output() {
    for raw in &["Unit Price", "abc (123)", "2/6/2000", "COMBO#", "(S)AO"] {
        let once = normalize_col(raw);
        assert_eq!(normalize_col(&once), once);
    }
}

#[test]
fn dedup_appends_counters() {
    let cols: Vec<String> = vec!["A".to_string(), "B".to_string(), "A".to_string()];
    assert_eq!(normalize_headers(&cols), vec!["a", "b", "a_1"]);
}

#[test]
fn dedup_keeps_distinct_names() {
    let cols: Vec<String> = vec!["a".to_string(), "b".to_string(), "c".to_string()];
    assert_eq!(dedup_cols(&cols), vec!["a", "b", "c"]);
}

#[test]
fn dedup_chains_counters() {
    let cols: Vec<String> = vec!["a".to_string(), "a".to_string(), "a".to_string(), "a_1".to_string()];
    assert_eq!(dedup_cols(&cols), vec!["a", "a_1", "a_2", "a_1_1"]);
}

#[test]
fn lowering_and_alphabetic_steps_are_exposed() {
    let v: Vec<char> = "Ab\u{c7}".chars().collect();
    let lowered = lowercase_chars(&v);
    assert_eq!(lowered, "ab\u{e7}".chars().collect::<Vec<char>>());
    assert!(alphabetic_char('x'));
    assert!(alphabetic_char('\u{e9}'));
    assert!(!alphabetic_char('2'));
    assert!(!alphabetic_char('_'));
}

#[test]
fn normalize_never_leaves_uppercase() {
    for raw in &["MIXED Case", "\u{dc}ber (X)", "A#B?C"] {
        let once = normalize_col(raw);
        assert!(once.chars().all(|c| !c.is_ascii_uppercase()), "{once}");
    }
}
