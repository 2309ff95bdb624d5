use cargo_cite::ordering::{sort_names, text_before};
use cargo_cite::text::{contains_text, decimal_string, join_strings, same_text, signed_decimal_string};

#[test]
fn decimal_of_small_and_large_numbers() {
    assert_eq!(decimal_string(0), "0");
    assert_eq!(decimal_string(7), "7");
    assert_eq!(decimal_string(10), "10");
    assert_eq!(decimal_string(2026), "2026");
    assert_eq!(decimal_string(u64::MAX), "18446744073709551615");
}

#[test]
fn signed_decimal_keeps_the_sign() {
    assert_eq!(signed_decimal_string(0), "0");
    assert_eq!(signed_decimal_string(-1), "-1");
    assert_eq!(signed_decimal_string(1999), "1999");
    assert_eq!(signed_decimal_string(i32::MIN), "-2147483648");
    assert_eq!(signed_decimal_string(i32::MAX), "2147483647");
}

#[test]
fn join_puts_the_separator_between_neighbours() {
    let none: Vec<String> = Vec::new();
    assert_eq!(join_strings(&none, " and "), "");
    assert_eq!(join_strings(&vec![String::from("A B")], " and "), "A B");
    assert_eq!(
        join_strings(&vec![String::from("A"), String::from("B"), String::from("C")], " and "),
        "A and B and C"
    );
}

#[test]
fn contains_text_finds_a_needle_anywhere() {
    assert!(contains_text("README.md", "README"));
    assert!(contains_text("my-README", "README"));
    assert!(contains_text("README", "README"));
    assert!(contains_text("anything", ""));
    assert!(contains_text("", ""));
    assert!(!contains_text("READM", "README"));
    assert!(!contains_text("readme.md", "README"));
    assert!(!contains_text("", "README"));
    assert!(contains_text("ÄREADMEß", "README"));
}

#[test]
fn same_text_compares_by_content() {
    assert!(same_text("Cargo.toml", "Cargo.toml"));
    assert!(!same_text("Cargo.toml", "cargo.toml"));
    assert!(!same_text("Cargo.toml", "Cargo.tom"));
}

#[test]
fn text_before_is_the_order_of_strings() {
    let samples = ["", "a", "A", "ab", "abc", "abd", "b", "serde", "serde_json", "é", "z", "日本", "~"];
    for a in samples.iter() {
        for b in samples.iter() {
            assert_eq!(text_before(a, b), a < b, "{:?} before {:?}", a, b);
        }
    }
}

#[test]
fn sort_names_puts_names_in_ascending_order() {
    let names = vec![
        String::from("zeta"),
        String::from("alpha"),
        String::from("mid"),
        String::from("alp"),
        String::from("Zeta"),
    ];
    let mut expected = names.clone();
    expected.sort();
    assert_eq!(sort_names(&names), expected);
    assert!(sort_names(&Vec::new()).is_empty());
    let twice = vec![String::from("b"), String::from("a"), String::from("b"), String::from("a")];
    assert_eq!(sort_names(&twice), vec![String::from("a"), String::from("b")]);
}
