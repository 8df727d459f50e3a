use torustiq::text::{contains_string, decimal_string, join_strings};

#[test]
fn decimal_string_of_zero() {
    assert_eq!(decimal_string(0), "0");
}

#[test]
fn decimal_string_matches_the_standard_rendering() {
    for n in [1u64, 9, 10, 11, 99, 100, 101, 1234567890, u64::MAX] {
        assert_eq!(decimal_string(n), format!("{}", n));
    }
}

#[test]
fn join_strings_puts_the_separator_between_neighbours() {
    let items = vec![String::from("a"), String::from("b"), String::from("c")];
    assert_eq!(join_strings(&items, ", "), "a, b, c");
    assert_eq!(join_strings(&vec![String::from("only")], ", "), "only");
    assert_eq!(join_strings(&Vec::new(), ", "), "");
}

#[test]
fn contains_string_finds_exact_matches_only() {
    let items = vec![String::from("alpha"), String::from("beta")];
    assert!(contains_string(&items, &String::from("beta")));
    assert!(!contains_string(&items, &String::from("bet")));
    assert!(!contains_string(&Vec::new(), &String::from("")));
}
