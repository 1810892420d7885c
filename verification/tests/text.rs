use mercury_cortex_core::text::{
    i64_to_decimal, join_strings, sort_strings, str_eq, u128_to_decimal, u64_to_decimal,
};

#[test]
fn decimal_spellings() {
    assert_eq!(u64_to_decimal(0), "0");
    assert_eq!(u64_to_decimal(1234567890), "1234567890");
    assert_eq!(u128_to_decimal(u128::MAX), u128::MAX.to_string());
    assert_eq!(i64_to_decimal(-7), "-7");
    assert_eq!(i64_to_decimal(i64::MAX), i64::MAX.to_string());
}

#[test]
fn sorting_and_joining() {
    let v = vec!["b".to_string(), "a".to_string(), "ab".to_string(), "B".to_string()];
    assert_eq!(
        sort_strings(v),
        vec!["B".to_string(), "a".to_string(), "ab".to_string(), "b".to_string()]
    );
    assert_eq!(join_strings(&vec!["x".to_string(), "y".to_string()], ", "), "x, y");
    assert!(str_eq("é", "é"));
    assert!(!str_eq("a", "ab"));
}
