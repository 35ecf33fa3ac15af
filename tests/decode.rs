use iron_dbg::decode::FromMI;

#[test]
fn test_from_mi() {
    assert_eq!(u64::from_mi("42").unwrap().1, 42);
    assert_eq!(String::from_mi("\"Hello\"").unwrap().1, "Hello".to_string());
    assert_eq!(
        Vec::<u64>::from_mi("[ 1, 2,3,4, 5]").unwrap().1,
        vec![1, 2, 3, 4, 5]
    );

    assert_eq!(Option::<u64>::from_mi("").unwrap().1, None);
    assert_eq!(Option::<u64>::from_mi("1  0").unwrap().1, Some(1));

    assert_eq!(
        Vec::<Option::<u64>>::from_mi("[ 1, 2 ]").unwrap().1,
        vec![Some(1), Some(2)]
    );
}

#[test]
fn decoding_limits_and_failures() {
    assert_eq!(u32::from_mi("4294967295x").unwrap(), ("x".to_string(), 4294967295));
    assert!(u32::from_mi("4294967296").is_err());
    assert_eq!(
        u64::from_mi("18446744073709551615").unwrap().1,
        18446744073709551615
    );
    assert!(u64::from_mi("18446744073709551616").is_err());
    assert!(u64::from_mi("abc").is_err());
    assert!(String::from_mi("Hello").is_err());
    assert_eq!(Vec::<u64>::from_mi("[]rest").unwrap(), ("rest".to_string(), vec![]));
    assert!(Vec::<u64>::from_mi("[1, x]").is_err());
    assert!(Vec::<u64>::from_mi("[1, 2").is_err());
    assert_eq!(
        Vec::<String>::from_mi("[\"a\", \"b\"]").unwrap().1,
        vec!["a".to_string(), "b".to_string()]
    );
}
