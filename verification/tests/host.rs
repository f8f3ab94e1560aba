use mx4::features::host::parse;

#[test]
fn parses_host_number() {
    assert_eq!(parse("2").unwrap(), 2);
}

#[test]
fn rejects_invalid_host_number() {
    assert!(parse("4").is_err());
}

#[test]
fn host_numbers_run_from_one_to_three() {
    assert_eq!(parse("1").unwrap(), 1);
    assert_eq!(parse("3").unwrap(), 3);
    assert!(parse("0").is_err());
}
