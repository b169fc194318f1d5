use host_telemetry::numfmt::u64_to_string;

#[test]
fn renders_zero() {
    assert_eq!(u64_to_string(0), "0");
}

#[test]
fn renders_single_digit() {
    assert_eq!(u64_to_string(7), "7");
}

#[test]
fn renders_multi_digit() {
    assert_eq!(u64_to_string(42), "42");
    assert_eq!(u64_to_string(1048576), "1048576");
}

#[test]
fn renders_u64_max() {
    assert_eq!(u64_to_string(u64::MAX), "18446744073709551615");
}
