use supmcu_rs::cli::{parse_hex, parse_module, parse_tlm, ModuleOption, TelemetryOption};

#[test]
fn parse_hex_test() {
    assert_eq!(parse_hex("0x2a").unwrap(), 42);
}

#[test]
fn parse_tlm_test() {
    assert_eq!(parse_tlm("5").unwrap(), TelemetryOption::Index(5));
    assert_eq!(
        parse_tlm("important number").unwrap(),
        TelemetryOption::Name("important number".into())
    );
}

#[test]
fn parse_module_test() {
    assert_eq!(parse_module("0x2a").unwrap(), ModuleOption::Address(42));
    assert_eq!(
        parse_module("cool module").unwrap(),
        ModuleOption::Name("cool module".into())
    );
}

#[test]
fn parse_hex_edge_cases() {
    // Every leading `0x` is stripped before the digits are read.
    assert_eq!(parse_hex("0x0x2a").unwrap(), 42);
    // Uppercase digits, a bare number, and a leading plus all parse.
    assert_eq!(parse_hex("FF").unwrap(), 255);
    assert_eq!(parse_hex("+2a").unwrap(), 42);
    // Out-of-range and malformed addresses are refused, and a minus sign
    // never parses for an unsigned address.
    assert!(parse_hex("10000").is_err());
    assert!(parse_hex("zz").is_err());
    assert!(parse_hex("").is_err());
    assert!(parse_hex("0x").is_err());
    assert!(parse_hex("-0").is_err());
    assert!(parse_hex("-2a").is_err());
}

#[test]
fn parse_tlm_prefers_indexes() {
    assert_eq!(parse_tlm("0").unwrap(), TelemetryOption::Index(0));
    // A hex-looking name is a name: telemetry indexes are decimal.
    assert_eq!(
        parse_tlm("0x2a").unwrap(),
        TelemetryOption::Name("0x2a".into())
    );
    assert_eq!(
        parse_tlm("12 volts").unwrap(),
        TelemetryOption::Name("12 volts".into())
    );
    // A minus sign never parses as an index, even on zero.
    assert_eq!(parse_tlm("-0").unwrap(), TelemetryOption::Name("-0".into()));
}
