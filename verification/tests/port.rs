use xray_sub::json::Json;
use xray_sub::port::{parse_port_text, parse_port_value, PortError};

#[test]
fn integers_in_range_are_ports() {
    assert_eq!(parse_port_value(&Json::PosInt(0)), Ok(0));
    assert_eq!(parse_port_value(&Json::PosInt(443)), Ok(443));
    assert_eq!(parse_port_value(&Json::PosInt(65535)), Ok(65535));
}

#[test]
fn every_port_number_is_accepted() {
    for p in 0..=65535u64 {
        assert_eq!(parse_port_value(&Json::PosInt(p)), Ok(p as u16));
    }
}

#[test]
fn integers_out_of_range_are_refused() {
    assert_eq!(parse_port_value(&Json::PosInt(65536)), Err(PortError::OutOfRange));
    assert_eq!(parse_port_value(&Json::PosInt(u64::MAX)), Err(PortError::OutOfRange));
    assert_eq!(parse_port_value(&Json::NegInt(-1)), Err(PortError::OutOfRange));
    assert_eq!(parse_port_value(&Json::NegInt(i64::MIN)), Err(PortError::OutOfRange));
}

#[test]
fn strings_of_digits_are_ports() {
    assert_eq!(parse_port_value(&Json::string("8080")), Ok(8080));
    assert_eq!(parse_port_value(&Json::string("+80")), Ok(80));
    assert_eq!(parse_port_value(&Json::string("000443")), Ok(443));
    assert_eq!(parse_port_value(&Json::string("65535")), Ok(65535));
}

#[test]
fn other_strings_are_refused() {
    for s in ["", "+", "-1", "65536", "99999999999999999999", "80 ", " 80", "8o", "0x50", "++1", "٣"] {
        assert_eq!(parse_port_value(&Json::string(s)), Err(PortError::InvalidString));
    }
}

#[test]
fn other_values_are_unsupported() {
    assert_eq!(parse_port_value(&Json::Null), Err(PortError::Unsupported));
    assert_eq!(parse_port_value(&Json::Bool(true)), Err(PortError::Unsupported));
    assert_eq!(parse_port_value(&Json::Float("443.0".to_string())), Err(PortError::Unsupported));
    assert_eq!(parse_port_value(&Json::Array(vec![Json::PosInt(1)])), Err(PortError::Unsupported));
}

#[test]
fn port_text_agrees_with_std() {
    for s in ["0", "1", "65535", "65536", "+1", "+", "", "-0", "12a", "0000000000000000001", "655350"] {
        assert_eq!(parse_port_text(s), s.parse::<u16>().ok());
    }
}

#[test]
fn errors_say_what_went_wrong() {
    assert_eq!(PortError::OutOfRange.message(), "port out of range");
    assert_eq!(PortError::InvalidString.message(), "invalid port string");
    assert_eq!(PortError::Unsupported.message(), "unsupported port value");
}
