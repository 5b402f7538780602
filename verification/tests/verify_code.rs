use coral::verify_code::{code_key, code_value, parse_code_value, VerifiedPlayer, CODE_TTL_SECS};

#[test]
fn keys_and_values() {
    assert_eq!(CODE_TTL_SECS, 120);
    assert_eq!(code_key("ABC123"), "verify:ABC123");
    let uuid: u128 = 0x069a79f444e94726a5befca90e38aaf5;
    assert_eq!(code_value(uuid, "Notch"), "069a79f444e94726a5befca90e38aaf5:Notch");
    assert_eq!(code_value(1, "x"), "00000000000000000000000000000001:x");
}

#[test]
fn stored_values_read_back() {
    let uuid: u128 = 0x069a79f444e94726a5befca90e38aaf5;
    let v = code_value(uuid, "Notch");
    assert_eq!(parse_code_value(&v), Some(VerifiedPlayer { uuid, username: "Notch".to_string() }));
    let v = code_value(u128::MAX, "a:b");
    assert_eq!(parse_code_value(&v), Some(VerifiedPlayer { uuid: u128::MAX, username: "a:b".to_string() }));
}

#[test]
fn malformed_values_are_refused() {
    assert_eq!(parse_code_value("no colon"), None);
    assert_eq!(parse_code_value("not-a-uuid:name"), None);
    assert_eq!(
        parse_code_value("069a79f4-44e9-4726-a5be-fca90e38aaf5:Notch"),
        Some(VerifiedPlayer { uuid: 0x069a79f444e94726a5befca90e38aaf5, username: "Notch".to_string() })
    );
}
