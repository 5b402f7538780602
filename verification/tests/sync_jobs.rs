use coral::sync_jobs::{payload_role, PayloadValue};

#[test]
fn absent_and_null_roles_are_none() {
    assert_eq!(payload_role(&PayloadValue::Missing, "role"), Ok(None));
    assert_eq!(payload_role(&PayloadValue::Null, "role"), Ok(None));
}

#[test]
fn roles_from_strings_and_numbers() {
    assert_eq!(payload_role(&PayloadValue::Text("123".to_string()), "role"), Ok(Some(123)));
    assert_eq!(payload_role(&PayloadValue::Text("+7".to_string()), "role"), Ok(Some(7)));
    assert_eq!(payload_role(&PayloadValue::Number(Some(42)), "role"), Ok(Some(42)));
}

#[test]
fn malformed_roles_are_refused() {
    let err = Err("invalid linked_role in job payload".to_string());
    assert_eq!(payload_role(&PayloadValue::Text("abc".to_string()), "linked_role"), err);
    assert_eq!(payload_role(&PayloadValue::Text("-1".to_string()), "linked_role"), err);
    assert_eq!(payload_role(&PayloadValue::Number(None), "linked_role"), err);
    assert_eq!(payload_role(&PayloadValue::Other, "linked_role"), err);
}
