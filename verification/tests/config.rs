use coral::config::{is_owner, parse_id, parse_owner_ids};

#[test]
fn owner_ids_skip_malformed_entries() {
    assert_eq!(parse_owner_ids("1, 22 ,x,,333"), vec![1, 22, 333]);
    assert_eq!(parse_owner_ids(""), Vec::<u64>::new());
    assert_eq!(parse_owner_ids("-4,+5"), vec![5]);
}

#[test]
fn ids_are_trimmed() {
    assert_eq!(parse_id(" 42\n"), Some(42));
    assert_eq!(parse_id("4 2"), None);
    assert_eq!(parse_id(""), None);
}

#[test]
fn owners_are_those_listed() {
    let owners = parse_owner_ids("5,9");
    assert!(is_owner(&owners, 9));
    assert!(!is_owner(&owners, 6));
    assert!(!is_owner(&vec![], 5));
}
