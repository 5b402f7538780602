use coral::sync_rules::{
    extract_custom_nickname, highest_tag_index, nickname_change, plan_linked_roles,
    plan_unlinked_roles, same_ids, RoleConfigField, NICKNAME_MAX_LEN,
};

#[test]
fn role_config_field_names() {
    assert_eq!(RoleConfigField::parse("link"), Some(RoleConfigField::Link));
    assert_eq!(RoleConfigField::parse("unlinked"), Some(RoleConfigField::Unlinked));
    assert_eq!(RoleConfigField::parse("Link"), None);
    assert_eq!(NICKNAME_MAX_LEN, 32);
}

#[test]
fn linked_member_gets_link_role_and_rule_roles() {
    let current = vec![5, 9, 2];
    let rules = vec![(7, true), (9, false), (5, true)];
    let plan = plan_linked_roles(&current, Some(1), Some(2), &rules);
    assert_eq!(plan.roles, vec![5, 1, 7]);
    assert!(plan.changed);
}

#[test]
fn settled_member_is_left_alone() {
    let current = vec![1, 7];
    let rules = vec![(7, true), (8, false)];
    let plan = plan_linked_roles(&current, Some(1), Some(2), &rules);
    assert_eq!(plan.roles, vec![1, 7]);
    assert!(!plan.changed);
    let again = plan_linked_roles(&plan.roles, Some(1), Some(2), &rules);
    assert_eq!(again.roles, plan.roles);
    assert!(!again.changed);
}

#[test]
fn unlinked_member_loses_rule_roles() {
    let current = vec![1, 7, 3];
    let plan = plan_unlinked_roles(&current, Some(1), Some(2), &vec![7, 8]);
    assert_eq!(plan.roles, vec![3, 2]);
    assert!(plan.changed);
    let none = plan_unlinked_roles(&vec![], None, None, &vec![]);
    assert!(none.roles.is_empty());
    assert!(!none.changed);
}

#[test]
fn same_ids_compares_order() {
    assert!(same_ids(&vec![1, 2], &vec![1, 2]));
    assert!(!same_ids(&vec![1, 2], &vec![2, 1]));
}

#[test]
fn custom_nickname_is_what_follows_the_template() {
    assert_eq!(extract_custom_nickname("[100] Steve ", Some("[100] Steve  cool guy ")), "cool guy");
    assert_eq!(extract_custom_nickname("[100] Steve", Some("Someone else")), "");
    assert_eq!(extract_custom_nickname("[100] Steve", Some("")), "");
    assert_eq!(extract_custom_nickname("[100] Steve", None), "");
    assert_eq!(extract_custom_nickname("[100] Steve", Some("[100] Steve")), "");
}

#[test]
fn nickname_changes_only_when_new() {
    assert_eq!(nickname_change("abc".to_string(), Some("abc")), None);
    assert_eq!(nickname_change("".to_string(), Some("abc")), None);
    assert_eq!(nickname_change("abd".to_string(), Some("abc")), Some("abd".to_string()));
    assert_eq!(nickname_change("abd".to_string(), None), Some("abd".to_string()));
}

#[test]
fn highest_tag_is_first_lowest_priority() {
    assert_eq!(highest_tag_index(&vec![Some(3), None, Some(1), Some(1)]), Some(2));
    assert_eq!(highest_tag_index(&vec![None, None]), None);
    assert_eq!(highest_tag_index(&vec![]), None);
}
