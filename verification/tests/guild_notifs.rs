use coral::guild_notifs::{alerts_text, tag_defaults, watch_accounts, watchers_for};

fn catalogue() -> Vec<(String, String)> {
    vec![
        ("sniper".to_string(), "Sniper".to_string()),
        ("blatant_cheater".to_string(), "Blatant Cheater".to_string()),
    ]
}

fn strings(v: &[&str]) -> Vec<String> {
    v.iter().map(|s| s.to_string()).collect()
}

#[test]
fn alerts_cover_all_tags_or_the_chosen_ones() {
    assert_eq!(alerts_text(&vec![], &catalogue()), "all tags");
    assert_eq!(alerts_text(&strings(&["blatant_cheater", "gone", "sniper"]), &catalogue()), "Blatant Cheater, Sniper");
    assert_eq!(alerts_text(&strings(&["gone"]), &catalogue()), "");
}

#[test]
fn each_account_is_offered_once() {
    let linked = strings(&["b", "a", "c", "b"]);
    assert_eq!(watch_accounts(&Some("a".to_string()), &linked), strings(&["a", "b", "c"]));
    assert_eq!(watch_accounts(&None, &linked), strings(&["b", "a", "c"]));
    assert_eq!(watch_accounts(&None, &vec![]), Vec::<String>::new());
}

#[test]
fn tag_menu_selects_the_chosen_tags() {
    let names = strings(&["sniper", "blatant_cheater", "closet_cheater"]);
    assert_eq!(tag_defaults(&names, &vec![]), vec![true, true, true]);
    assert_eq!(tag_defaults(&names, &strings(&["closet_cheater"])), vec![false, false, true]);
}

#[test]
fn watchers_are_those_alerted_for_the_tag() {
    let subs = vec![
        (1, vec![]),
        (2, strings(&["sniper"])),
        (3, strings(&["blatant_cheater"])),
    ];
    assert_eq!(watchers_for(&subs, Some("sniper")), vec![1, 2]);
    assert_eq!(watchers_for(&subs, Some("blatant_cheater")), vec![1, 3]);
    assert_eq!(watchers_for(&subs, None), Vec::<u64>::new());
}
