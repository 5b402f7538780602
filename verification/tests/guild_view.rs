use coral::guild_view::{
    member_line, page_buttons, page_footer, paginate, parse_action, priority_order, top_priority,
    PER_PAGE,
};

#[test]
fn pages_hold_ten_members() {
    assert_eq!(PER_PAGE, 10);
    let w = paginate(0, 3);
    assert_eq!((w.page, w.pages, w.start, w.end), (0, 1, 0, 0));
    let w = paginate(25, 1);
    assert_eq!((w.page, w.pages, w.start, w.end), (1, 3, 10, 20));
    let w = paginate(25, 9);
    assert_eq!((w.page, w.pages, w.start, w.end), (2, 3, 20, 25));
    let w = paginate(20, 5);
    assert_eq!((w.page, w.pages, w.start, w.end), (1, 2, 10, 20));
}

#[test]
fn footer_only_with_several_pages() {
    assert_eq!(page_footer(0, 1), None);
    assert_eq!(page_footer(1, 3), Some("-# Page 2 of 3".to_string()));
}

#[test]
fn buttons_lead_to_neighbouring_pages() {
    let b = page_buttons("Hypixel Guild", 0, 3);
    assert_eq!(b.prev_id, "guild_pg:0:Hypixel Guild");
    assert!(b.prev_disabled);
    assert_eq!(b.next_id, "guild_pg:1:Hypixel Guild");
    assert!(!b.next_disabled);
    let b = page_buttons("g", 2, 3);
    assert_eq!(b.prev_id, "guild_pg:1:g");
    assert!(b.next_disabled);
}

#[test]
fn button_ids_read_back() {
    assert_eq!(parse_action("guild_pg:2:My:Guild", "guild_pg:"), (2, "My:Guild".to_string()));
    assert_eq!(parse_action("guild_pg:x:g", "guild_pg:"), (0, "g".to_string()));
    assert_eq!(parse_action("guild_pg:7", "guild_pg:"), (0, String::new()));
    assert_eq!(parse_action("other:1:g", "guild_pg:"), (0, String::new()));
    let b = page_buttons("q", 4, 9);
    assert_eq!(parse_action(&b.next_id, "guild_pg:"), (5, "q".to_string()));
}

#[test]
fn most_urgent_priority() {
    assert_eq!(top_priority(&vec![5, 2, 9]), 2);
    assert_eq!(top_priority(&vec![]), u8::MAX);
}

#[test]
fn members_listed_most_urgent_first_keeping_order() {
    assert_eq!(priority_order(&vec![3, 1, 3, 0, 1]), vec![3, 1, 4, 0, 2]);
    assert_eq!(priority_order(&vec![]), Vec::<usize>::new());
    assert_eq!(priority_order(&vec![255, 0]), vec![1, 0]);
}

#[test]
fn member_lines() {
    assert_eq!(member_line("Steve", Some(("<:x:1>", "Cheater"))), "<:x:1> `Steve` **Cheater**");
    assert_eq!(member_line("Steve", None), "`Steve`");
}
