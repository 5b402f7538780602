use coral::stats_text::{
    bookmark_slots, card_is_fresh, card_switch, col_x, format_division_name, format_duration, roman,
    sanitize, session_placeholder, view_display_name, CardSwitch, CACHE_TTL_SECS,
};

#[test]
fn names_and_views() {
    assert_eq!(sanitize("a_b*c"), "a\\_b\\*c");
    assert_eq!(sanitize("plain"), "plain");
    assert_eq!(view_display_name("marker:grind"), "grind");
    assert_eq!(view_display_name("daily"), "daily");
}

#[test]
fn durations() {
    assert_eq!(format_duration(0), "1m");
    assert_eq!(format_duration(-50), "1m");
    assert_eq!(format_duration(59), "1m");
    assert_eq!(format_duration(125), "2m");
    assert_eq!(format_duration(3600), "1h");
    assert_eq!(format_duration(3 * 3600 + 7 * 60 + 5), "3h 7m");
    assert_eq!(format_duration(86400 * 3 + 5), "3d");
}

#[test]
fn roman_numerals_and_divisions() {
    assert_eq!(roman(0), "");
    assert_eq!(roman(4), "IV");
    assert_eq!(roman(9), "IX");
    assert_eq!(roman(1994), "MCMXCIV");
    assert_eq!(format_division_name("None", 3), "-");
    assert_eq!(format_division_name("Gold", 0), "-");
    assert_eq!(format_division_name("Gold", 1), "Gold");
    assert_eq!(format_division_name("Gold", 4), "Gold IV");
    assert_eq!(col_x(0), 0);
    assert_eq!(col_x(1), 272);
    assert_eq!(col_x(2), 544);
    assert_eq!(col_x(9), 0);
}

#[test]
fn cached_cards() {
    assert_eq!(CACHE_TTL_SECS, 120);
    assert_eq!(card_switch(false, 0, 1, 1), CardSwitch::Expired);
    assert_eq!(card_switch(true, 121, 1, 1), CardSwitch::Expired);
    assert_eq!(card_switch(true, 120, 1, 2), CardSwitch::Ephemeral);
    assert_eq!(card_switch(true, 5, 1, 1), CardSwitch::Update);
    assert!(card_is_fresh(120));
    assert!(!card_is_fresh(121));
}

#[test]
fn session_menus() {
    assert_eq!(bookmark_slots(8, true), 16);
    assert_eq!(bookmark_slots(8, false), 17);
    let periods = vec![("daily".to_string(), "Daily".to_string())];
    let presets = vec![("last".to_string(), "Last Game".to_string())];
    assert_eq!(session_placeholder("daily", &periods, &presets), "Daily");
    assert_eq!(session_placeholder("past_7d", &periods, &presets), "Past 7 Days");
    assert_eq!(session_placeholder("preset:last", &periods, &presets), "Last Game");
    assert_eq!(session_placeholder("marker:grind", &periods, &presets), "grind");
    assert_eq!(session_placeholder("other", &periods, &presets), "other");
}
