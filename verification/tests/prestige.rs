use coral::prestige::{
    bracket_by_id, prestige_code, prestige_color_codes, prestige_text, pretty_scheme_name,
    random_candidates, resolve_cosmetics, resolve_slot, resolve_slot_with, scheme_by_name,
    scheme_for_level, star_by_id, star_for_level, CosmeticSlot, Cosmetics,
};

#[test]
fn schemes_by_level_and_name() {
    assert_eq!(scheme_for_level(0).name, "none");
    assert_eq!(scheme_for_level(199).name, "iron");
    assert_eq!(scheme_for_level(200).name, "gold");
    assert_eq!(scheme_for_level(4_000_000).name, scheme_for_level(10000).name);
    assert_eq!(scheme_by_name("prestige_scheme_gold").unwrap().name, "gold");
    assert!(scheme_by_name("gold").is_none());
    assert!(scheme_by_name("prestige_scheme_nonexistent").is_none());
}

#[test]
fn stars_and_brackets() {
    assert_eq!(star_for_level(999), "\u{272b}");
    assert_eq!(star_for_level(1000), "\u{272a}");
    assert_eq!(star_for_level(2500), "\u{269d}");
    assert_eq!(star_for_level(3000), "\u{2725}");
    assert_eq!(star_for_level(9000), "\u{272d}");
    assert_eq!(star_by_id("star_hollow"), Some("\u{2730}"));
    assert_eq!(star_by_id("star_unknown"), None);
    assert_eq!(bracket_by_id("prestige_bracket_curly"), Some(("{", "}")));
    assert_eq!(bracket_by_id("prestige_bracket_double_angle_quotation_mark"), Some(("\u{ab}", "\u{bb}")));
    assert_eq!(bracket_by_id("curly"), None);
}

#[test]
fn scheme_names_read_as_titles() {
    assert_eq!(pretty_scheme_name("iron_prime"), "Iron Prime");
    assert_eq!(pretty_scheme_name("gold"), "Gold");
    assert_eq!(pretty_scheme_name("_a"), " A");
    assert_eq!(pretty_scheme_name(""), "");
    assert_eq!(pretty_scheme_name("none"), "None");
    assert_eq!(pretty_scheme_name("time_undone"), "Time Undone");
    assert_eq!(pretty_scheme_name("x-ray"), "X-ray");
    assert_eq!(pretty_scheme_name("a__b"), "A  B");
}

#[test]
fn single_colour_prestige_code_merges_runs() {
    assert_eq!(prestige_code(100), "\u{a7}f[100\u{272b}]");
    let codes = prestige_color_codes();
    let lines: Vec<&str> = codes.split('\n').collect();
    assert_eq!(lines.len(), 100);
    assert_eq!(lines[0], "Iron `\u{a7}f[100\u{272b}]`");
}

#[test]
fn prestige_text_with_default_and_chosen_cosmetics() {
    let plain = prestige_text(100, &Cosmetics::default());
    assert_eq!(plain, "\u{a7}f[\u{a7}f1\u{a7}f0\u{a7}f0\u{a7}f\u{272b}\u{a7}f]");
    let mut c = Cosmetics::default();
    c.scheme.active = Some("prestige_scheme_gold".to_string());
    c.star.active = Some("star_hollow".to_string());
    c.bracket.active = Some("prestige_bracket_curly".to_string());
    let chosen = prestige_text(7, &c);
    assert_eq!(chosen, "\u{a7}6{\u{a7}67\u{a7}6\u{2730}\u{a7}6}");
    c.star.active = Some("star_unknown".to_string());
    assert_eq!(prestige_text(7, &c), "\u{a7}6{\u{a7}67\u{a7}6\u{272b}\u{a7}6}");
}

fn slot(active: Option<&str>, unlocked: &[&str], favorites: &[&str]) -> CosmeticSlot {
    CosmeticSlot {
        active: active.map(|s| s.to_string()),
        unlocked: unlocked.iter().map(|s| s.to_string()).collect(),
        favorites: favorites.iter().map(|s| s.to_string()).collect(),
    }
}

#[test]
fn random_selectors_pick_owned_known_cosmetics() {
    let known = vec!["prestige_scheme_gold".to_string(), "prestige_scheme_iron".to_string()];
    let unlocked = vec!["bogus".to_string(), "prestige_scheme_iron".to_string()];
    assert_eq!(random_candidates(&unlocked, &known), vec!["prestige_scheme_iron".to_string()]);
    let s = slot(Some("random_cosmetic"), &["bogus", "prestige_scheme_iron"], &[]);
    assert_eq!(resolve_slot(&s, "prestige_scheme_", &known).active.as_deref(), Some("prestige_scheme_iron"));
    let f = slot(Some("random_favorite_cosmetic"), &[], &["gold"]);
    assert_eq!(resolve_slot(&f, "prestige_scheme_", &known).active.as_deref(), Some("prestige_scheme_gold"));
    let empty = slot(Some("random_cosmetic"), &[], &[]);
    assert_eq!(resolve_slot(&empty, "prestige_scheme_", &known).active.as_deref(), Some("random_cosmetic"));
    let fixed = slot(Some("prestige_scheme_gold"), &["x"], &["y"]);
    let r = resolve_slot(&fixed, "prestige_scheme_", &known);
    assert_eq!(r.active.as_deref(), Some("prestige_scheme_gold"));
    assert!(r.unlocked.is_empty() && r.favorites.is_empty());
    let two = slot(Some("random_favorite_cosmetic"), &[], &["a", "b"]);
    assert_eq!(resolve_slot_with(&two, "p_", &known, 1).active.as_deref(), Some("p_b"));
    assert_eq!(resolve_slot_with(&two, "p_", &known, 5).active.as_deref(), Some("random_favorite_cosmetic"));
}

#[test]
fn resolving_all_slots() {
    let c = Cosmetics {
        scheme: slot(Some("random_cosmetic"), &["prestige_scheme_gold"], &[]),
        star: slot(Some("random_favorite_cosmetic"), &[], &["hollow"]),
        bracket: slot(None, &[], &[]),
    };
    let r = resolve_cosmetics(&c);
    assert_eq!(r.scheme.active.as_deref(), Some("prestige_scheme_gold"));
    assert_eq!(r.star.active.as_deref(), Some("star_hollow"));
    assert_eq!(r.bracket.active, None);
}
