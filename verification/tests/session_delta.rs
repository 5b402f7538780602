use coral::session_delta::{breakdown_delta, summary_delta, BreakdownCounts, DuelsCounts, DuelsDelta, ModeCounts};

fn counts(wins: u64, losses: u64, kills: u64, deaths: u64) -> ModeCounts {
    ModeCounts {
        wins,
        losses,
        kills,
        deaths,
        melee_hits: 10,
        melee_swings: 20,
        bow_hits: 0,
        bow_shots: 0,
        goals: 0,
    }
}

#[test]
fn summary_is_saturating_difference() {
    let d = summary_delta(&counts(10, 5, 3, 1), &counts(7, 6, 3, 0));
    assert_eq!((d.wins, d.losses, d.kills, d.deaths), (3, 0, 0, 1));
    assert_eq!(d.melee_hits, 0);
}

#[test]
fn breakdown_keeps_played_modes() {
    let current = vec![
        BreakdownCounts { label: "Sumo".to_string(), counts: counts(5, 2, 0, 0), carried: () },
        BreakdownCounts { label: "UHC".to_string(), counts: counts(1, 1, 1, 1), carried: () },
        BreakdownCounts { label: "Bridge".to_string(), counts: counts(3, 0, 0, 0), carried: () },
    ];
    let previous = vec![
        BreakdownCounts { label: "Sumo".to_string(), counts: counts(4, 2, 0, 0), carried: () },
        BreakdownCounts { label: "UHC".to_string(), counts: counts(1, 1, 1, 1), carried: () },
    ];
    let rows = breakdown_delta(&current, &previous);
    assert_eq!(rows.len(), 2);
    assert_eq!(rows[0].0, 0);
    assert_eq!(rows[0].1.wins, 1);
    assert_eq!(rows[1].0, 2);
    assert_eq!(rows[1].1.wins, 3);
}

#[test]
fn last_previous_entry_with_a_label_counts() {
    let current = vec![BreakdownCounts { label: "Sumo".to_string(), counts: counts(9, 0, 0, 0), carried: () }];
    let previous = vec![
        BreakdownCounts { label: "Sumo".to_string(), counts: counts(1, 0, 0, 0), carried: () },
        BreakdownCounts { label: "Sumo".to_string(), counts: counts(6, 0, 0, 0), carried: () },
    ];
    let rows = breakdown_delta(&current, &previous);
    assert_eq!(rows.len(), 1);
    assert_eq!(rows[0].1.wins, 3);
}

#[test]
fn same_stats_add_nothing_on_concrete_stats() {
    let c = counts(10, 5, 3, 1);
    let d = summary_delta(&c, &c);
    assert_eq!((d.wins, d.losses, d.kills, d.deaths, d.melee_hits), (0, 0, 0, 0, 0));
    let rows = vec![
        BreakdownCounts { label: "Bridge".to_string(), counts: counts(4, 1, 0, 0), carried: () },
        BreakdownCounts { label: "Sumo".to_string(), counts: counts(2, 2, 2, 2), carried: () },
    ];
    assert!(breakdown_delta(&rows, &rows).is_empty());
}

#[test]
fn start_plus_delta_is_end() {
    let p = counts(7, 2, 1, 0);
    let c = counts(10, 5, 3, 1);
    let d = summary_delta(&c, &p);
    assert_eq!((p.wins + d.wins, p.losses + d.losses, p.kills + d.kills, p.deaths + d.deaths), (10, 5, 3, 1));
}

#[test]
fn deltas_from_two_views() {
    let current = DuelsCounts {
        carried: "Overall".to_string(),
        summary: counts(10, 5, 3, 1),
        breakdown: vec![
            BreakdownCounts { label: "UHC".to_string(), counts: counts(4, 2, 0, 0), carried: ("Iron", 0u32) },
            BreakdownCounts { label: "Bow".to_string(), counts: counts(6, 3, 3, 1), carried: ("Gold", 4u32) },
        ],
    };
    let previous = DuelsCounts {
        carried: "Old".to_string(),
        summary: counts(7, 4, 3, 1),
        breakdown: vec![
            BreakdownCounts { label: "Bow".to_string(), counts: counts(3, 2, 3, 1), carried: ("Iron", 9u32) },
            BreakdownCounts { label: "UHC".to_string(), counts: counts(4, 2, 0, 0), carried: ("Iron", 0u32) },
        ],
    };
    let d = DuelsDelta::from_views(&current, &previous);
    assert_eq!((d.summary.wins, d.summary.losses, d.summary.kills), (3, 1, 0));
    assert_eq!(d.breakdown.len(), 1);
    assert_eq!(d.carried, "Overall");
    assert_eq!(d.breakdown[0].label, "Bow");
    assert_eq!(d.breakdown[0].carried, ("Gold", 4));
    assert_eq!((d.breakdown[0].counts.wins, d.breakdown[0].counts.losses), (3, 1));
}
