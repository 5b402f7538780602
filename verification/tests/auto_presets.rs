use coral::auto_presets::{bedwars_presets, duels_presets, last_loss_time, prestige_reached_time, SnapshotPoint};

fn snap(timestamp: i64, experience: u64, losses: u64) -> SnapshotPoint {
    SnapshotPoint { timestamp, experience, losses }
}

#[test]
fn last_loss_is_the_latest_rise() {
    let s = vec![snap(10, 0, 1), snap(20, 0, 2), snap(30, 0, 2), snap(40, 0, 5), snap(50, 0, 5)];
    assert_eq!(last_loss_time(&s), Some(40));
    assert_eq!(last_loss_time(&vec![snap(10, 0, 1)]), None);
    assert_eq!(last_loss_time(&vec![snap(10, 0, 3), snap(20, 0, 3)]), None);
    assert_eq!(last_loss_time(&vec![]), None);
}

#[test]
fn prestige_is_the_first_crossing() {
    let s = vec![snap(10, 100, 0), snap(20, 600, 0), snap(30, 400, 0), snap(40, 700, 0)];
    assert_eq!(prestige_reached_time(&s, 500), Some(20));
    assert_eq!(prestige_reached_time(&s, 1000), None);
    assert_eq!(prestige_reached_time(&vec![snap(10, 900, 0), snap(20, 950, 0)], 500), None);
}

#[test]
fn bedwars_presets_in_order() {
    let s = vec![snap(10, 100, 1), snap(20, 600, 1), snap(30, 650, 2)];
    let p = bedwars_presets(&s, 250, 500);
    assert_eq!(p.len(), 2);
    assert_eq!(p[0].key, "prestige_2");
    assert_eq!(p[0].label, "Since 200\u{272B}");
    assert_eq!(p[0].timestamp, 20);
    assert_eq!(p[1].key, "last_loss");
    assert_eq!(p[1].label, "Since Last Loss");
    assert_eq!(p[1].timestamp, 30);
}

#[test]
fn bedwars_presets_below_first_prestige() {
    let s = vec![snap(10, 100, 1), snap(20, 600, 1)];
    assert_eq!(bedwars_presets(&s, 99, 0).len(), 0);
    assert_eq!(bedwars_presets(&vec![], 300, 10).len(), 0);
}

#[test]
fn duels_presets_since_loss() {
    let s = vec![snap(10, 0, 1), snap(20, 0, 2)];
    let p = duels_presets(&s);
    assert_eq!(p.len(), 1);
    assert_eq!(p[0].key, "since_loss");
    assert_eq!(p[0].label, "Since Last Loss");
    assert_eq!(p[0].timestamp, 20);
    assert_eq!(duels_presets(&vec![snap(1, 0, 0)]).len(), 0);
}
