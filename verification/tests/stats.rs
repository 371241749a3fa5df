use sabacc_core::player::Player;
use sabacc_core::hand::HandRank;
use sabacc_core::stats::{GameStats, PlayerStats};

#[test]
fn update_best_hand_from_none() {
    let mut ps = PlayerStats::new(0, 6);
    let rank = HandRank::Sabacc { pair_value: 3 };
    ps.update_best_hand(&rank);
    assert_eq!(ps.best_hand, Some(HandRank::Sabacc { pair_value: 3 }));
}

#[test]
fn update_best_hand_stronger_replaces() {
    let mut ps = PlayerStats::new(0, 6);
    ps.best_hand = Some(HandRank::Sabacc { pair_value: 3 });
    ps.update_best_hand(&HandRank::PureSabacc);
    assert_eq!(ps.best_hand, Some(HandRank::PureSabacc));
}

#[test]
fn update_best_hand_weaker_does_not_replace() {
    let mut ps = PlayerStats::new(0, 6);
    ps.best_hand = Some(HandRank::Sabacc { pair_value: 1 });
    ps.update_best_hand(&HandRank::NonSabacc { difference: 3 });
    assert_eq!(ps.best_hand, Some(HandRank::Sabacc { pair_value: 1 }));
}

#[test]
fn chips_history_starts_with_baseline() {
    let ps = PlayerStats::new(0, 6);
    assert_eq!(ps.chips_history, vec![6]);
}

#[test]
fn game_stats_new_creates_per_player() {
    let stats = GameStats::new(&[0, 1, 2], 6);
    assert_eq!(stats.player_stats.len(), 3);
    assert_eq!(stats.get(0).unwrap().player_id, 0);
    assert_eq!(stats.get(2).unwrap().chips_history, vec![6]);
}

#[test]
fn stats_get_unknown_player_is_none() {
    let stats = GameStats::new(&[0, 1], 6);
    assert!(stats.get(5).is_none());
}

#[test]
fn record_round_chips_appends_reserves() {
    let mut stats = GameStats::new(&[0, 1], 6);
    let mut p0 = Player::new(0, "A".into(), 4, false);
    p0.pot = 1;
    let p1 = Player::new(1, "B".into(), 9, false);
    stats.record_round_chips(&[p0, p1]);
    assert_eq!(stats.get(0).unwrap().chips_history, vec![6, 4]);
    assert_eq!(stats.get(1).unwrap().chips_history, vec![6, 9]);
}

#[test]
fn get_mut_writes_through() {
    let mut stats = GameStats::new(&[0, 1], 6);
    if let Some(s) = stats.get_mut(1) {
        s.rounds_won = 2;
    }
    assert_eq!(stats.get(1).unwrap().rounds_won, 2);
    assert_eq!(stats.get(0).unwrap().rounds_won, 0);
    assert!(stats.get_mut(7).is_none());
}
