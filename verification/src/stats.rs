//! Per-player statistics gathered during a game.

use vstd::prelude::*;

use crate::hand::{key_lt, HandRank};
use crate::player::Player;
use crate::PlayerId;

verus! {

/// Per-player statistics tracked during the game.
#[derive(Debug, Clone, PartialEq, Eq)]
pub struct PlayerStats {
    /// The player this stats entry belongs to.
    pub player_id: PlayerId,
    /// Number of rounds won.
    pub rounds_won: u8,
    /// Number of rounds played.
    pub rounds_played: u8,
    /// Total draw actions taken.
    pub draws_count: u16,
    /// Total stand actions taken.
    pub stands_count: u16,
    /// Number of shift tokens played.
    pub tokens_played: u8,
    /// Chips lost to round-end penalties.
    pub chips_lost_to_penalties: u16,
    /// Chips lost to tariff shift tokens.
    pub chips_lost_to_tariffs: u16,
    /// Best hand achieved during the game (lowest strength_key).
    pub best_hand: Option<HandRank>,
    /// Chips at each round boundary. Index 0 = game start, index N = after round N.
    pub chips_history: Vec<u8>,
}

/// The best hand after seeing `rank`: it replaces the current best only when it is
/// strictly stronger (lower strength key), or when there is no best hand yet.
pub open spec fn better_hand(best: Option<HandRank>, rank: HandRank) -> Option<HandRank> {
    match best {
        None => Some(rank),
        Some(current) => if key_lt(rank.spec_strength_key(), current.spec_strength_key()) {
            Some(rank)
        } else {
            Some(current)
        },
    }
}

impl PlayerStats {
    /// Fresh statistics: zero counters, no best hand, and the starting chips as the
    /// first point of the chip history.
    pub open spec fn is_fresh(self, player_id: PlayerId, starting_chips: u8) -> bool {
        &&& self.player_id == player_id
        &&& self.rounds_won == 0
        &&& self.rounds_played == 0
        &&& self.draws_count == 0
        &&& self.stands_count == 0
        &&& self.tokens_played == 0
        &&& self.chips_lost_to_penalties == 0
        &&& self.chips_lost_to_tariffs == 0
        &&& self.best_hand is None
        &&& self.chips_history@ == seq![starting_chips]
    }

    /// Create a new `PlayerStats` with starting chip baseline.
    pub fn new(player_id: PlayerId, starting_chips: u8) -> (s: PlayerStats)
        ensures
            s.is_fresh(player_id, starting_chips),
    {
        let mut history: Vec<u8> = Vec::new();
        history.push(starting_chips);
        PlayerStats {
            player_id,
            rounds_won: 0,
            rounds_played: 0,
            draws_count: 0,
            stands_count: 0,
            tokens_played: 0,
            chips_lost_to_penalties: 0,
            chips_lost_to_tariffs: 0,
            best_hand: None,
            chips_history: history,
        }
    }

    /// Update best_hand if the new rank is stronger (lower strength_key).
    pub fn update_best_hand(&mut self, rank: &HandRank)
        ensures
            *final(self) == (PlayerStats { best_hand: better_hand(old(self).best_hand, *rank), ..*old(self) }),
    {
        let dominated = match &self.best_hand {
            None => true,
            Some(current) => {
                let a = rank.strength_key();
                let b = current.strength_key();
                a.0 < b.0 || (a.0 == b.0 && a.1 < b.1)
            },
        };
        if dominated {
            self.best_hand = Some(*rank);
        }
    }
}

/// Aggregate game statistics.
#[derive(Debug, Clone, PartialEq, Eq)]
pub struct GameStats {
    /// Per-player statistics.
    pub player_stats: Vec<PlayerStats>,
}

/// `i` is the first entry of `s` that belongs to `player_id`.
pub open spec fn is_first_stats(s: Seq<PlayerStats>, player_id: PlayerId, i: int) -> bool {
    &&& 0 <= i < s.len()
    &&& s[i].player_id == player_id
    &&& forall|j: int| 0 <= j < i ==> (#[trigger] s[j]).player_id != player_id
}

/// The position of the first entry belonging to `player_id`, or -1 when there is none.
pub open spec fn stats_index(s: Seq<PlayerStats>, player_id: PlayerId) -> int {
    if exists|i: int| is_first_stats(s, player_id, i) {
        choose|i: int| is_first_stats(s, player_id, i)
    } else {
        -1
    }
}

/// The first entry of a sequence with a given id is unique.
pub proof fn lemma_first_stats_unique(s: Seq<PlayerStats>, player_id: PlayerId, i: int)
    requires
        is_first_stats(s, player_id, i),
    ensures
        stats_index(s, player_id) == i,
{
    let k = stats_index(s, player_id);
    assert(is_first_stats(s, player_id, k));
    if k < i {
        assert(s[k].player_id != player_id);
    } else if i < k {
        assert(s[i].player_id != player_id);
    }
}

/// No entry of a sequence belongs to `player_id`.
pub proof fn lemma_no_stats(s: Seq<PlayerStats>, player_id: PlayerId)
    requires
        forall|j: int| 0 <= j < s.len() ==> (#[trigger] s[j]).player_id != player_id,
    ensures
        stats_index(s, player_id) == -1,
{
}

/// The chips that recording the players in `players` appends to entry `k`: the reserve
/// of each player, in order, whose first statistics entry is `k`.
pub open spec fn recorded_chips(s: Seq<PlayerStats>, players: Seq<Player>, k: int) -> Seq<u8>
    decreases players.len(),
{
    if players.len() == 0 {
        Seq::empty()
    } else {
        let rest = recorded_chips(s, players.drop_last(), k);
        if stats_index(s, players.last().id) == k {
            rest.push(players.last().chips)
        } else {
            rest
        }
    }
}

/// Two statistics sequences with the same ids find the same first entry for any id.
pub proof fn lemma_stats_index_same_ids(a: Seq<PlayerStats>, b: Seq<PlayerStats>, player_id: PlayerId)
    requires
        a.len() == b.len(),
        forall|k: int| 0 <= k < a.len() ==> (#[trigger] b[k]).player_id == a[k].player_id,
    ensures
        stats_index(a, player_id) == stats_index(b, player_id),
{
    if exists|j: int| is_first_stats(a, player_id, j) {
        let j = choose|j: int| is_first_stats(a, player_id, j);
        assert forall|i: int| 0 <= i < j implies (#[trigger] b[i]).player_id != player_id by {
            assert(a[i].player_id != player_id);
        }
        assert(is_first_stats(b, player_id, j));
        lemma_first_stats_unique(a, player_id, j);
        lemma_first_stats_unique(b, player_id, j);
    } else {
        assert forall|j: int| !is_first_stats(b, player_id, j) by {
            if is_first_stats(b, player_id, j) {
                assert forall|i: int| 0 <= i < j implies (#[trigger] a[i]).player_id != player_id by {
                    assert(b[i].player_id != player_id);
                }
                assert(is_first_stats(a, player_id, j));
            }
        }
    }
}

impl GameStats {
    /// Find the position of the first statistics entry of a player.
    pub fn find_index(&self, player_id: PlayerId) -> (r: Option<usize>)
        ensures
            r matches Some(i) ==> stats_index(self.player_stats@, player_id) == i,
            r is None ==> stats_index(self.player_stats@, player_id) == -1,
    {
        let mut i: usize = 0;
        while i < self.player_stats.len()
            invariant
                i <= self.player_stats@.len(),
                forall|j: int| 0 <= j < i ==> (#[trigger] self.player_stats@[j]).player_id != player_id,
            decreases self.player_stats.len() - i,
        {
            if self.player_stats[i].player_id == player_id {
                proof {
                    lemma_first_stats_unique(self.player_stats@, player_id, i as int);
                }
                return Some(i);
            }
            i = i + 1;
        }
        proof {
            lemma_no_stats(self.player_stats@, player_id);
        }
        None
    }

    /// Create stats for all players with starting chip baselines.
    pub fn new(player_ids: &[PlayerId], starting_chips: u8) -> (g: GameStats)
        ensures
            g.player_stats@.len() == player_ids@.len(),
            forall|i: int| 0 <= i < player_ids@.len() ==> (#[trigger] g.player_stats@[i]).is_fresh(
                player_ids@[i],
                starting_chips,
            ),
    {
        let mut v: Vec<PlayerStats> = Vec::new();
        let mut i: usize = 0;
        while i < player_ids.len()
            invariant
                i <= player_ids@.len(),
                v@.len() == i,
                forall|k: int| 0 <= k < i ==> (#[trigger] v@[k]).is_fresh(player_ids@[k], starting_chips),
            decreases player_ids.len() - i,
        {
            v.push(PlayerStats::new(player_ids[i], starting_chips));
            i = i + 1;
        }
        GameStats { player_stats: v }
    }

    /// Get stats for a player.
    pub fn get(&self, player_id: PlayerId) -> (r: Option<&PlayerStats>)
        ensures
            stats_index(self.player_stats@, player_id) >= 0 ==> r == Some(
                &self.player_stats@[stats_index(self.player_stats@, player_id)],
            ),
            stats_index(self.player_stats@, player_id) < 0 ==> r is None,
    {
        match self.find_index(player_id) {
            Some(i) => Some(&self.player_stats[i]),
            None => None,
        }
    }

    /// Get mutable stats for a player: what is written through the reference becomes the
    /// player's entry, and nothing else changes.
    pub fn get_mut(&mut self, player_id: PlayerId) -> (r: Option<&mut PlayerStats>)
        ensures
            stats_index(old(self).player_stats@, player_id) < 0 ==> r is None && *final(self) == *old(self),
            stats_index(old(self).player_stats@, player_id) >= 0 ==> r is Some,
            r matches Some(p) ==> {
                let k = stats_index(old(self).player_stats@, player_id);
                &&& *p == old(self).player_stats@[k]
                &&& final(self).player_stats@ == old(self).player_stats@.update(k, *final(p))
            },
    {
        match self.find_index(player_id) {
            Some(i) => Some(&mut self.player_stats[i]),
            None => None,
        }
    }

    /// Record chip snapshots for all players at end of round.
    pub fn record_round_chips(&mut self, players: &[Player])
        ensures
            final(self).player_stats@.len() == old(self).player_stats@.len(),
            forall|k: int| 0 <= k < old(self).player_stats@.len() ==> {
                let before = #[trigger] old(self).player_stats@[k];
                let after = final(self).player_stats@[k];
                &&& after.chips_history@ == before.chips_history@ + recorded_chips(
                    old(self).player_stats@,
                    players@,
                    k,
                )
                &&& after == (PlayerStats { chips_history: after.chips_history, ..before })
            },
    {
        let ghost s0 = self.player_stats@;
        let mut i: usize = 0;
        while i < players.len()
            invariant
                i <= players@.len(),
                self.player_stats@.len() == s0.len(),
                forall|k: int| 0 <= k < s0.len() ==> (#[trigger] self.player_stats@[k]).player_id == s0[k].player_id,
                forall|k: int| 0 <= k < s0.len() ==> {
                    let before = #[trigger] s0[k];
                    let after = self.player_stats@[k];
                    &&& after.chips_history@ == before.chips_history@ + recorded_chips(
                        s0,
                        players@.take(i as int),
                        k,
                    )
                    &&& after == (PlayerStats { chips_history: after.chips_history, ..before })
                },
            decreases players.len() - i,
        {
            let id = players[i].id;
            let chips = players[i].chips;
            let ghost cur = self.player_stats@;
            proof {
                lemma_stats_index_same_ids(s0, cur, id);
            }
            let found = self.find_index(id);
            if let Some(k) = found {
                self.player_stats[k].chips_history.push(chips);
            }
            proof {
                let pre = players@.take(i as int);
                let post = players@.take(i + 1);
                assert(post.drop_last() =~= pre);
                assert(post.last() == players@[i as int]);
                assert forall|k: int| 0 <= k < s0.len() implies {
                    let before = #[trigger] s0[k];
                    let after = self.player_stats@[k];
                    &&& after.chips_history@ == before.chips_history@ + recorded_chips(s0, post, k)
                    &&& after == (PlayerStats { chips_history: after.chips_history, ..before })
                } by {
                    let rest = recorded_chips(s0, pre, k);
                    assert(recorded_chips(s0, post, k) == (if stats_index(s0, id) == k {
                        rest.push(chips)
                    } else {
                        rest
                    }));
                    if stats_index(s0, id) == k {
                        assert(s0[k].chips_history@ + rest.push(chips) =~= (s0[k].chips_history@
                            + rest).push(chips));
                    }
                }
            }
            i = i + 1;
        }
        assert(players@.take(players@.len() as int) =~= players@);
    }
}

} // verus!
