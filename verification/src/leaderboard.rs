use vstd::prelude::*;
use crate::gamestate::{GameModel, GameState};
use crate::player::PlayerModel;

verus! {

/// The length of the chain of the player at index `p`.
pub open spec fn length_of<S>(players: Seq<PlayerModel<S>>, p: int) -> nat {
    players[p].snake.segments.len()
}

/// Whether the player at index `a` ranks before the one at index `b`: it has
/// the longer chain, or one of the same length and joined earlier.
pub open spec fn ranks_before<S>(players: Seq<PlayerModel<S>>, a: int, b: int) -> bool {
    length_of(players, a) > length_of(players, b) || (length_of(players, a) == length_of(
        players,
        b,
    ) && a < b)
}

/// Whether `order` lists the indices of all the players by rank: every player
/// occurs, and whoever stands earlier ranks before whoever stands later.
pub open spec fn is_ranking<S>(players: Seq<PlayerModel<S>>, order: Seq<usize>) -> bool {
    &&& order.len() == players.len()
    &&& forall|k: int| 0 <= k < order.len() ==> (#[trigger] order[k]) < players.len()
    &&& forall|a: int, b: int|
        0 <= a < b < order.len() ==> ranks_before(
            players,
            (#[trigger] order[a]) as int,
            (#[trigger] order[b]) as int,
        )
    &&& forall|p: usize| p < players.len() ==> #[trigger] order.contains(p)
}

/// The ids of the players in the given order.
pub open spec fn ids_in_order<S>(players: Seq<PlayerModel<S>>, order: Seq<usize>) -> Seq<u64> {
    Seq::new(order.len(), |k: int| players[order[k] as int].id)
}

/// The indices of the players by rank.
pub open spec fn ranking<S>(players: Seq<PlayerModel<S>>) -> Seq<usize> {
    choose|order: Seq<usize>| is_ranking(players, order)
}

/// The ids of the players by rank: longest chain first, and among chains of
/// one length whoever joined first.
pub open spec fn leaderboard_of<S>(players: Seq<PlayerModel<S>>) -> Seq<u64> {
    ids_in_order(players, ranking(players))
}

/// A newcomer finds its place in a ranking of those before it: behind
/// everyone whose chain is at least as long, before everyone with a shorter
/// one.
pub proof fn lemma_insert_keeps_ranking<S>(players: Seq<PlayerModel<S>>, prev: Seq<usize>, pos: int)
    requires
        0 < players.len() <= usize::MAX,
        is_ranking(players.drop_last(), prev),
        0 <= pos <= prev.len(),
        forall|k: int|
            0 <= k < pos ==> length_of(players, (#[trigger] prev[k]) as int) >= length_of(
                players,
                players.len() - 1,
            ),
        pos < prev.len() ==> length_of(players, prev[pos] as int) < length_of(
            players,
            players.len() - 1,
        ),
    ensures
        is_ranking(players, prev.insert(pos, (players.len() - 1) as usize)),
{
    let i = (players.len() - 1) as usize;
    let next = prev.insert(pos, i);
    assert forall|p: usize| p < players.len() implies #[trigger] next.contains(p) by {
        if p == i {
            assert(next[pos] == p);
        } else {
            assert(prev.contains(p));
            let m = choose|m: int| 0 <= m < prev.len() && prev[m] == p;
            if m < pos {
                assert(next[m] == p);
            } else {
                assert(next[m + 1] == p);
            }
        }
    }
}

/// The first place in `order`, from `from` on, that holds a player whose
/// chain is shorter than `len`; the length of `order`, if there is none.
pub open spec fn first_shorter<S>(
    players: Seq<PlayerModel<S>>,
    order: Seq<usize>,
    len: nat,
    from: int,
) -> int
    decreases order.len() - from,
{
    if from < 0 || from >= order.len() {
        order.len() as int
    } else if length_of(players, order[from] as int) < len {
        from
    } else {
        first_shorter(players, order, len, from + 1)
    }
}

/// Where `first_shorter` stops, everyone before is at least as long.
pub proof fn lemma_first_shorter<S>(
    players: Seq<PlayerModel<S>>,
    order: Seq<usize>,
    len: nat,
    from: int,
)
    requires
        0 <= from <= order.len(),
    ensures
        from <= first_shorter(players, order, len, from) <= order.len(),
        forall|k: int|
            from <= k < first_shorter(players, order, len, from) ==> length_of(
                players,
                (#[trigger] order[k]) as int,
            ) >= len,
        first_shorter(players, order, len, from) < order.len() ==> length_of(
            players,
            order[first_shorter(players, order, len, from)] as int,
        ) < len,
    decreases order.len() - from,
{
    if from < order.len() && length_of(players, order[from] as int) >= len {
        lemma_first_shorter(players, order, len, from + 1);
    }
}

/// Any number of players that a game can hold has a ranking.
pub proof fn lemma_ranking_exists<S>(players: Seq<PlayerModel<S>>)
    requires
        players.len() <= usize::MAX,
    ensures
        is_ranking(players, ranking(players)),
    decreases players.len(),
{
    if players.len() == 0 {
        assert(is_ranking(players, Seq::<usize>::empty()));
    } else {
        let before = players.drop_last();
        lemma_ranking_exists(before);
        let prev = ranking(before);
        let len = length_of(players, players.len() - 1);
        let pos = first_shorter(players, prev, len, 0);
        lemma_first_shorter(players, prev, len, 0);
        lemma_insert_keeps_ranking(players, prev, pos);
    }
}

/// There is only one way to rank the players.
pub proof fn lemma_ranking_unique<S>(players: Seq<PlayerModel<S>>, o1: Seq<usize>, o2: Seq<usize>)
    requires
        is_ranking(players, o1),
        is_ranking(players, o2),
    ensures
        o1 == o2,
{
    assert forall|k: int| 0 <= k < o1.len() implies o1[k] == o2[k] by {
        lemma_rankings_agree(players, o1, o2, k);
    }
}

/// Two rankings of the same players agree at every place.
proof fn lemma_rankings_agree<S>(
    players: Seq<PlayerModel<S>>,
    o1: Seq<usize>,
    o2: Seq<usize>,
    k: int,
)
    requires
        is_ranking(players, o1),
        is_ranking(players, o2),
        0 <= k < o1.len(),
    ensures
        o1[k] == o2[k],
    decreases k,
{
    assert forall|m: int| 0 <= m < k implies o1[m] == o2[m] by {
        lemma_rankings_agree(players, o1, o2, m);
    }
    if o1[k] != o2[k] {
        lemma_misplaced(players, o1, o2, k);
        lemma_misplaced(players, o2, o1, k);
    }
}

/// If two rankings agree before `k` and differ at `k`, the entry of the first
/// at `k` does not rank before the entry of the second at `k`.
proof fn lemma_misplaced<S>(
    players: Seq<PlayerModel<S>>,
    o1: Seq<usize>,
    o2: Seq<usize>,
    k: int,
)
    requires
        is_ranking(players, o1),
        is_ranking(players, o2),
        0 <= k < o1.len(),
        forall|m: int| 0 <= m < k ==> o1[m] == o2[m],
        o1[k] != o2[k],
    ensures
        !ranks_before(players, o1[k] as int, o2[k] as int),
{
    assert(o2.contains(o1[k]));
}

impl<S: Copy> GameState<S> {
    /// Ranks the players anew: longest chain first, and among chains of one
    /// length whoever joined first.
    pub fn update_leaderboard(&mut self)
        ensures
            final(self)@ == (GameModel {
                player_leaderboard: leaderboard_of(old(self)@.players),
                ..old(self)@
            }),
            is_ranking(old(self)@.players, ranking(old(self)@.players)),
            final(self).players == old(self).players,
            final(self).food == old(self).food,
    {
        let order = self.rank_players();
        proof {
            lemma_ranking_unique(self@.players, order@, ranking(self@.players));
        }
        let mut board: Vec<u64> = Vec::new();
        let mut k: usize = 0;
        while k < order.len()
            invariant
                k <= order@.len(),
                is_ranking(self@.players, order@),
                board@.len() == k,
                forall|m: int| 0 <= m < k ==> board@[m] == ids_in_order(self@.players, order@)[m],
            decreases order@.len() - k,
        {
            let p = order[k];
            board.push(self.players[p].id);
            k += 1;
        }
        assert(board@ =~= ids_in_order(self@.players, order@));
        self.player_leaderboard = board;
    }

    /// The indices of the players by rank.
    pub fn rank_players(&self) -> (order: Vec<usize>)
        ensures
            is_ranking(self@.players, order@),
    {
        let ghost players = self@.players;
        let mut order: Vec<usize> = Vec::new();
        let mut i: usize = 0;
        while i < self.players.len()
            invariant
                i <= self.players@.len(),
                players == self@.players,
                is_ranking(players.take(i as int), order@),
            decreases self.players@.len() - i,
        {
            let len_i = self.players[i].snake.len();
            let mut pos: usize = 0;
            while pos < order.len() && self.players[order[pos]].snake.len() >= len_i
                invariant
                    pos <= order@.len(),
                    i < self.players@.len(),
                    players == self@.players,
                    is_ranking(players.take(i as int), order@),
                    length_of(players, i as int) == len_i,
                    forall|k: int|
                        0 <= k < pos ==> length_of(players, (#[trigger] order@[k]) as int) >= len_i,
                decreases order@.len() - pos,
            {
                pos += 1;
            }
            let ghost prev = order@;
            order.insert(pos, i);
            proof {
                lemma_insert_keeps_ranking(players.take(i + 1), prev, pos as int);
            }
            i += 1;
        }
        order
    }
}

} // verus!
