use vstd::prelude::*;
use crate::gamestate::{GameModel, GameStage, GameState};
use crate::leaderboard::length_of;
use crate::math::Vec2;
use crate::meals::repeated;
use crate::messages::SoundEffect;
use crate::player::{after_cut, can_cut, collision, positions_from, PlayerModel};

verus! {

/// Of the places where a chain was cut off, every so many seed a pickup.
pub const FOOD_CUT_STRIDE: usize = 4;

/// The head of the player at index `attacker` has run into the chain of the
/// player at index `target`, at the segment `index`.
#[derive(Clone, Copy, Debug)]
pub struct Strike {
    pub attacker: usize,
    pub target: usize,
    pub index: usize,
}

/// The flags that `hits` holds for the head of player `i` against the chain
/// of player `j`; none, if `hits` does not reach that far.
pub open spec fn hits_of(hits: Seq<Vec<Vec<bool>>>, i: int, j: int) -> Seq<bool> {
    if 0 <= i < hits.len() && 0 <= j < hits[i]@.len() {
        hits[i]@[j]@
    } else {
        Seq::empty()
    }
}

/// The strikes of the player at index `i` against the first `n` players, in
/// their order.
pub open spec fn strikes_in_row<S>(
    players: Seq<PlayerModel<S>>,
    hits: Seq<Vec<Vec<bool>>>,
    i: int,
    n: nat,
) -> Seq<Strike>
    decreases n,
{
    if n == 0 {
        Seq::empty()
    } else {
        let before = strikes_in_row(players, hits, i, (n - 1) as nat);
        match collision(hits_of(hits, i, n - 1), length_of(players, n - 1)) {
            Some(k) => before.push(
                Strike { attacker: i as usize, target: (n - 1) as usize, index: k as usize },
            ),
            None => before,
        }
    }
}

/// The strikes of the first `m` players against all players: attacker by
/// attacker, and for each attacker target by target.
pub open spec fn strikes_upto<S>(players: Seq<PlayerModel<S>>, hits: Seq<Vec<Vec<bool>>>, m: nat) -> Seq<
    Strike,
>
    decreases m,
{
    if m == 0 {
        Seq::empty()
    } else {
        strikes_upto(players, hits, (m - 1) as nat) + strikes_in_row(
            players,
            hits,
            m - 1,
            players.len(),
        )
    }
}

/// Every `FOOD_CUT_STRIDE`-th of the given places, the first one included.
pub open spec fn strided<S>(positions: Seq<Vec2<S>>) -> Seq<Vec2<S>> {
    Seq::new(
        ((positions.len() + FOOD_CUT_STRIDE - 1) / (FOOD_CUT_STRIDE as int)) as nat,
        |m: int| positions[m * FOOD_CUT_STRIDE],
    )
}

/// What a number of strikes leaves behind: the players, the places at which
/// pickups are to appear, and the number of cuts.
pub struct Aftermath<S> {
    pub players: Seq<PlayerModel<S>>,
    pub seeds: Seq<Vec2<S>>,
    pub cuts: nat,
}

/// The outcome of the first `n` strikes, each one carried out on what the
/// strikes before it have left. A strike that finds its segment gone, or
/// armored against the attacker, changes nothing.
pub open spec fn after_strikes<S>(players: Seq<PlayerModel<S>>, strikes: Seq<Strike>, n: nat) -> Aftermath<
    S,
>
    decreases n,
{
    if n == 0 {
        Aftermath { players, seeds: Seq::empty(), cuts: 0 }
    } else {
        let before = after_strikes(players, strikes, (n - 1) as nat);
        let strike = strikes[n - 1];
        let victim = before.players[strike.target as int];
        let cutter = before.players[strike.attacker as int].id;
        if can_cut(victim, strike.index as int, cutter) {
            Aftermath {
                players: before.players.update(
                    strike.target as int,
                    after_cut(victim, strike.index as int, cutter),
                ),
                seeds: before.seeds + strided(
                    positions_from(victim.snake.segments, strike.index as int),
                ),
                cuts: before.cuts + 1,
            }
        } else {
            before
        }
    }
}

/// The outcome of the collisions of one tick. `hits[i][j][k]` says whether
/// the head of player `i` lies within reach of segment `k` of player `j`.
/// All strikes are found before the first cut is made.
pub open spec fn after_collisions<S>(players: Seq<PlayerModel<S>>, hits: Seq<Vec<Vec<bool>>>) -> Aftermath<
    S,
> {
    let strikes = strikes_upto(players, hits, players.len());
    after_strikes(players, strikes, strikes.len())
}

impl<S: Copy> GameState<S> {
    /// Every `FOOD_CUT_STRIDE`-th of the given places, the first one included.
    pub fn cut_seeds(positions: &Vec<Vec2<S>>) -> (seeds: Vec<Vec2<S>>)
        ensures
            seeds@ == strided(positions@),
    {
        let len = positions.len();
        let count: usize = if len % FOOD_CUT_STRIDE == 0 {
            len / FOOD_CUT_STRIDE
        } else {
            len / FOOD_CUT_STRIDE + 1
        };
        let mut seeds: Vec<Vec2<S>> = Vec::new();
        let mut m: usize = 0;
        while m < count
            invariant
                m <= count,
                len == positions@.len(),
                count == (len + FOOD_CUT_STRIDE - 1) / (FOOD_CUT_STRIDE as int),
                seeds@.len() == m,
                forall|k: int| 0 <= k < m ==> seeds@[k] == positions@[k * FOOD_CUT_STRIDE],
            decreases count - m,
        {
            seeds.push(positions[m * FOOD_CUT_STRIDE]);
            m += 1;
        }
        seeds
    }

    /// Finds where the heads of a running round have run into chains, and
    /// cuts. `hits[i][j][k]` says whether the head of the player at index `i`
    /// lies within reach of segment `k` of the player at index `j`; what
    /// `hits` does not cover counts as out of reach.
    ///
    /// First every pair of players is looked at, a player against itself
    /// too, attacker by attacker and target by target. Then the strikes are
    /// carried out in that order. A strike whose segment an earlier cut has
    /// taken away does nothing. Every cut is heard, and of the places that it
    /// sets free every `FOOD_CUT_STRIDE`-th is returned: there the host lets
    /// pickups appear. Outside a running round nothing happens.
    pub fn handle_player_collisions(
        &mut self,
        sound_effects: &mut Vec<SoundEffect>,
        hits: &Vec<Vec<Vec<bool>>>,
    ) -> (seeds: Vec<Vec2<S>>)
        requires
            old(self).wf(),
        ensures
            final(self).wf(),
            old(self)@.stage == GameStage::Running ==> {
                let outcome = after_collisions(old(self)@.players, hits@);
                &&& final(self)@ == (GameModel { players: outcome.players, ..old(self)@ })
                &&& seeds@ == outcome.seeds
                &&& final(sound_effects)@ == old(sound_effects)@ + repeated(
                    SoundEffect::Cut,
                    outcome.cuts,
                )
            },
            old(self)@.stage != GameStage::Running ==> final(self)@ == old(self)@ && seeds@.len()
                == 0 && final(sound_effects)@ == old(sound_effects)@,
    {
        let mut seeds: Vec<Vec2<S>> = Vec::new();
        if self.stage != GameStage::Running {
            return seeds;
        }
        let ghost start = self@.players;
        let strikes = self.find_strikes(hits);
        let mut n: usize = 0;
        while n < strikes.len()
            invariant
                n <= strikes@.len(),
                self.wf(),
                start == old(self)@.players,
                self.players@.len() == start.len(),
                self@ == (GameModel { players: self@.players, ..old(self)@ }),
                forall|k: int|
                    0 <= k < strikes@.len() ==> (#[trigger] strikes@[k]).attacker < start.len()
                        && strikes@[k].target < start.len(),
                self@.players == after_strikes(start, strikes@, n as nat).players,
                seeds@ == after_strikes(start, strikes@, n as nat).seeds,
                sound_effects@ == old(sound_effects)@ + repeated(
                    SoundEffect::Cut,
                    after_strikes(start, strikes@, n as nat).cuts,
                ),
            decreases strikes@.len() - n,
        {
            let strike = strikes[n];
            let other_id = self.players[strike.attacker].id;
            if strike.index < self.players[strike.target].snake.len() {
                match self.players[strike.target].try_cut(strike.index, other_id) {
                    Some(cut) => {
                        let mut fresh = Self::cut_seeds(&cut);
                        seeds.append(&mut fresh);
                        sound_effects.push(SoundEffect::Cut);
                    },
                    None => {},
                }
            }
            n += 1;
        }
        seeds
    }

    /// The strikes of this tick: for every pair of players, a player against
    /// itself too, where the head of the first has run into the chain of the
    /// second.
    pub fn find_strikes(&self, hits: &Vec<Vec<Vec<bool>>>) -> (strikes: Vec<Strike>)
        ensures
            strikes@ == strikes_upto(self@.players, hits@, self@.players.len()),
            forall|k: int|
                0 <= k < strikes@.len() ==> (#[trigger] strikes@[k]).attacker < self@.players.len()
                    && strikes@[k].target < self@.players.len(),
    {
        let ghost players = self@.players;
        let none: Vec<bool> = Vec::new();
        let mut strikes: Vec<Strike> = Vec::new();
        let count = self.players.len();
        let mut i: usize = 0;
        while i < count
            invariant
                i <= count,
                count == self.players@.len(),
                players == self@.players,
                none@.len() == 0,
                strikes@ == strikes_upto(players, hits@, i as nat),
                forall|k: int|
                    0 <= k < strikes@.len() ==> (#[trigger] strikes@[k]).attacker < count
                        && strikes@[k].target < count,
            decreases count - i,
        {
            let ghost done = strikes@;
            let mut j: usize = 0;
            while j < count
                invariant
                    j <= count,
                    i < count,
                    count == self.players@.len(),
                    players == self@.players,
                    none@.len() == 0,
                    done == strikes_upto(players, hits@, i as nat),
                    strikes@ == done + strikes_in_row(players, hits@, i as int, j as nat),
                    forall|k: int|
                        0 <= k < strikes@.len() ==> (#[trigger] strikes@[k]).attacker < count
                            && strikes@[k].target < count,
                decreases count - j,
            {
                let row: &Vec<bool> = if i < hits.len() && j < hits[i].len() {
                    &hits[i][j]
                } else {
                    &none
                };
                match self.players[i].collides_with(&self.players[j].snake, row) {
                    Some(index) => {
                        strikes.push(Strike { attacker: i, target: j, index });
                    },
                    None => {},
                }
                j += 1;
            }
            i += 1;
        }
        strikes
    }
}

} // verus!
