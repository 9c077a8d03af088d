use vstd::prelude::*;
use crate::food::Food;
use crate::gamestate::{GameModel, GameStage, GameState};
use crate::messages::SoundEffect;
use crate::player::{after_eating, can_eat, PlayerModel};

verus! {

/// Whether the flags report a contact at index `i`. An index that the flags
/// do not cover counts as no contact.
pub open spec fn flag_at(row: Seq<bool>, i: int) -> bool {
    0 <= i < row.len() && row[i]
}

/// The flags that `table` holds for the player at index `p`; none, if the
/// table does not reach that far.
pub open spec fn row_of(table: Seq<Vec<bool>>, p: int) -> Seq<bool> {
    if 0 <= p < table.len() {
        table[p]@
    } else {
        Seq::empty()
    }
}

/// The player after it was offered the first `n` pickups in turn: it tries to
/// eat each one that `row` reports at its head.
pub open spec fn fed_player<S>(player: PlayerModel<S>, food: Seq<Food<S>>, row: Seq<bool>, n: nat) -> PlayerModel<
    S,
>
    decreases n,
{
    if n == 0 {
        player
    } else {
        let before = fed_player(player, food, row, (n - 1) as nat);
        if flag_at(row, n - 1) {
            after_eating(before, food[n - 1].food_type)
        } else {
            before
        }
    }
}

/// How many of the first `n` pickups the player eats.
pub open spec fn meals<S>(player: PlayerModel<S>, row: Seq<bool>, n: nat) -> nat
    decreases n,
{
    if n == 0 {
        0
    } else {
        meals(player, row, (n - 1) as nat) + if flag_at(row, n - 1) && can_eat(player) {
            1nat
        } else {
            0nat
        }
    }
}

/// How many meals the first `m` players have among `count` pickups.
pub open spec fn meals_of_all<S>(
    players: Seq<PlayerModel<S>>,
    near: Seq<Vec<bool>>,
    count: nat,
    m: nat,
) -> nat
    decreases m,
{
    if m == 0 {
        0
    } else {
        meals_of_all(players, near, count, (m - 1) as nat) + meals(
            players[m - 1],
            row_of(near, m - 1),
            count,
        )
    }
}

/// Whether one of the first `m` players eats the pickup at index `i`.
pub open spec fn eaten_by<S>(players: Seq<PlayerModel<S>>, near: Seq<Vec<bool>>, i: int, m: int) -> bool {
    exists|p: int| 0 <= p < m && p < players.len() && can_eat(#[trigger] players[p]) && flag_at(row_of(near, p), i)
}

/// The pickups from index `from` on that nobody has eaten, in their order.
pub open spec fn survivors<S>(
    food: Seq<Food<S>>,
    players: Seq<PlayerModel<S>>,
    near: Seq<Vec<bool>>,
    from: int,
) -> Seq<Food<S>>
    decreases food.len() - from,
{
    if from < 0 || from >= food.len() {
        Seq::empty()
    } else if eaten_by(players, near, from, players.len() as int) {
        survivors(food, players, near, from + 1)
    } else {
        seq![food[from]] + survivors(food, players, near, from + 1)
    }
}

/// `count` times the same sound.
pub open spec fn repeated(effect: SoundEffect, count: nat) -> Seq<SoundEffect> {
    Seq::new(count, |k: int| effect)
}

/// The game after the meals of one tick. `near[p][i]` says whether the pickup
/// at index `i` lies at the head of the player at index `p`. Each player is
/// offered the pickups in turn; what anybody ate is gone afterwards.
pub open spec fn after_meals<S>(game: GameModel<S>, near: Seq<Vec<bool>>) -> GameModel<S> {
    GameModel {
        players: Seq::new(
            game.players.len(),
            |p: int| fed_player(game.players[p], game.food, row_of(near, p), game.food.len()),
        ),
        food: survivors(game.food, game.players, near, 0),
        ..game
    }
}

/// Eating leaves the grace period, and with it the appetite, as it was.
pub proof fn lemma_fed_player_appetite<S>(
    player: PlayerModel<S>,
    food: Seq<Food<S>>,
    row: Seq<bool>,
    n: nat,
)
    ensures
        can_eat(fed_player(player, food, row, n)) == can_eat(player),
        fed_player(player, food, row, n).snake.segments.len() >= player.snake.segments.len(),
    decreases n,
{
    if n > 0 {
        lemma_fed_player_appetite(player, food, row, (n - 1) as nat);
    }
}

/// No more pickups survive than there were.
pub proof fn lemma_survivors_len<S>(
    food: Seq<Food<S>>,
    players: Seq<PlayerModel<S>>,
    near: Seq<Vec<bool>>,
    from: int,
)
    requires
        0 <= from,
    ensures
        survivors(food, players, near, from).len() <= if from <= food.len() {
            food.len() - from
        } else {
            0
        },
    decreases food.len() - from,
{
    if from < food.len() {
        lemma_survivors_len(food, players, near, from + 1);
    }
}

impl<S: Copy> GameState<S> {
    /// Lets the players of a running round eat. `near[p][i]` says whether the
    /// pickup at index `i` lies at the head of the player at index `p`; what
    /// `near` does not cover counts as apart.
    ///
    /// Player by player, pickup by pickup: where the two meet, the player
    /// tries to eat, and every meal is heard. When all have had their turn,
    /// the pickups that anybody ate are taken out, from the last index down.
    /// Outside a running round nothing happens.
    pub fn handle_player_food(&mut self, sound_effects: &mut Vec<SoundEffect>, near: &Vec<Vec<bool>>)
        requires
            old(self).wf(),
        ensures
            final(self).wf(),
            old(self)@.stage == GameStage::Running ==> final(self)@ == after_meals(
                old(self)@,
                near@,
            ) && final(sound_effects)@ == old(sound_effects)@ + repeated(
                SoundEffect::Eat,
                meals_of_all(
                    old(self)@.players,
                    near@,
                    old(self)@.food.len(),
                    old(self)@.players.len(),
                ),
            ),
            old(self)@.stage != GameStage::Running ==> final(self)@ == old(self)@
                && final(sound_effects)@ == old(sound_effects)@,
    {
        if self.stage != GameStage::Running {
            return ;
        }
        let ghost start = self@;
        let n = self.food.len();
        let mut eaten: Vec<bool> = Vec::new();
        while eaten.len() < n
            invariant
                eaten@.len() <= n,
                forall|j: int| 0 <= j < eaten@.len() ==> !eaten@[j],
            decreases n - eaten@.len(),
        {
            eaten.push(false);
        }
        let mut p: usize = 0;
        while p < self.players.len()
            invariant
                p <= self.players@.len(),
                self.wf(),
                start == old(self)@,
                n == start.food.len(),
                eaten@.len() == n,
                self@ == (GameModel { players: self@.players, ..start }),
                self.players@.len() == start.players.len(),
                forall|q: int|
                    0 <= q < p ==> (#[trigger] self.players@[q])@ == fed_player(
                        start.players[q],
                        start.food,
                        row_of(near@, q),
                        n as nat,
                    ),
                forall|q: int|
                    p <= q < self.players@.len() ==> (#[trigger] self.players@[q])@
                        == start.players[q],
                forall|j: int|
                    0 <= j < n ==> eaten@[j] == eaten_by(start.players, near@, j, p as int),
                sound_effects@ == old(sound_effects)@ + repeated(
                    SoundEffect::Eat,
                    meals_of_all(start.players, near@, n as nat, p as nat),
                ),
            decreases self.players@.len() - p,
        {
            let ghost row = row_of(near@, p as int);
            let ghost me = start.players[p as int];
            let ghost heard = meals_of_all(start.players, near@, n as nat, p as nat);
            let mut i: usize = 0;
            while i < n
                invariant
                    i <= n,
                    p < self.players@.len(),
                    self.wf(),
                    n == start.food.len(),
                    eaten@.len() == n,
                    row == row_of(near@, p as int),
                    me == start.players[p as int],
                    self@ == (GameModel { players: self@.players, ..start }),
                    self.players@.len() == start.players.len(),
                    forall|q: int|
                        0 <= q < self.players@.len() && q != p ==> (#[trigger] self.players@[q])@
                            == if q < p {
                            fed_player(start.players[q], start.food, row_of(near@, q), n as nat)
                        } else {
                            start.players[q]
                        },
                    self.players@[p as int]@ == fed_player(me, start.food, row, i as nat),
                    forall|j: int|
                        0 <= j < i ==> eaten@[j] == eaten_by(start.players, near@, j, p + 1),
                    forall|j: int|
                        i <= j < n ==> eaten@[j] == eaten_by(start.players, near@, j, p as int),
                    sound_effects@ == old(sound_effects)@ + repeated(
                        SoundEffect::Eat,
                        heard + meals(me, row, i as nat),
                    ),
                decreases n - i,
            {
                proof {
                    lemma_fed_player_appetite(me, start.food, row, i as nat);
                }
                if p < near.len() && i < near[p].len() && near[p][i] {
                    let food = self.food[i];
                    if self.players[p].try_eat(&food) {
                        sound_effects.push(SoundEffect::Eat);
                        eaten[i] = true;
                    }
                }
                i += 1;
            }
            p += 1;
        }
        let ghost fed = self@.players;
        assert(fed =~= after_meals(start, near@).players);
        let mut k: usize = n;
        while k > 0
            invariant
                k <= n,
                n == start.food.len(),
                eaten@.len() == n,
                self@ == (GameModel { food: self@.food, players: fed, ..start }),
                forall|q: int| 0 <= q < self.players@.len() ==> (#[trigger] self.players@[q]).wf(),
                forall|j: int|
                    0 <= j < n ==> eaten@[j] == eaten_by(
                        start.players,
                        near@,
                        j,
                        start.players.len() as int,
                    ),
                self.food@ == start.food.take(k as int) + survivors(
                    start.food,
                    start.players,
                    near@,
                    k as int,
                ),
            decreases k,
        {
            k -= 1;
            if eaten[k] {
                self.food.remove(k);
            }
        }
        proof {
            lemma_survivors_len(start.food, start.players, near@, 0);
        }
    }
}

} // verus!
