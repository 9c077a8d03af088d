use vstd::prelude::*;
use crate::food::Food;
use crate::leaderboard::leaderboard_of;
use crate::math::Vec2;
use crate::messages::SoundEffect;
use crate::player::{after_tick, respawned, Player, PlayerModel, Spawn};

verus! {

/// The world never holds more pickups than this.
pub const MAX_AMOUNT_OF_FOOD: usize = 1000;

/// Below this many pickups a running round adds one in each tick.
pub const MIN_AMOUNT_OF_FOOD: usize = 10;

/// The lifecycle of a round.
#[derive(Clone, Copy, Debug, PartialEq, Eq, Structural)]
pub enum GameStage {
    Lobby,
    Running,
    Ended,
}

/// Where the host has taken one player in this tick.
#[derive(Clone, Copy, Debug)]
pub struct Move<S> {
    pub player_speed: S,
    pub head_position: Vec2<S>,
    pub head_angle: S,
}

/// The whole game: the players in the order in which they joined, the
/// pickups, the stage of the round, its timer and the ranking.
#[derive(Clone, Debug)]
pub struct GameState<S> {
    pub players: Vec<Player<S>>,
    pub food: Vec<Food<S>>,
    pub stage: GameStage,
    pub game_timer: S,
    pub player_leaderboard: Vec<u64>,
}

/// What a game is: its fields, with each player as its model.
pub struct GameModel<S> {
    pub players: Seq<PlayerModel<S>>,
    pub food: Seq<Food<S>>,
    pub stage: GameStage,
    pub game_timer: S,
    pub player_leaderboard: Seq<u64>,
}

/// The models of the players, in order.
pub open spec fn models<S>(players: Seq<Player<S>>) -> Seq<PlayerModel<S>> {
    Seq::new(players.len(), |i: int| players[i]@)
}

impl<S> View for GameState<S> {
    type V = GameModel<S>;

    open spec fn view(&self) -> GameModel<S> {
        GameModel {
            players: models(self.players@),
            food: self.food@,
            stage: self.stage,
            game_timer: self.game_timer,
            player_leaderboard: self.player_leaderboard@,
        }
    }
}

/// A game before its first round.
pub open spec fn new_game<S>(game_timer: S) -> GameModel<S> {
    GameModel {
        players: Seq::empty(),
        food: Seq::empty(),
        stage: GameStage::Lobby,
        game_timer,
        player_leaderboard: Seq::empty(),
    }
}

/// The index of the first player with the given id.
pub open spec fn index_of_id<S>(players: Seq<PlayerModel<S>>, id: u64, from: int) -> Option<int>
    decreases players.len() - from,
{
    if from < 0 || from >= players.len() {
        None
    } else if players[from].id == id {
        Some(from)
    } else {
        index_of_id(players, id, from + 1)
    }
}

/// No two players share an id.
pub open spec fn unique_ids<S>(players: Seq<PlayerModel<S>>) -> bool {
    forall|a: int, b: int|
        0 <= a < b < players.len() ==> (#[trigger] players[a]).id != (#[trigger] players[b]).id
}

/// Whether some player has the given id.
pub open spec fn has_id<S>(players: Seq<PlayerModel<S>>, id: u64) -> bool {
    exists|i: int| 0 <= i < players.len() && (#[trigger] players[i]).id == id
}

/// Whether some player asks for the round to start.
pub open spec fn start_requested<S>(players: Seq<PlayerModel<S>>) -> bool {
    exists|i: int| 0 <= i < players.len() && (#[trigger] players[i]).input_start_game
}

/// The players after the host has moved them: each player for whom `moves`
/// holds an entry goes through one tick with it.
pub open spec fn moved_players<S>(players: Seq<PlayerModel<S>>, moves: Seq<Move<S>>) -> Seq<
    PlayerModel<S>,
> {
    Seq::new(
        players.len(),
        |i: int|
            if i < moves.len() {
                after_tick(
                    players[i],
                    moves[i].player_speed,
                    moves[i].head_position,
                    moves[i].head_angle,
                )
            } else {
                players[i]
            },
    )
}

/// The pickups after their drift: each one for which `moved` holds an entry
/// takes its place and velocity from there and keeps its kind.
pub open spec fn drifted<S>(food: Seq<Food<S>>, moved: Seq<Food<S>>) -> Seq<Food<S>> {
    Seq::new(
        food.len(),
        |i: int|
            if i < moved.len() {
                Food {
                    position: moved[i].position,
                    velocity: moved[i].velocity,
                    food_type: food[i].food_type,
                }
            } else {
                food[i]
            },
    )
}

/// How many of `offered` new pickups the world has room for.
pub open spec fn room_for(held: nat, offered: nat) -> nat {
    if held >= MAX_AMOUNT_OF_FOOD {
        0
    } else if offered <= MAX_AMOUNT_OF_FOOD - held {
        offered
    } else {
        (MAX_AMOUNT_OF_FOOD - held) as nat
    }
}

/// What a new round starts with: the full timer, and for the player at index
/// `i` the entry `spawns[i]`.
#[derive(Clone, Debug)]
pub struct Round<S> {
    pub game_timer: S,
    pub spawns: Vec<Spawn<S>>,
}

/// What the player at index `i` enters a new round with: its entry in
/// `spawns`, or, where there is none, the place and heading of its head and
/// the speed it has.
pub open spec fn spawn_for<S>(player: PlayerModel<S>, spawns: Seq<Spawn<S>>, i: int) -> Spawn<S> {
    if 0 <= i < spawns.len() {
        spawns[i]
    } else {
        Spawn {
            position: player.snake.segments[0].position,
            angle: player.snake.segments[0].angle,
            speed: player.player_speed,
        }
    }
}

/// The game back in the lobby: no pickups, no ranking, the full timer, and
/// every player at the start of a round with its identity, name and color.
pub open spec fn after_reset<S>(game: GameModel<S>, game_timer: S, spawns: Seq<Spawn<S>>) -> GameModel<
    S,
> {
    GameModel {
        players: Seq::new(
            game.players.len(),
            |i: int| respawned(game.players[i], spawn_for(game.players[i], spawns, i)),
        ),
        food: Seq::empty(),
        stage: GameStage::Lobby,
        game_timer,
        player_leaderboard: Seq::empty(),
    }
}

/// The game at the end of a tick.
///
/// In the lobby the round starts as soon as a player asks for it. A running
/// round takes the timer that the host has counted down, ends when that timer
/// has run out, and ranks the players. An ended round goes back to the lobby
/// as soon as a player asks for a start.
pub open spec fn after_stage<S>(
    game: GameModel<S>,
    game_timer: S,
    expired: bool,
    round_timer: S,
    spawns: Seq<Spawn<S>>,
) -> GameModel<S> {
    match game.stage {
        GameStage::Lobby => if start_requested(game.players) {
            GameModel { stage: GameStage::Running, ..game }
        } else {
            game
        },
        GameStage::Running => GameModel {
            stage: if expired {
                GameStage::Ended
            } else {
                GameStage::Running
            },
            game_timer,
            player_leaderboard: leaderboard_of(game.players),
            ..game
        },
        GameStage::Ended => if start_requested(game.players) {
            after_reset(game, round_timer, spawns)
        } else {
            game
        },
    }
}

/// What is heard at the end of a tick: the start of a round, or its end.
pub open spec fn heard_on_stage<S>(game: GameModel<S>, expired: bool) -> Seq<SoundEffect> {
    match game.stage {
        GameStage::Lobby => if start_requested(game.players) {
            seq![SoundEffect::Start]
        } else {
            Seq::empty()
        },
        GameStage::Running => if expired {
            seq![SoundEffect::End]
        } else {
            Seq::empty()
        },
        GameStage::Ended => Seq::empty(),
    }
}

impl<S: Copy> GameState<S> {
    /// A game is well formed when every chain has a head and the pickups are
    /// within their cap.
    pub open spec fn wf(&self) -> bool {
        &&& forall|i: int| 0 <= i < self.players@.len() ==> (#[trigger] self.players@[i]).wf()
        &&& self.food@.len() <= MAX_AMOUNT_OF_FOOD
    }

    /// A game in the lobby, without players or pickups. `game_timer` is the
    /// length of a round.
    pub fn new(game_timer: S) -> (state: GameState<S>)
        ensures
            state.wf(),
            state@ == new_game(game_timer),
    {
        let state = GameState {
            players: Vec::new(),
            food: Vec::new(),
            stage: GameStage::Lobby,
            game_timer,
            player_leaderboard: Vec::new(),
        };
        assert(state@.players =~= Seq::empty());
        state
    }

    /// Lets `player` join, behind those who are there.
    pub fn add_player(&mut self, player: Player<S>)
        ensures
            old(self).wf() && player.wf() ==> final(self).wf(),
            final(self)@ == (GameModel { players: old(self)@.players.push(player@), ..old(self)@ }),
            unique_ids(old(self)@.players) && !has_id(old(self)@.players, player.id) ==> unique_ids(
                final(self)@.players,
            ),
    {
        self.players.push(player);
        assert(self@.players =~= old(self)@.players.push(player@));
    }

    /// The first player with the given id.
    pub fn get_player_by_id(&self, id: u64) -> (r: Option<&Player<S>>)
        ensures
            match r {
                Some(player) => {
                    &&& index_of_id(self@.players, id, 0) matches Some(i)
                    &&& *player == self.players@[i]
                },
                None => index_of_id(self@.players, id, 0).is_none(),
            },
            r.is_some() <==> has_id(self@.players, id),
    {
        let mut i: usize = 0;
        while i < self.players.len()
            invariant
                i <= self.players@.len(),
                index_of_id(self@.players, id, 0) == index_of_id(self@.players, id, i as int),
                forall|k: int| 0 <= k < i ==> (#[trigger] self@.players[k]).id != id,
            decreases self.players@.len() - i,
        {
            if self.players[i].id == id {
                return Some(&self.players[i]);
            }
            i += 1;
        }
        None
    }

    /// Takes the first player with the given id out of the game and returns
    /// it. The others keep their order.
    pub fn remove_player(&mut self, id: u64) -> (r: Option<Player<S>>)
        ensures
            old(self).wf() ==> final(self).wf(),
            match r {
                Some(player) => {
                    &&& index_of_id(old(self)@.players, id, 0) matches Some(i)
                    &&& player@ == old(self)@.players[i]
                    &&& final(self)@ == (GameModel {
                        players: old(self)@.players.remove(i),
                        ..old(self)@
                    })
                },
                None => index_of_id(old(self)@.players, id, 0).is_none() && final(self)@ == old(
                    self,
                )@,
            },
            unique_ids(old(self)@.players) ==> unique_ids(final(self)@.players),
    {
        let mut i: usize = 0;
        while i < self.players.len()
            invariant
                i <= self.players@.len(),
                *self == *old(self),
                index_of_id(self@.players, id, 0) == index_of_id(self@.players, id, i as int),
            decreases self.players@.len() - i,
        {
            if self.players[i].id == id {
                let player = self.players.remove(i);
                assert(self@.players =~= old(self)@.players.remove(i as int));
                return Some(player);
            }
            i += 1;
        }
        None
    }

    /// Adds `food` unless the world is full, and says whether it did.
    pub fn spawn_food(&mut self, food: Food<S>) -> (added: bool)
        ensures
            old(self).wf() ==> final(self).wf(),
            added == (old(self)@.food.len() < MAX_AMOUNT_OF_FOOD),
            final(self)@ == (GameModel {
                food: if added {
                    old(self)@.food.push(food)
                } else {
                    old(self)@.food
                },
                ..old(self)@
            }),
    {
        if self.food.len() < MAX_AMOUNT_OF_FOOD {
            self.food.push(food);
            true
        } else {
            false
        }
    }

    /// Adds the given pickups in their order until the world is full; what
    /// is left over is dropped.
    pub fn spawn_all(&mut self, food: &Vec<Food<S>>)
        ensures
            old(self).wf() ==> final(self).wf(),
            final(self)@ == (GameModel {
                food: old(self)@.food + food@.take(
                    room_for(old(self)@.food.len(), food@.len()) as int,
                ),
                ..old(self)@
            }),
    {
        let mut i: usize = 0;
        while i < food.len() && self.food.len() < MAX_AMOUNT_OF_FOOD
            invariant
                i <= food@.len(),
                i <= room_for(old(self).food@.len(), food@.len()),
                self.food@.len() == old(self).food@.len() + i,
                self.food@ == old(self).food@ + food@.take(i as int),
                self@ == (GameModel { food: self@.food, ..old(self)@ }),
                self.players == old(self).players,
            decreases food@.len() - i,
        {
            self.food.push(food[i]);
            i += 1;
        }
    }

    /// Keeps a running round supplied: while fewer than `MIN_AMOUNT_OF_FOOD`
    /// pickups are about, `food` joins them. Outside a running round nothing
    /// happens.
    pub fn maybe_spawn_food(&mut self, food: Food<S>)
        ensures
            old(self).wf() ==> final(self).wf(),
            final(self)@ == (GameModel {
                food: if old(self)@.stage == GameStage::Running && old(self)@.food.len()
                    < MIN_AMOUNT_OF_FOOD {
                    old(self)@.food.push(food)
                } else {
                    old(self)@.food
                },
                ..old(self)@
            }),
    {
        if self.stage == GameStage::Running && self.food.len() < MIN_AMOUNT_OF_FOOD {
            self.food.push(food);
        }
    }

    /// Takes over where the host has moved the players of a running round:
    /// `moves[i]` belongs to the player at index `i`. Outside a running round
    /// nothing happens.
    pub fn update_players(&mut self, moves: &Vec<Move<S>>)
        requires
            old(self).wf(),
        ensures
            final(self).wf(),
            final(self)@ == (GameModel {
                players: if old(self)@.stage == GameStage::Running {
                    moved_players(old(self)@.players, moves@)
                } else {
                    old(self)@.players
                },
                ..old(self)@
            }),
    {
        if self.stage != GameStage::Running {
            return ;
        }
        let mut i: usize = 0;
        while i < self.players.len() && i < moves.len()
            invariant
                i <= self.players@.len(),
                self.players@.len() == old(self).players@.len(),
                self.wf(),
                self@ == (GameModel { players: self@.players, ..old(self)@ }),
                forall|k: int|
                    0 <= k < i ==> (#[trigger] self.players@[k])@ == moved_players(
                        old(self)@.players,
                        moves@,
                    )[k],
                forall|k: int|
                    i <= k < self.players@.len() ==> self.players@[k] == old(self).players@[k],
            decreases self.players@.len() - i,
        {
            let m = moves[i];
            self.players[i].update(m.player_speed, m.head_position, m.head_angle);
            i += 1;
        }
        assert(self@.players =~= moved_players(old(self)@.players, moves@));
    }

    /// Takes over where the pickups of a running round have drifted:
    /// `moved[i]` holds the new place and velocity of the pickup at index `i`.
    /// Outside a running round nothing happens.
    pub fn update_food(&mut self, moved: &Vec<Food<S>>)
        ensures
            old(self).wf() ==> final(self).wf(),
            final(self)@ == (GameModel {
                food: if old(self)@.stage == GameStage::Running {
                    drifted(old(self)@.food, moved@)
                } else {
                    old(self)@.food
                },
                ..old(self)@
            }),
    {
        if self.stage != GameStage::Running {
            return ;
        }
        let mut i: usize = 0;
        while i < self.food.len() && i < moved.len()
            invariant
                i <= self.food@.len(),
                self.food@.len() == old(self).food@.len(),
                self@ == (GameModel { food: self@.food, ..old(self)@ }),
                self.players == old(self).players,
                forall|k: int| 0 <= k < i ==> self.food@[k] == drifted(old(self).food@, moved@)[k],
                forall|k: int| i <= k < self.food@.len() ==> self.food@[k] == old(self).food@[k],
            decreases self.food@.len() - i,
        {
            let to = moved[i];
            self.food[i].bounce(Some(to.velocity));
            self.food[i].update(to.position);
            i += 1;
        }
        assert(self.food@ =~= drifted(old(self).food@, moved@));
    }

    /// Whether some player asks for the round to start.
    pub fn start_requested(&self) -> (r: bool)
        ensures
            r == start_requested(self@.players),
    {
        let mut i: usize = 0;
        while i < self.players.len()
            invariant
                i <= self.players@.len(),
                forall|k: int| 0 <= k < i ==> !(#[trigger] self@.players[k]).input_start_game,
            decreases self.players@.len() - i,
        {
            if self.players[i].input_start_game {
                assert(self@.players[i as int].input_start_game);
                return true;
            }
            i += 1;
        }
        false
    }

    /// Takes the game back to the lobby for a new round: the pickups and the
    /// ranking are cleared, the timer is set to `round.game_timer`, and every
    /// player starts anew with its entry of `round.spawns`. A player for whom
    /// there is no entry starts where its head is.
    pub fn reset(&mut self, round: &Round<S>)
        requires
            old(self).wf(),
        ensures
            final(self).wf(),
            final(self)@ == after_reset(old(self)@, round.game_timer, round.spawns@),
    {
        self.food = Vec::new();
        self.stage = GameStage::Lobby;
        self.game_timer = round.game_timer;
        self.player_leaderboard = Vec::new();
        let mut i: usize = 0;
        while i < self.players.len()
            invariant
                i <= self.players@.len(),
                self.players@.len() == old(self).players@.len(),
                self.food@.len() == 0,
                self.stage == GameStage::Lobby,
                self.game_timer == round.game_timer,
                self.player_leaderboard@.len() == 0,
                forall|k: int| 0 <= k < self.players@.len() ==> (#[trigger] self.players@[k]).wf(),
                forall|k: int|
                    0 <= k < i ==> (#[trigger] self.players@[k])@ == after_reset(
                        old(self)@,
                        round.game_timer,
                        round.spawns@,
                    ).players[k],
                forall|k: int|
                    i <= k < self.players@.len() ==> self.players@[k] == old(self).players@[k],
            decreases self.players@.len() - i,
        {
            let spawn = if i < round.spawns.len() {
                round.spawns[i]
            } else {
                let head = self.players[i].snake.segments[0];
                Spawn {
                    position: head.position,
                    angle: head.angle,
                    speed: self.players[i].player_speed,
                }
            };
            self.players[i].reset(spawn);
            i += 1;
        }
        assert(self@.players =~= after_reset(old(self)@, round.game_timer, round.spawns@).players);
        assert(self@.food =~= Seq::empty());
        assert(self@.player_leaderboard =~= Seq::empty());
    }

    /// Moves the stage of the round on, as the last step of a tick.
    ///
    /// In the lobby, a player's request starts the round, which is heard
    /// once. In a running round the timer becomes `game_timer`, the value to
    /// which the host has counted it down; if the host found it `expired`, at
    /// or below zero, the round ends, which is heard; and the players are
    /// ranked anew. After the end, a player's request for a start takes the
    /// game back to the lobby with the values of `round`.
    pub fn update_stage(
        &mut self,
        sound_effects: &mut Vec<SoundEffect>,
        game_timer: S,
        expired: bool,
        round: &Round<S>,
    )
        requires
            old(self).wf(),
        ensures
            final(self).wf(),
            final(self)@ == after_stage(
                old(self)@,
                game_timer,
                expired,
                round.game_timer,
                round.spawns@,
            ),
            final(sound_effects)@ == old(sound_effects)@ + heard_on_stage(old(self)@, expired),
    {
        match self.stage {
            GameStage::Running => {
                self.game_timer = game_timer;
                if expired {
                    self.stage = GameStage::Ended;
                    sound_effects.push(SoundEffect::End);
                }
                self.update_leaderboard();
            },
            GameStage::Lobby => {
                if self.start_requested() {
                    self.stage = GameStage::Running;
                    sound_effects.push(SoundEffect::Start);
                }
            },
            GameStage::Ended => {
                if self.start_requested() {
                    self.reset(round);
                }
            },
        }
    }
}

} // verus!
