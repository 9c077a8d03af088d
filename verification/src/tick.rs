use vstd::prelude::*;
use crate::collisions::after_collisions;
use crate::food::{drawn_type, Food};
use crate::gamestate::{
    after_stage, drifted, heard_on_stage, moved_players, room_for, start_requested, GameModel,
    GameStage, GameState, Move, Round, MIN_AMOUNT_OF_FOOD,
};
use crate::math::Vec2;
use crate::meals::{after_meals, meals_of_all, repeated};
use crate::messages::SoundEffect;
use crate::player::{Player, Spawn};

verus! {

/// What the game asks of its host in the course of a tick: the arithmetic on
/// places, velocities and time, and the random draws.
///
/// Nothing is assumed of what a host returns. Whatever it answers, the game
/// goes through the steps of the tick in their order and stays well formed.
pub trait Host<S> {
    /// Where a tick of length `delta` takes the player: its speed after the
    /// throttle, and the place and heading of its head.
    fn drive(&mut self, player: &Player<S>, delta: S) -> Move<S>;

    /// A place somewhere in the world.
    fn place(&mut self) -> Vec2<S>;

    /// The velocity of a new pickup, and whether it is armor.
    fn draw(&mut self) -> (Vec2<S>, bool);

    /// The pickup after a tick of length `delta`: its velocity after it has
    /// bounced off the chains it touches, and the place to which it has
    /// drifted.
    fn drift(&mut self, food: &Food<S>, players: &Vec<Player<S>>, delta: S) -> Food<S>;

    /// Whether the pickup lies at the given place.
    fn near(&mut self, food: &Food<S>, position: Vec2<S>) -> bool;

    /// Whether a head at `head` touches a segment at `segment`.
    fn hits(&mut self, head: Vec2<S>, segment: Vec2<S>) -> bool;

    /// The timer after a tick of length `delta`, and whether it has run out.
    fn count_down(&mut self, game_timer: S, delta: S) -> (S, bool);

    /// The timer of a new round.
    fn round_timer(&mut self) -> S;

    /// What a player enters a new round with.
    fn spawn(&mut self) -> Spawn<S>;
}

/// The answers of a host in one tick.
pub struct Answers<S> {
    /// Where each player was driven.
    pub moves: Seq<Move<S>>,
    /// The place of the pickup that tops the world up.
    pub place: Vec2<S>,
    /// The velocity of that pickup, and whether it is armor.
    pub draw: (Vec2<S>, bool),
    /// Where each pickup has drifted.
    pub moved: Seq<Food<S>>,
    /// For each player, which pickups lie at its head.
    pub near: Seq<Vec<bool>>,
    /// For each pair of players, which segments of the second the head of
    /// the first touches.
    pub hits: Seq<Vec<Vec<bool>>>,
    /// For each place that a cut has set free, the velocity of the pickup
    /// that appears there, and whether it is armor.
    pub draws: Seq<(Vec2<S>, bool)>,
    /// The timer after the tick.
    pub game_timer: S,
    /// Whether that timer has run out.
    pub expired: bool,
    /// The timer of a new round.
    pub round_timer: S,
    /// What each player enters a new round with.
    pub spawns: Seq<Spawn<S>>,
}

/// A game, and what was heard on the way to it.
pub struct Ticked<S> {
    pub game: GameModel<S>,
    pub heard: Seq<SoundEffect>,
}

/// The pickups that appear where cuts have set places free: one at each
/// place, with the velocity and kind of the draw that belongs to it.
pub open spec fn seeded<S>(seeds: Seq<Vec2<S>>, draws: Seq<(Vec2<S>, bool)>) -> Seq<Food<S>> {
    Seq::new(
        seeds.len(),
        |k: int|
            Food { position: seeds[k], velocity: draws[k].0, food_type: drawn_type(draws[k].1) },
    )
}

/// The game after the players have moved.
pub open spec fn after_moves<S>(game: GameModel<S>, a: Answers<S>) -> GameModel<S> {
    GameModel { players: moved_players(game.players, a.moves), ..game }
}

/// The game after the pickups were topped up and have drifted.
pub open spec fn after_drift<S>(game: GameModel<S>, a: Answers<S>) -> GameModel<S> {
    let supplied = if game.food.len() < MIN_AMOUNT_OF_FOOD {
        game.food.push(
            Food { position: a.place, velocity: a.draw.0, food_type: drawn_type(a.draw.1) },
        )
    } else {
        game.food
    };
    GameModel { food: drifted(supplied, a.moved), ..game }
}

/// The game after the collisions: the chains are cut, and pickups appear at
/// the places that the cuts have seeded, as far as the world has room.
pub open spec fn after_cuts<S>(game: GameModel<S>, a: Answers<S>) -> GameModel<S> {
    let outcome = after_collisions(game.players, a.hits);
    let fresh = seeded(outcome.seeds, a.draws);
    GameModel {
        players: outcome.players,
        food: game.food + fresh.take(room_for(game.food.len(), fresh.len()) as int),
        ..game
    }
}

/// What a running round does in a tick before its stage moves on, in this
/// order: the players move; the pickups are topped up and drift; the players
/// eat; heads that have run into chains cut them, and pickups appear where
/// the cut chains lay.
pub open spec fn after_physics<S>(game: GameModel<S>, a: Answers<S>) -> Ticked<S> {
    let moved = after_moves(game, a);
    let drifted = after_drift(moved, a);
    let fed = after_meals(drifted, a.near);
    let cut = after_cuts(fed, a);
    Ticked {
        game: cut,
        heard: repeated(
            SoundEffect::Eat,
            meals_of_all(drifted.players, a.near, drifted.food.len(), drifted.players.len()),
        ) + repeated(SoundEffect::Cut, after_collisions(fed.players, a.hits).cuts),
    }
}

/// Whether the host has answered for everything that a running round asks
/// in a tick: for every player, every pickup, every pair of a head and a
/// segment, and every place that a cut has set free.
pub open spec fn answers_cover<S>(game: GameModel<S>, a: Answers<S>) -> bool {
    let moved = after_moves(game, a);
    let drifted = after_drift(moved, a);
    let fed = after_meals(drifted, a.near);
    &&& a.moves.len() == game.players.len()
    &&& a.moved.len() == drifted.food.len()
    &&& a.near.len() == game.players.len()
    &&& forall|p: int| 0 <= p < a.near.len() ==> (#[trigger] a.near[p])@.len() == drifted.food.len()
    &&& a.hits.len() == game.players.len()
    &&& forall|i: int| 0 <= i < a.hits.len() ==> (#[trigger] a.hits[i])@.len() == game.players.len()
    &&& forall|i: int, j: int|
        0 <= i < a.hits.len() && 0 <= j < game.players.len() ==> (#[trigger] a.hits[i]@[j])@.len()
            == fed.players[j].snake.segments.len()
    &&& a.draws.len() == after_collisions(fed.players, a.hits).seeds.len()
}

/// The game after one tick with the given answers of the host. Only a
/// running round moves, eats and cuts; every round then lets its stage move
/// on.
pub open spec fn ticked<S>(game: GameModel<S>, a: Answers<S>) -> Ticked<S> {
    let physics = if game.stage == GameStage::Running {
        after_physics(game, a)
    } else {
        Ticked { game, heard: Seq::empty() }
    };
    Ticked {
        game: after_stage(physics.game, a.game_timer, a.expired, a.round_timer, a.spawns),
        heard: physics.heard + heard_on_stage(physics.game, a.expired),
    }
}

impl<S: Copy> GameState<S> {
    /// Advances the game by one tick of length `delta`.
    ///
    /// The game asks `host` for every number it needs and goes through the
    /// steps of the tick in their order. What comes out is the game that the
    /// answers of the host lead to; what is to be heard is added to
    /// `sound_effects`.
    pub fn update<H: Host<S>>(
        &mut self,
        sound_effects: &mut Vec<SoundEffect>,
        delta: S,
        host: &mut H,
    )
        requires
            old(self).wf(),
        ensures
            final(self).wf(),
            exists|a: Answers<S>|
                {
                    &&& final(self)@ == (#[trigger] ticked(old(self)@, a)).game
                    &&& final(sound_effects)@ == old(sound_effects)@ + ticked(old(self)@, a).heard
                    &&& old(self)@.stage == GameStage::Running ==> answers_cover(old(self)@, a)
                    &&& old(self)@.stage == GameStage::Ended ==> a.spawns.len() == old(
                        self,
                    )@.players.len() || !start_requested(old(self)@.players)
                },
    {
        let ghost start = self@;
        let ghost mut a = Answers {
            moves: Seq::empty(),
            place: arbitrary(),
            draw: arbitrary(),
            moved: Seq::empty(),
            near: Seq::empty(),
            hits: Seq::empty(),
            draws: Seq::empty(),
            game_timer: self.game_timer,
            expired: false,
            round_timer: self.game_timer,
            spawns: Seq::empty(),
        };
        let mut game_timer = self.game_timer;
        let mut expired = false;
        let mut round = Round { game_timer: self.game_timer, spawns: Vec::new() };
        match self.stage {
            GameStage::Running => {
                let moves = self.ask_moves(delta, host);
                self.update_players(&moves);

                let place = host.place();
                let draw = host.draw();
                self.maybe_spawn_food(Food::new(place, draw.0, draw.1));
                let moved = self.ask_drift(delta, host);
                self.update_food(&moved);

                let near = self.ask_near(host);
                self.handle_player_food(sound_effects, &near);

                let hits = self.ask_hits(host);
                let seeds = self.handle_player_collisions(sound_effects, &hits);
                let mut fresh: Vec<Food<S>> = Vec::new();
                let ghost mut draws: Seq<(Vec2<S>, bool)> = Seq::empty();
                let mut k: usize = 0;
                while k < seeds.len()
                    invariant
                        k <= seeds@.len(),
                        draws.len() == k,
                        fresh@.len() == k,
                        forall|j: int| 0 <= j < k ==> fresh@[j] == seeded(seeds@, draws)[j],
                    decreases seeds@.len() - k,
                {
                    let draw = host.draw();
                    fresh.push(Food::new(seeds[k], draw.0, draw.1));
                    proof {
                        draws = draws.push(draw);
                    }
                    k += 1;
                }
                assert(fresh@ =~= seeded(seeds@, draws));
                self.spawn_all(&fresh);

                let counted = host.count_down(self.game_timer, delta);
                game_timer = counted.0;
                expired = counted.1;
                proof {
                    a = Answers {
                        moves: moves@,
                        place,
                        draw,
                        moved: moved@,
                        near: near@,
                        hits: hits@,
                        draws,
                        game_timer,
                        expired,
                        round_timer: round.game_timer,
                        spawns: round.spawns@,
                    };
                }
            },
            GameStage::Lobby => {},
            GameStage::Ended => {
                if self.start_requested() {
                    let timer = host.round_timer();
                    let mut spawns: Vec<Spawn<S>> = Vec::new();
                    while spawns.len() < self.players.len()
                        invariant
                            self.wf(),
                            spawns@.len() <= self.players@.len(),
                        decreases self.players@.len() - spawns@.len(),
                    {
                        spawns.push(host.spawn());
                    }
                    round = Round { game_timer: timer, spawns };
                    proof {
                        a = Answers { round_timer: timer, spawns: round.spawns@, ..a };
                    }
                }
            },
        }
        self.update_stage(sound_effects, game_timer, expired, &round);
        proof {
            assert(self@ == ticked(start, a).game);
        }
    }

    /// Where the host drives each player.
    fn ask_moves<H: Host<S>>(&self, delta: S, host: &mut H) -> (moves: Vec<Move<S>>)
        ensures
            moves@.len() == self.players@.len(),
    {
        let mut moves: Vec<Move<S>> = Vec::new();
        let mut i: usize = 0;
        while i < self.players.len()
            invariant
                i <= self.players@.len(),
                moves@.len() == i,
            decreases self.players@.len() - i,
        {
            moves.push(host.drive(&self.players[i], delta));
            i += 1;
        }
        moves
    }

    /// Where the host lets each pickup drift.
    fn ask_drift<H: Host<S>>(&self, delta: S, host: &mut H) -> (moved: Vec<Food<S>>)
        ensures
            moved@.len() == self.food@.len(),
    {
        let mut moved: Vec<Food<S>> = Vec::new();
        let mut i: usize = 0;
        while i < self.food.len()
            invariant
                i <= self.food@.len(),
                moved@.len() == i,
            decreases self.food@.len() - i,
        {
            moved.push(host.drift(&self.food[i], &self.players, delta));
            i += 1;
        }
        moved
    }

    /// For each player, which pickups the host finds at its head.
    fn ask_near<H: Host<S>>(&self, host: &mut H) -> (near: Vec<Vec<bool>>)
        requires
            self.wf(),
        ensures
            near@.len() == self.players@.len(),
            forall|p: int| 0 <= p < near@.len() ==> (#[trigger] near@[p])@.len() == self.food@.len(),
    {
        let mut near: Vec<Vec<bool>> = Vec::new();
        let mut p: usize = 0;
        while p < self.players.len()
            invariant
                self.wf(),
                p <= self.players@.len(),
                near@.len() == p,
                forall|q: int| 0 <= q < p ==> (#[trigger] near@[q])@.len() == self.food@.len(),
            decreases self.players@.len() - p,
        {
            let head = self.players[p].get_head_position();
            let mut row: Vec<bool> = Vec::new();
            let mut i: usize = 0;
            while i < self.food.len()
                invariant
                    i <= self.food@.len(),
                    row@.len() == i,
                decreases self.food@.len() - i,
            {
                row.push(host.near(&self.food[i], head));
                i += 1;
            }
            near.push(row);
            p += 1;
        }
        near
    }

    /// For each pair of players, which segments of the second the host finds
    /// within reach of the head of the first.
    fn ask_hits<H: Host<S>>(&self, host: &mut H) -> (hits: Vec<Vec<Vec<bool>>>)
        requires
            self.wf(),
        ensures
            hits@.len() == self.players@.len(),
            forall|i: int|
                0 <= i < hits@.len() ==> (#[trigger] hits@[i])@.len() == self.players@.len(),
            forall|i: int, j: int|
                0 <= i < hits@.len() && 0 <= j < self.players@.len() ==> (#[trigger] hits@[i]@[j])@.len()
                    == self.players@[j].snake.segments@.len(),
    {
        let mut hits: Vec<Vec<Vec<bool>>> = Vec::new();
        let mut i: usize = 0;
        while i < self.players.len()
            invariant
                self.wf(),
                i <= self.players@.len(),
                hits@.len() == i,
                forall|a: int| 0 <= a < i ==> (#[trigger] hits@[a])@.len() == self.players@.len(),
                forall|a: int, b: int|
                    0 <= a < i && 0 <= b < self.players@.len() ==> (#[trigger] hits@[a]@[b])@.len()
                        == self.players@[b].snake.segments@.len(),
            decreases self.players@.len() - i,
        {
            let head = self.players[i].get_head_position();
            let mut rows: Vec<Vec<bool>> = Vec::new();
            let mut j: usize = 0;
            while j < self.players.len()
                invariant
                    j <= self.players@.len(),
                    rows@.len() == j,
                    forall|b: int|
                        0 <= b < j ==> (#[trigger] rows@[b])@.len()
                            == self.players@[b].snake.segments@.len(),
                decreases self.players@.len() - j,
            {
                let mut row: Vec<bool> = Vec::new();
                let mut k: usize = 0;
                while k < self.players[j].snake.segments.len()
                    invariant
                        j < self.players@.len(),
                        k <= self.players@[j as int].snake.segments@.len(),
                        row@.len() == k,
                    decreases self.players@[j as int].snake.segments@.len() - k,
                {
                    row.push(host.hits(head, self.players[j].snake.segments[k].position));
                    k += 1;
                }
                rows.push(row);
                j += 1;
            }
            hits.push(rows);
            i += 1;
        }
        hits
    }
}

} // verus!
