use vstd::prelude::*;
use crate::food::{Food, FoodType};
use crate::math::Vec2;
use crate::snake::{
    advanced, first_cuttable, first_set, first_set_index, fresh_snake, Snake, SnakeModel,
    SnakeSegment,
};

verus! {

/// Segments behind the head, the head included, that nobody can run into.
/// Armor is not released beyond this point either.
pub const NUMBER_OF_NON_COLLIDABLE_SEGMENTS: usize = 6;

/// Ticks after a cut during which the cut player cannot eat.
pub const EAT_GRACE_PERIOD: i32 = 10;

/// What a player enters a round with. The host chooses the values.
#[derive(Clone, Copy, Debug)]
pub struct Spawn<S> {
    pub position: Vec2<S>,
    pub angle: S,
    pub speed: S,
}

/// One participant and the chain it steers.
#[derive(Clone, Debug)]
pub struct Player<S> {
    pub id: u64,
    pub color: usize,
    pub name: String,
    pub input_x: S,
    pub input_y: S,
    pub input_start_game: bool,
    pub input_change_color: bool,
    pub snake: Snake<S>,
    pub player_speed: S,
    pub eat_grace_timer: i32,
}

/// What a player is: its fields, with the name as characters and the chain as
/// its model.
pub struct PlayerModel<S> {
    pub id: u64,
    pub color: usize,
    pub name: Seq<char>,
    pub input_x: S,
    pub input_y: S,
    pub input_start_game: bool,
    pub input_change_color: bool,
    pub snake: SnakeModel<S>,
    pub player_speed: S,
    pub eat_grace_timer: i32,
}

impl<S> View for Player<S> {
    type V = PlayerModel<S>;

    open spec fn view(&self) -> PlayerModel<S> {
        PlayerModel {
            id: self.id,
            color: self.color,
            name: self.name@,
            input_x: self.input_x,
            input_y: self.input_y,
            input_start_game: self.input_start_game,
            input_change_color: self.input_change_color,
            snake: self.snake@,
            player_speed: self.player_speed,
            eat_grace_timer: self.eat_grace_timer,
        }
    }
}

/// The segment that eating adds: a cuttable copy of the tail.
pub open spec fn tail_copy<S>(segs: Seq<SnakeSegment<S>>) -> SnakeSegment<S> {
    SnakeSegment { position: segs.last().position, angle: segs.last().angle, cuttable: true }
}

/// `segs` with `count` cuttable copies of its tail behind it.
pub open spec fn grown<S>(segs: Seq<SnakeSegment<S>>, count: nat) -> Seq<SnakeSegment<S>> {
    segs + Seq::new(count, |i: int| tail_copy(segs))
}

/// `segs` with armor on the `count` segments from the first cuttable one on,
/// as far as the chain goes.
pub open spec fn armored<S>(segs: Seq<SnakeSegment<S>>, count: nat) -> Seq<SnakeSegment<S>> {
    match first_cuttable(segs) {
        Some(first) => Seq::new(
            segs.len(),
            |i: int|
                if first <= i < first + count {
                    SnakeSegment { position: segs[i].position, angle: segs[i].angle, cuttable: false }
                } else {
                    segs[i]
                },
        ),
        None => segs,
    }
}

/// The chain after it has taken in a pickup of the given kind.
pub open spec fn fed<S>(segs: Seq<SnakeSegment<S>>, food_type: FoodType) -> Seq<SnakeSegment<S>> {
    match food_type {
        FoodType::Normal(energy) => grown(segs, energy as nat),
        FoodType::Armor(count) => armored(segs, count as nat),
    }
}

/// Whether the player can eat: its grace period has run out.
pub open spec fn can_eat<S>(player: PlayerModel<S>) -> bool {
    player.eat_grace_timer <= 0
}

/// The player after an attempt to eat a pickup of the given kind.
pub open spec fn after_eating<S>(player: PlayerModel<S>, food_type: FoodType) -> PlayerModel<S> {
    if can_eat(player) {
        PlayerModel {
            snake: SnakeModel { segments: fed(player.snake.segments, food_type), ..player.snake },
            ..player
        }
    } else {
        player
    }
}

/// Whether the player `cutter` severs the chain of `player` at `index`: the
/// head stays, and armor holds against everyone but the owner.
pub open spec fn can_cut<S>(player: PlayerModel<S>, index: int, cutter: u64) -> bool {
    1 <= index < player.snake.segments.len() && (player.snake.segments[index].cuttable
        || player.id == cutter)
}

/// The player after an attempt of `cutter` to sever its chain at `index`.
pub open spec fn after_cut<S>(player: PlayerModel<S>, index: int, cutter: u64) -> PlayerModel<S> {
    if can_cut(player, index, cutter) {
        PlayerModel {
            snake: SnakeModel { segments: player.snake.segments.take(index), ..player.snake },
            eat_grace_timer: EAT_GRACE_PERIOD,
            ..player
        }
    } else {
        player
    }
}

/// The places of the segments from `index` on, in chain order.
pub open spec fn positions_from<S>(segs: Seq<SnakeSegment<S>>, index: int) -> Seq<Vec2<S>> {
    Seq::new((segs.len() - index) as nat, |i: int| segs[index + i].position)
}

/// The grace period one tick later.
pub open spec fn grace_after_tick(timer: i32) -> i32 {
    if timer > 0 {
        (timer - 1) as i32
    } else {
        0
    }
}

/// The player after one tick in which the host has chosen `speed` and the
/// head's new place and heading.
pub open spec fn after_tick<S>(
    player: PlayerModel<S>,
    speed: S,
    head_position: Vec2<S>,
    head_angle: S,
) -> PlayerModel<S> {
    PlayerModel {
        snake: advanced(player.snake, head_position, head_angle, NUMBER_OF_NON_COLLIDABLE_SEGMENTS),
        player_speed: speed,
        eat_grace_timer: grace_after_tick(player.eat_grace_timer),
        ..player
    }
}

/// The player at the start of a round: a chain of one segment, the given
/// speed, no grace period. Identity, name, color and input stay.
pub open spec fn respawned<S>(player: PlayerModel<S>, spawn: Spawn<S>) -> PlayerModel<S> {
    PlayerModel {
        snake: fresh_snake(spawn.position, spawn.angle),
        player_speed: spawn.speed,
        eat_grace_timer: 0,
        ..player
    }
}

impl<S: Copy> Player<S> {
    /// A player is well formed when its chain is.
    pub open spec fn wf(&self) -> bool {
        self.snake.wf()
    }

    /// A new player with the steering at rest: `idle` is the value of an
    /// input axis that nobody touches. The color follows from the id.
    pub fn new(id: u64, name: String, idle: S, spawn: Spawn<S>) -> (player: Player<S>)
        ensures
            player.wf(),
            player@ == (PlayerModel {
                id,
                color: id as usize,
                name: name@,
                input_x: idle,
                input_y: idle,
                input_start_game: false,
                input_change_color: false,
                snake: fresh_snake(spawn.position, spawn.angle),
                player_speed: spawn.speed,
                eat_grace_timer: 0,
            }),
    {
        Player {
            id,
            name,
            color: id as usize,
            input_x: idle,
            input_y: idle,
            input_start_game: false,
            input_change_color: false,
            snake: Snake::new(spawn.position, spawn.angle),
            player_speed: spawn.speed,
            eat_grace_timer: 0,
        }
    }

    /// Puts the player back to the start of a round.
    pub fn reset(&mut self, spawn: Spawn<S>)
        ensures
            final(self)@ == respawned(old(self)@, spawn),
            final(self).wf(),
    {
        self.snake = Snake::new(spawn.position, spawn.angle);
        self.player_speed = spawn.speed;
        self.eat_grace_timer = 0;
    }

    /// The player `other_id` tries to sever this chain at `index`.
    ///
    /// The cut fails, and nothing changes, at the head and at an armored
    /// segment of another player's chain. Otherwise the chain keeps the
    /// segments before `index`, the places of the others are returned in chain
    /// order, and the grace period starts.
    pub fn try_cut(&mut self, index: usize, other_id: u64) -> (r: Option<Vec<Vec2<S>>>)
        requires
            old(self).wf(),
            index < old(self).snake.segments@.len(),
        ensures
            final(self).wf(),
            final(self)@ == after_cut(old(self)@, index as int, other_id),
            match r {
                Some(cut) => can_cut(old(self)@, index as int, other_id) && cut@ == positions_from(
                    old(self).snake.segments@,
                    index as int,
                ),
                None => !can_cut(old(self)@, index as int, other_id),
            },
    {
        let segment = self.snake.segments[index];
        if index == 0 || (!segment.cuttable && self.id != other_id) {
            return None;
        }
        let mut cut_segment_positions: Vec<Vec2<S>> = Vec::new();
        let mut i: usize = index;
        while i < self.snake.segments.len()
            invariant
                index <= i <= self.snake.segments@.len(),
                self.snake.segments@ == old(self).snake.segments@,
                cut_segment_positions@.len() == i - index,
                forall|k: int|
                    0 <= k < i - index ==> cut_segment_positions@[k] == self.snake.segments@[index
                        + k].position,
            decreases self.snake.segments@.len() - i,
        {
            cut_segment_positions.push(self.snake.segments[i].position);
            i += 1;
        }
        self.snake.segments.truncate(index);
        self.eat_grace_timer = EAT_GRACE_PERIOD;
        Some(cut_segment_positions)
    }

    /// The segment of `other` that this player's head runs into: the lowest
    /// index behind the neck at which `hits` holds `true`. `hits[i]` says
    /// whether the head lies within reach of segment `i` of `other`; an index
    /// that `hits` does not cover counts as out of reach.
    pub fn collides_with(&self, other: &Snake<S>, hits: &Vec<bool>) -> (r: Option<usize>)
        ensures
            match r {
                Some(i) => collision(hits@, other@.segments.len()) == Some(i as int),
                None => collision(hits@, other@.segments.len()).is_none(),
            },
            match r {
                Some(i) => NUMBER_OF_NON_COLLIDABLE_SEGMENTS <= i < other@.segments.len() && i
                    < hits@.len() && hits@[i as int] && forall|j: int|
                    NUMBER_OF_NON_COLLIDABLE_SEGMENTS <= j < i ==> !hits@[j],
                None => forall|j: int|
                    NUMBER_OF_NON_COLLIDABLE_SEGMENTS <= j < other@.segments.len() && j
                        < hits@.len() ==> !hits@[j],
            },
    {
        first_set_index(hits, NUMBER_OF_NON_COLLIDABLE_SEGMENTS, other.segments.len())
    }

    /// The player tries to eat `food`.
    ///
    /// During the grace period nothing happens and `false` is returned.
    /// Otherwise plain energy adds that many cuttable copies of the tail, and
    /// armor protects that many segments from the first cuttable one on.
    pub fn try_eat(&mut self, food: &Food<S>) -> (eaten: bool)
        requires
            old(self).wf(),
        ensures
            final(self).wf(),
            eaten == can_eat(old(self)@),
            final(self)@ == after_eating(old(self)@, food.food_type),
    {
        if self.eat_grace_timer > 0 {
            return false;
        }
        match food.food_type {
            FoodType::Normal(energy) => {
                let tail = self.snake.segments[self.snake.segments.len() - 1];
                let copy = SnakeSegment { position: tail.position, angle: tail.angle, cuttable: true };
                let mut n: u32 = 0;
                while n < energy
                    invariant
                        n <= energy,
                        copy == tail_copy(old(self).snake.segments@),
                        self.snake.segments@ == grown(old(self).snake.segments@, n as nat),
                        self.snake.armor_decay == old(self).snake.armor_decay,
                        self@ == (PlayerModel { snake: self.snake@, ..old(self)@ }),
                    decreases energy - n,
                {
                    self.snake.segments.push(copy);
                    n += 1;
                }
            },
            FoodType::Armor(count) => {
                match self.snake.get_first_cuttable_index() {
                    Some(first) => {
                        let len = self.snake.segments.len();
                        let end: usize = if count >= len - first {
                            len
                        } else {
                            first + count
                        };
                        let mut i: usize = first;
                        while i < end
                            invariant
                                first <= i <= end <= len,
                                len == old(self).snake.segments@.len(),
                                self.snake.segments@.len() == len,
                                first_cuttable(old(self).snake.segments@) == Some(first as int),
                                end == if first + count < len {
                                    first + count
                                } else {
                                    len as int
                                },
                                forall|k: int|
                                    0 <= k < i ==> self.snake.segments@[k] == armored(
                                        old(self).snake.segments@,
                                        count as nat,
                                    )[k],
                                forall|k: int|
                                    i <= k < len ==> self.snake.segments@[k] == old(
                                        self,
                                    ).snake.segments@[k],
                                self.snake.armor_decay == old(self).snake.armor_decay,
                                self@ == (PlayerModel { snake: self.snake@, ..old(self)@ }),
                            decreases end - i,
                        {
                            self.snake.segments[i].cuttable = false;
                            i += 1;
                        }
                        assert(self.snake.segments@ =~= armored(
                            old(self).snake.segments@,
                            count as nat,
                        ));
                    },
                    None => {},
                }
            },
        }
        true
    }

    /// The place of the head.
    pub fn get_head_position(&self) -> (position: Vec2<S>)
        requires
            self.wf(),
        ensures
            position == self.snake.segments@[0].position,
    {
        self.snake.segments[0].position
    }

    /// Stores what the player asks for in this tick.
    pub fn set_input(
        &mut self,
        input_x: S,
        input_y: S,
        input_start_game: bool,
        input_change_color: bool,
    )
        ensures
            final(self)@ == (PlayerModel {
                input_x,
                input_y,
                input_start_game,
                input_change_color,
                ..old(self)@
            }),
    {
        self.input_x = input_x;
        self.input_y = input_y;
        self.input_start_game = input_start_game;
        self.input_change_color = input_change_color;
    }

    /// Advances the player by one tick: the grace period goes down by one, as
    /// far as zero, the speed becomes `player_speed`, and the chain moves with
    /// its head to `head_position` and `head_angle`.
    pub fn update(&mut self, player_speed: S, head_position: Vec2<S>, head_angle: S)
        requires
            old(self).wf(),
        ensures
            final(self).wf(),
            final(self)@ == after_tick(old(self)@, player_speed, head_position, head_angle),
    {
        self.eat_grace_timer = if self.eat_grace_timer > 0 {
            self.eat_grace_timer - 1
        } else {
            0
        };
        self.player_speed = player_speed;
        self.snake.update(head_position, head_angle, NUMBER_OF_NON_COLLIDABLE_SEGMENTS);
    }
}

/// The segment that a head runs into, given which segments it is within reach
/// of: the lowest index behind the neck, and within the chain of `len`
/// segments, at which `hits` holds `true`.
pub open spec fn collision(hits: Seq<bool>, len: nat) -> Option<int> {
    first_set(hits, NUMBER_OF_NON_COLLIDABLE_SEGMENTS as int, len as int)
}

} // verus!
