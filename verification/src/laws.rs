use vstd::prelude::*;
use crate::food::FoodType;
use crate::collisions::{after_collisions, after_strikes, strikes_in_row, strikes_upto, Strike};
use crate::food::Food;
use crate::gamestate::{
    after_stage, heard_on_stage, moved_players, start_requested, unique_ids, GameModel,
    GameStage, Move,
};
use crate::leaderboard::{
    ids_in_order, leaderboard_of, lemma_ranking_exists, length_of, ranking, ranks_before,
};
use crate::meals::{after_meals, fed_player, row_of};
use crate::math::Vec2;
use crate::snake::{advanced, lemma_first_cuttable_from, SnakeModel};
use crate::tick::{after_physics, ticked, Answers};
use crate::messages::SoundEffect;
use crate::player::{
    after_cut, after_eating, after_tick, can_cut, can_eat, positions_from, PlayerModel, Spawn,
    EAT_GRACE_PERIOD,
};

verus! {

/// A player who eats plain energy grows by exactly that many segments. What
/// was there stays as it was, and every new segment is cuttable.
pub proof fn law_eating_grows<S>(player: PlayerModel<S>, energy: u32)
    requires
        can_eat(player),
    ensures
        ({
            let before = player.snake.segments;
            let after = after_eating(player, FoodType::Normal(energy)).snake.segments;
            &&& after.len() == before.len() + energy
            &&& forall|i: int| 0 <= i < before.len() ==> after[i] == before[i]
            &&& forall|i: int| before.len() <= i < after.len() ==> after[i].cuttable
        }),
{
}

/// Armor changes no length: a player who eats armor keeps every segment in
/// its place.
pub proof fn law_armor_keeps_length<S>(player: PlayerModel<S>, count: usize)
    ensures
        ({
            let before = player.snake.segments;
            let after = after_eating(player, FoodType::Armor(count)).snake.segments;
            &&& after.len() == before.len()
            &&& forall|i: int|
                0 <= i < before.len() ==> after[i].position == before[i].position && after[i].angle
                    == before[i].angle
        }),
{
}

/// A cut at `index` leaves exactly `index` segments, the ones that stood
/// before it, and sets free the places of all the others, each at its old
/// distance from the cut.
pub proof fn law_cut_truncates<S>(player: PlayerModel<S>, index: int, cutter: u64)
    requires
        can_cut(player, index, cutter),
    ensures
        ({
            let before = player.snake.segments;
            let after = after_cut(player, index, cutter).snake.segments;
            let freed = positions_from(before, index);
            &&& after.len() == index
            &&& forall|i: int| 0 <= i < index ==> after[i] == before[i]
            &&& freed.len() == before.len() - index
            &&& forall|i: int| 0 <= i < freed.len() ==> freed[i] == before[index + i].position
        }),
{
}

/// Armor holds against everyone else: at an armored segment the cut of
/// another player fails and changes nothing.
pub proof fn law_armor_protects<S>(player: PlayerModel<S>, index: int, cutter: u64)
    requires
        0 <= index < player.snake.segments.len(),
        !player.snake.segments[index].cuttable,
        cutter != player.id,
    ensures
        !can_cut(player, index, cutter),
        after_cut(player, index, cutter) == player,
{
}

/// Armor does not hold against its owner: behind the head a player cuts
/// through its own chain wherever it strikes.
pub proof fn law_owner_cuts_own_armor<S>(player: PlayerModel<S>, index: int)
    requires
        1 <= index < player.snake.segments.len(),
    ensures
        can_cut(player, index, player.id),
        after_cut(player, index, player.id).snake.segments == player.snake.segments.take(index),
{
}

/// The head is never cut off: whoever strikes, a chain keeps at least one
/// segment.
pub proof fn law_cut_keeps_head<S>(player: PlayerModel<S>, index: int, cutter: u64)
    requires
        player.snake.segments.len() >= 1,
    ensures
        after_cut(player, index, cutter).snake.segments.len() >= 1,
        after_cut(player, index, cutter).snake.segments[0] == player.snake.segments[0],
{
}

/// The ranking lists every player exactly once.
pub proof fn law_leaderboard_lists_everyone<S>(players: Seq<PlayerModel<S>>, p: usize)
    requires
        players.len() <= usize::MAX,
        p < players.len(),
    ensures
        leaderboard_of(players).len() == players.len(),
        exists|k: int|
            0 <= k < players.len() && #[trigger] ranking(players)[k] == p && leaderboard_of(
                players,
            )[k] == players[p as int].id,
        forall|a: int, b: int|
            0 <= a < players.len() && 0 <= b < players.len() && ranking(players)[a] == p
                && ranking(players)[b] == p ==> a == b,
{
    lemma_ranking_exists(players);
    let order = ranking(players);
    assert(order.contains(p));
}

/// The ranking goes by length, longest first, and is stable: of two players
/// with chains of one length, the one who stands first among the players
/// stands first in the ranking.
pub proof fn law_leaderboard_stable<S>(players: Seq<PlayerModel<S>>, a: int, b: int)
    requires
        players.len() <= usize::MAX,
        0 <= a < b < players.len(),
    ensures
        ({
            let order = ranking(players);
            &&& leaderboard_of(players) == ids_in_order(players, order)
            &&& order[a] < players.len()
            &&& order[b] < players.len()
            &&& length_of(players, order[a] as int) >= length_of(players, order[b] as int)
            &&& length_of(players, order[a] as int) == length_of(players, order[b] as int)
                ==> order[a] < order[b]
        }),
{
    lemma_ranking_exists(players);
    let order = ranking(players);
}

/// In the lobby nothing happens until a player asks for the start: then the
/// round runs, and its start is heard once.
pub proof fn law_lobby_waits_for_start<S>(
    game: GameModel<S>,
    game_timer: S,
    expired: bool,
    round_timer: S,
    spawns: Seq<Spawn<S>>,
)
    requires
        game.stage == GameStage::Lobby,
    ensures
        ({
            let after = after_stage(game, game_timer, expired, round_timer, spawns);
            let heard = heard_on_stage(game, expired);
            if start_requested(game.players) {
                &&& after == (GameModel { stage: GameStage::Running, ..game })
                &&& heard == seq![SoundEffect::Start]
            } else {
                &&& after == game
                &&& heard == Seq::<SoundEffect>::empty()
            }
        }),
{
}

/// A running round ends in the tick in which the host finds the timer run
/// out, and in no other; its end is heard in that tick, once.
pub proof fn law_round_ends_on_expiry<S>(
    game: GameModel<S>,
    game_timer: S,
    expired: bool,
    round_timer: S,
    spawns: Seq<Spawn<S>>,
)
    requires
        game.stage == GameStage::Running,
    ensures
        ({
            let after = after_stage(game, game_timer, expired, round_timer, spawns);
            let heard = heard_on_stage(game, expired);
            &&& after.game_timer == game_timer
            &&& after.players == game.players
            &&& after.food == game.food
            &&& expired ==> after.stage == GameStage::Ended && heard == seq![SoundEffect::End]
            &&& !expired ==> after.stage == GameStage::Running && heard == Seq::<
                SoundEffect,
            >::empty()
        }),
{
}

/// The player after the first `n` of the given moves, one tick each.
pub open spec fn after_ticks<S>(player: PlayerModel<S>, moves: Seq<Move<S>>, n: nat) -> PlayerModel<
    S,
>
    decreases n,
{
    if n == 0 {
        player
    } else {
        let before = after_ticks(player, moves, (n - 1) as nat);
        after_tick(
            before,
            moves[n - 1].player_speed,
            moves[n - 1].head_position,
            moves[n - 1].head_angle,
        )
    }
}

/// The grace period after `n` ticks.
pub proof fn lemma_grace_after_ticks<S>(player: PlayerModel<S>, moves: Seq<Move<S>>, n: nat)
    requires
        0 <= player.eat_grace_timer,
    ensures
        after_ticks(player, moves, n).eat_grace_timer == if n <= player.eat_grace_timer {
            player.eat_grace_timer - n
        } else {
            0
        },
    decreases n,
{
    if n > 0 {
        lemma_grace_after_ticks(player, moves, (n - 1) as nat);
    }
}

/// A player who has just been cut cannot eat: not in the same tick, and not
/// in the ticks that follow while the grace period lasts. The attempt
/// fails and leaves the player, and the length of its chain, as they were.
pub proof fn law_no_meal_after_cut<S>(
    player: PlayerModel<S>,
    index: int,
    cutter: u64,
    moves: Seq<Move<S>>,
    n: nat,
    food_type: FoodType,
)
    requires
        can_cut(player, index, cutter),
        n < EAT_GRACE_PERIOD,
    ensures
        ({
            let later = after_ticks(after_cut(player, index, cutter), moves, n);
            &&& later.eat_grace_timer == EAT_GRACE_PERIOD - n
            &&& !can_eat(later)
            &&& after_eating(later, food_type) == later
        }),
{
    lemma_grace_after_ticks(after_cut(player, index, cutter), moves, n);
}

/// Once the grace period is over, the player eats again.
pub proof fn law_grace_ends<S>(
    player: PlayerModel<S>,
    index: int,
    cutter: u64,
    moves: Seq<Move<S>>,
    n: nat,
)
    requires
        can_cut(player, index, cutter),
        n >= EAT_GRACE_PERIOD,
    ensures
        can_eat(after_ticks(after_cut(player, index, cutter), moves, n)),
{
    lemma_grace_after_ticks(after_cut(player, index, cutter), moves, n);
}

/// The body follows the head one tick behind: after a tick every segment but
/// the head stands where its predecessor stood before, with its heading, and
/// the head stands where the host has put it. The chain keeps its length.
pub proof fn law_body_follows<S>(
    snake: SnakeModel<S>,
    head_position: Vec2<S>,
    head_angle: S,
    neck: usize,
    i: int,
)
    requires
        0 <= i < snake.segments.len(),
    ensures
        ({
            let after = advanced(snake, head_position, head_angle, neck).segments;
            &&& after.len() == snake.segments.len()
            &&& i == 0 ==> after[i].position == head_position && after[i].angle == head_angle
            &&& i > 0 ==> after[i].position == snake.segments[i - 1].position && after[i].angle
                == snake.segments[i - 1].angle
        }),
{
    lemma_first_cuttable_from(snake.segments, 0);
}

/// The ids of the players, in order.
pub open spec fn ids_of<S>(players: Seq<PlayerModel<S>>) -> Seq<u64> {
    Seq::new(players.len(), |i: int| players[i].id)
}

/// Eating changes nobody's id.
pub proof fn lemma_fed_player_id<S>(
    player: PlayerModel<S>,
    food: Seq<Food<S>>,
    row: Seq<bool>,
    n: nat,
)
    ensures
        fed_player(player, food, row, n).id == player.id,
    decreases n,
{
    if n > 0 {
        lemma_fed_player_id(player, food, row, (n - 1) as nat);
    }
}

/// Every strike of a row names two players of the game.
pub proof fn lemma_strikes_in_row_name_players<S>(
    players: Seq<PlayerModel<S>>,
    hits: Seq<Vec<Vec<bool>>>,
    i: int,
    n: nat,
)
    requires
        0 <= i < players.len() <= usize::MAX,
        n <= players.len(),
    ensures
        forall|k: int|
            0 <= k < strikes_in_row(players, hits, i, n).len() ==> names_players(
                #[trigger] strikes_in_row(players, hits, i, n)[k],
                players.len(),
            ),
    decreases n,
{
    if n > 0 {
        lemma_strikes_in_row_name_players(players, hits, i, (n - 1) as nat);
        let before = strikes_in_row(players, hits, i, (n - 1) as nat);
        let row = strikes_in_row(players, hits, i, n);
        assert forall|k: int| 0 <= k < row.len() implies names_players(
            #[trigger] row[k],
            players.len(),
        ) by {}
    }
}

/// Whether the strike names two of `count` players.
pub open spec fn names_players(strike: Strike, count: nat) -> bool {
    strike.attacker < count && strike.target < count
}

/// Every strike of a tick names two players of the game.
pub proof fn lemma_strikes_name_players<S>(
    players: Seq<PlayerModel<S>>,
    hits: Seq<Vec<Vec<bool>>>,
    m: nat,
)
    requires
        m <= players.len() <= usize::MAX,
    ensures
        forall|k: int|
            0 <= k < strikes_upto(players, hits, m).len() ==> names_players(
                #[trigger] strikes_upto(players, hits, m)[k],
                players.len(),
            ),
    decreases m,
{
    if m > 0 {
        lemma_strikes_name_players(players, hits, (m - 1) as nat);
        lemma_strikes_in_row_name_players(players, hits, m - 1, players.len());
        let before = strikes_upto(players, hits, (m - 1) as nat);
        let row = strikes_in_row(players, hits, m - 1, players.len());
        let all = strikes_upto(players, hits, m);
        assert forall|k: int| 0 <= k < all.len() implies names_players(
            #[trigger] all[k],
            players.len(),
        ) by {}
    }
}

/// Cuts change nobody's id, take nobody out of the game, and leave every
/// chain its head.
pub proof fn lemma_after_strikes_keeps_players<S>(
    players: Seq<PlayerModel<S>>,
    strikes: Seq<Strike>,
    n: nat,
)
    requires
        n <= strikes.len(),
        forall|k: int| 0 <= k < strikes.len() ==> names_players(#[trigger] strikes[k], players.len()),
    ensures
        ids_of(after_strikes(players, strikes, n).players) == ids_of(players),
        forall|p: int|
            0 <= p < players.len() && players[p].snake.segments.len() >= 1 ==> (
            #[trigger] after_strikes(players, strikes, n).players[p]).snake.segments.len() >= 1,
    decreases n,
{
    if n > 0 {
        lemma_after_strikes_keeps_players(players, strikes, (n - 1) as nat);
        let before = after_strikes(players, strikes, (n - 1) as nat).players;
        let after = after_strikes(players, strikes, n).players;
        assert(ids_of(before).len() == players.len());
        assert forall|p: int| 0 <= p < players.len() implies (#[trigger] after[p]).id
            == players[p].id by {
            assert(ids_of(before)[p] == ids_of(players)[p]);
        }
    }
}

/// Who is in the game, and in which order, is the same after every step of a
/// tick: moving, eating and cutting change no id. So unique ids stay unique.
pub proof fn law_steps_keep_identities<S>(
    game: GameModel<S>,
    moves: Seq<Move<S>>,
    near: Seq<Vec<bool>>,
    hits: Seq<Vec<Vec<bool>>>,
)
    requires
        game.players.len() <= usize::MAX,
    ensures
        ids_of(moved_players(game.players, moves)) == ids_of(game.players),
        ids_of(after_meals(game, near).players) == ids_of(game.players),
        ids_of(after_collisions(game.players, hits).players) == ids_of(game.players),
        unique_ids(game.players) ==> unique_ids(moved_players(game.players, moves)) && unique_ids(
            after_meals(game, near).players,
        ) && unique_ids(after_collisions(game.players, hits).players),
{
    let moved = moved_players(game.players, moves);
    let fed = after_meals(game, near).players;
    let cut = after_collisions(game.players, hits).players;
    assert(ids_of(moved) =~= ids_of(game.players));
    assert forall|p: int| 0 <= p < game.players.len() implies (#[trigger] fed[p]).id
        == game.players[p].id by {
        lemma_fed_player_id(
            game.players[p],
            game.food,
            row_of(near, p),
            game.food.len(),
        );
    }
    assert(ids_of(fed) =~= ids_of(game.players));
    let strikes = strikes_upto(game.players, hits, game.players.len());
    lemma_strikes_name_players(game.players, hits, game.players.len());
    lemma_after_strikes_keeps_players(game.players, strikes, strikes.len());
    if unique_ids(game.players) {
        lemma_same_ids_unique(game.players, moved);
        lemma_same_ids_unique(game.players, fed);
        lemma_same_ids_unique(game.players, cut);
    }
}

/// Players with the ids of players whose ids are unique have unique ids.
pub proof fn lemma_same_ids_unique<S>(before: Seq<PlayerModel<S>>, after: Seq<PlayerModel<S>>)
    requires
        unique_ids(before),
        ids_of(after) == ids_of(before),
    ensures
        unique_ids(after),
{
    assert(ids_of(before).len() == before.len());
    assert forall|a: int, b: int| 0 <= a < b < after.len() implies (#[trigger] after[a]).id != (
    #[trigger] after[b]).id by {
        assert(ids_of(after)[a] == after[a].id && ids_of(before)[a] == before[a].id);
        assert(ids_of(after)[b] == after[b].id && ids_of(before)[b] == before[b].id);
    }
}

/// A tick in the lobby changes nothing until a player asks for the start.
/// Then the round runs from the next tick on, and its start is heard exactly
/// once, however many players ask. This holds whatever the host answers.
pub proof fn law_tick_in_lobby<S>(game: GameModel<S>, a: Answers<S>)
    requires
        game.stage == GameStage::Lobby,
    ensures
        ({
            let after = ticked(game, a);
            if start_requested(game.players) {
                &&& after.game == (GameModel { stage: GameStage::Running, ..game })
                &&& after.heard == seq![SoundEffect::Start]
            } else {
                &&& after.game == game
                &&& after.heard == Seq::<SoundEffect>::empty()
            }
        }),
{
    assert(Seq::<SoundEffect>::empty() + seq![SoundEffect::Start] =~= seq![SoundEffect::Start]);
    assert(Seq::<SoundEffect>::empty() + Seq::<SoundEffect>::empty() =~= Seq::<
        SoundEffect,
    >::empty());
}

/// After the end of a round nobody moves, eats or is cut, and nothing is
/// heard: the game stays as it is until a player asks for a start.
pub proof fn law_tick_after_end<S>(game: GameModel<S>, a: Answers<S>)
    requires
        game.stage == GameStage::Ended,
        !start_requested(game.players),
    ensures
        ticked(game, a).game == game,
        ticked(game, a).heard == Seq::<SoundEffect>::empty(),
{
    assert(Seq::<SoundEffect>::empty() + Seq::<SoundEffect>::empty() =~= Seq::<
        SoundEffect,
    >::empty());
}

/// A running round ends in the tick in which the host finds the timer run
/// out, and in no tick before. Its end is heard in that tick, once, after
/// everything else. In every tick the round takes the timer of the host and
/// ranks the players as the tick has left them.
pub proof fn law_tick_of_running_round<S>(game: GameModel<S>, a: Answers<S>)
    requires
        game.stage == GameStage::Running,
    ensures
        ({
            let physics = after_physics(game, a);
            let after = ticked(game, a);
            &&& after.game.stage == if a.expired {
                GameStage::Ended
            } else {
                GameStage::Running
            }
            &&& after.game.game_timer == a.game_timer
            &&& after.game.players == physics.game.players
            &&& after.game.food == physics.game.food
            &&& after.game.player_leaderboard == leaderboard_of(physics.game.players)
            &&& after.heard == physics.heard + if a.expired {
                seq![SoundEffect::End]
            } else {
                Seq::empty()
            }
            &&& forall|k: int|
                0 <= k < after.heard.len() ==> (after.heard[k] == SoundEffect::End <==> a.expired
                    && k == after.heard.len() - 1)
        }),
{
}

} // verus!
