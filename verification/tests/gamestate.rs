use libplen::food::{Food, FoodType};
use libplen::collisions::Strike;
use libplen::gamestate::{GameStage, GameState, Move, Round};
use libplen::math::{vec2, Vec2};
use libplen::messages::SoundEffect;
use libplen::player::{Player, Spawn};
use libplen::snake::SnakeSegment;

fn player_of(id: u64, len: usize) -> Player<f32> {
    let mut player = Player::new(
        id,
        format!("p{}", id),
        0.0,
        Spawn { position: vec2(0.0, 0.0), angle: 0.0, speed: 100.0 },
    );
    player.snake.segments.clear();
    for i in 0..len {
        player.snake.segments.push(SnakeSegment {
            position: vec2(id as f32 * 1000.0 + i as f32, i as f32),
            angle: 0.0,
            cuttable: true,
        });
    }
    player
}

fn running(lengths: &[usize]) -> GameState<f32> {
    let mut state = GameState::new(10.0);
    for (i, len) in lengths.iter().enumerate() {
        state.add_player(player_of(i as u64 + 1, *len));
    }
    state.stage = GameStage::Running;
    state
}

fn food_at(x: f32, food_type: FoodType) -> Food<f32> {
    Food { position: vec2(x, 0.0), velocity: vec2(1.0, -1.0), food_type }
}

fn lengths(state: &GameState<f32>) -> Vec<usize> {
    state.players.iter().map(|p| p.snake.len()).collect()
}

fn xs(food: &Vec<Food<f32>>) -> Vec<f32> {
    food.iter().map(|f| f.position.x).collect()
}

fn no_hits(players: usize) -> Vec<Vec<Vec<bool>>> {
    vec![vec![vec![]; players]; players]
}

fn hit(hits: &mut Vec<Vec<Vec<bool>>>, attacker: usize, target: usize, index: usize) {
    let row = &mut hits[attacker][target];
    if row.len() <= index {
        row.resize(index + 1, false);
    }
    row[index] = true;
}

fn round_of(spawns: Vec<Spawn<f32>>) -> Round<f32> {
    Round { game_timer: 10.0, spawns }
}

#[test]
fn new_game_is_an_empty_lobby() {
    let state: GameState<f32> = GameState::new(10.0);
    assert!(state.players.is_empty());
    assert!(state.food.is_empty());
    assert_eq!(state.stage, GameStage::Lobby);
    assert_eq!(state.game_timer, 10.0);
    assert!(state.player_leaderboard.is_empty());
}

#[test]
fn add_player_appends_in_order() {
    let mut state = GameState::new(10.0f32);
    state.add_player(player_of(5, 1));
    state.add_player(player_of(3, 2));
    state.add_player(player_of(9, 3));
    let ids: Vec<u64> = state.players.iter().map(|p| p.id).collect();
    assert_eq!(ids, vec![5, 3, 9]);
    assert_eq!(lengths(&state), vec![1, 2, 3]);
    assert_eq!(state.stage, GameStage::Lobby);
}

#[test]
fn get_player_by_id_finds_the_first_match() {
    let mut state = GameState::new(10.0f32);
    state.add_player(player_of(5, 1));
    state.add_player(player_of(3, 2));
    state.add_player(player_of(3, 4));
    assert_eq!(state.get_player_by_id(5).unwrap().snake.len(), 1);
    assert_eq!(state.get_player_by_id(3).unwrap().snake.len(), 2);
    assert!(state.get_player_by_id(4).is_none());
    let empty: GameState<f32> = GameState::new(10.0);
    assert!(empty.get_player_by_id(0).is_none());
}

#[test]
fn remove_player_takes_one_out_and_keeps_the_order() {
    let mut state = running(&[1, 2, 3, 4]);
    let gone = state.remove_player(2).unwrap();
    assert_eq!(gone.id, 2);
    assert_eq!(gone.snake.len(), 2);
    let ids: Vec<u64> = state.players.iter().map(|p| p.id).collect();
    assert_eq!(ids, vec![1, 3, 4]);
    assert!(state.remove_player(2).is_none());
    assert_eq!(state.players.len(), 3);
    assert!(state.get_player_by_id(2).is_none());
    state.update_leaderboard();
    assert_eq!(state.player_leaderboard, vec![4, 3, 1]);
}

#[test]
fn maybe_spawn_food_tops_up_below_ten() {
    let mut state = running(&[1]);
    for i in 0..9 {
        state.food.push(food_at(i as f32, FoodType::Normal(10)));
    }
    state.maybe_spawn_food(food_at(100.0, FoodType::Armor(10)));
    assert_eq!(state.food.len(), 10);
    assert_eq!(state.food[9].position.x, 100.0);
    assert_eq!(state.food[9].food_type, FoodType::Armor(10));
    state.maybe_spawn_food(food_at(200.0, FoodType::Normal(10)));
    assert_eq!(state.food.len(), 10);
}

#[test]
fn maybe_spawn_food_waits_for_a_running_round() {
    let mut state = running(&[1]);
    state.stage = GameStage::Lobby;
    state.maybe_spawn_food(food_at(1.0, FoodType::Normal(10)));
    assert!(state.food.is_empty());
    state.stage = GameStage::Ended;
    state.maybe_spawn_food(food_at(1.0, FoodType::Normal(10)));
    assert!(state.food.is_empty());
    state.stage = GameStage::Running;
    state.maybe_spawn_food(food_at(1.0, FoodType::Normal(10)));
    assert_eq!(state.food.len(), 1);
}

#[test]
fn spawn_food_stops_at_a_thousand() {
    let mut state = running(&[1]);
    for i in 0..999 {
        assert!(state.spawn_food(food_at(i as f32, FoodType::Normal(10))));
    }
    assert_eq!(state.food.len(), 999);
    assert!(state.spawn_food(food_at(999.0, FoodType::Normal(10))));
    assert_eq!(state.food.len(), 1000);
    assert!(!state.spawn_food(food_at(1000.0, FoodType::Normal(10))));
    assert_eq!(state.food.len(), 1000);
    assert_eq!(state.food[999].position.x, 999.0);
}

#[test]
fn update_players_moves_each_player_with_its_entry() {
    let mut state = running(&[2, 2, 2]);
    state.players[1].eat_grace_timer = 4;
    let moves = vec![
        Move { player_speed: 110.0, head_position: vec2(1.0, 2.0), head_angle: 0.1 },
        Move { player_speed: 120.0, head_position: vec2(3.0, 4.0), head_angle: 0.2 },
    ];
    state.update_players(&moves);
    assert_eq!(state.players[0].player_speed, 110.0);
    assert_eq!(state.players[1].player_speed, 120.0);
    assert_eq!(state.players[2].player_speed, 100.0);
    assert_eq!(state.players[0].snake.segments[0].position.x, 1.0);
    assert_eq!(state.players[0].snake.segments[1].position.x, 1000.0);
    assert_eq!(state.players[1].snake.segments[0].angle, 0.2);
    assert_eq!(state.players[1].snake.segments[1].position.x, 2000.0);
    assert_eq!(state.players[1].eat_grace_timer, 3);
    assert_eq!(state.players[2].snake.segments[0].position.x, 3000.0);
    assert_eq!(state.players[2].snake.segments[1].position.x, 3001.0);
}

#[test]
fn update_players_waits_for_a_running_round() {
    for stage in [GameStage::Lobby, GameStage::Ended] {
        let mut state = running(&[2]);
        state.stage = stage;
        state.players[0].eat_grace_timer = 4;
        state.update_players(&vec![Move {
            player_speed: 110.0,
            head_position: vec2(1.0, 2.0),
            head_angle: 0.1,
        }]);
        assert_eq!(state.players[0].player_speed, 100.0);
        assert_eq!(state.players[0].snake.segments[0].position.x, 1000.0);
        assert_eq!(state.players[0].eat_grace_timer, 4);
    }
}

#[test]
fn update_food_takes_place_and_velocity_and_keeps_the_kind() {
    let mut state = running(&[1]);
    state.food.push(food_at(1.0, FoodType::Normal(10)));
    state.food.push(food_at(2.0, FoodType::Armor(10)));
    state.food.push(food_at(3.0, FoodType::Normal(10)));
    let moved = vec![
        Food { position: vec2(11.0, 1.0), velocity: vec2(5.0, 6.0), food_type: FoodType::Armor(1) },
        Food { position: vec2(12.0, 2.0), velocity: vec2(7.0, 8.0), food_type: FoodType::Normal(1) },
    ];
    state.update_food(&moved);
    assert_eq!(xs(&state.food), vec![11.0, 12.0, 3.0]);
    assert_eq!((state.food[0].velocity.x, state.food[0].velocity.y), (5.0, 6.0));
    assert_eq!((state.food[1].velocity.x, state.food[1].velocity.y), (7.0, 8.0));
    assert_eq!((state.food[2].velocity.x, state.food[2].velocity.y), (1.0, -1.0));
    assert_eq!(state.food[0].food_type, FoodType::Normal(10));
    assert_eq!(state.food[1].food_type, FoodType::Armor(10));
    state.stage = GameStage::Ended;
    state.update_food(&vec![food_at(50.0, FoodType::Normal(10))]);
    assert_eq!(xs(&state.food), vec![11.0, 12.0, 3.0]);
}

#[test]
fn players_eat_what_lies_at_their_heads() {
    let mut state = running(&[1, 3]);
    state.food.push(food_at(0.0, FoodType::Normal(10)));
    state.food.push(food_at(1.0, FoodType::Armor(10)));
    state.food.push(food_at(2.0, FoodType::Normal(10)));
    state.food.push(food_at(3.0, FoodType::Normal(10)));
    let near = vec![vec![true, false, true, false], vec![true, true, false, false]];
    let mut sounds = vec![SoundEffect::Start];
    state.handle_player_food(&mut sounds, &near);
    assert_eq!(lengths(&state), vec![21, 13]);
    let flags: Vec<bool> = state.players[1].snake.segments.iter().map(|s| s.cuttable).collect();
    let mut expected = vec![false; 10];
    expected.extend(vec![true; 3]);
    assert_eq!(flags, expected);
    assert!(state.players[0].snake.segments.iter().all(|s| s.cuttable));
    assert_eq!(xs(&state.food), vec![3.0]);
    assert_eq!(
        sounds,
        vec![
            SoundEffect::Start,
            SoundEffect::Eat,
            SoundEffect::Eat,
            SoundEffect::Eat,
            SoundEffect::Eat
        ]
    );
}

#[test]
fn eaten_food_is_removed_and_the_rest_keeps_its_order() {
    let mut state = running(&[1, 1]);
    for i in 0..6 {
        state.food.push(food_at(i as f32, FoodType::Normal(1)));
    }
    let near = vec![
        vec![false, false, false, true, false, false],
        vec![false, true, false, true, false, true],
    ];
    let mut sounds = vec![];
    state.handle_player_food(&mut sounds, &near);
    assert_eq!(xs(&state.food), vec![0.0, 2.0, 4.0]);
    assert_eq!(lengths(&state), vec![2, 4]);
    assert_eq!(sounds, vec![SoundEffect::Eat; 4]);
}

#[test]
fn a_player_in_its_grace_period_leaves_the_food_alone() {
    let mut state = running(&[2, 2]);
    state.players[0].eat_grace_timer = 3;
    state.food.push(food_at(0.0, FoodType::Normal(10)));
    state.food.push(food_at(1.0, FoodType::Normal(10)));
    let near = vec![vec![true, true], vec![false, true]];
    let mut sounds = vec![];
    state.handle_player_food(&mut sounds, &near);
    assert_eq!(lengths(&state), vec![2, 12]);
    assert_eq!(xs(&state.food), vec![0.0]);
    assert_eq!(sounds, vec![SoundEffect::Eat]);
    assert_eq!(state.players[0].eat_grace_timer, 3);
}

#[test]
fn meals_take_what_the_table_does_not_cover_as_apart() {
    let mut state = running(&[1, 1, 1]);
    for i in 0..3 {
        state.food.push(food_at(i as f32, FoodType::Normal(2)));
    }
    let near = vec![vec![false, true], vec![], vec![false, false, true, true, true]];
    let mut sounds = vec![];
    state.handle_player_food(&mut sounds, &near);
    assert_eq!(lengths(&state), vec![3, 1, 3]);
    assert_eq!(xs(&state.food), vec![0.0]);
    assert_eq!(sounds.len(), 2);
    let mut state = running(&[1]);
    state.food.push(food_at(0.0, FoodType::Normal(2)));
    state.handle_player_food(&mut sounds, &vec![]);
    assert_eq!(lengths(&state), vec![1]);
    assert_eq!(state.food.len(), 1);
    assert_eq!(sounds.len(), 2);
}

#[test]
fn nobody_eats_outside_a_running_round() {
    for stage in [GameStage::Lobby, GameStage::Ended] {
        let mut state = running(&[1]);
        state.stage = stage;
        state.food.push(food_at(0.0, FoodType::Normal(10)));
        let mut sounds = vec![];
        state.handle_player_food(&mut sounds, &vec![vec![true]]);
        assert_eq!(lengths(&state), vec![1]);
        assert_eq!(state.food.len(), 1);
        assert!(sounds.is_empty());
    }
}

#[test]
fn cut_seeds_takes_every_fourth_place() {
    let places: Vec<Vec2<f32>> = (0..10).map(|i| vec2(i as f32, 0.0)).collect();
    let picked = |n: usize| -> Vec<f32> {
        GameState::<f32>::cut_seeds(&places[..n].to_vec()).iter().map(|p| p.x).collect()
    };
    assert_eq!(picked(0), Vec::<f32>::new());
    assert_eq!(picked(1), vec![0.0]);
    assert_eq!(picked(4), vec![0.0]);
    assert_eq!(picked(5), vec![0.0, 4.0]);
    assert_eq!(picked(8), vec![0.0, 4.0]);
    assert_eq!(picked(9), vec![0.0, 4.0, 8.0]);
    assert_eq!(picked(10), vec![0.0, 4.0, 8.0]);
}

#[test]
fn a_head_cuts_the_chain_it_runs_into() {
    let mut state = running(&[3, 12]);
    let mut hits = no_hits(2);
    hit(&mut hits, 0, 1, 7);
    hit(&mut hits, 0, 1, 9);
    let mut sounds = vec![];
    let seeds = state.handle_player_collisions(&mut sounds, &hits);
    assert_eq!(lengths(&state), vec![3, 7]);
    let seeds: Vec<(f32, f32)> = seeds.iter().map(|p| (p.x, p.y)).collect();
    assert_eq!(seeds, vec![(2007.0, 7.0), (2011.0, 11.0)]);
    assert_eq!(sounds, vec![SoundEffect::Cut]);
    assert_eq!(state.players[1].eat_grace_timer, 10);
    assert_eq!(state.players[0].eat_grace_timer, 0);
    assert!(state.food.is_empty());
}

#[test]
fn find_strikes_goes_attacker_by_attacker_and_target_by_target() {
    let state = running(&[8, 9, 10]);
    let mut hits = no_hits(3);
    hit(&mut hits, 2, 0, 7);
    hit(&mut hits, 0, 2, 9);
    hit(&mut hits, 0, 2, 6);
    hit(&mut hits, 1, 1, 8);
    hit(&mut hits, 0, 1, 3);
    hit(&mut hits, 2, 1, 9);
    let strikes: Vec<(usize, usize, usize)> =
        state.find_strikes(&hits).iter().map(|s: &Strike| (s.attacker, s.target, s.index)).collect();
    assert_eq!(strikes, vec![(0, 2, 6), (1, 1, 8), (2, 0, 7)]);
}

#[test]
fn armor_turns_a_strike_of_another_player_away() {
    let mut state = running(&[3, 12]);
    for segment in state.players[1].snake.segments.iter_mut() {
        segment.cuttable = false;
    }
    let mut hits = no_hits(2);
    hit(&mut hits, 0, 1, 7);
    let mut sounds = vec![];
    let seeds = state.handle_player_collisions(&mut sounds, &hits);
    assert_eq!(lengths(&state), vec![3, 12]);
    assert!(seeds.is_empty());
    assert!(sounds.is_empty());
    assert_eq!(state.players[1].eat_grace_timer, 0);
}

#[test]
fn a_player_cuts_through_its_own_armor() {
    let mut state = running(&[3, 12]);
    for segment in state.players[1].snake.segments.iter_mut() {
        segment.cuttable = false;
    }
    let mut hits = no_hits(2);
    hit(&mut hits, 1, 1, 8);
    let mut sounds = vec![];
    let seeds = state.handle_player_collisions(&mut sounds, &hits);
    assert_eq!(lengths(&state), vec![3, 8]);
    assert_eq!(seeds.len(), 1);
    assert_eq!((seeds[0].x, seeds[0].y), (2008.0, 8.0));
    assert_eq!(sounds, vec![SoundEffect::Cut]);
}

#[test]
fn a_hit_at_the_neck_is_no_collision() {
    let mut state = running(&[3, 12]);
    let mut hits = no_hits(2);
    for index in 0..6 {
        hit(&mut hits, 0, 1, index);
        hit(&mut hits, 1, 1, index);
    }
    let mut sounds = vec![];
    let seeds = state.handle_player_collisions(&mut sounds, &hits);
    assert_eq!(lengths(&state), vec![3, 12]);
    assert!(seeds.is_empty());
    assert!(sounds.is_empty());
}

#[test]
fn two_strikes_on_one_chain_are_carried_out_in_order() {
    let mut state = running(&[1, 1, 20]);
    let mut hits = no_hits(3);
    hit(&mut hits, 0, 2, 15);
    hit(&mut hits, 1, 2, 9);
    let mut sounds = vec![];
    let seeds = state.handle_player_collisions(&mut sounds, &hits);
    assert_eq!(lengths(&state), vec![1, 1, 9]);
    let seeds: Vec<f32> = seeds.iter().map(|p| p.y).collect();
    assert_eq!(seeds, vec![15.0, 19.0, 9.0, 13.0]);
    assert_eq!(sounds, vec![SoundEffect::Cut, SoundEffect::Cut]);
}

#[test]
fn a_strike_whose_segment_is_gone_does_nothing() {
    let mut state = running(&[1, 1, 20]);
    let mut hits = no_hits(3);
    hit(&mut hits, 0, 2, 9);
    hit(&mut hits, 1, 2, 15);
    let mut sounds = vec![];
    let seeds = state.handle_player_collisions(&mut sounds, &hits);
    assert_eq!(lengths(&state), vec![1, 1, 9]);
    let seeds: Vec<f32> = seeds.iter().map(|p| p.y).collect();
    assert_eq!(seeds, vec![9.0, 13.0, 17.0]);
    assert_eq!(sounds, vec![SoundEffect::Cut]);
}

#[test]
fn nobody_is_cut_outside_a_running_round() {
    for stage in [GameStage::Lobby, GameStage::Ended] {
        let mut state = running(&[3, 12]);
        state.stage = stage;
        let mut hits = no_hits(2);
        hit(&mut hits, 0, 1, 7);
        let mut sounds = vec![];
        let seeds = state.handle_player_collisions(&mut sounds, &hits);
        assert_eq!(lengths(&state), vec![3, 12]);
        assert!(seeds.is_empty());
        assert!(sounds.is_empty());
    }
}

#[test]
fn collisions_take_what_the_table_does_not_cover_as_out_of_reach() {
    let mut state = running(&[8, 8]);
    let mut sounds = vec![];
    assert!(state.handle_player_collisions(&mut sounds, &vec![]).is_empty());
    assert!(state.handle_player_collisions(&mut sounds, &vec![vec![]]).is_empty());
    let wide = vec![vec![vec![false; 30]; 5]; 5];
    assert!(state.handle_player_collisions(&mut sounds, &wide).is_empty());
    let mut beyond = vec![vec![vec![false; 30]; 5]; 5];
    beyond[0][1][20] = true;
    beyond[4][4][7] = true;
    assert!(state.handle_player_collisions(&mut sounds, &beyond).is_empty());
    assert_eq!(lengths(&state), vec![8, 8]);
    assert!(sounds.is_empty());
}

#[test]
fn leaderboard_goes_by_length_and_keeps_ties_in_joining_order() {
    let mut state = GameState::new(10.0f32);
    for (id, len) in [(10u64, 3usize), (20, 5), (30, 3), (40, 5), (50, 1), (60, 3)] {
        state.add_player(player_of(id, len));
    }
    state.update_leaderboard();
    assert_eq!(state.player_leaderboard, vec![20, 40, 10, 30, 60, 50]);
    let order = state.rank_players();
    assert_eq!(order, vec![1, 3, 0, 2, 5, 4]);
    assert_eq!(lengths(&state), vec![3, 5, 3, 5, 1, 3]);
}

#[test]
fn leaderboard_of_equal_lengths_is_the_player_list() {
    let mut state = GameState::new(10.0f32);
    for id in [7u64, 3, 9, 1] {
        state.add_player(player_of(id, 4));
    }
    state.update_leaderboard();
    assert_eq!(state.player_leaderboard, vec![7, 3, 9, 1]);
    let mut empty: GameState<f32> = GameState::new(10.0);
    empty.player_leaderboard = vec![1, 2];
    empty.update_leaderboard();
    assert!(empty.player_leaderboard.is_empty());
}

#[test]
fn lobby_stays_until_a_player_asks_for_the_start() {
    let mut state = running(&[1, 1]);
    state.stage = GameStage::Lobby;
    let mut sounds = vec![];
    state.update_stage(&mut sounds, 3.0, true, &round_of(vec![]));
    assert_eq!(state.stage, GameStage::Lobby);
    assert!(sounds.is_empty());
    assert_eq!(state.game_timer, 10.0);
    assert!(state.player_leaderboard.is_empty());
    assert!(!state.start_requested());
}

#[test]
fn lobby_starts_the_round_once_when_asked() {
    let mut state = running(&[1, 1, 1]);
    state.stage = GameStage::Lobby;
    state.players[1].input_start_game = true;
    state.players[2].input_start_game = true;
    assert!(state.start_requested());
    let mut sounds = vec![];
    state.update_stage(&mut sounds, 3.0, false, &round_of(vec![]));
    assert_eq!(state.stage, GameStage::Running);
    assert_eq!(sounds, vec![SoundEffect::Start]);
    assert_eq!(state.game_timer, 10.0);
    assert_eq!(lengths(&state), vec![1, 1, 1]);
}

#[test]
fn running_round_takes_the_timer_and_ranks_the_players() {
    let mut state = running(&[2, 5, 3]);
    state.players[0].input_start_game = true;
    let mut sounds = vec![];
    state.update_stage(&mut sounds, 9.5, false, &round_of(vec![]));
    assert_eq!(state.stage, GameStage::Running);
    assert_eq!(state.game_timer, 9.5);
    assert_eq!(state.player_leaderboard, vec![2, 3, 1]);
    assert!(sounds.is_empty());
    state.update_stage(&mut sounds, -0.5, true, &round_of(vec![]));
    assert_eq!(state.stage, GameStage::Ended);
    assert_eq!(state.game_timer, -0.5);
    assert_eq!(sounds, vec![SoundEffect::End]);
    assert_eq!(state.player_leaderboard, vec![2, 3, 1]);
}

#[test]
fn ended_round_stays_until_a_player_asks_for_a_start() {
    let mut state = running(&[2, 5]);
    state.stage = GameStage::Ended;
    state.game_timer = -0.25;
    state.player_leaderboard = vec![2, 1];
    state.food.push(food_at(1.0, FoodType::Normal(10)));
    let mut sounds = vec![];
    state.update_stage(&mut sounds, 5.0, true, &round_of(vec![]));
    assert_eq!(state.stage, GameStage::Ended);
    assert_eq!(state.game_timer, -0.25);
    assert_eq!(state.player_leaderboard, vec![2, 1]);
    assert_eq!(state.food.len(), 1);
    assert_eq!(lengths(&state), vec![2, 5]);
    assert!(sounds.is_empty());
}

#[test]
fn ended_round_goes_back_to_the_lobby_when_asked() {
    let mut state = running(&[2, 5, 4]);
    state.stage = GameStage::Ended;
    state.game_timer = -0.25;
    state.player_leaderboard = vec![2, 3, 1];
    state.food.push(food_at(1.0, FoodType::Normal(10)));
    state.players[1].input_start_game = true;
    state.players[1].eat_grace_timer = 5;
    state.players[1].player_speed = 280.0;
    state.players[1].color = 4;
    state.players[2].player_speed = 222.0;
    let mut sounds = vec![];
    let round = Round {
        game_timer: 10.0,
        spawns: vec![
            Spawn { position: vec2(11.0, 12.0), angle: 0.0, speed: 100.0 },
            Spawn { position: vec2(21.0, 22.0), angle: 0.0, speed: 100.0 },
        ],
    };
    state.update_stage(&mut sounds, 5.0, false, &round);
    assert_eq!(state.stage, GameStage::Lobby);
    assert_eq!(state.game_timer, 10.0);
    assert!(state.player_leaderboard.is_empty());
    assert!(state.food.is_empty());
    assert!(sounds.is_empty());
    assert_eq!(lengths(&state), vec![1, 1, 1]);
    let ids: Vec<u64> = state.players.iter().map(|p| p.id).collect();
    assert_eq!(ids, vec![1, 2, 3]);
    assert_eq!(state.players[1].name, "p2");
    assert_eq!(state.players[1].color, 4);
    assert_eq!(state.players[1].eat_grace_timer, 0);
    assert_eq!(state.players[1].player_speed, 100.0);
    assert_eq!(state.players[0].snake.segments[0].position.x, 11.0);
    assert_eq!(state.players[1].snake.segments[0].position.y, 22.0);
    assert!(state.players[1].input_start_game);
    // the third player has no entry and starts where its head was
    assert_eq!(state.players[2].snake.segments[0].position.x, 3000.0);
    assert_eq!(state.players[2].player_speed, 222.0);
}

#[test]
fn reset_clears_the_round() {
    let mut state = running(&[4]);
    state.food.push(food_at(1.0, FoodType::Normal(10)));
    state.player_leaderboard = vec![1];
    state.game_timer = 2.0;
    state.players[0].snake.segments[1].cuttable = false;
    state.players[0].snake.armor_decay = 30;
    state.reset(&Round {
        game_timer: 10.0,
        spawns: vec![Spawn { position: vec2(5.0, 6.0), angle: 0.5, speed: 100.0 }],
    });
    assert_eq!(state.stage, GameStage::Lobby);
    assert_eq!(state.game_timer, 10.0);
    assert!(state.food.is_empty());
    assert!(state.player_leaderboard.is_empty());
    assert_eq!(lengths(&state), vec![1]);
    let head = state.players[0].snake.segments[0];
    assert_eq!((head.position.x, head.position.y, head.angle), (5.0, 6.0, 0.5));
    assert!(head.cuttable);
    assert_eq!(state.players[0].snake.armor_decay, 0);
}

#[test]
fn spawn_all_fills_the_world_and_drops_the_rest() {
    let mut state = running(&[1]);
    for i in 0..997 {
        state.food.push(food_at(i as f32, FoodType::Normal(10)));
    }
    let offered: Vec<Food<f32>> =
        (0..5).map(|i| food_at(2000.0 + i as f32, FoodType::Armor(10))).collect();
    state.spawn_all(&offered);
    assert_eq!(state.food.len(), 1000);
    assert_eq!(xs(&state.food)[997..], [2000.0, 2001.0, 2002.0]);
    state.spawn_all(&offered);
    assert_eq!(state.food.len(), 1000);
    assert_eq!(state.food[999].position.x, 2002.0);

    let mut state = running(&[1]);
    state.stage = GameStage::Lobby;
    state.spawn_all(&offered);
    assert_eq!(xs(&state.food), vec![2000.0, 2001.0, 2002.0, 2003.0, 2004.0]);
    state.spawn_all(&vec![]);
    assert_eq!(state.food.len(), 5);
}
