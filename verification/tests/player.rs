use libplen::food::{Food, FoodType};
use libplen::math::vec2;
use libplen::player::{Player, Spawn, EAT_GRACE_PERIOD, NUMBER_OF_NON_COLLIDABLE_SEGMENTS};
use libplen::snake::{Snake, SnakeSegment};

fn spawn_at(x: f32, y: f32) -> Spawn<f32> {
    Spawn { position: vec2(x, y), angle: 0.0, speed: 100.0 }
}

fn player_with(id: u64, flags: &[bool]) -> Player<f32> {
    let mut player = Player::new(id, format!("p{}", id), 0.0, spawn_at(0.0, 0.0));
    player.snake.segments.clear();
    for (i, cuttable) in flags.iter().enumerate() {
        player.snake.segments.push(SnakeSegment {
            position: vec2(i as f32, 100.0 + i as f32),
            angle: 0.1 * i as f32,
            cuttable: *cuttable,
        });
    }
    player
}

fn flags(player: &Player<f32>) -> Vec<bool> {
    player.snake.segments.iter().map(|s| s.cuttable).collect()
}

fn food_of(food_type: FoodType) -> Food<f32> {
    Food { position: vec2(0.0, 0.0), velocity: vec2(0.0, 0.0), food_type }
}

#[test]
fn new_player_starts_at_rest_with_a_fresh_snake() {
    let player = Player::new(7, String::from("Ada"), 0.0f32, Spawn {
        position: vec2(12.0, 34.0),
        angle: 0.0,
        speed: 100.0,
    });
    assert_eq!(player.id, 7);
    assert_eq!(player.color, 7);
    assert_eq!(player.name, "Ada");
    assert_eq!(player.input_x, 0.0);
    assert_eq!(player.input_y, 0.0);
    assert!(!player.input_start_game);
    assert!(!player.input_change_color);
    assert_eq!(player.player_speed, 100.0);
    assert_eq!(player.eat_grace_timer, 0);
    assert_eq!(player.snake.len(), 1);
    assert_eq!(player.snake.armor_decay, 0);
    assert!(player.snake.segments[0].cuttable);
    let head = player.get_head_position();
    assert_eq!((head.x, head.y), (12.0, 34.0));
}

#[test]
fn eating_ten_energy_adds_ten_cuttable_segments() {
    let mut player = player_with(1, &[true, false, true]);
    let before = player.snake.len();
    assert!(player.try_eat(&food_of(FoodType::Normal(10))));
    assert_eq!(player.snake.len(), before + 10);
    assert_eq!(player.snake.len(), 13);
    assert_eq!(&flags(&player)[..3], &[true, false, true]);
    for segment in &player.snake.segments[3..] {
        assert!(segment.cuttable);
        assert_eq!((segment.position.x, segment.position.y), (2.0, 102.0));
        assert_eq!(segment.angle, 0.1 * 2.0);
    }
    assert_eq!(player.eat_grace_timer, 0);
}

#[test]
fn eating_no_energy_changes_nothing() {
    let mut player = player_with(1, &[true, true]);
    assert!(player.try_eat(&food_of(FoodType::Normal(0))));
    assert_eq!(player.snake.len(), 2);
}

#[test]
fn eating_armor_protects_from_the_first_cuttable_segment_on() {
    let mut player = player_with(1, &[false, true, true, true, true, true]);
    assert!(player.try_eat(&food_of(FoodType::Armor(3))));
    assert_eq!(flags(&player), vec![false, false, false, false, true, true]);
    assert_eq!(player.snake.len(), 6);
    assert_eq!(player.snake.armor_decay, 0);
}

#[test]
fn eating_armor_stops_at_the_end_of_the_chain() {
    let mut player = player_with(1, &[true, true, true]);
    assert!(player.try_eat(&food_of(FoodType::Armor(10))));
    assert_eq!(flags(&player), vec![false, false, false]);
    let mut player = player_with(1, &[false, true, true]);
    assert!(player.try_eat(&food_of(FoodType::Armor(usize::MAX))));
    assert_eq!(flags(&player), vec![false, false, false]);
}

#[test]
fn eating_armor_skips_a_cuttable_gap_behind_the_first() {
    let mut player = player_with(1, &[false, true, false, true, true]);
    assert!(player.try_eat(&food_of(FoodType::Armor(2))));
    assert_eq!(flags(&player), vec![false, false, false, true, true]);
}

#[test]
fn eating_armor_on_a_fully_armored_chain_changes_nothing() {
    let mut player = player_with(1, &[false, false]);
    assert!(player.try_eat(&food_of(FoodType::Armor(5))));
    assert_eq!(flags(&player), vec![false, false]);
}

#[test]
fn eating_fails_during_the_grace_period() {
    let mut player = player_with(1, &[true, true, true]);
    player.eat_grace_timer = 1;
    assert!(!player.try_eat(&food_of(FoodType::Normal(10))));
    assert_eq!(player.snake.len(), 3);
    assert!(!player.try_eat(&food_of(FoodType::Armor(2))));
    assert_eq!(flags(&player), vec![true, true, true]);
    assert_eq!(player.eat_grace_timer, 1);
}

#[test]
fn eating_works_with_a_grace_timer_at_or_below_zero() {
    let mut player = player_with(1, &[true]);
    player.eat_grace_timer = -3;
    assert!(player.try_eat(&food_of(FoodType::Normal(1))));
    assert_eq!(player.snake.len(), 2);
}

#[test]
fn cut_leaves_the_segments_before_the_index_and_returns_the_rest() {
    let mut player = player_with(1, &[true, true, true, true, true, true, true]);
    let cut = player.try_cut(3, 2).unwrap();
    assert_eq!(player.snake.len(), 3);
    assert_eq!(cut.len(), 4);
    for (i, position) in cut.iter().enumerate() {
        assert_eq!((position.x, position.y), ((3 + i) as f32, 100.0 + (3 + i) as f32));
    }
    for (i, segment) in player.snake.segments.iter().enumerate() {
        assert_eq!(segment.position.x, i as f32);
    }
    assert_eq!(player.eat_grace_timer, EAT_GRACE_PERIOD);
    assert_eq!(player.eat_grace_timer, 10);
}

#[test]
fn cut_at_the_last_segment_returns_one_position() {
    let mut player = player_with(1, &[true, true, true]);
    let cut = player.try_cut(2, 9).unwrap();
    assert_eq!(cut.len(), 1);
    assert_eq!((cut[0].x, cut[0].y), (2.0, 102.0));
    assert_eq!(player.snake.len(), 2);
}

#[test]
fn armor_protects_against_other_players() {
    let mut player = player_with(1, &[true, true, false, true]);
    player.eat_grace_timer = 0;
    assert!(player.try_cut(2, 2).is_none());
    assert_eq!(player.snake.len(), 4);
    assert_eq!(flags(&player), vec![true, true, false, true]);
    assert_eq!(player.eat_grace_timer, 0);
    for other in [0u64, 2, 3, u64::MAX] {
        assert!(player.try_cut(2, other).is_none());
    }
    assert_eq!(player.snake.len(), 4);
}

#[test]
fn armor_does_not_protect_against_the_owner() {
    let mut player = player_with(1, &[false, false, false, false]);
    let cut = player.try_cut(2, 1).unwrap();
    assert_eq!(cut.len(), 2);
    assert_eq!(player.snake.len(), 2);
    assert_eq!(player.eat_grace_timer, 10);
}

#[test]
fn a_cuttable_segment_behind_armor_can_be_cut_by_others() {
    let mut player = player_with(1, &[false, false, true, false]);
    let cut = player.try_cut(2, 5).unwrap();
    assert_eq!(cut.len(), 2);
    assert_eq!(flags(&player), vec![false, false]);
}

#[test]
fn the_head_cannot_be_cut_off() {
    let mut player = player_with(1, &[true, true, true]);
    assert!(player.try_cut(0, 2).is_none());
    assert!(player.try_cut(0, 1).is_none());
    assert_eq!(player.snake.len(), 3);
    assert_eq!(player.eat_grace_timer, 0);
    let cut = player.try_cut(1, 2).unwrap();
    assert_eq!(cut.len(), 2);
    assert_eq!(player.snake.len(), 1);
}

#[test]
fn a_player_who_was_cut_cannot_eat_until_the_grace_period_is_over() {
    let mut player = player_with(1, &[true, true, true, true]);
    assert!(player.try_cut(2, 2).is_some());
    assert!(!player.try_eat(&food_of(FoodType::Normal(10))));
    assert_eq!(player.snake.len(), 2);
    for tick in 1..EAT_GRACE_PERIOD {
        player.update(100.0, vec2(0.0, 0.0), 0.0);
        assert_eq!(player.eat_grace_timer, EAT_GRACE_PERIOD - tick);
        assert!(!player.try_eat(&food_of(FoodType::Normal(10))));
        assert_eq!(player.snake.len(), 2);
    }
    player.update(100.0, vec2(0.0, 0.0), 0.0);
    assert_eq!(player.eat_grace_timer, 0);
    assert!(player.try_eat(&food_of(FoodType::Normal(10))));
    assert_eq!(player.snake.len(), 12);
}

#[test]
fn collides_with_skips_the_neck() {
    let player = player_with(1, &[true]);
    let other: Snake<f32> = player_with(2, &[true; 10]).snake;
    assert_eq!(NUMBER_OF_NON_COLLIDABLE_SEGMENTS, 6);
    let mut hits = vec![true; 10];
    assert_eq!(player.collides_with(&other, &hits), Some(6));
    hits[6] = false;
    hits[7] = false;
    assert_eq!(player.collides_with(&other, &hits), Some(8));
    let only_neck = vec![true, true, true, true, true, true, false, false, false, false];
    assert_eq!(player.collides_with(&other, &only_neck), None);
}

#[test]
fn collides_with_stays_within_the_chain_and_the_flags() {
    let player = player_with(1, &[true]);
    let other: Snake<f32> = player_with(2, &[true; 8]).snake;
    assert_eq!(player.collides_with(&other, &vec![false; 8]), None);
    assert_eq!(player.collides_with(&other, &vec![]), None);
    assert_eq!(player.collides_with(&other, &vec![true; 6]), None);
    assert_eq!(player.collides_with(&other, &vec![true; 7]), Some(6));
    let mut beyond = vec![false; 12];
    beyond[9] = true;
    assert_eq!(player.collides_with(&other, &beyond), None);
    let short: Snake<f32> = player_with(3, &[true; 6]).snake;
    assert_eq!(player.collides_with(&short, &vec![true; 6]), None);
}

#[test]
fn set_input_stores_all_four_values() {
    let mut player = player_with(1, &[true]);
    player.set_input(-0.5, 1.0, true, false);
    assert_eq!(player.input_x, -0.5);
    assert_eq!(player.input_y, 1.0);
    assert!(player.input_start_game);
    assert!(!player.input_change_color);
    player.set_input(7.5, -3.0, false, true);
    assert_eq!(player.input_x, 7.5);
    assert_eq!(player.input_y, -3.0);
    assert!(!player.input_start_game);
    assert!(player.input_change_color);
    assert_eq!(player.id, 1);
    assert_eq!(player.snake.len(), 1);
}

#[test]
fn update_counts_the_grace_period_down_to_zero() {
    let mut player = player_with(1, &[true, true]);
    player.eat_grace_timer = 2;
    player.update(150.0, vec2(5.0, 6.0), 0.3);
    assert_eq!(player.eat_grace_timer, 1);
    assert_eq!(player.player_speed, 150.0);
    player.update(160.0, vec2(6.0, 7.0), 0.4);
    assert_eq!(player.eat_grace_timer, 0);
    player.update(170.0, vec2(7.0, 8.0), 0.5);
    assert_eq!(player.eat_grace_timer, 0);
    assert_eq!(player.player_speed, 170.0);
    player.eat_grace_timer = i32::MIN;
    player.update(170.0, vec2(7.0, 8.0), 0.5);
    assert_eq!(player.eat_grace_timer, 0);
}

#[test]
fn update_moves_the_snake_and_keeps_armor_at_the_neck() {
    let mut player = player_with(1, &[false, false, false, false, false, true, true]);
    player.update(100.0, vec2(9.0, 9.0), 1.0);
    let head = player.get_head_position();
    assert_eq!((head.x, head.y), (9.0, 9.0));
    assert_eq!(player.snake.segments[0].angle, 1.0);
    assert_eq!(player.snake.segments[1].position.x, 0.0);
    assert_eq!(player.snake.segments[6].position.x, 5.0);
    assert_eq!(flags(&player), vec![false, false, false, false, false, true, true]);
    assert_eq!(player.snake.armor_decay, 0);

    let mut player = player_with(1, &[false, false, false, false, false, false, true]);
    player.update(100.0, vec2(9.0, 9.0), 1.0);
    assert_eq!(flags(&player), vec![false, false, false, false, false, true, true]);
    assert_eq!(player.snake.armor_decay, 50);
}

#[test]
fn reset_keeps_identity_and_input_and_renews_the_rest() {
    let mut player = player_with(4, &[true, false, true]);
    player.color = 9;
    player.set_input(0.5, 0.25, true, true);
    player.eat_grace_timer = 6;
    player.player_speed = 250.0;
    player.snake.armor_decay = 17;
    player.reset(Spawn { position: vec2(70.0, 80.0), angle: 0.0, speed: 100.0 });
    assert_eq!(player.id, 4);
    assert_eq!(player.color, 9);
    assert_eq!(player.name, "p4");
    assert_eq!(player.input_x, 0.5);
    assert!(player.input_start_game);
    assert_eq!(player.snake.len(), 1);
    assert!(player.snake.segments[0].cuttable);
    assert_eq!(player.snake.armor_decay, 0);
    assert_eq!(player.player_speed, 100.0);
    assert_eq!(player.eat_grace_timer, 0);
    let head = player.get_head_position();
    assert_eq!((head.x, head.y), (70.0, 80.0));
}
