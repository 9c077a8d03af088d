//! The rules of a multiplayer arena game in which growing chains of segments
//! eat, collide and cut each other on a plane that wraps around.
//!
//! The library decides; it does not compute with coordinates. Places,
//! headings, speeds and the timer are values of a number type `S` that the
//! host chooses. The host works out where heads and pickups move and which
//! points lie within reach of each other, and hands the outcome over: a new
//! place, or a table of flags. What the game then does with its chains, its
//! pickups, its ranking and its stage is stated here and proved.
//!
//! `GameState::update` advances the game by one tick. It asks a `Host` for
//! what it needs and goes through the steps of the tick in their order:
//! `update_players`, `maybe_spawn_food`, `update_food`, `handle_player_food`,
//! `handle_player_collisions`, `spawn_all` and `update_stage`. Each step is
//! also there by itself, for a host that runs the tick on its own.

pub mod collisions;
pub mod food;
pub mod gamestate;
pub mod laws;
pub mod leaderboard;
pub mod math;
pub mod meals;
pub mod messages;
pub mod player;
pub mod snake;
pub mod tick;
