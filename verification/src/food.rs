use vstd::prelude::*;
use crate::math::Vec2;

verus! {

/// Segments that a plain pickup adds to the chain.
pub const FOOD_ENERGY: u32 = 10;

/// Segments that an armor pickup protects.
pub const ARMOR_ENERGY: usize = 10;

/// What a pickup gives to the player who eats it.
#[derive(Clone, Copy, Debug, PartialEq, Eq, Structural)]
pub enum FoodType {
    /// Grows the chain by this many segments.
    Normal(u32),
    /// Armors this many segments.
    Armor(usize),
}

/// A drifting pickup.
#[derive(Clone, Copy, Debug)]
pub struct Food<S> {
    pub position: Vec2<S>,
    pub velocity: Vec2<S>,
    pub food_type: FoodType,
}

/// The kind of a new pickup: armor if the draw said so, plain energy if not.
pub open spec fn drawn_type(armor: bool) -> FoodType {
    if armor {
        FoodType::Armor(ARMOR_ENERGY)
    } else {
        FoodType::Normal(FOOD_ENERGY)
    }
}

impl<S: Copy> Food<S> {
    /// A pickup at `position` that drifts with `velocity`. The host draws the
    /// velocity and the kind: `armor` is the outcome of its draw.
    pub fn new(position: Vec2<S>, velocity: Vec2<S>, armor: bool) -> (food: Food<S>)
        ensures
            food == (Food { position, velocity, food_type: drawn_type(armor) }),
    {
        let food_type = if armor {
            FoodType::Armor(ARMOR_ENERGY)
        } else {
            FoodType::Normal(FOOD_ENERGY)
        };
        Food { position, velocity, food_type }
    }

    /// Takes the outcome of one bounce test against a chain: a reflected
    /// velocity replaces the current one, no reflection leaves it.
    pub fn bounce(&mut self, reflection: Option<Vec2<S>>)
        ensures
            *final(self) == (Food {
                velocity: match reflection {
                    Some(v) => v,
                    None => old(self).velocity,
                },
                ..*old(self)
            }),
    {
        match reflection {
            Some(v) => {
                self.velocity = v;
            },
            None => {},
        }
    }

    /// Moves the pickup to `position`, where its drift has taken it.
    pub fn update(&mut self, position: Vec2<S>)
        ensures
            *final(self) == (Food { position, ..*old(self) }),
    {
        self.position = position;
    }
}

} // verus!
