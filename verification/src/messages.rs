use vstd::prelude::*;

verus! {

/// What the host should let the players hear.
#[derive(Clone, Copy, Debug, PartialEq, Eq, Structural)]
pub enum SoundEffect {
    Start,
    End,
    Eat,
    Cut,
}

} // verus!
