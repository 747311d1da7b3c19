use vstd::prelude::*;

verus! {

/// Team / faction for hit filtering.
#[derive(Clone, Copy, Debug, PartialEq, Eq, Structural)]
pub enum Faction {
    Player,
    Enemy,
    Neutral,
}

impl Default for Faction {
    /// An entity with no declared faction is neutral.
    fn default() -> (r: Self)
        ensures
            r == Faction::Neutral,
    {
        Faction::Neutral
    }
}

} // verus!
