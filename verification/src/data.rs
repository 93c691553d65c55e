//! The identity of a tree, as the host hands it to the generator.
use vstd::prelude::*;

verus! {

/// The species of a tree.
#[derive(Clone, Copy, Debug, PartialEq, Eq, Structural)]
pub enum TreeKind {
    Birch,
    Oak,
}

/// How well a tree is doing.
#[derive(Clone, Copy, Debug, PartialEq, Eq, Structural)]
pub enum Health {
    Bad,
    Moderate,
    Good,
}

impl Default for Health {
    fn default() -> (r: Self)
        ensures
            r == Health::Good,
    {
        Health::Good
    }
}

impl Health {
    /// The next worse state; the worst stays.
    pub open spec fn lowered(self) -> Health {
        match self {
            Health::Bad => Health::Bad,
            Health::Moderate => Health::Bad,
            Health::Good => Health::Moderate,
        }
    }

    /// The next better state; the best stays.
    pub open spec fn raised(self) -> Health {
        match self {
            Health::Bad => Health::Moderate,
            Health::Moderate => Health::Good,
            Health::Good => Health::Good,
        }
    }

    /// Moves one step toward `Bad`.
    pub fn decrement(&mut self)
        ensures
            *final(self) == old(self).lowered(),
    {
        *self = match *self {
            Health::Bad => Health::Bad,
            Health::Moderate => Health::Bad,
            Health::Good => Health::Moderate,
        };
    }

    /// Moves one step toward `Good`.
    pub fn increment(&mut self)
        ensures
            *final(self) == old(self).raised(),
    {
        *self = match *self {
            Health::Bad => Health::Moderate,
            Health::Moderate => Health::Good,
            Health::Good => Health::Good,
        };
    }

    /// Goes back to `Good`.
    pub fn restore(&mut self)
        ensures
            *final(self) == Health::Good,
    {
        *self = Health::Good;
    }
}

/// What the host knows of a tree. Only the seed shapes the tree.
#[derive(Debug, PartialEq, Eq)]
pub struct TreeInfo {
    pub name: String,
    pub seed: u64,
    pub health: Health,
    pub kind: TreeKind,
}

impl Default for TreeInfo {
    fn default() -> (r: Self)
        ensures
            r.name@ == "John"@,
            r.seed == 0,
            r.health == Health::Good,
            r.kind == TreeKind::Oak,
    {
        TreeInfo { name: "John".to_owned(), seed: 0, health: Health::Good, kind: TreeKind::Oak }
    }
}

} // verus!
