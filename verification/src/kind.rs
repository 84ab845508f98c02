//! The two classes, and what depends on the class alone.

use std::cmp::Ordering;
use vstd::prelude::*;

verus! {

/// The class of a picture.
#[derive(Clone, Copy, Debug, PartialEq, Eq, Structural)]
pub enum Kind {
    Ant,
    Bee,
}

/// The class that is predicted from how the probability of a bee compares
/// with one half: a bee only where it is greater. At one half, below it, and
/// where the two do not compare, the prediction is an ant.
pub open spec fn decision(probability_to_half: Option<Ordering>) -> Kind {
    if probability_to_half == Some(Ordering::Greater) {
        Kind::Bee
    } else {
        Kind::Ant
    }
}

impl Kind {
    /// The training target of the class: 0 for an ant, 1 for a bee.
    pub open spec fn spec_target(self) -> int {
        match self {
            Kind::Ant => 0,
            Kind::Bee => 1,
        }
    }

    /// The name of the directory that holds the pictures of the class.
    pub open spec fn spec_dir_name(self) -> Seq<char> {
        match self {
            Kind::Ant => "ants"@,
            Kind::Bee => "bees"@,
        }
    }

    /// The training target of the class as a number.
    pub fn target(self) -> (y: u8)
        ensures
            y == self.spec_target(),
    {
        match self {
            Kind::Ant => 0,
            Kind::Bee => 1,
        }
    }

    /// The name of the directory that holds the pictures of the class.
    pub fn dir_name(self) -> (name: &'static str)
        ensures
            name@ == self.spec_dir_name(),
    {
        match self {
            Kind::Ant => "ants",
            Kind::Bee => "bees",
        }
    }

    /// The class predicted for a picture, given how its probability of being
    /// a bee compares with one half.
    pub fn predict(probability_to_half: Option<Ordering>) -> (k: Kind)
        ensures
            k == decision(probability_to_half),
    {
        match probability_to_half {
            Some(Ordering::Greater) => Kind::Bee,
            _ => Kind::Ant,
        }
    }
}

} // verus!
