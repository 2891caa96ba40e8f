//! What units share with everything else that can take damage.

use vstd::prelude::*;

verus! {

/// Hit points of anything that can take damage.
#[derive(Clone, Copy, Debug, PartialEq, Eq, Structural)]
pub struct HP {
    pub current: usize,
    pub max: usize,
}

impl Default for HP {
    fn default() -> (r: Self)
        ensures
            r == (HP { current: 0, max: 0 }),
    {
        HP { current: 0, max: 0 }
    }
}

} // verus!
