//! An injectable source of random tie-break decisions.
//!
//! The settling step draws one uniform sample whenever a cell cannot fall
//! straight down; the draw only ever decides between the two diagonal
//! directions, so a fair coin carries exactly the information used. The
//! source is a finite prescribed tape, so callers can force either branch
//! deterministically; an interactive caller refills it with fresh random
//! bits between steps.

use vstd::prelude::*;

verus! {

/// A finite tape of prescribed coin tosses, consumed front to back.
/// An exhausted tape yields `false` (the right-diagonal branch).
pub struct CoinTape {
    tosses: Vec<bool>,
    pos: usize,
}

impl CoinTape {
    /// The tosses not yet consumed, in the order they will come out.
    pub closed spec fn remaining(&self) -> Seq<bool> {
        if self.pos <= self.tosses@.len() {
            self.tosses@.skip(self.pos as int)
        } else {
            Seq::empty()
        }
    }

    /// A tape that will yield the given tosses in order.
    pub fn new(tosses: Vec<bool>) -> (tape: CoinTape)
        ensures
            tape.remaining() == tosses@,
    {
        let tape = CoinTape { tosses, pos: 0 };
        proof {
            assert(tape.remaining() =~= tape.tosses@);
        }
        tape
    }

    /// Draw the next toss; an exhausted tape yields `false`.
    pub fn next(&mut self) -> (b: bool)
        ensures
            old(self).remaining().len() > 0 ==> b == old(self).remaining()[0]
                && final(self).remaining() == old(self).remaining().drop_first(),
            old(self).remaining().len() == 0 ==> b == false
                && final(self).remaining() == old(self).remaining(),
    {
        if self.pos < self.tosses.len() {
            let b = self.tosses[self.pos];
            self.pos = self.pos + 1;
            proof {
                assert(self.remaining() =~= old(self).remaining().drop_first());
            }
            b
        } else {
            false
        }
    }
}

} // verus!
