//! A random source that remembers, for the proofs, what it has handed out.
use ring::rand::SystemRandom;
use vstd::prelude::*;
use crate::security::{random_bytes_32, system_random};

verus! {

/// The system's secure random number generator, with a record of every
/// draw of 32 bytes made from it.
pub struct RandomSource {
    rng: SystemRandom,
    draws: Ghost<Seq<Option<Seq<u8>>>>,
}

impl RandomSource {
    /// What the draws gave, in order: the bytes, or `None` for a draw that
    /// the generator could not serve.
    pub closed spec fn draws(&self) -> Seq<Option<Seq<u8>>> {
        self.draws@
    }

    /// A source from which nothing has been drawn yet.
    pub fn new() -> (r: Self)
        ensures
            r.draws().len() == 0,
    {
        RandomSource { rng: system_random(), draws: Ghost(Seq::empty()) }
    }

    /// Draws 32 random bytes, or `None` when the generator reports a
    /// failure; the draw is recorded after the earlier ones.
    pub fn draw_32(&mut self) -> (r: Option<[u8; 32]>)
        ensures
            final(self).draws() == old(self).draws().push(
                match r {
                    Some(b) => Some(b@),
                    None => None,
                },
            ),
    {
        let r = random_bytes_32(&self.rng);
        proof {
            self.draws@ = self.draws@.push(
                match r {
                    Some(b) => Some(b@),
                    None => None,
                },
            );
        }
        r
    }
}

} // verus!
