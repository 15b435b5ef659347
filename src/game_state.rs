//! The owner of the state machines of a batting scene.
use vstd::prelude::*;

verus! {

/// The batting and pitching machines of one scene, owned together: the
/// simulation writes them, and readers see them between updates.
pub struct BattingSceneGameState<B, P> {
    batting: B,
    pitching: P,
}

impl<B, P> BattingSceneGameState<B, P> {
    pub closed spec fn batting_spec(&self) -> B {
        self.batting
    }

    pub closed spec fn pitching_spec(&self) -> P {
        self.pitching
    }

    pub fn new(batting: B, pitching: P) -> (r: Self)
        ensures
            r.batting_spec() == batting,
            r.pitching_spec() == pitching,
    {
        BattingSceneGameState { batting, pitching }
    }

    pub fn batting(&self) -> (r: &B)
        ensures
            *r == self.batting_spec(),
    {
        &self.batting
    }

    pub fn batting_mut(&mut self) -> (r: &mut B)
        ensures
            *r == old(self).batting_spec(),
            final(self).batting_spec() == *final(r),
            final(self).pitching_spec() == old(self).pitching_spec(),
    {
        &mut self.batting
    }

    pub fn pitching(&self) -> (r: &P)
        ensures
            *r == self.pitching_spec(),
    {
        &self.pitching
    }

    pub fn pitching_mut(&mut self) -> (r: &mut P)
        ensures
            *r == old(self).pitching_spec(),
            final(self).pitching_spec() == *final(r),
            final(self).batting_spec() == old(self).batting_spec(),
    {
        &mut self.pitching
    }
}

} // verus!
