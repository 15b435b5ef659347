//! Which scene is shown.
use vstd::prelude::*;

verus! {

#[derive(Clone, Copy, Debug, PartialEq, Eq, Structural)]
pub enum SceneType {
    Batting,
    Test,
}

pub struct SceneManager {
    pub type_: SceneType,
}

impl SceneManager {
    pub fn set_scene(&mut self, type_: SceneType)
        ensures
            final(self).type_ == type_,
    {
        self.type_ = type_;
    }
}

} // verus!
