//! Orientation and frame kinds of the sprite model format.
use vstd::prelude::*;

verus! {

#[derive(Clone, Copy, Debug, PartialEq, Eq, Structural)]
pub enum SpriteViewPosition {
    /// faces view plane; up is towards the heavens
    ParallelUpright,
    /// faces camera origin; up is towards the heavens
    FacingUpright,
    /// faces view plane; up is towards the top of the screen
    Parallel,
    /// pitch, yaw, and roll are independent of camera
    Oriented,
    /// faces view plane, but obeys roll value
    ParallelOriented,
}

#[derive(Clone, Copy, Debug, PartialEq, Eq, Structural)]
pub enum SpriteFrameTypeT {
    Single,
    Group,
}

impl SpriteFrameTypeT {
    pub fn default() -> (r: SpriteFrameTypeT)
        ensures
            r == SpriteFrameTypeT::Single,
    {
        SpriteFrameTypeT::Single
    }
}

impl Default for SpriteFrameTypeT {
    fn default() -> (r: SpriteFrameTypeT)
        ensures
            r == SpriteFrameTypeT::Single,
    {
        SpriteFrameTypeT::Single
    }
}

#[derive(Clone, Copy, Debug, PartialEq, Eq, Structural)]
pub struct DSpriteFrameTypeT {
    pub kind: SpriteFrameTypeT,
}

} // verus!
