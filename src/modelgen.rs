//! Frame and skin kinds of the alias (mesh) model format.
use vstd::prelude::*;

verus! {

#[derive(Clone, Copy, Debug, PartialEq, Eq, Structural)]
pub enum SyncTypeT {
    Sync,
    Rand,
}

impl SyncTypeT {
    pub fn default() -> (r: SyncTypeT)
        ensures
            r == SyncTypeT::Sync,
    {
        SyncTypeT::Sync
    }
}

impl Default for SyncTypeT {
    fn default() -> (r: SyncTypeT)
        ensures
            r == SyncTypeT::Sync,
    {
        SyncTypeT::Sync
    }
}

#[derive(Clone, Copy, Debug, PartialEq, Eq, Structural)]
pub enum AliasFrameTypeT {
    Single,
    Group,
}

impl AliasFrameTypeT {
    pub fn default() -> (r: AliasFrameTypeT)
        ensures
            r == AliasFrameTypeT::Single,
    {
        AliasFrameTypeT::Single
    }
}

impl Default for AliasFrameTypeT {
    fn default() -> (r: AliasFrameTypeT)
        ensures
            r == AliasFrameTypeT::Single,
    {
        AliasFrameTypeT::Single
    }
}

#[derive(Clone, Copy, Debug, PartialEq, Eq, Structural)]
pub enum AliasSkinTypeT {
    Single,
    Group,
}

impl AliasSkinTypeT {
    pub fn default() -> (r: AliasSkinTypeT)
        ensures
            r == AliasSkinTypeT::Single,
    {
        AliasSkinTypeT::Single
    }
}

impl Default for AliasSkinTypeT {
    fn default() -> (r: AliasSkinTypeT)
        ensures
            r == AliasSkinTypeT::Single,
    {
        AliasSkinTypeT::Single
    }
}

#[derive(Clone, Copy, Debug, PartialEq, Eq, Structural, Default)]
pub struct DAliasFrameTypeT {
    pub kind: AliasFrameTypeT,
}

#[derive(Clone, Copy, Debug, PartialEq, Eq, Structural, Default)]
pub struct DAliasSkinTypeT {
    pub kind: AliasSkinTypeT,
}

} // verus!
