//! Spatial world of a level: the binary level file, its partition tree,
//! collision hulls and potentially-visible sets.

pub mod wire;
pub mod bspfile;
pub mod vis;
pub mod geometry;
pub mod records;
pub mod world;
pub mod bsp;
pub mod hull;
pub mod defs;
pub mod modelgen;
pub mod spritegn;

pub use bspfile::{AmbientSound, BspError, BspFormat, Contents, LumpType, PlaneType};
pub use defs::{CActiveT, KeydestT, LinkT, ModeStateT, QBoolean, ViewAngles};
pub use geometry::{MPlaneT, Vec3T};
pub use hull::{HullT, TracePlane, TraceResult};
pub use modelgen::{AliasFrameTypeT, AliasSkinTypeT, DAliasFrameTypeT, DAliasSkinTypeT, SyncTypeT};
pub use spritegn::{DSpriteFrameTypeT, SpriteFrameTypeT, SpriteViewPosition};
pub use records::{
    Child, ClipChild, DModelT, MClipNodeT, MEdgeT, MLeafT, MNodeT, MSurfaceT, MTexInfoT,
};
pub use world::World;
