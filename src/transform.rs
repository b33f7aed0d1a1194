//! Placement of a renderable object, and the link from an object to its asset.
use vstd::prelude::*;
use crate::csg::{Quat, Vec3, ONE_BITS};

verus! {

/// Position, rotation and scale of an object, with a flag that marks it as
/// changed since its matrices were last sent to the GPU.
#[derive(Clone, Copy, Debug, PartialEq, Eq, Structural)]
pub struct Transform {
    position: Vec3,
    rotation: Quat,
    scale: Vec3,
    dirty: bool,
}

impl Transform {
    pub closed spec fn spec_position(self) -> Vec3 {
        self.position
    }

    pub closed spec fn spec_rotation(self) -> Quat {
        self.rotation
    }

    pub closed spec fn spec_scale(self) -> Vec3 {
        self.scale
    }

    pub closed spec fn spec_dirty(self) -> bool {
        self.dirty
    }

    pub fn position(&self) -> (r: Vec3)
        ensures
            r == self.spec_position(),
    {
        self.position
    }

    pub fn rotation(&self) -> (r: Quat)
        ensures
            r == self.spec_rotation(),
    {
        self.rotation
    }

    pub fn scale(&self) -> (r: Vec3)
        ensures
            r == self.spec_scale(),
    {
        self.scale
    }

    /// At the origin, unrotated, unit scale; not yet sent.
    pub fn origin() -> (r: Transform)
        ensures
            r.spec_position() == (Vec3 { x: 0, y: 0, z: 0 }),
            r.spec_rotation() == (Quat { x: 0, y: 0, z: 0, w: ONE_BITS }),
            r.spec_scale() == (Vec3 { x: ONE_BITS, y: ONE_BITS, z: ONE_BITS }),
            r.spec_dirty(),
    {
        Transform {
            position: Vec3::zero(),
            rotation: Quat::identity(),
            scale: Vec3::splat(ONE_BITS),
            dirty: true,
        }
    }

    /// The same transform moved to `at`, marked as changed.
    pub fn at(self, at: Vec3) -> (r: Transform)
        ensures
            r.spec_position() == at,
            r.spec_rotation() == self.spec_rotation(),
            r.spec_scale() == self.spec_scale(),
            r.spec_dirty(),
    {
        Transform { position: at, dirty: true, ..self }
    }

    /// The same transform with the given rotation, marked as changed.
    pub fn rotated(self, rotation: Quat) -> (r: Transform)
        ensures
            r.spec_position() == self.spec_position(),
            r.spec_rotation() == rotation,
            r.spec_scale() == self.spec_scale(),
            r.spec_dirty(),
    {
        Transform { rotation, dirty: true, ..self }
    }

    pub fn is_dirty(&self) -> (r: bool)
        ensures
            r == self.spec_dirty(),
    {
        self.dirty
    }

    /// Marks the transform as sent.
    pub fn set_clean(&mut self)
        ensures
            final(self).spec_position() == old(self).spec_position(),
            final(self).spec_rotation() == old(self).spec_rotation(),
            final(self).spec_scale() == old(self).spec_scale(),
            !final(self).spec_dirty(),
    {
        self.dirty = false;
    }
}

/// Marks an object as drawn with the CSG asset under `asset_id`.
#[derive(Clone, Copy, Debug, PartialEq, Eq, Structural)]
pub struct CsgRenderer {
    csg_asset_id: u64,
}

impl CsgRenderer {
    pub fn new(asset_id: u64) -> (r: CsgRenderer)
        ensures
            r.spec_asset_id() == asset_id,
    {
        CsgRenderer { csg_asset_id: asset_id }
    }

    pub closed spec fn spec_asset_id(self) -> u64 {
        self.csg_asset_id
    }

    pub fn asset_id(&self) -> (r: u64)
        ensures
            r == self.spec_asset_id(),
    {
        self.csg_asset_id
    }
}

} // verus!
