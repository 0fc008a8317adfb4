//! The transforms of a frame: projection, view and world.
//!
//! A frame is described by the exact parameters of its three transforms;
//! the renderer turns them into matrices. Lengths are in thousandths of a
//! scene unit and angles in whole degrees.

use vstd::prelude::*;
use crate::camera::{CameraState, FULL_TURN, MAX_OFFSET, MIN_OFFSET};

verus! {

/// A point or direction, in thousandths.
#[derive(Debug, Clone, Copy, PartialEq, Eq, Structural)]
pub struct Point3 {
    pub x: i64,
    pub y: i64,
    pub z: i64,
}

/// The drawing surface, in pixels.
#[derive(Debug, Clone, Copy, PartialEq, Eq, Structural)]
pub struct Viewport {
    pub width: u32,
    pub height: u32,
}

/// The settings that stay fixed for a viewing session.
#[derive(Debug, Clone, Copy, PartialEq, Eq, Structural)]
pub struct ViewerConfig {
    /// Vertical field of view, in degrees.
    pub fov_degrees: u32,
    /// Near clip plane, in thousandths.
    pub z_near: u32,
    /// Far clip plane, in thousandths.
    pub z_far: u32,
    /// The point the eye looks at.
    pub target: Point3,
    pub initial_rotation_x: u32,
    pub initial_rotation_y: u32,
    pub initial_offset: u32,
}

impl ViewerConfig {
    pub open spec fn wf(self) -> bool {
        &&& 0 < self.fov_degrees < 180
        &&& 0 < self.z_near < self.z_far
        &&& self.initial_rotation_x < FULL_TURN
        &&& self.initial_rotation_y < FULL_TURN
        &&& MIN_OFFSET <= self.initial_offset <= MAX_OFFSET
    }

    /// The viewer's usual settings: a 60 degree field of view, clip planes
    /// at 0.1 and 1000, the eye aimed at (-30, 100, 30), the model turned by
    /// 90 degrees both ways and the eye 200 away.
    pub fn standard() -> (r: ViewerConfig)
        ensures
            r.wf(),
            r == (ViewerConfig {
                fov_degrees: 60,
                z_near: 100,
                z_far: 1_000_000,
                target: Point3 { x: -30_000i64, y: 100_000, z: 30_000 },
                initial_rotation_x: 90,
                initial_rotation_y: 90,
                initial_offset: 200_000,
            }),
    {
        ViewerConfig {
            fov_degrees: 60,
            z_near: 100,
            z_far: 1_000_000,
            target: Point3 { x: -30_000, y: 100_000, z: 30_000 },
            initial_rotation_x: 90,
            initial_rotation_y: 90,
            initial_offset: 200_000,
        }
    }
}

/// The transforms of one frame.
///
/// Projection: perspective with a vertical field of view of `fov_degrees`,
/// aspect `aspect_width / aspect_height`, and clip planes `z_near`, `z_far`.
/// View: from `eye` toward `target`, with `up` upward. World: the identity,
/// turned about the X axis by `x_turn_degrees`, then about the Y axis by
/// `y_turn_degrees`, then about the Z axis by `z_turn_degrees`.
#[derive(Debug, Clone, Copy, PartialEq, Eq, Structural)]
pub struct FrameDescriptor {
    pub fov_degrees: u32,
    pub aspect_width: u32,
    pub aspect_height: u32,
    pub z_near: u32,
    pub z_far: u32,
    pub eye: Point3,
    pub target: Point3,
    pub up: Point3,
    pub x_turn_degrees: i64,
    pub y_turn_degrees: i64,
    pub z_turn_degrees: i64,
}

/// The frame for a camera on a viewport. The eye sits at
/// `(0, offset, offset)`. Vertical drag turns the model about the Z axis and
/// horizontal drag about the X axis, against the angle: a pairing that the
/// viewer's feel depends on.
pub open spec fn frame_of(viewport: Viewport, camera: CameraState, config: ViewerConfig) -> FrameDescriptor {
    FrameDescriptor {
        fov_degrees: config.fov_degrees,
        aspect_width: viewport.width,
        aspect_height: viewport.height,
        z_near: config.z_near,
        z_far: config.z_far,
        eye: Point3 { x: 0, y: camera.offset as i64, z: camera.offset as i64 },
        target: config.target,
        up: Point3 { x: 0, y: 1000, z: 0 },
        x_turn_degrees: (-(camera.rotation_y as int)) as i64,
        y_turn_degrees: 0,
        z_turn_degrees: camera.rotation_x as i64,
    }
}

/// Derives the frame for a camera on a viewport.
pub fn derive_frame(viewport: Viewport, camera: CameraState, config: ViewerConfig) -> (r:
    FrameDescriptor)
    ensures
        r == frame_of(viewport, camera, config),
{
    FrameDescriptor {
        fov_degrees: config.fov_degrees,
        aspect_width: viewport.width,
        aspect_height: viewport.height,
        z_near: config.z_near,
        z_far: config.z_far,
        eye: Point3 { x: 0, y: camera.offset as i64, z: camera.offset as i64 },
        target: config.target,
        up: Point3 { x: 0, y: 1000, z: 0 },
        x_turn_degrees: -(camera.rotation_y as i64),
        y_turn_degrees: 0,
        z_turn_degrees: camera.rotation_x as i64,
    }
}

} // verus!
