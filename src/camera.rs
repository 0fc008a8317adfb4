//! The orbit camera: rotation and zoom, driven by pointer and wheel input.
//!
//! Angles are whole degrees, as pointer movement is in whole pixels and
//! each pixel turns the model by one degree. Distances are in thousandths
//! of a scene unit.

use vstd::prelude::*;
use vstd::arithmetic::div_mod::lemma_fundamental_div_mod;
use crate::transform::ViewerConfig;

verus! {

/// Degrees in a full turn; both angles stay below it.
pub const FULL_TURN: u32 = 360;

/// The closest the camera may come, in thousandths (1.0).
pub const MIN_OFFSET: u32 = 1000;

/// The farthest the camera may go, in thousandths (1000.0).
pub const MAX_OFFSET: u32 = 1_000_000;

/// How far one unit of wheel movement moves the camera, in thousandths
/// (0.25).
pub const ZOOM_STEP: u32 = 250;

/// One input event, in arrival order.
#[derive(Debug, Clone, Copy, PartialEq, Eq, Structural)]
pub enum InputEvent {
    PointerDown,
    PointerUp,
    /// The pointer is now at `(x, y)`, in viewport pixels.
    PointerMove { x: i32, y: i32 },
    /// The wheel turned by `delta_y` units; positive moves away.
    Wheel { delta_y: i64 },
}

/// A pointer position, in viewport pixels.
#[derive(Debug, Clone, Copy, PartialEq, Eq, Structural)]
pub struct Cursor {
    pub x: i32,
    pub y: i32,
}

/// The camera's orientation and distance, and the pointer's state.
#[derive(Debug, Clone, Copy, PartialEq, Eq, Structural)]
pub struct CameraState {
    /// Degrees, turned by vertical pointer movement.
    pub rotation_x: u32,
    /// Degrees, turned by horizontal pointer movement.
    pub rotation_y: u32,
    /// Distance of the eye, in thousandths.
    pub offset: u32,
    pub dragging: bool,
    /// Where the pointer was last seen, if it has moved yet.
    pub last_cursor: Option<Cursor>,
}

/// `a` turned into `[0, 360)`.
pub open spec fn wrap_degrees(a: int) -> int {
    a % (FULL_TURN as int)
}

/// `v` held into `[MIN_OFFSET, MAX_OFFSET]`.
pub open spec fn clamp_offset(v: int) -> int {
    if v < MIN_OFFSET {
        MIN_OFFSET as int
    } else if v > MAX_OFFSET {
        MAX_OFFSET as int
    } else {
        v
    }
}

impl CameraState {
    pub open spec fn wf(self) -> bool {
        &&& self.rotation_x < FULL_TURN
        &&& self.rotation_y < FULL_TURN
        &&& MIN_OFFSET <= self.offset <= MAX_OFFSET
    }

    /// The state after `e`.
    pub open spec fn after(self, e: InputEvent) -> CameraState {
        match e {
            InputEvent::PointerDown => CameraState { dragging: true, ..self },
            InputEvent::PointerUp => CameraState { dragging: false, ..self },
            InputEvent::PointerMove { x, y } => match self.last_cursor {
                Some(p) if self.dragging => CameraState {
                    rotation_x: wrap_degrees(self.rotation_x + (p.y - y)) as u32,
                    rotation_y: wrap_degrees(self.rotation_y + (p.x - x)) as u32,
                    last_cursor: Some(Cursor { x, y }),
                    ..self
                },
                _ => CameraState { last_cursor: Some(Cursor { x, y }), ..self },
            },
            InputEvent::Wheel { delta_y } => CameraState {
                offset: clamp_offset(self.offset + ZOOM_STEP * delta_y) as u32,
                ..self
            },
        }
    }

    /// Whether `e` asks for a new frame: every wheel turn, and every
    /// pointer movement during a drag.
    pub open spec fn redraws(self, e: InputEvent) -> bool {
        match e {
            InputEvent::Wheel { .. } => true,
            InputEvent::PointerMove { .. } => self.dragging,
            _ => false,
        }
    }

    /// The camera at the start of a session under `config`.
    pub open spec fn initial(config: ViewerConfig) -> CameraState {
        CameraState {
            rotation_x: config.initial_rotation_x,
            rotation_y: config.initial_rotation_y,
            offset: config.initial_offset,
            dragging: false,
            last_cursor: None,
        }
    }

    /// A camera at rest: not dragging, and no pointer seen yet.
    pub fn new(rotation_x: u32, rotation_y: u32, offset: u32) -> (r: CameraState)
        requires
            rotation_x < FULL_TURN,
            rotation_y < FULL_TURN,
            MIN_OFFSET <= offset <= MAX_OFFSET,
        ensures
            r == (CameraState { rotation_x, rotation_y, offset, dragging: false, last_cursor: None }),
            r.wf(),
    {
        CameraState { rotation_x, rotation_y, offset, dragging: false, last_cursor: None }
    }

    /// Applies `e`, and tells whether a new frame is due.
    pub fn apply(&mut self, e: InputEvent) -> (redraw: bool)
        requires
            old(self).wf(),
        ensures
            *final(self) == old(self).after(e),
            final(self).wf(),
            redraw == old(self).redraws(e),
    {
        match e {
            InputEvent::PointerDown => {
                self.dragging = true;
                false
            },
            InputEvent::PointerUp => {
                self.dragging = false;
                false
            },
            InputEvent::PointerMove { x, y } => {
                if self.dragging {
                    if let Some(p) = self.last_cursor {
                        self.rotation_x = turn(self.rotation_x, p.y as i64 - y as i64);
                        self.rotation_y = turn(self.rotation_y, p.x as i64 - x as i64);
                    }
                }
                self.last_cursor = Some(Cursor { x, y });
                self.dragging
            },
            InputEvent::Wheel { delta_y } => {
                let v: i128 = self.offset as i128 + ZOOM_STEP as i128 * delta_y as i128;
                self.offset = if v < MIN_OFFSET as i128 {
                    MIN_OFFSET
                } else if v > MAX_OFFSET as i128 {
                    MAX_OFFSET
                } else {
                    v as u32
                };
                true
            },
        }
    }
}

/// `angle` turned by `delta` degrees, wrapped into `[0, 360)`.
pub fn turn(angle: u32, delta: i64) -> (r: u32)
    requires
        angle < FULL_TURN,
        -0x1_0000_0000 <= delta <= 0x1_0000_0000,
    ensures
        r == wrap_degrees(angle + delta),
        r < FULL_TURN,
{
    let a: i64 = angle as i64 + delta;
    if a >= 0 {
        let m = (a as u64 % 360) as u32;
        assert(m == a % 360);
        m
    } else {
        let n: u64 = (-a) as u64;
        let m: u64 = n % 360;
        if m == 0 {
            proof {
                let q = n / 360;
                lemma_fundamental_div_mod(n as int, 360);
                assert(a == 360 * (-q));
                assert(a % 360 == 0) by (nonlinear_arith)
                    requires a == 360 * (-q);
            }
            0
        } else {
            proof {
                let q = n / 360;
                lemma_fundamental_div_mod(n as int, 360);
                assert(a == 360 * (-q - 1) + (360 - m));
                assert(a % 360 == 360 - m) by (nonlinear_arith)
                    requires a == 360 * (-q - 1) + (360 - m), 0 < m < 360;
            }
            (360 - m) as u32
        }
    }
}

} // verus!
