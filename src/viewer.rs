//! The viewer's state, and the dispatch of one input event at a time.

use vstd::prelude::*;
use crate::camera::{CameraState, InputEvent};
use crate::render::{draw_result, DrawError, WebGLState};
use crate::transform::{FrameDescriptor, Viewport, ViewerConfig};

verus! {

/// Everything the viewer keeps between events.
pub struct SharedState {
    pub camera: CameraState,
    pub web_gl_state: WebGLState,
    pub config: ViewerConfig,
}

impl SharedState {
    pub open spec fn wf(&self) -> bool {
        self.camera.wf() && self.config.wf()
    }

    /// A viewer with the camera at its initial pose and no mesh.
    pub fn new(config: ViewerConfig) -> (r: SharedState)
        requires
            config.wf(),
        ensures
            r.wf(),
            r.config == config,
            r.camera == CameraState::initial(config),
            r.web_gl_state@ is None,
    {
        SharedState {
            camera: CameraState::new(
                config.initial_rotation_x,
                config.initial_rotation_y,
                config.initial_offset,
            ),
            web_gl_state: WebGLState::new(),
            config,
        }
    }

    /// Handles one input event. Where the event asks for a new frame, the
    /// frame for the updated camera comes back at once.
    pub fn handle_event(&mut self, event: InputEvent, viewport: Viewport) -> (r: Option<
        Result<FrameDescriptor, DrawError>,
    >)
        requires
            old(self).wf(),
        ensures
            final(self).wf(),
            final(self).camera == old(self).camera.after(event),
            final(self).config == old(self).config,
            final(self).web_gl_state@ == old(self).web_gl_state@,
            r == if old(self).camera.redraws(event) {
                Some(
                    draw_result(
                        final(self).web_gl_state@,
                        viewport,
                        final(self).camera,
                        final(self).config,
                    ),
                )
            } else {
                None
            },
    {
        let redraw = self.camera.apply(event);
        if redraw {
            Some(self.web_gl_state.draw(viewport, self.camera, self.config))
        } else {
            None
        }
    }

    /// The frame for the current camera, or `NoMeshLoaded`.
    pub fn draw(&self, viewport: Viewport) -> (r: Result<FrameDescriptor, DrawError>)
        ensures
            r == draw_result(self.web_gl_state@, viewport, self.camera, self.config),
    {
        self.web_gl_state.draw(viewport, self.camera, self.config)
    }
}

} // verus!
