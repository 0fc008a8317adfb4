//! The render state: the mesh on display, and the frames drawn from it.

use vstd::prelude::*;
use crate::camera::CameraState;
use crate::mesh::{load_model, mesh_of, MeshModel, ModelData, ParseError};
use crate::transform::{derive_frame, frame_of, FrameDescriptor, Viewport, ViewerConfig};

verus! {

/// Why no frame was drawn.
#[derive(Debug, Clone, Copy, PartialEq, Eq, Structural)]
pub enum DrawError {
    /// No mesh has been loaded yet.
    NoMeshLoaded,
    /// The renderer refused the frame; the next frame is tried as usual.
    RenderBackendError,
}

/// The mesh that the renderer draws, if one is loaded.
pub struct WebGLState {
    model_data: Option<ModelData>,
}

/// What a frame request yields for the mesh held: the frame to hand to the
/// renderer together with the mesh's buffers, or `NoMeshLoaded`.
pub open spec fn draw_result(
    mesh: Option<MeshModel>,
    viewport: Viewport,
    camera: CameraState,
    config: ViewerConfig,
) -> Result<FrameDescriptor, DrawError> {
    match mesh {
        Some(_) => Ok(frame_of(viewport, camera, config)),
        None => Err(DrawError::NoMeshLoaded),
    }
}

impl View for WebGLState {
    type V = Option<MeshModel>;

    closed spec fn view(&self) -> Option<MeshModel> {
        match self.model_data {
            Some(m) => Some(m@),
            None => None,
        }
    }
}

impl WebGLState {
    /// A render state that holds no mesh.
    pub fn new() -> (r: WebGLState)
        ensures
            r@ is None,
    {
        WebGLState { model_data: None }
    }

    /// Replaces the mesh held, whatever it was.
    pub fn set_model_data(&mut self, model_data: Option<ModelData>)
        ensures
            final(self)@ == match model_data {
                Some(m) => Some(m@),
                None => None::<MeshModel>,
            },
    {
        self.model_data = model_data;
    }

    /// The mesh held, if any.
    pub fn model_data(&self) -> (r: Option<&ModelData>)
        ensures
            match r {
                Some(m) => self@ == Some(m@),
                None => self@ is None,
            },
    {
        self.model_data.as_ref()
    }

    /// Parses `text` and holds the mesh it describes. On an error the mesh
    /// held before stays as it was.
    pub fn load_text(&mut self, text: &str) -> (r: Result<(), ParseError>)
        ensures
            match mesh_of(text@) {
                Ok(m) => r is Ok && final(self)@ == Some(m),
                Err(e) => r == Err::<(), ParseError>(e) && final(self)@ == old(self)@,
            },
    {
        match load_model(text) {
            Ok(m) => {
                self.model_data = Some(m);
                Ok(())
            },
            Err(e) => Err(e),
        }
    }

    /// The frame to draw for a camera on a viewport, or `NoMeshLoaded`.
    pub fn draw(&self, viewport: Viewport, camera: CameraState, config: ViewerConfig) -> (r: Result<
        FrameDescriptor,
        DrawError,
    >)
        ensures
            r == draw_result(self@, viewport, camera, config),
    {
        match &self.model_data {
            Some(_) => Ok(derive_frame(viewport, camera, config)),
            None => Err(DrawError::NoMeshLoaded),
        }
    }
}

/// A frame depends on whether a mesh is held, on the viewport, the camera
/// and the settings, and on nothing else: requests made with the same ones
/// yield the same frame, however often they are made and whatever mesh is
/// held.
pub proof fn lemma_draw_repeatable(
    a: Option<MeshModel>,
    b: Option<MeshModel>,
    viewport: Viewport,
    camera: CameraState,
    config: ViewerConfig,
)
    requires
        a is Some <==> b is Some,
    ensures
        draw_result(a, viewport, camera, config) == draw_result(b, viewport, camera, config),
{
}

/// Before any mesh is loaded, every frame request yields `NoMeshLoaded`.
pub proof fn lemma_draw_before_load(viewport: Viewport, camera: CameraState, config: ViewerConfig)
    ensures
        draw_result(None, viewport, camera, config) == Err::<FrameDescriptor, DrawError>(
            DrawError::NoMeshLoaded,
        ),
{
}

} // verus!
