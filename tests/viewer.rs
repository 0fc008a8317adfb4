use mesh_viewer::camera::{CameraState, InputEvent};
use mesh_viewer::mesh::{load_model, ParseError};
use mesh_viewer::render::{DrawError, WebGLState};
use mesh_viewer::transform::{derive_frame, Point3, Viewport, ViewerConfig};
use mesh_viewer::viewer::SharedState;

const VIEWPORT: Viewport = Viewport { width: 800, height: 600 };

#[test]
fn standard_config_holds_the_usual_settings() {
    let c = ViewerConfig::standard();
    assert_eq!(c.fov_degrees, 60);
    assert_eq!((c.z_near, c.z_far), (100, 1_000_000));
    assert_eq!(c.target, Point3 { x: -30_000, y: 100_000, z: 30_000 });
    assert_eq!((c.initial_rotation_x, c.initial_rotation_y, c.initial_offset), (90, 90, 200_000));
}

#[test]
fn frame_parameters_follow_the_camera() {
    let config = ViewerConfig::standard();
    let camera = CameraState::new(30, 45, 12_500);
    let f = derive_frame(Viewport { width: 640, height: 480 }, camera, config);
    assert_eq!((f.aspect_width, f.aspect_height), (640, 480));
    assert_eq!(f.fov_degrees, 60);
    assert_eq!((f.z_near, f.z_far), (100, 1_000_000));
    assert_eq!(f.eye, Point3 { x: 0, y: 12_500, z: 12_500 });
    assert_eq!(f.target, config.target);
    assert_eq!(f.up, Point3 { x: 0, y: 1000, z: 0 });
    assert_eq!((f.x_turn_degrees, f.y_turn_degrees, f.z_turn_degrees), (-45, 0, 30));
}

#[test]
fn draw_before_any_load_reports_no_mesh() {
    let s = WebGLState::new();
    let camera = CameraState::new(90, 90, 200_000);
    assert_eq!(s.draw(VIEWPORT, camera, ViewerConfig::standard()), Err(DrawError::NoMeshLoaded));
    let v = SharedState::new(ViewerConfig::standard());
    assert_eq!(v.draw(VIEWPORT), Err(DrawError::NoMeshLoaded));
}

#[test]
fn drawing_twice_gives_the_same_frame() {
    let mut s = WebGLState::new();
    s.load_text("v 1 2 3\nf 1 1 1\n").unwrap();
    let camera = CameraState::new(12, 34, 56_000);
    let config = ViewerConfig::standard();
    let a = s.draw(VIEWPORT, camera, config).unwrap();
    let b = s.draw(VIEWPORT, camera, config).unwrap();
    assert_eq!(a, b);
    assert_eq!(a, derive_frame(VIEWPORT, camera, config));
}

#[test]
fn failed_load_keeps_no_mesh() {
    let mut s = WebGLState::new();
    assert_eq!(s.load_text("v 1 2"), Err(ParseError::MalformedVertex));
    assert!(s.model_data().is_none());
}

#[test]
fn failed_load_keeps_the_mesh_held() {
    let mut s = WebGLState::new();
    s.load_text("v 1 2 3\nv 4 5 6\nf 1 2 1\n").unwrap();
    assert_eq!(s.load_text("v 1 2"), Err(ParseError::MalformedVertex));
    let m = s.model_data().unwrap();
    assert_eq!(m.indices, vec![1, 2, 1]);
    assert_eq!(m.vertices.len(), 9);
}

#[test]
fn loading_replaces_the_mesh_held() {
    let mut s = WebGLState::new();
    s.load_text("v 1 2 3\nf 1 1 1\n").unwrap();
    s.load_text("v 4 5 6\nv 7 8 9\n").unwrap();
    let m = s.model_data().unwrap();
    assert_eq!(m.vertices[3], "4");
    assert!(m.indices.is_empty());
    s.set_model_data(None);
    assert!(s.model_data().is_none());
    s.set_model_data(Some(load_model("v 1 1 1\n").unwrap()));
    assert_eq!(s.model_data().unwrap().vertices[5], "1");
}

#[test]
fn events_that_change_the_view_bring_a_frame() {
    let mut v = SharedState::new(ViewerConfig::standard());
    assert_eq!(v.handle_event(InputEvent::PointerDown, VIEWPORT), None);
    assert_eq!(
        v.handle_event(InputEvent::PointerMove { x: 10, y: 10 }, VIEWPORT),
        Some(Err(DrawError::NoMeshLoaded))
    );
    v.web_gl_state.load_text("v 1 2 3\nf 1 1 1\n").unwrap();
    let f = v
        .handle_event(InputEvent::PointerMove { x: 5, y: 30 }, VIEWPORT)
        .unwrap()
        .unwrap();
    // deltaY = 10 - 30 = -20 turns rotation x; deltaX = 10 - 5 = 5 turns rotation y
    assert_eq!((v.camera.rotation_x, v.camera.rotation_y), (70, 95));
    assert_eq!((f.z_turn_degrees, f.x_turn_degrees), (70, -95));
    assert_eq!(v.handle_event(InputEvent::PointerUp, VIEWPORT), None);
    let f = v.handle_event(InputEvent::Wheel { delta_y: -400 }, VIEWPORT).unwrap().unwrap();
    assert_eq!(v.camera.offset, 100_000);
    assert_eq!(f.eye, Point3 { x: 0, y: 100_000, z: 100_000 });
    assert_eq!(v.handle_event(InputEvent::PointerMove { x: 0, y: 0 }, VIEWPORT), None);
}
