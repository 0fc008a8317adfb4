use mesh_viewer::mesh::{load_model, ParseError};

fn strings(v: &[&str]) -> Vec<String> {
    v.iter().map(|s| s.to_string()).collect()
}

#[test]
fn parses_points_and_one_triangle() {
    let m = load_model("v 1 2 3\nv 4 5 6\nf 1 2 1\n").unwrap();
    assert_eq!(m.vertices, strings(&["0", "0", "0", "1", "2", "3", "4", "5", "6"]));
    assert_eq!(m.indices, vec![1, 2, 1]);
}

#[test]
fn empty_text_gives_the_placeholder_alone() {
    let m = load_model("").unwrap();
    assert_eq!(m.vertices, strings(&["0", "0", "0"]));
    assert!(m.indices.is_empty());
}

#[test]
fn every_point_number_names_a_real_point() {
    let text = "v 0 0 0\nv 1 0 0\nv 0 1 0\nv 0 0 1\nf 1 2 3\nf 2 3 4\nf 4 1 2\n";
    let m = load_model(text).unwrap();
    let points = (m.vertices.len() / 3) as u32;
    assert_eq!(points, 5);
    assert_eq!(m.indices.len(), 9);
    assert!(m.indices.iter().all(|&i| i > 0 && i < points));
}

#[test]
fn point_number_zero_is_refused() {
    assert_eq!(load_model("v 1 2 3\nf 0 1 1\n").unwrap_err(), ParseError::MalformedFace);
}

#[test]
fn point_number_past_the_last_point_is_refused() {
    assert_eq!(load_model("v 1 2 3\nv 4 5 6\nf 1 2 3\n").unwrap_err(), ParseError::MalformedFace);
}

#[test]
fn a_face_may_name_a_point_given_later() {
    let m = load_model("f 1 1 1\nv 1 2 3\n").unwrap();
    assert_eq!(m.indices, vec![1, 1, 1]);
}

#[test]
fn missing_z_is_a_malformed_vertex() {
    assert_eq!(load_model("v 1 2").unwrap_err(), ParseError::MalformedVertex);
}

#[test]
fn non_numeric_coordinate_is_a_malformed_vertex() {
    assert_eq!(load_model("v 1 two 3\n").unwrap_err(), ParseError::MalformedVertex);
    assert_eq!(load_model("v 1e 2 3\n").unwrap_err(), ParseError::MalformedVertex);
    assert_eq!(load_model("v . 2 3\n").unwrap_err(), ParseError::MalformedVertex);
    assert_eq!(load_model("v +-1 2 3\n").unwrap_err(), ParseError::MalformedVertex);
    assert_eq!(load_model("v 1_0 2 3\n").unwrap_err(), ParseError::MalformedVertex);
}

#[test]
fn float_literals_in_every_form_are_kept_as_written() {
    let m = load_model("v 1e5 -2.5 +.5\nv 1. INF -NaN\nv infinity 3E-2 7\n").unwrap();
    assert_eq!(
        m.vertices,
        strings(&["0", "0", "0", "1e5", "-2.5", "+.5", "1.", "INF", "-NaN", "infinity", "3E-2", "7"])
    );
    for v in &m.vertices {
        assert!(v.parse::<f32>().is_ok());
    }
}

#[test]
fn extra_coordinates_are_ignored() {
    let m = load_model("v 1 2 3 1.0\n").unwrap();
    assert_eq!(m.vertices, strings(&["0", "0", "0", "1", "2", "3"]));
}

#[test]
fn short_face_is_malformed() {
    assert_eq!(load_model("v 1 2 3\nf 1 1\n").unwrap_err(), ParseError::MalformedFace);
}

#[test]
fn undecodable_face_reference_is_malformed() {
    assert_eq!(load_model("v 1 2 3\nf 1 x 1\n").unwrap_err(), ParseError::MalformedFace);
    assert_eq!(load_model("v 1 2 3\nf /1 1 1\n").unwrap_err(), ParseError::MalformedFace);
    assert_eq!(load_model("v 1 2 3\nf -1 1 1\n").unwrap_err(), ParseError::MalformedFace);
    assert_eq!(
        load_model("v 1 2 3\nf 4294967296 1 1\n").unwrap_err(),
        ParseError::MalformedFace
    );
}

#[test]
fn face_tokens_are_read_up_to_the_first_slash() {
    let m = load_model("v 1 2 3\nv 4 5 6\nv 7 8 9\nf 1/4/2 2//5 +3/1\n").unwrap();
    assert_eq!(m.indices, vec![1, 2, 3]);
}

#[test]
fn only_three_face_tokens_are_read() {
    let m = load_model("v 1 2 3\nv 4 5 6\nv 7 8 9\nf 1 2 3 4 5\n").unwrap();
    assert_eq!(m.indices, vec![1, 2, 3]);
}

#[test]
fn other_lines_are_skipped() {
    let text = "# a comment\ng part\nvn 0 0 1\nvt 0 1\no thing\nusemtl red\n\n   \nv 1 2 3\n";
    let m = load_model(text).unwrap();
    assert_eq!(m.vertices, strings(&["0", "0", "0", "1", "2", "3"]));
    assert!(m.indices.is_empty());
}

#[test]
fn the_first_refused_line_decides_the_error() {
    assert_eq!(load_model("f 1\nv 1 2\n").unwrap_err(), ParseError::MalformedFace);
    assert_eq!(load_model("v 1 2\nf 1\n").unwrap_err(), ParseError::MalformedVertex);
}

#[test]
fn any_unicode_whitespace_separates_tokens() {
    let m = load_model("v\t1\u{3000}2\u{a0}3\r\nf 1\u{2003}1 1\r\n").unwrap();
    assert_eq!(m.vertices, strings(&["0", "0", "0", "1", "2", "3"]));
    assert_eq!(m.indices, vec![1, 1, 1]);
}

#[test]
fn a_line_needs_its_own_tokens() {
    assert_eq!(load_model("v 1 2\n3\n").unwrap_err(), ParseError::MalformedVertex);
}

#[test]
fn last_line_without_line_feed_is_read() {
    let m = load_model("v 1 2 3\nf 1 1 1").unwrap();
    assert_eq!(m.indices, vec![1, 1, 1]);
}
