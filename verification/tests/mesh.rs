use obj_loader::indices::{slot_at, Slot};
use obj_loader::{DisplayState, IndexAlignmentError, Indices, Model, ParseErrorKind};

fn scalar(text: &str) -> Option<f32> {
    text.parse::<f32>().ok()
}

fn loaded(lines: &[&str]) -> Model<f32> {
    let mut model = Model::new();
    let lines: Vec<&str> = lines.to_vec();
    assert_eq!(Ok(()), model.load(&lines, &scalar));
    model
}

#[test]
fn test_ok_load() {
    let mut model: Model<f32> = Model::new();
    let lines = vec!["/home/twmoca/Documents/3d_obj/BaseSpiderMan.obj"];
    let _ = model.load(&lines, &scalar);
}

#[test]
fn new_mesh_is_empty() {
    let model: Model<f32> = Model::new();
    assert!(model.vertex.is_empty());
    assert!(model.vertex_tex.is_empty());
    assert!(model.vertex_normal.is_empty());
    assert!(model.vertex_normal_tmp.is_empty());
    assert_eq!(model.indices, Indices::new());
    assert_eq!(0, model.skipped_faces);
    let indices = Indices::new();
    assert!(indices.vertex_indices.is_empty());
    assert!(indices.texture_indices.is_empty());
    assert!(indices.normal_indices.is_empty());
}

#[test]
fn display_state_starts_with_every_switch_off() {
    let mut state = DisplayState::new((1200, 1080));
    assert_eq!(state.window_width, 1200);
    assert_eq!(state.window_height, 1080);
    assert!(!state.is_enabled_depth_test);
    assert!(!state.is_enabled_blend);
    assert!(!state.is_enabled_wireframe);
    assert!(!state.is_enabled_culling);
    state.is_enabled_blend = true;
    state.set_window_size(640, 480);
    assert_eq!(state.window_width, 640);
    assert_eq!(state.window_height, 480);
    assert!(state.is_enabled_blend);
    assert!(!state.is_enabled_culling);
}

#[test]
fn quadrilateral_gives_two_triangles() {
    let model = loaded(&["f 1/1/1 2/2/2 3/3/3 4/4/4"]);
    assert_eq!(vec![0, 1, 2, 2, 3, 0], model.indices.vertex_indices);
    assert_eq!(vec![0, 1, 2, 2, 3, 0], model.indices.texture_indices);
    assert_eq!(vec![0, 1, 2, 2, 3, 0], model.indices.normal_indices);
}

#[test]
fn triangle_gives_one_triangle() {
    let model = loaded(&["f 7/8/9 4/5/6 1/2/3"]);
    assert_eq!(vec![6, 3, 0], model.indices.vertex_indices);
    assert_eq!(vec![7, 4, 1], model.indices.texture_indices);
    assert_eq!(vec![8, 5, 2], model.indices.normal_indices);
}

#[test]
fn pentagon_gives_three_triangles() {
    let model = loaded(&["f 11/21/31 12/22/32 13/23/33 14/24/34 15/25/35"]);
    assert_eq!(vec![10, 11, 12, 12, 13, 14, 14, 10, 11], model.indices.vertex_indices);
    assert_eq!(vec![20, 21, 22, 22, 23, 24, 24, 20, 21], model.indices.texture_indices);
    assert_eq!(vec![30, 31, 32, 32, 33, 34, 34, 30, 31], model.indices.normal_indices);
}

#[test]
fn hexagon_gives_four_triangles() {
    let model = loaded(&["f 1/1/1 2/2/2 3/3/3 4/4/4 5/5/5 6/6/6"]);
    let expected = vec![0, 1, 2, 2, 3, 4, 4, 5, 0, 0, 2, 4];
    assert_eq!(12, model.indices.vertex_indices.len());
    assert_eq!(expected, model.indices.vertex_indices);
    assert_eq!(expected, model.indices.texture_indices);
    assert_eq!(expected, model.indices.normal_indices);
}

#[test]
fn other_faces_give_no_triangle() {
    let model = loaded(&[
        "f",
        "f 1",
        "f 1 2",
        "f 1 2 3 4 5 6 7",
        "f 1/1/1 2/2/2 3/3/3 4/4/4 5/5/5 6/6/6 7/7/7 8/8/8",
        "f x y",
        "f a b c d e f g",
    ]);
    assert_eq!(model.indices, Indices::new());
    assert_eq!(7, model.skipped_faces);
}

#[test]
fn faces_that_are_cut_are_not_counted() {
    let model = loaded(&["f 1 2 3", "f 1 2 3 4", "v 1 2 3", "f 1 2", "f 1 2 3 4 5 6", "# f"]);
    assert_eq!(1, model.skipped_faces);
    let mut model: Model<f32> = Model::new();
    model.skipped_faces = usize::MAX;
    assert!(model.load_polygon(&vec!["f", "1"], 1).is_ok());
    assert!(model.load_polygon(&vec![], 1).is_ok());
    assert_eq!(usize::MAX, model.skipped_faces);
    assert!(model.load_polygon(&vec!["f", "1", "2", "x"], 5).is_err());
    assert_eq!(usize::MAX, model.skipped_faces);
}

#[test]
fn corner_may_leave_fields_out() {
    let model = loaded(&[
        "f 1 2 3",
        "f 4/5 6/7 8/9",
        "f 1//2 3//4 5//6",
        "f 7/8/9/10 1/2/3/x 4/5/6/",
    ]);
    assert_eq!(vec![0, 1, 2, 3, 5, 7, 0, 2, 4, 6, 0, 3], model.indices.vertex_indices);
    assert_eq!(vec![4, 6, 8, 7, 1, 4], model.indices.texture_indices);
    assert_eq!(vec![1, 3, 5, 8, 2, 5], model.indices.normal_indices);
}

#[test]
fn faces_follow_each_other_in_the_streams() {
    let model = loaded(&["f 1//1 2//1 3//1", "f 3//2 4//2 5//2 6//2"]);
    assert_eq!(vec![0, 1, 2, 2, 3, 4, 4, 5, 2], model.indices.vertex_indices);
    assert!(model.indices.texture_indices.is_empty());
    assert_eq!(vec![0, 0, 0, 1, 1, 1, 1, 1, 1], model.indices.normal_indices);
}

#[test]
fn corner_that_is_no_index_fails_the_face() {
    for line in [
        "f 1 2 x",
        "f 1/a 2 3",
        "f 1/2/3 4/5/6 7/8/-9",
        "f 0 1 2",
        "f 1 2 4294967296",
        "f 1.0 2 3",
        "f 1 2 3 4e0",
    ] {
        let mut model: Model<f32> = Model::new();
        let e = model.load(&vec!["# one", "", line], &scalar).unwrap_err();
        assert_eq!(e.kind, ParseErrorKind::Face, "{:?}", line);
        assert_eq!(e.line, 3);
        assert_eq!(e.label, "Polygon index is invalid.");
    }
}

#[test]
fn failing_face_keeps_what_was_read_before() {
    let mut model: Model<f32> = Model::new();
    let r = model.load(&vec!["f 1/1/1 2/2/2 3/3/3 4/x/4"], &scalar);
    assert!(r.is_err());
    assert_eq!(vec![0, 1, 2, 2, 3], model.indices.vertex_indices);
    assert_eq!(vec![0, 1, 2, 2], model.indices.texture_indices);
    assert_eq!(vec![0, 1, 2, 2], model.indices.normal_indices);
}

#[test]
fn load_indices_reads_one_corner() {
    let mut model: Model<f32> = Model::new();
    assert!(model.load_indices(&vec!["3", "", "5"], 1).is_ok());
    assert!(model.load_indices(&vec!["1"], 1).is_ok());
    assert!(model.load_indices(&vec![], 1).is_ok());
    assert!(model.load_indices(&vec!["8", "9", "10", "junk"], 1).is_ok());
    assert_eq!(vec![2, 0, 7], model.indices.vertex_indices);
    assert_eq!(vec![8], model.indices.texture_indices);
    assert_eq!(vec![4, 9], model.indices.normal_indices);
    let e = model.load_indices(&vec!["2", "3", "z"], 17).unwrap_err();
    assert_eq!(e.kind, ParseErrorKind::Face);
    assert_eq!(e.line, 17);
    assert_eq!(vec![2, 0, 7, 1], model.indices.vertex_indices);
    assert_eq!(vec![8, 2], model.indices.texture_indices);
    assert_eq!(vec![4, 9], model.indices.normal_indices);
}

#[test]
fn slots_of_a_corner() {
    let fields = vec!["12", "", "x"];
    assert_eq!(Slot::Index(11), slot_at(&fields, 0));
    assert_eq!(Slot::Absent, slot_at(&fields, 1));
    assert_eq!(Slot::Invalid, slot_at(&fields, 2));
    assert_eq!(Slot::Absent, slot_at(&fields, 3));
}

#[test]
fn numeric_records_fill_their_pools() {
    let model = loaded(&[
        "v 0.5 -1.5 2",
        "vt 0.25 0.75",
        "vn 0 1e0 0",
        "v 1 2 3 4",
        "vn 1",
        "vt 1 0 0",
    ]);
    assert_eq!(vec![0.5, -1.5, 2.0, 1.0, 2.0, 3.0, 4.0], model.vertex);
    assert_eq!(vec![0.25, 0.75, 1.0, 0.0, 0.0], model.vertex_tex);
    assert_eq!(vec![0.0, 1.0, 0.0, 1.0], model.vertex_normal_tmp);
    assert!(model.vertex_normal.is_empty());
}

#[test]
fn other_lines_change_nothing() {
    let model = loaded(&[
        "# v 1 2 3",
        "",
        "mtllib cube.mtl",
        "o Cube",
        "g group",
        "usemtl Material",
        "s off",
        " v 1 2 3",
        "vp 1 2 3",
        "V 1 2 3",
        "\tf 1 2 3",
    ]);
    assert!(model.vertex.is_empty());
    assert!(model.vertex_tex.is_empty());
    assert!(model.vertex_normal_tmp.is_empty());
    assert_eq!(model.indices, Indices::new());
}

#[test]
fn every_line_counts() {
    let mut model: Model<f32> = Model::new();
    let lines = vec!["# head", "", "o name", "v 1 2 3", "", "vn 0 0 one", "v 4 5 6"];
    let e = model.load(&lines, &scalar).unwrap_err();
    assert_eq!(e.kind, ParseErrorKind::Numeric);
    assert_eq!(e.line, 6);
    assert_eq!(e.label, "Vertex normal is invalid.");
    assert_eq!(vec![1.0, 2.0, 3.0], model.vertex);
    assert_eq!(vec![0.0, 0.0], model.vertex_normal_tmp);
}

#[test]
fn each_numeric_record_has_its_label() {
    let mut model: Model<f32> = Model::new();
    let e = model.load(&vec!["v a"], &scalar).unwrap_err();
    assert_eq!((e.line, e.label.as_str()), (1, "Vertex position is invalid."));
    let e = model.load(&vec!["vt a"], &scalar).unwrap_err();
    assert_eq!((e.line, e.label.as_str()), (1, "Vertex texture position is invalid."));
    let e = model.load(&vec!["vn a"], &scalar).unwrap_err();
    assert_eq!((e.line, e.label.as_str()), (1, "Vertex normal is invalid."));
}

#[test]
fn two_spaces_hold_an_empty_operand() {
    let mut model: Model<f32> = Model::new();
    let e = model.load(&vec!["v  1.0 2.0 3.0"], &scalar).unwrap_err();
    assert_eq!(e.kind, ParseErrorKind::Numeric);
    assert!(model.vertex.is_empty());
}

#[test]
fn load_line_reads_one_line() {
    let mut model: Model<f32> = Model::new();
    assert!(model.load_line("v 1 2 3", 1, &scalar).is_ok());
    assert!(model.load_line("f 1 1 1", 2, &scalar).is_ok());
    let e = model.load_line("vt 0.5 half", 9, &scalar).unwrap_err();
    assert_eq!(e.line, 9);
    assert_eq!(vec![1.0, 2.0, 3.0], model.vertex);
    assert_eq!(vec![0.5], model.vertex_tex);
    assert_eq!(vec![0, 0, 0], model.indices.vertex_indices);
}

#[test]
fn minimal_file_end_to_end() {
    let mut model = loaded(&[
        "v 0.0 0.0 0.0",
        "v 1.0 0.0 0.0",
        "v 0.0 1.0 0.0",
        "vn 0.0 0.0 1.0",
        "f 1//1 2//1 3//1",
    ]);
    assert_eq!(3, model.vertex.len() / 3);
    assert_eq!(vec![0, 1, 2], model.indices.vertex_indices);
    assert_eq!(vec![0, 0, 0], model.indices.normal_indices);
    assert_eq!(Ok(()), model.create_vertex_normal());
    assert_eq!(vec![0.0, 0.0, 1.0, 0.0, 0.0, 1.0, 0.0, 0.0, 1.0], model.vertex_normal);
    assert!(model.normals_cover_vertices());
    let buffer = model.create_concat_vertex();
    assert_eq!(18, buffer.len());
    assert_eq!(
        vec![
            0.0, 0.0, 0.0, 0.0, 0.0, 1.0, 1.0, 0.0, 0.0, 0.0, 0.0, 1.0, 0.0, 1.0, 0.0, 0.0, 0.0,
            1.0,
        ],
        buffer
    );
}

#[test]
fn single_triangle_round_trip() {
    let mut model = loaded(&[
        "v 1 2 3",
        "v 4 5 6",
        "v 7 8 9",
        "vn 0.1 0.2 0.3",
        "vn 0.4 0.5 0.6",
        "vn 0.7 0.8 0.9",
        "f 1//3 2//1 3//2",
    ]);
    assert_eq!(Ok(()), model.create_vertex_normal());
    let buffer = model.create_concat_vertex();
    assert_eq!(3 * 6, buffer.len());
    assert_eq!(
        vec![
            1.0, 2.0, 3.0, 0.7, 0.8, 0.9, 4.0, 5.0, 6.0, 0.1, 0.2, 0.3, 7.0, 8.0, 9.0, 0.4, 0.5,
            0.6,
        ],
        buffer
    );
}

#[test]
fn face_without_normals_fails_the_alignment() {
    let mut model = loaded(&["v 0 0 0", "v 1 0 0", "v 0 1 0", "f 1 2 99"]);
    assert_eq!(vec![0, 1, 98], model.indices.vertex_indices);
    assert_eq!(Err(IndexAlignmentError { position: 0 }), model.create_vertex_normal());
    assert!(model.vertex_normal.is_empty());
}

#[test]
fn normal_beyond_the_pool_fails_the_alignment() {
    let mut model = loaded(&["vn 0 0 1", "vn 0 1 0", "f 1//1 2//2 3//3"]);
    assert_eq!(Err(IndexAlignmentError { position: 2 }), model.create_vertex_normal());
    assert!(model.vertex_normal.is_empty());
    assert_eq!(vec![0.0, 0.0, 1.0, 0.0, 1.0, 0.0], model.vertex_normal_tmp);
}

#[test]
fn normal_that_is_cut_short_is_no_normal() {
    let mut model = loaded(&["vn 0 0 1", "vn 0 1", "f 1//1 2//1 3//2"]);
    assert_eq!(Err(IndexAlignmentError { position: 2 }), model.create_vertex_normal());
}

#[test]
fn missing_normal_index_fails_the_alignment() {
    let mut model = loaded(&["vn 0 0 1", "f 1//1 2//1 3"]);
    assert_eq!(Err(IndexAlignmentError { position: 2 }), model.create_vertex_normal());
}

#[test]
fn alignment_takes_the_place_of_earlier_normals() {
    let mut model = loaded(&["vn 1 2 3", "vn 4 5 6", "f 1//2 2//1 3//2"]);
    model.vertex_normal = vec![9.0; 20];
    assert_eq!(Ok(()), model.create_vertex_normal());
    assert_eq!(vec![4.0, 5.0, 6.0, 1.0, 2.0, 3.0, 4.0, 5.0, 6.0], model.vertex_normal);
    assert!(model.vertex.is_empty());
    assert_eq!(vec![1.0, 2.0, 3.0, 4.0, 5.0, 6.0], model.vertex_normal_tmp);
}

#[test]
fn mesh_without_faces_aligns_to_nothing() {
    let mut model = loaded(&["v 1 2 3", "vn 0 0 1"]);
    assert_eq!(Ok(()), model.create_vertex_normal());
    assert!(model.vertex_normal.is_empty());
    assert!(!model.normals_cover_vertices());
}

#[test]
fn buffer_stops_at_the_last_position() {
    let mut model: Model<f32> = Model::new();
    model.vertex = vec![1.0, 2.0, 3.0, 4.0, 5.0, 6.0, 7.0];
    model.vertex_normal = vec![0.1, 0.2, 0.3, 0.4, 0.5, 0.6, 0.7, 0.8, 0.9];
    assert!(model.normals_cover_vertices());
    assert_eq!(
        vec![1.0, 2.0, 3.0, 0.1, 0.2, 0.3, 4.0, 5.0, 6.0, 0.4, 0.5, 0.6],
        model.create_concat_vertex()
    );
}

#[test]
fn empty_mesh_has_an_empty_buffer() {
    let model: Model<f32> = Model::new();
    assert!(model.normals_cover_vertices());
    assert!(model.create_concat_vertex().is_empty());
}

#[test]
fn shared_vertices_leave_normals_over() {
    let mut model = loaded(&[
        "v 0 0 0",
        "v 1 0 0",
        "v 1 1 0",
        "v 0 1 0",
        "vn 0 0 1",
        "f 1//1 2//1 3//1 4//1",
    ]);
    assert_eq!(Ok(()), model.create_vertex_normal());
    assert_eq!(18, model.vertex_normal.len());
    assert!(model.normals_cover_vertices());
    assert_eq!(24, model.create_concat_vertex().len());
}

#[test]
fn scalars_may_be_of_any_type() {
    let whole = |text: &str| -> Option<i64> { text.parse::<i64>().ok() };
    let mut model: Model<i64> = Model::new();
    let lines = vec!["v 1 2 3", "vn -1 -2 -3", "f 1//1 1//1 1//1"];
    assert_eq!(Ok(()), model.load(&lines, &whole));
    assert_eq!(Ok(()), model.create_vertex_normal());
    assert_eq!(vec![1, 2, 3, -1, -2, -3], model.create_concat_vertex());
    assert!(model.load(&vec!["v 1.5"], &whole).is_err());
}
