use see_augmented::buffer::{StrokeBuffer, MAX_EDGES};
use see_augmented::config::Config;
use see_augmented::geometry::{Point, Vertex};
use see_augmented::mesh::{Mesh, VertexMode};
use see_augmented::sample::{clamp_pressure, Sample, PRESSURE_EPSILON, PRESSURE_FULL};
use see_augmented::tessellate::{ink_for, quad_for, verts_for, width_for, Color, Edge, Quad};

fn at(x: i32, y: i32) -> Point {
    Point { x, y }
}

fn v(x: i64, y: i64) -> Vertex {
    Vertex { x, y }
}

fn ink(a: u8) -> Color {
    Color { a, r: 0, g: 0, b: 0 }
}

fn sample(x: i32, y: i32, pressure: u32) -> Sample {
    Sample { pos: at(x, y), pressure }
}

fn both_vary() -> Config {
    Config {
        width_varies_with_pressure: true,
        alpha_varies_with_pressure: true,
        min_redraw_interval_ms: 33,
        base_ribbon_width: 100,
        min_segment_length: 4,
    }
}

fn none_varies() -> Config {
    Config {
        width_varies_with_pressure: false,
        alpha_varies_with_pressure: false,
        min_redraw_interval_ms: 33,
        base_ribbon_width: 100,
        min_segment_length: 4,
    }
}

#[test]
fn standard_options() {
    let config = Config::default();
    assert!(config.width_varies_with_pressure);
    assert!(!config.alpha_varies_with_pressure);
    assert_eq!(config.min_redraw_interval_ms, 33);
    assert_eq!(config.base_ribbon_width, 6);
    assert_eq!(config.min_segment_length, 4);
}

#[test]
fn pressure_is_counted_in_millionths() {
    assert_eq!(PRESSURE_FULL, 1_000_000);
    assert_eq!(PRESSURE_EPSILON, 100);
    assert_eq!(clamp_pressure(0), 0);
    assert_eq!(clamp_pressure(PRESSURE_FULL), PRESSURE_FULL);
    assert_eq!(clamp_pressure(PRESSURE_FULL + 1), PRESSURE_FULL);
    assert_eq!(clamp_pressure(u32::MAX), PRESSURE_FULL);
}

#[test]
fn width_follows_pressure() {
    let config = both_vary();
    assert_eq!(width_for(&config, PRESSURE_FULL), 100);
    assert_eq!(width_for(&config, PRESSURE_FULL / 2), 50);
    assert_eq!(width_for(&config, 0), 0);
    assert_eq!(width_for(&config, 999_999), 99);
    assert_eq!(width_for(&config, 9_999), 0);
    assert_eq!(width_for(&config, 10_000), 1);
    assert_eq!(width_for(&config, u32::MAX), 100);
    let wide = Config { base_ribbon_width: u32::MAX, ..config };
    assert_eq!(width_for(&wide, PRESSURE_FULL), u32::MAX);
    assert_eq!(width_for(&wide, PRESSURE_FULL / 2), u32::MAX / 2);
}

#[test]
fn width_stays_where_it_does_not_vary() {
    let config = none_varies();
    assert_eq!(width_for(&config, PRESSURE_FULL), 100);
    assert_eq!(width_for(&config, 1), 100);
    assert_eq!(width_for(&config, 0), 100);
}

#[test]
fn alpha_follows_pressure() {
    let config = both_vary();
    assert_eq!(ink_for(&config, PRESSURE_FULL), ink(255));
    assert_eq!(ink_for(&config, PRESSURE_FULL / 2), ink(127));
    assert_eq!(ink_for(&config, 0), ink(0));
    assert_eq!(ink_for(&config, 3_921), ink(0));
    assert_eq!(ink_for(&config, 3_922), ink(1));
    assert_eq!(ink_for(&config, u32::MAX), ink(255));
    assert_eq!(ink_for(&none_varies(), 0), ink(255));
    assert_eq!(ink_for(&none_varies(), PRESSURE_FULL / 2), ink(255));
}

#[test]
fn edge_is_the_sample_plus_and_minus_the_offset() {
    let config = both_vary();
    let edge = verts_for(&config, at(0, 0), at(3, 4), sample(3, 4, PRESSURE_FULL / 2));
    // Width 50 along the normal (-4, 3) / 5.
    assert_eq!(edge, Edge { left: v(3 - 40, 4 + 30), right: v(3 + 40, 4 - 30), color: ink(127) });
    let point = verts_for(&config, at(0, 0), at(3, 4), sample(3, 4, 0));
    assert_eq!(point, Edge { left: v(3, 4), right: v(3, 4), color: ink(0) });
}

#[test]
fn edge_at_the_border_of_the_plane() {
    let config = Config { base_ribbon_width: u32::MAX, ..none_varies() };
    let edge = verts_for(&config, at(0, 0), at(1, 0), sample(i32::MAX, i32::MIN, PRESSURE_FULL));
    assert_eq!(edge.left, v(i32::MAX as i64, i32::MIN as i64 + u32::MAX as i64));
    assert_eq!(edge.right, v(i32::MAX as i64, i32::MIN as i64 - u32::MAX as i64));
}

#[test]
fn first_quad_uses_its_own_segment_for_both_edges() {
    let config = none_varies();
    let quad = quad_for(&config, None, sample(0, 0, PRESSURE_FULL), sample(10, 0, PRESSURE_FULL));
    assert_eq!(
        quad,
        Quad {
            trailing: Edge { left: v(0, 100), right: v(0, -100), color: ink(255) },
            leading: Edge { left: v(10, 100), right: v(10, -100), color: ink(255) },
        }
    );
}

#[test]
fn later_quad_trails_across_the_segment_before() {
    let config = none_varies();
    let first = quad_for(&config, None, sample(0, 0, PRESSURE_FULL), sample(10, 0, PRESSURE_FULL));
    let second = quad_for(
        &config,
        Some(sample(0, 0, PRESSURE_FULL)),
        sample(10, 0, PRESSURE_FULL),
        sample(10, 10, PRESSURE_FULL),
    );
    // The corner is shared: no gap between the quads.
    assert_eq!(second.trailing, first.leading);
    assert_eq!(second.leading, Edge { left: v(-90, 10), right: v(110, 10), color: ink(255) });
}

#[test]
fn buffer_appends_edges() {
    let mut buffer = StrokeBuffer::new();
    assert!(buffer.is_empty());
    assert_eq!(buffer.len(), 0);
    assert_eq!(buffer.vertex_count(), 0);
    assert_eq!(buffer.room(), MAX_EDGES);
    assert_eq!(buffer.edge(0), None);

    buffer.push_verts(v(1, 2), v(3, 4), ink(9));
    assert!(!buffer.is_empty());
    assert_eq!(buffer.len(), 1);
    assert_eq!(buffer.vertex_count(), 2);
    assert_eq!(buffer.room(), MAX_EDGES - 1);
    assert_eq!(buffer.edge(0), Some(Edge { left: v(1, 2), right: v(3, 4), color: ink(9) }));
    assert_eq!(buffer.edge(1), None);

    buffer.push_verts(v(5, 6), v(7, 8), ink(10));
    assert_eq!(buffer.len(), 2);
    assert_eq!(buffer.vertex_count(), 4);
    assert_eq!(buffer.edge(0), Some(Edge { left: v(1, 2), right: v(3, 4), color: ink(9) }));
    assert_eq!(buffer.edge(1), Some(Edge { left: v(5, 6), right: v(7, 8), color: ink(10) }));
    assert_eq!(buffer.edge(2), None);
    assert_eq!(buffer.edge(usize::MAX), None);
}

#[test]
fn buffer_keeps_many_edges_in_order() {
    let mut buffer = StrokeBuffer::new();
    for i in 0..1000i64 {
        buffer.push_verts(v(i, 0), v(i, 1), ink((i % 256) as u8));
    }
    assert_eq!(buffer.len(), 1000);
    for i in 0..1000i64 {
        let edge = buffer.edge(i as usize).unwrap();
        assert_eq!(edge.left, v(i, 0));
        assert_eq!(edge.right, v(i, 1));
        assert_eq!(edge.color, ink((i % 256) as u8));
    }
}

#[test]
fn mesh_of_a_quad() {
    let quad = Quad {
        trailing: Edge { left: v(0, 1), right: v(0, -1), color: ink(10) },
        leading: Edge { left: v(5, 2), right: v(5, -2), color: ink(20) },
    };
    let mesh = Mesh::from_quad(&quad);
    assert_eq!(mesh.mode(), VertexMode::TriangleStrip);
    assert_eq!(mesh.vertex_count(), 4);
    assert_eq!(mesh.vertices(), &vec![v(0, 1), v(0, -1), v(5, 2), v(5, -2)]);
    assert_eq!(mesh.colors(), &vec![ink(10), ink(10), ink(20), ink(20)]);
    assert_eq!(mesh.clone(), mesh);
}

#[test]
fn mesh_of_a_ribbon_lays_its_quads_end_to_end() {
    let mut buffer = StrokeBuffer::new();
    assert_eq!(Mesh::from_strip(&buffer).vertex_count(), 0);
    buffer.push_verts(v(0, 1), v(0, -1), ink(1));
    assert_eq!(Mesh::from_strip(&buffer).vertex_count(), 0);
    buffer.push_verts(v(1, 1), v(1, -1), ink(2));
    buffer.push_verts(v(2, 1), v(2, -1), ink(3));
    let mesh = Mesh::from_strip(&buffer);
    assert_eq!(mesh.mode(), VertexMode::TriangleStrip);
    assert_eq!(
        mesh.vertices(),
        &vec![v(0, 1), v(0, -1), v(1, 1), v(1, -1), v(1, 1), v(1, -1), v(2, 1), v(2, -1)]
    );
    assert_eq!(
        mesh.colors(),
        &vec![ink(1), ink(1), ink(2), ink(2), ink(2), ink(2), ink(3), ink(3)]
    );
}

#[test]
fn snapshot_holds_whole_edges() {
    let mut buffer = StrokeBuffer::new();
    assert_eq!(buffer.snapshot().vertex_count(), 0);
    buffer.push_verts(v(0, 1), v(0, -1), ink(1));
    let one = buffer.snapshot();
    assert_eq!(one.mode(), VertexMode::TriangleStrip);
    assert_eq!(one.vertices(), &vec![v(0, 1), v(0, -1)]);
    assert_eq!(one.colors(), &vec![ink(1), ink(1)]);
    buffer.push_verts(v(1, 1), v(1, -1), ink(2));
    buffer.push_verts(v(2, 1), v(2, -1), ink(3));
    let three = buffer.snapshot();
    assert_eq!(three.vertices(), &vec![v(0, 1), v(0, -1), v(1, 1), v(1, -1), v(2, 1), v(2, -1)]);
    assert_eq!(three.colors(), &vec![ink(1), ink(1), ink(2), ink(2), ink(3), ink(3)]);
    assert_eq!(three.vertex_count(), buffer.vertex_count());
    assert_eq!(three.vertex_count() % 2, 0);
    // What was taken before stays as it was.
    assert_eq!(one.vertices(), &vec![v(0, 1), v(0, -1)]);
    assert_eq!(Mesh::strip_of(&buffer), three);
}
