//! Meshes: vertices and colours ready to be drawn.

use vstd::prelude::*;
use crate::buffer::{strip_colors, strip_vertices, StrokeBuffer, MAX_EDGES};
use crate::geometry::Vertex;
use crate::tessellate::{Color, Edge, Quad};

verus! {

/// How the vertices of a mesh form triangles.
#[derive(Clone, Copy, Debug, PartialEq, Eq, Structural)]
pub enum VertexMode {
    /// Every three vertices form a triangle of their own.
    Triangles,
    /// Every vertex forms a triangle with the two before it.
    TriangleStrip,
    /// Every vertex forms a triangle with the one before it and the first.
    TriangleFan,
}

/// What a mesh holds.
pub struct MeshView {
    pub vertices: Seq<Vertex>,
    pub colors: Seq<Color>,
    pub mode: VertexMode,
}

/// A set of coloured vertices with the way they form triangles. Once made,
/// a mesh does not change.
#[derive(Debug, PartialEq, Eq)]
pub struct Mesh {
    vertices: Vec<Vertex>,
    colors: Vec<Color>,
    mode: VertexMode,
}

impl View for Mesh {
    type V = MeshView;

    closed spec fn view(&self) -> MeshView {
        MeshView { vertices: self.vertices@, colors: self.colors@, mode: self.mode }
    }
}

impl Clone for Mesh {
    fn clone(&self) -> (copy: Mesh)
        ensures
            copy@ == self@,
    {
        proof {
            use_type_invariant(self);
        }
        let vertices: Vec<Vertex> = self.vertices.clone();
        let colors: Vec<Color> = self.colors.clone();
        proof {
            assert(vertices@ =~= self.vertices@);
            assert(colors@ =~= self.colors@);
        }
        Mesh { vertices, colors, mode: self.mode }
    }
}

/// The triangle strip that a sequence of edges stands for.
pub open spec fn strip_mesh(edges: Seq<Edge>) -> MeshView {
    MeshView {
        vertices: strip_vertices(edges),
        colors: strip_colors(edges),
        mode: VertexMode::TriangleStrip,
    }
}

/// The triangle strip of one quad: trailing edge, then leading edge.
pub open spec fn quad_mesh(quad: Quad) -> MeshView {
    strip_mesh(seq![quad.trailing, quad.leading])
}

/// The number of quads in a ribbon: one between each edge and the next.
pub open spec fn quads_in(edges: Seq<Edge>) -> nat {
    if edges.len() == 0 {
        0
    } else {
        (edges.len() - 1) as nat
    }
}

/// The quad between the edge at `i` and the edge after it.
pub open spec fn ribbon_quad(edges: Seq<Edge>, i: int) -> Quad {
    Quad { trailing: edges[i], leading: edges[i + 1] }
}

/// The mesh that a whole ribbon is merged into: its quads laid end to end,
/// four vertices each, so that the edge between two quads stands in both.
pub open spec fn merged_mesh(edges: Seq<Edge>) -> MeshView {
    MeshView {
        vertices: Seq::new(
            4 * quads_in(edges),
            |i: int| quad_mesh(ribbon_quad(edges, i / 4)).vertices[i % 4],
        ),
        colors: Seq::new(
            4 * quads_in(edges),
            |i: int| quad_mesh(ribbon_quad(edges, i / 4)).colors[i % 4],
        ),
        mode: VertexMode::TriangleStrip,
    }
}

impl Mesh {
    #[verifier::type_invariant]
    closed spec fn one_color_per_vertex(self) -> bool {
        self.vertices@.len() == self.colors@.len()
    }

    /// The mesh of one quad: four vertices, the two of the trailing edge in
    /// one colour and the two of the leading edge in the other.
    pub fn from_quad(quad: &Quad) -> (mesh: Mesh)
        ensures
            mesh@ == quad_mesh(*quad),
            mesh@.vertices == seq![
                quad.trailing.left,
                quad.trailing.right,
                quad.leading.left,
                quad.leading.right,
            ],
            mesh@.colors == seq![
                quad.trailing.color,
                quad.trailing.color,
                quad.leading.color,
                quad.leading.color,
            ],
    {
        let mut vertices: Vec<Vertex> = Vec::new();
        let mut colors: Vec<Color> = Vec::new();
        vertices.push(quad.trailing.left);
        vertices.push(quad.trailing.right);
        vertices.push(quad.leading.left);
        vertices.push(quad.leading.right);
        colors.push(quad.trailing.color);
        colors.push(quad.trailing.color);
        colors.push(quad.leading.color);
        colors.push(quad.leading.color);
        proof {
            let edges = seq![quad.trailing, quad.leading];
            assert(vertices@ =~= strip_vertices(edges));
            assert(colors@ =~= strip_colors(edges));
        }
        Mesh { vertices, colors, mode: VertexMode::TriangleStrip }
    }

    /// The ribbon as it stands, as one triangle strip with two vertices for
    /// each edge. The mesh holds whole edges only, each with its colour.
    pub fn strip_of(buffer: &StrokeBuffer) -> (mesh: Mesh)
        ensures
            mesh@ == strip_mesh(buffer@),
    {
        let count: usize = buffer.len();
        let mut vertices: Vec<Vertex> = Vec::new();
        let mut colors: Vec<Color> = Vec::new();
        let mut i: usize = 0;
        while i < count
            invariant
                i <= count,
                count == buffer@.len(),
                vertices@ == strip_vertices(buffer@.take(i as int)),
                colors@ == strip_colors(buffer@.take(i as int)),
            decreases count - i,
        {
            let edge: Edge = buffer.edge(i).unwrap();
            vertices.push(edge.left);
            vertices.push(edge.right);
            colors.push(edge.color);
            colors.push(edge.color);
            proof {
                let before = buffer@.take(i as int);
                assert(buffer@.take(i + 1) =~= before.push(edge));
                assert(strip_vertices(before.push(edge)) =~= strip_vertices(before).push(
                    edge.left,
                ).push(edge.right));
                assert(strip_colors(before.push(edge)) =~= strip_colors(before).push(
                    edge.color,
                ).push(edge.color));
            }
            i = i + 1;
        }
        proof {
            assert(buffer@.take(count as int) =~= buffer@);
        }
        Mesh { vertices, colors, mode: VertexMode::TriangleStrip }
    }

    /// The mesh that a whole ribbon is merged into: one triangle strip of
    /// all its quads, laid end to end.
    pub fn from_strip(buffer: &StrokeBuffer) -> (mesh: Mesh)
        ensures
            mesh@ == merged_mesh(buffer@),
    {
        let count: usize = buffer.len();
        let mut vertices: Vec<Vertex> = Vec::new();
        let mut colors: Vec<Color> = Vec::new();
        let mut i: usize = 0;
        while i + 1 < count
            invariant
                count == buffer@.len(),
                count <= MAX_EDGES,
                i <= count,
                i < count || count == 0,
                vertices@.len() == 4 * i,
                colors@.len() == 4 * i,
                forall|k: int|
                    0 <= k < 4 * i ==> vertices@[k] == quad_mesh(
                        ribbon_quad(buffer@, k / 4),
                    ).vertices[k % 4],
                forall|k: int|
                    0 <= k < 4 * i ==> colors@[k] == quad_mesh(
                        ribbon_quad(buffer@, k / 4),
                    ).colors[k % 4],
            decreases count - i,
        {
            let trailing: Edge = buffer.edge(i).unwrap();
            let leading: Edge = buffer.edge(i + 1).unwrap();
            let ghost before_vertices = vertices@;
            let ghost before_colors = colors@;
            vertices.push(trailing.left);
            vertices.push(trailing.right);
            vertices.push(leading.left);
            vertices.push(leading.right);
            colors.push(trailing.color);
            colors.push(trailing.color);
            colors.push(leading.color);
            colors.push(leading.color);
            proof {
                let quad = ribbon_quad(buffer@, i as int);
                assert(quad_mesh(quad).vertices =~= seq![
                    trailing.left,
                    trailing.right,
                    leading.left,
                    leading.right,
                ]);
                assert(quad_mesh(quad).colors =~= seq![
                    trailing.color,
                    trailing.color,
                    leading.color,
                    leading.color,
                ]);
                assert forall|k: int| 0 <= k < 4 * (i + 1) implies vertices@[k] == quad_mesh(
                    ribbon_quad(buffer@, k / 4),
                ).vertices[k % 4] by {
                    if k < 4 * i {
                        assert(vertices@[k] == before_vertices[k]);
                    }
                }
                assert forall|k: int| 0 <= k < 4 * (i + 1) implies colors@[k] == quad_mesh(
                    ribbon_quad(buffer@, k / 4),
                ).colors[k % 4] by {
                    if k < 4 * i {
                        assert(colors@[k] == before_colors[k]);
                    }
                }
            }
            i = i + 1;
        }
        proof {
            assert(i == quads_in(buffer@));
            assert(vertices@ =~= merged_mesh(buffer@).vertices);
            assert(colors@ =~= merged_mesh(buffer@).colors);
        }
        Mesh { vertices, colors, mode: VertexMode::TriangleStrip }
    }

    /// The vertices of the mesh.
    pub fn vertices(&self) -> (vertices: &Vec<Vertex>)
        ensures
            vertices@ == self@.vertices,
    {
        &self.vertices
    }

    /// The colours of the mesh, one for each vertex.
    pub fn colors(&self) -> (colors: &Vec<Color>)
        ensures
            colors@ == self@.colors,
            colors@.len() == self@.vertices.len(),
    {
        proof {
            use_type_invariant(self);
        }
        &self.colors
    }

    /// How the vertices form triangles.
    pub fn mode(&self) -> (mode: VertexMode)
        ensures
            mode == self@.mode,
    {
        self.mode
    }

    /// The number of vertices.
    pub fn vertex_count(&self) -> (n: usize)
        ensures
            n == self@.vertices.len(),
            n == self@.colors.len(),
    {
        proof {
            use_type_invariant(self);
        }
        self.vertices.len()
    }
}

} // verus!
