//! The ribbon of the stroke that is being drawn.
//!
//! The edges are kept in a `boxcar::Vec`, an append-only vector. Verus takes
//! what this file says of that type on trust: the contracts of `new_edges`,
//! `push_edge`, `edge_count` and `edge_at` restate what the vector does when
//! only its owner appends to it.

use vstd::prelude::*;
use crate::geometry::Vertex;
use crate::mesh::{strip_mesh, Mesh};
use crate::tessellate::{Color, Edge};

verus! {

/// `boxcar::Vec`, of which Verus is told nothing but that it is a type.
#[verifier::external_type_specification]
#[verifier::external_body]
#[verifier::reject_recursive_types(T)]
pub struct ExBoxcarVec<T>(boxcar::Vec<T>);

/// The edges that an append-only vector holds, in the order in which they
/// were appended.
pub uninterp spec fn edges_of(buffer: boxcar::Vec<Edge>) -> Seq<Edge>;

/// The most edges that a stroke buffer takes: about a million, which is a
/// line of some kilometres on any screen.
///
/// `boxcar::Vec::push` panics once the index no longer fits its buckets or
/// a bucket no longer fits the address space. For an element of this size
/// both happen far above this bound, also where `usize` has 32 bits.
pub const MAX_EDGES: usize = 0x10_0000;

/// `boxcar::Vec::new`: a vector that holds nothing.
#[verifier::external_body]
fn new_edges() -> (buffer: boxcar::Vec<Edge>)
    ensures
        edges_of(buffer) == Seq::<Edge>::empty(),
{
    boxcar::Vec::new()
}

/// `boxcar::Vec::push`: appends `edge` behind what the vector holds and
/// returns the index at which it now stands. The caller is the only one who
/// appends, so that index is the number of edges held before. Below
/// `MAX_EDGES` the call does not panic.
#[verifier::external_body]
fn push_edge(buffer: &mut boxcar::Vec<Edge>, edge: Edge) -> (index: usize)
    requires
        edges_of(*old(buffer)).len() < MAX_EDGES,
    ensures
        edges_of(*final(buffer)) == edges_of(*old(buffer)).push(edge),
        index == edges_of(*old(buffer)).len(),
    no_unwind
{
    buffer.push(edge)
}

/// `boxcar::Vec::count`: the number of edges held.
#[verifier::external_body]
fn edge_count(buffer: &boxcar::Vec<Edge>) -> (count: usize)
    ensures
        count == edges_of(*buffer).len(),
{
    buffer.count()
}

/// `boxcar::Vec::get`: the edge at `index`, or nothing where `index` is not
/// below the number of edges held.
#[verifier::external_body]
fn edge_at(buffer: &boxcar::Vec<Edge>, index: usize) -> (edge: Option<Edge>)
    ensures
        index < edges_of(*buffer).len() ==> edge == Some(edges_of(*buffer)[index as int]),
        index >= edges_of(*buffer).len() ==> edge is None,
{
    buffer.get(index).copied()
}

/// The vertices of a strip of edges: left and right of each edge in turn.
pub open spec fn strip_vertices(edges: Seq<Edge>) -> Seq<Vertex> {
    Seq::new(
        2 * edges.len(),
        |i: int|
            if i % 2 == 0 {
                edges[i / 2].left
            } else {
                edges[i / 2].right
            },
    )
}

/// The colours of a strip of edges: each edge's colour, once for each of
/// its two vertices.
pub open spec fn strip_colors(edges: Seq<Edge>) -> Seq<Color> {
    Seq::new(2 * edges.len(), |i: int| edges[i / 2].color)
}

/// The growing ribbon of one stroke: an append-only sequence of edges.
///
/// Vertices and colours enter it edge by edge, so the number of vertices is
/// always even and equals the number of colours.
#[derive(Debug)]
pub struct StrokeBuffer {
    edges: boxcar::Vec<Edge>,
}

impl View for StrokeBuffer {
    type V = Seq<Edge>;

    closed spec fn view(&self) -> Seq<Edge> {
        edges_of(self.edges)
    }
}

impl StrokeBuffer {
    #[verifier::type_invariant]
    closed spec fn holds_no_more_than_fits(self) -> bool {
        edges_of(self.edges).len() <= MAX_EDGES
    }

    /// The vertices of the ribbon, in strip order.
    pub open spec fn vertices(self) -> Seq<Vertex> {
        strip_vertices(self@)
    }

    /// The colours of the ribbon, one for each vertex.
    pub open spec fn colors(self) -> Seq<Color> {
        strip_colors(self@)
    }

    /// An empty buffer.
    pub fn new() -> (buffer: StrokeBuffer)
        ensures
            buffer@ == Seq::<Edge>::empty(),
    {
        StrokeBuffer { edges: new_edges() }
    }

    /// The number of edges in the buffer.
    pub fn len(&self) -> (n: usize)
        ensures
            n == self@.len(),
            n <= MAX_EDGES,
    {
        proof {
            use_type_invariant(self);
        }
        edge_count(&self.edges)
    }

    /// Whether nothing was appended yet.
    pub fn is_empty(&self) -> (empty: bool)
        ensures
            empty == (self@.len() == 0),
    {
        edge_count(&self.edges) == 0
    }

    /// The number of vertices in the buffer: two for each edge, and as
    /// many as there are colours.
    pub fn vertex_count(&self) -> (n: usize)
        ensures
            n == self.vertices().len(),
            n == self.colors().len(),
            n == 2 * self@.len(),
            n % 2 == 0,
    {
        let edges: usize = self.len();
        2 * edges
    }

    /// How many more edges the buffer takes.
    pub fn room(&self) -> (n: usize)
        ensures
            n == MAX_EDGES - self@.len(),
    {
        let edges: usize = self.len();
        MAX_EDGES - edges
    }

    /// The edge at `index`, if there is one.
    pub fn edge(&self, index: usize) -> (edge: Option<Edge>)
        ensures
            index < self@.len() ==> edge == Some(self@[index as int]),
            index >= self@.len() ==> edge is None,
    {
        edge_at(&self.edges, index)
    }

    /// All that was appended so far, as a mesh of its own that later
    /// appends do not touch. It never holds half an edge: each vertex has
    /// its partner and its colour.
    pub fn snapshot(&self) -> (mesh: Mesh)
        ensures
            mesh@ == strip_mesh(self@),
            mesh@.vertices == self.vertices(),
            mesh@.colors == self.colors(),
    {
        Mesh::strip_of(self)
    }

    /// Appends one edge: the vertices `left` and `right`, both in `color`.
    pub fn push_verts(&mut self, left: Vertex, right: Vertex, color: Color)
        requires
            old(self)@.len() < MAX_EDGES,
        ensures
            final(self)@ == old(self)@.push(Edge { left, right, color }),
    {
        let _ = push_edge(&mut self.edges, Edge { left, right, color });
    }
}

} // verus!
