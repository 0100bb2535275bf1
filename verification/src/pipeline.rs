//! The stroke pipeline: from messages to meshes.
//!
//! A stroke is idle until a `Start` opens it, grows with each accepted
//! `Move`, and is closed by `End`, which hands its ribbon out to be merged
//! into one mesh. Merging is a step of its own, `finalize_stroke`, so that it
//! can run away from the input path; a new stroke can start before the last
//! one is merged, because the ribbon has left the pipeline by then.

use vstd::prelude::*;
use crate::buffer::{StrokeBuffer, MAX_EDGES};
use crate::config::Config;
use crate::geometry::{distance_squared, far_enough, Point};
use crate::mesh::{merged_mesh, quad_mesh, Mesh, MeshView};
use crate::sample::{PathMsg, Sample, PRESSURE_EPSILON};
use crate::tessellate::{quad_for, segment_quad, Edge, Quad};

verus! {

/// How a mesh is laid over what is on the surface already.
#[derive(Clone, Copy, Debug, PartialEq, Eq, Structural)]
pub enum BlendMode {
    /// The mesh covers what is below it.
    SrcOver,
    /// The colours are multiplied and the opacities combined.
    Multiply,
    /// The colours are multiplied part by part, so that ink over ink darkens.
    Modulate,
}

/// Where a pipeline stands in the life of a stroke.
#[derive(Clone, Copy, Debug, PartialEq, Eq, Structural)]
pub enum Phase {
    /// No stroke is in progress and none waits to be merged.
    Idle,
    /// A stroke was started and has not ended.
    InProgress,
    /// The last stroke has ended and its quads are still pending: its
    /// ribbon is out to be merged.
    Finalizing,
}

/// One draw primitive: a mesh and how to lay it on.
#[derive(Clone, Copy, Debug)]
pub struct DrawCall<'a> {
    pub mesh: &'a Mesh,
    pub blend: BlendMode,
}

/// The stroke that is being drawn, as the contracts see it.
pub struct StrokeView {
    /// The ribbon so far.
    pub edges: Seq<Edge>,
    /// The last sample that was accepted.
    pub last: Sample,
    /// The accepted sample before it, once there are two.
    pub prior: Option<Sample>,
}

/// A pipeline, as the contracts see it.
pub struct PipelineView {
    pub config: Config,
    /// The meshes of the strokes that were merged, oldest first.
    pub finalized: Seq<MeshView>,
    /// The quads of the newest stroke, as long as it is not merged.
    pub pending: Option<Seq<MeshView>>,
    /// The stroke in progress, if there is one.
    pub stroke: Option<StrokeView>,
    /// How many messages were dropped because no stroke was in progress.
    pub dropped: u64,
}

/// What a message did, as the contracts see it.
pub enum OutcomeView {
    Started,
    Ignored,
    Extended,
    Absorbed,
    Full,
    Dropped,
    Ended(Seq<Edge>),
}

/// What a message did.
#[derive(Debug)]
pub enum Outcome {
    /// `Start` opened a stroke.
    Started,
    /// `Start` came with no pressure to speak of and was passed over.
    Ignored,
    /// `Move` added a quad to the stroke.
    Extended,
    /// `Move` ended too close to the last sample and left no trace.
    Absorbed,
    /// `Move` found the stroke's buffer full and left no trace.
    Full,
    /// `Move` or `End` came while no stroke was in progress.
    Dropped,
    /// `End` closed the stroke. Its ribbon is handed out to be merged: pass
    /// it to `finalize_stroke`, or build the mesh elsewhere and `commit` it.
    Ended(StrokeBuffer),
}

impl View for Outcome {
    type V = OutcomeView;

    open spec fn view(&self) -> OutcomeView {
        match self {
            Outcome::Started => OutcomeView::Started,
            Outcome::Ignored => OutcomeView::Ignored,
            Outcome::Extended => OutcomeView::Extended,
            Outcome::Absorbed => OutcomeView::Absorbed,
            Outcome::Full => OutcomeView::Full,
            Outcome::Dropped => OutcomeView::Dropped,
            Outcome::Ended(buffer) => OutcomeView::Ended(buffer@),
        }
    }
}

/// Whether a ribbon has room for one more quad. The first quad of a stroke
/// brings two edges, every other quad one.
pub open spec fn fits(edges: Seq<Edge>) -> bool {
    if edges.len() == 0 {
        2 <= MAX_EDGES
    } else {
        edges.len() < MAX_EDGES
    }
}

/// The ribbon with one more quad. The first quad brings both its edges; the
/// trailing edge of every other quad is in the ribbon already.
pub open spec fn extended(edges: Seq<Edge>, quad: Quad) -> Seq<Edge> {
    if edges.len() == 0 {
        seq![quad.trailing, quad.leading]
    } else {
        edges.push(quad.leading)
    }
}

/// The pending batch with one more quad.
pub open spec fn with_quad(pending: Option<Seq<MeshView>>, quad: Quad) -> Option<Seq<MeshView>> {
    match pending {
        Some(quads) => Some(quads.push(quad_mesh(quad))),
        None => Some(seq![quad_mesh(quad)]),
    }
}

/// The draw primitives of a list of meshes: each mesh, laid on by `Modulate`.
pub open spec fn modulated(meshes: Seq<MeshView>) -> Seq<(MeshView, BlendMode)> {
    Seq::new(meshes.len(), |i: int| (meshes[i], BlendMode::Modulate))
}

/// The draw primitives that a list of draw calls stands for.
pub open spec fn primitives(calls: Seq<DrawCall>) -> Seq<(MeshView, BlendMode)> {
    Seq::new(calls.len(), |i: int| (calls[i].mesh@, calls[i].blend))
}

impl PipelineView {
    /// Where the pipeline stands in the life of a stroke.
    pub open spec fn phase(self) -> Phase {
        if self.stroke is Some {
            Phase::InProgress
        } else if self.pending is Some {
            Phase::Finalizing
        } else {
            Phase::Idle
        }
    }

    /// The ribbon of the stroke in progress.
    pub open spec fn in_progress(self) -> Option<Seq<Edge>> {
        match self.stroke {
            Some(stroke) => Some(stroke.edges),
            None => None,
        }
    }

    /// The last accepted sample of the stroke in progress.
    pub open spec fn last_sample(self) -> Option<Sample> {
        match self.stroke {
            Some(stroke) => Some(stroke.last),
            None => None,
        }
    }

    /// The accepted sample before the last.
    pub open spec fn prior_sample(self) -> Option<Sample> {
        match self.stroke {
            Some(stroke) => stroke.prior,
            None => None,
        }
    }

    /// A pipeline that has seen nothing yet.
    pub open spec fn fresh(config: Config) -> PipelineView {
        PipelineView { config, finalized: Seq::empty(), pending: None, stroke: None, dropped: 0 }
    }

    /// The state after a message was dropped: the count of dropped messages
    /// is one higher, unless it has reached the largest count there is.
    pub open spec fn after_misuse(self) -> PipelineView {
        PipelineView {
            dropped: if self.dropped < u64::MAX {
                (self.dropped + 1) as u64
            } else {
                self.dropped
            },
            ..self
        }
    }

    /// Whether a move to `pos` is long enough to be accepted.
    pub open spec fn accepts(self, pos: Point) -> bool {
        self.stroke matches Some(stroke) && distance_squared(stroke.last.pos, pos)
            >= self.config.min_segment_length * self.config.min_segment_length
    }

    /// The quad that a sample at `pos` adds to the stroke in progress.
    pub open spec fn next_quad(self, pos: Point, pressure: u32) -> Quad {
        let stroke = self.stroke->0;
        segment_quad(self.config, stroke.prior, stroke.last, Sample { pos, pressure })
    }

    /// The state after `Start`.
    pub open spec fn after_start(self, pos: Point, pressure: u32) -> PipelineView {
        if pressure < PRESSURE_EPSILON {
            self
        } else {
            PipelineView {
                pending: None,
                stroke: Some(
                    StrokeView { edges: Seq::empty(), last: Sample { pos, pressure }, prior: None },
                ),
                ..self
            }
        }
    }

    /// The state after `Move`.
    pub open spec fn after_move(self, pos: Point, pressure: u32) -> PipelineView {
        match self.stroke {
            None => self.after_misuse(),
            Some(stroke) => if self.accepts(pos) && fits(stroke.edges) {
                let quad = self.next_quad(pos, pressure);
                PipelineView {
                    pending: with_quad(self.pending, quad),
                    stroke: Some(
                        StrokeView {
                            edges: extended(stroke.edges, quad),
                            last: Sample { pos, pressure },
                            prior: Some(stroke.last),
                        },
                    ),
                    ..self
                }
            } else {
                self
            },
        }
    }

    /// The ribbon that `End` hands out: the stroke in progress with its last
    /// quad, which tapers to the end point under no pressure.
    pub open spec fn closed_ribbon(self, pos: Point) -> Seq<Edge> {
        let stroke = self.stroke->0;
        if fits(stroke.edges) {
            extended(stroke.edges, self.next_quad(pos, 0))
        } else {
            stroke.edges
        }
    }

    /// The state after `End`.
    pub open spec fn after_end(self, pos: Point) -> PipelineView {
        match self.stroke {
            None => self.after_misuse(),
            Some(stroke) => PipelineView {
                pending: if fits(stroke.edges) {
                    with_quad(self.pending, self.next_quad(pos, 0))
                } else {
                    self.pending
                },
                stroke: None,
                ..self
            },
        }
    }

    /// The state after a message.
    pub open spec fn after(self, msg: PathMsg) -> PipelineView {
        match msg {
            PathMsg::Start(pos, pressure) => self.after_start(pos, pressure),
            PathMsg::Move(pos, pressure) => self.after_move(pos, pressure),
            PathMsg::End(pos) => self.after_end(pos),
        }
    }

    /// What a message does.
    pub open spec fn outcome(self, msg: PathMsg) -> OutcomeView {
        match msg {
            PathMsg::Start(pos, pressure) => if pressure < PRESSURE_EPSILON {
                OutcomeView::Ignored
            } else {
                OutcomeView::Started
            },
            PathMsg::Move(pos, pressure) => match self.stroke {
                None => OutcomeView::Dropped,
                Some(stroke) => if !self.accepts(pos) {
                    OutcomeView::Absorbed
                } else if !fits(stroke.edges) {
                    OutcomeView::Full
                } else {
                    OutcomeView::Extended
                },
            },
            PathMsg::End(pos) => match self.stroke {
                None => OutcomeView::Dropped,
                Some(stroke) => OutcomeView::Ended(self.closed_ribbon(pos)),
            },
        }
    }

    /// The state after a mesh was merged in: the mesh is the newest of the
    /// finalized ones, and nothing is pending.
    pub open spec fn after_commit(self, mesh: MeshView) -> PipelineView {
        PipelineView { finalized: self.finalized.push(mesh), pending: None, ..self }
    }

    /// The meshes that a frame shows: the finalized ones, then the pending.
    pub open spec fn draw_list(self) -> Seq<MeshView> {
        match self.pending {
            Some(quads) => self.finalized + quads,
            None => self.finalized,
        }
    }
}

/// The views of a list of meshes.
pub open spec fn mesh_views(meshes: Seq<Mesh>) -> Seq<MeshView> {
    Seq::new(meshes.len(), |i: int| meshes[i]@)
}

proof fn lemma_mesh_views_push(meshes: Seq<Mesh>, mesh: Mesh)
    ensures
        mesh_views(meshes.push(mesh)) == mesh_views(meshes).push(mesh@),
{
    assert(mesh_views(meshes.push(mesh)) =~= mesh_views(meshes).push(mesh@));
}

/// The stroke that is being drawn.
#[derive(Debug)]
struct ActiveStroke {
    buffer: StrokeBuffer,
    last: Sample,
    prior: Option<Sample>,
}

impl View for ActiveStroke {
    type V = StrokeView;

    closed spec fn view(&self) -> StrokeView {
        StrokeView { edges: self.buffer@, last: self.last, prior: self.prior }
    }
}

/// The pipeline of one drawing surface.
#[derive(Debug)]
pub struct StrokePipeline {
    config: Config,
    finalized: Vec<Mesh>,
    pending: Option<Vec<Mesh>>,
    stroke: Option<ActiveStroke>,
    dropped: u64,
}

impl View for StrokePipeline {
    type V = PipelineView;

    closed spec fn view(&self) -> PipelineView {
        PipelineView {
            config: self.config,
            finalized: mesh_views(self.finalized@),
            pending: match self.pending {
                Some(quads) => Some(mesh_views(quads@)),
                None => None,
            },
            stroke: match self.stroke {
                Some(stroke) => Some(stroke@),
                None => None,
            },
            dropped: self.dropped,
        }
    }
}

impl Default for StrokePipeline {
    fn default() -> (pipeline: StrokePipeline)
        ensures
            pipeline@ == PipelineView::fresh(Config::standard()),
    {
        StrokePipeline::new()
    }
}

impl StrokePipeline {
    /// A pipeline with the standard options.
    pub fn new() -> (pipeline: StrokePipeline)
        ensures
            pipeline@ == PipelineView::fresh(Config::standard()),
    {
        StrokePipeline::with_config(Config::default())
    }

    /// A pipeline with the given options.
    pub fn with_config(config: Config) -> (pipeline: StrokePipeline)
        ensures
            pipeline@ == PipelineView::fresh(config),
    {
        let pipeline = StrokePipeline {
            config,
            finalized: Vec::new(),
            pending: None,
            stroke: None,
            dropped: 0,
        };
        assert(pipeline@.finalized =~= Seq::empty());
        pipeline
    }

    /// The only way to change what the pipeline draws from the input side.
    /// `Start` opens a stroke, or is passed over where its pressure is below
    /// `PRESSURE_EPSILON`. `Move` adds a quad, unless it is too short or the
    /// buffer is full. `End` adds the last quad and hands the ribbon out.
    /// `Move` and `End` without a stroke in progress are counted and dropped.
    pub fn message(&mut self, msg: PathMsg) -> (outcome: Outcome)
        ensures
            final(self)@ == old(self)@.after(msg),
            outcome@ == old(self)@.outcome(msg),
    {
        match msg {
            PathMsg::Start(pos, pressure) => self.start(pos, pressure),
            PathMsg::Move(pos, pressure) => self.extend(pos, pressure),
            PathMsg::End(pos) => self.end(pos),
        }
    }

    fn start(&mut self, pos: Point, pressure: u32) -> (outcome: Outcome)
        ensures
            final(self)@ == old(self)@.after_start(pos, pressure),
            outcome@ == old(self)@.outcome(PathMsg::Start(pos, pressure)),
    {
        if pressure < PRESSURE_EPSILON {
            return Outcome::Ignored;
        }
        self.pending = None;
        self.stroke = Some(
            ActiveStroke { buffer: StrokeBuffer::new(), last: Sample { pos, pressure }, prior: None },
        );
        Outcome::Started
    }

    fn extend(&mut self, pos: Point, pressure: u32) -> (outcome: Outcome)
        ensures
            final(self)@ == old(self)@.after_move(pos, pressure),
            outcome@ == old(self)@.outcome(PathMsg::Move(pos, pressure)),
    {
        let taken: Option<ActiveStroke> = self.stroke.take();
        match taken {
            None => {
                self.count_misuse();
                Outcome::Dropped
            },
            Some(stroke) => {
                let mut stroke = stroke;
                if !far_enough(stroke.last.pos, pos, self.config.min_segment_length) {
                    self.stroke = Some(stroke);
                    return Outcome::Absorbed;
                }
                let first: bool = stroke.buffer.is_empty();
                let needed: usize = if first {
                    2
                } else {
                    1
                };
                if stroke.buffer.room() < needed {
                    self.stroke = Some(stroke);
                    return Outcome::Full;
                }
                let next = Sample { pos, pressure };
                let quad: Quad = quad_for(&self.config, stroke.prior, stroke.last, next);
                if first {
                    stroke.buffer.push_verts(
                        quad.trailing.left,
                        quad.trailing.right,
                        quad.trailing.color,
                    );
                }
                stroke.buffer.push_verts(quad.leading.left, quad.leading.right, quad.leading.color);
                self.gen_quad(&quad);
                stroke.prior = Some(stroke.last);
                stroke.last = next;
                proof {
                    assert(stroke.buffer@ =~= extended(old(self)@.stroke->0.edges, quad));
                }
                self.stroke = Some(stroke);
                Outcome::Extended
            },
        }
    }

    fn end(&mut self, pos: Point) -> (outcome: Outcome)
        ensures
            final(self)@ == old(self)@.after_end(pos),
            outcome@ == old(self)@.outcome(PathMsg::End(pos)),
    {
        let taken: Option<ActiveStroke> = self.stroke.take();
        match taken {
            None => {
                self.count_misuse();
                Outcome::Dropped
            },
            Some(stroke) => {
                let mut buffer: StrokeBuffer = stroke.buffer;
                let first: bool = buffer.is_empty();
                let needed: usize = if first {
                    2
                } else {
                    1
                };
                if buffer.room() >= needed {
                    let next = Sample { pos, pressure: 0 };
                    let quad: Quad = quad_for(&self.config, stroke.prior, stroke.last, next);
                    if first {
                        buffer.push_verts(
                            quad.trailing.left,
                            quad.trailing.right,
                            quad.trailing.color,
                        );
                    }
                    buffer.push_verts(quad.leading.left, quad.leading.right, quad.leading.color);
                    self.gen_quad(&quad);
                    proof {
                        assert(buffer@ =~= extended(old(self)@.stroke->0.edges, quad));
                    }
                }
                Outcome::Ended(buffer)
            },
        }
    }

    /// Counts a message that came while no stroke was in progress.
    fn count_misuse(&mut self)
        ensures
            final(self)@ == old(self)@.after_misuse(),
    {
        if self.dropped < u64::MAX {
            self.dropped = self.dropped + 1;
        }
    }

    /// Adds the mesh of one quad to the pending batch.
    fn gen_quad(&mut self, quad: &Quad)
        ensures
            final(self)@ == (PipelineView {
                pending: with_quad(old(self)@.pending, *quad),
                ..old(self)@
            }),
    {
        let mesh: Mesh = Mesh::from_quad(quad);
        let taken: Option<Vec<Mesh>> = self.pending.take();
        let mut quads: Vec<Mesh> = match taken {
            Some(quads) => quads,
            None => Vec::new(),
        };
        proof {
            lemma_mesh_views_push(quads@, mesh);
            if taken is None {
                assert(mesh_views(quads@) =~= Seq::empty());
                assert(Seq::<MeshView>::empty().push(mesh@) =~= seq![mesh@]);
            }
        }
        quads.push(mesh);
        self.pending = Some(quads);
    }

    /// Merges a closed stroke: builds one mesh from the quads of its ribbon,
    /// appends it to the finalized meshes and clears the pending batch.
    pub fn finalize_stroke(&mut self, stroke: StrokeBuffer)
        ensures
            final(self)@ == old(self)@.after_commit(merged_mesh(stroke@)),
    {
        let mesh: Mesh = Mesh::from_strip(&stroke);
        self.commit(mesh);
    }

    /// Appends a mesh that was built from a closed stroke to the finalized
    /// meshes and clears the pending batch.
    pub fn commit(&mut self, mesh: Mesh)
        ensures
            final(self)@ == old(self)@.after_commit(mesh@),
    {
        proof {
            lemma_mesh_views_push(self.finalized@, mesh);
        }
        self.finalized.push(mesh);
        self.pending = None;
    }

    /// The draw primitives of one frame: one for each finalized mesh, oldest
    /// first, then one for each pending quad, each laid on by `Modulate`.
    pub fn draw(&self) -> (calls: Vec<DrawCall<'_>>)
        ensures
            primitives(calls@) == modulated(self@.draw_list()),
    {
        let mut calls: Vec<DrawCall<'_>> = Vec::new();
        let mut i: usize = 0;
        while i < self.finalized.len()
            invariant
                i <= self.finalized.len(),
                calls@.len() == i,
                forall|k: int|
                    0 <= k < i ==> (#[trigger] calls@[k]).mesh@ == self.finalized@[k]@
                        && calls@[k].blend == BlendMode::Modulate,
            decreases self.finalized.len() - i,
        {
            calls.push(DrawCall { mesh: &self.finalized[i], blend: BlendMode::Modulate });
            i = i + 1;
        }
        match &self.pending {
            None => {},
            Some(quads) => {
                let mut j: usize = 0;
                while j < quads.len()
                    invariant
                        j <= quads.len(),
                        i == self.finalized.len(),
                        calls@.len() == i + j,
                        forall|k: int|
                            0 <= k < i ==> (#[trigger] calls@[k]).mesh@ == self.finalized@[k]@
                                && calls@[k].blend == BlendMode::Modulate,
                        forall|k: int|
                            0 <= k < j ==> (#[trigger] calls@[i + k]).mesh@ == quads@[k]@
                                && calls@[i + k].blend == BlendMode::Modulate,
                    decreases quads.len() - j,
                {
                    let ghost before = calls@;
                    calls.push(DrawCall { mesh: &quads[j], blend: BlendMode::Modulate });
                    proof {
                        assert forall|k: int| 0 <= k < j + 1 implies (#[trigger] calls@[i + k]).mesh@
                            == quads@[k]@ && calls@[i + k].blend == BlendMode::Modulate by {
                            if k < j {
                                assert(calls@[i + k] == before[i + k]);
                            }
                        }
                    }
                    j = j + 1;
                }
                proof {
                    assert forall|k: int| 0 <= k < calls@.len() implies primitives(calls@)[k]
                        == modulated(self@.draw_list())[k] by {
                        if k >= i {
                            assert(calls@[i + (k - i)].mesh@ == quads@[k - i]@);
                        }
                    }
                }
            },
        }
        proof {
            assert(primitives(calls@) =~= modulated(self@.draw_list()));
        }
        calls
    }

    /// Where the pipeline stands in the life of a stroke.
    pub fn phase(&self) -> (phase: Phase)
        ensures
            phase == self@.phase(),
    {
        if self.stroke.is_some() {
            Phase::InProgress
        } else if self.pending.is_some() {
            Phase::Finalizing
        } else {
            Phase::Idle
        }
    }

    /// The options that the pipeline works with.
    pub fn config(&self) -> (config: Config)
        ensures
            config == self@.config,
    {
        self.config
    }

    /// Changes the options. Quads that were made keep their shape; those
    /// that follow are made with the new options.
    pub fn set_config(&mut self, config: Config)
        ensures
            final(self)@ == (PipelineView { config, ..old(self)@ }),
    {
        self.config = config;
    }

    /// The meshes of the strokes that were merged, oldest first.
    pub fn finalized(&self) -> (meshes: &Vec<Mesh>)
        ensures
            mesh_views(meshes@) == self@.finalized,
    {
        &self.finalized
    }

    /// The quads of the newest stroke, as long as it is not merged.
    pub fn pending(&self) -> (quads: Option<&Vec<Mesh>>)
        ensures
            quads is Some == self@.pending is Some,
            quads matches Some(q) ==> mesh_views(q@) == self@.pending->0,
    {
        self.pending.as_ref()
    }

    /// The ribbon of the stroke in progress.
    pub fn in_progress(&self) -> (buffer: Option<&StrokeBuffer>)
        ensures
            buffer is Some == self@.stroke is Some,
            buffer matches Some(b) ==> b@ == self@.stroke->0.edges,
    {
        match &self.stroke {
            Some(stroke) => Some(&stroke.buffer),
            None => None,
        }
    }

    /// The last accepted sample of the stroke in progress.
    pub fn last_sample(&self) -> (sample: Option<Sample>)
        ensures
            sample == self@.last_sample(),
    {
        match &self.stroke {
            Some(stroke) => Some(stroke.last),
            None => None,
        }
    }

    /// The accepted sample before the last.
    pub fn prior_sample(&self) -> (sample: Option<Sample>)
        ensures
            sample == self@.prior_sample(),
    {
        match &self.stroke {
            Some(stroke) => stroke.prior,
            None => None,
        }
    }

    /// How many messages were dropped because no stroke was in progress.
    pub fn dropped(&self) -> (count: u64)
        ensures
            count == self@.dropped,
    {
        self.dropped
    }
}

} // verus!
