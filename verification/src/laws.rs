//! What holds of every pipeline, stated over the functions that the
//! contracts of `message`, `finalize_stroke`, `commit` and `draw` use.

use vstd::prelude::*;
use crate::buffer::{strip_colors, strip_vertices, MAX_EDGES};
use crate::config::Config;
use crate::geometry::{distance_squared, Point};
use crate::mesh::{merged_mesh, quad_mesh, quads_in, ribbon_quad, MeshView};
use crate::pipeline::{
    extended, fits, modulated, primitives, with_quad, DrawCall, OutcomeView, Phase, PipelineView,
};
use crate::sample::{PathMsg, Sample, PRESSURE_EPSILON};
use crate::tessellate::{ribbon_edge, segment_quad, Edge};

verus! {

/// One thing that can happen to a pipeline.
pub enum Step {
    /// A message arrives.
    Message(PathMsg),
    /// The mesh of a closed stroke is merged in.
    Commit(MeshView),
}

/// The state after one step.
pub open spec fn apply(state: PipelineView, step: Step) -> PipelineView {
    match step {
        Step::Message(msg) => state.after(msg),
        Step::Commit(mesh) => state.after_commit(mesh),
    }
}

/// The state after a sequence of steps, taken in order.
pub open spec fn run(state: PipelineView, steps: Seq<Step>) -> PipelineView
    decreases steps.len(),
{
    if steps.len() == 0 {
        state
    } else {
        apply(run(state, steps.drop_last()), steps.last())
    }
}

/// The state after a sequence of moves, each to a position with a pressure.
pub open spec fn after_moves(state: PipelineView, moves: Seq<(Point, u32)>) -> PipelineView
    decreases moves.len(),
{
    if moves.len() == 0 {
        state
    } else {
        after_moves(state, moves.drop_last()).after_move(moves.last().0, moves.last().1)
    }
}

/// Each move ends at least `min` away from where the one before it ended,
/// the first at least `min` away from `start`.
pub open spec fn spaced(start: Point, moves: Seq<(Point, u32)>, min: int) -> bool {
    forall|i: int|
        0 <= i < moves.len() ==> distance_squared(
            if i == 0 {
                start
            } else {
                moves[i - 1].0
            },
            #[trigger] moves[i].0,
        ) >= min * min
}

/// The number of edges in the ribbon after `n` accepted moves: none before
/// the first, which brings two, and one more with each move after it.
pub open spec fn edges_after(n: nat) -> nat {
    if n == 0 {
        0
    } else {
        n + 1
    }
}

/// After a start and `n` moves that are far enough apart, the stroke holds
/// `edges_after(n)` edges, its last sample is where the last move ended, and
/// the finalized meshes are as they were.
proof fn lemma_moves_extend(
    state: PipelineView,
    start: Point,
    pressure: u32,
    moves: Seq<(Point, u32)>,
)
    requires
        pressure >= PRESSURE_EPSILON,
        spaced(start, moves, state.config.min_segment_length as int),
        moves.len() + 2 <= MAX_EDGES,
    ensures
        ({
            let drawn = after_moves(state.after_start(start, pressure), moves);
            &&& drawn.stroke is Some
            &&& drawn.stroke->0.edges.len() == edges_after(moves.len())
            &&& drawn.stroke->0.last.pos == if moves.len() == 0 {
                start
            } else {
                moves.last().0
            }
            &&& drawn.finalized == state.finalized
            &&& drawn.config == state.config
            &&& drawn.dropped == state.dropped
        }),
    decreases moves.len(),
{
    if moves.len() > 0 {
        let shorter = moves.drop_last();
        assert(spaced(start, shorter, state.config.min_segment_length as int)) by {
            assert forall|i: int| 0 <= i < shorter.len() implies distance_squared(
                if i == 0 {
                    start
                } else {
                    shorter[i - 1].0
                },
                #[trigger] shorter[i].0,
            ) >= state.config.min_segment_length * state.config.min_segment_length by {
                assert(shorter[i] == moves[i]);
                if i > 0 {
                    assert(shorter[i - 1] == moves[i - 1]);
                }
            }
        }
        lemma_moves_extend(state, start, pressure, shorter);
        let before = after_moves(state.after_start(start, pressure), shorter);
        let i = moves.len() - 1;
        assert(moves[i].0 == moves.last().0);
        if i > 0 {
            assert(shorter.last() == moves[i - 1]);
        }
        assert(before.accepts(moves.last().0));
        assert(fits(before.stroke->0.edges));
    }
}

/// A stroke of a start, `n` moves that are each at least the shortest
/// segment length away from the sample before, and an end hands out a
/// ribbon of `2 * (n + 2)` vertices with as many colours. Merging that
/// ribbon adds exactly one mesh to the finalized ones: its `n + 1` quads,
/// of four vertices each. The stroke must fit its buffer.
pub proof fn law_stroke_yields_one_mesh(
    state: PipelineView,
    start: Point,
    pressure: u32,
    moves: Seq<(Point, u32)>,
    end: Point,
)
    requires
        pressure >= PRESSURE_EPSILON,
        spaced(start, moves, state.config.min_segment_length as int),
        moves.len() + 2 <= MAX_EDGES,
    ensures
        ({
            let drawn = after_moves(state.after(PathMsg::Start(start, pressure)), moves);
            let ribbon = drawn.closed_ribbon(end);
            let merged = drawn.after(PathMsg::End(end)).after_commit(merged_mesh(ribbon));
            &&& drawn.outcome(PathMsg::End(end)) == OutcomeView::Ended(ribbon)
            &&& strip_vertices(ribbon).len() == 2 * (moves.len() + 2)
            &&& strip_colors(ribbon).len() == 2 * (moves.len() + 2)
            &&& merged_mesh(ribbon).vertices.len() == 4 * (moves.len() + 1)
            &&& merged_mesh(ribbon).colors.len() == 4 * (moves.len() + 1)
            &&& merged.finalized == state.finalized.push(merged_mesh(ribbon))
            &&& merged.finalized.len() == state.finalized.len() + 1
            &&& merged.pending is None
            &&& merged.stroke is None
        }),
{
    lemma_moves_extend(state, start, pressure, moves);
}

/// The life of a stroke. A start with pressure puts the pipeline in
/// progress, whatever it was doing. Moves keep it there. An end that adds
/// its quad leaves it finalizing, with the stroke's quads pending, and the
/// merge of the stroke brings it back to idle.
pub proof fn law_stroke_life_cycle(
    state: PipelineView,
    start: Point,
    pressure: u32,
    moves: Seq<(Point, u32)>,
    end: Point,
    mesh: MeshView,
)
    requires
        pressure >= PRESSURE_EPSILON,
        moves.len() + 2 <= MAX_EDGES,
    ensures
        ({
            let started = state.after(PathMsg::Start(start, pressure));
            let drawn = after_moves(started, moves);
            let closed = drawn.after(PathMsg::End(end));
            &&& started.phase() == Phase::InProgress
            &&& drawn.phase() == Phase::InProgress
            &&& closed.phase() == Phase::Finalizing
            &&& closed.after_commit(mesh).phase() == Phase::Idle
        }),
{
    lemma_moves_keep_step(state, start, pressure, moves);
    let drawn = after_moves(state.after_start(start, pressure), moves);
    assert(fits(drawn.stroke->0.edges));
}

/// A move that ends closer to the last accepted sample than the shortest
/// segment length changes nothing: no vertex is added, and the sample that
/// the next move is measured from stays the one it was.
pub proof fn law_short_move_is_absorbed(state: PipelineView, pos: Point, pressure: u32)
    requires
        state.stroke is Some,
        distance_squared(state.stroke->0.last.pos, pos) < state.config.min_segment_length
            * state.config.min_segment_length,
    ensures
        state.after(PathMsg::Move(pos, pressure)) == state,
        state.outcome(PathMsg::Move(pos, pressure)) == OutcomeView::Absorbed,
        forall|next: Point|
            state.after(PathMsg::Move(pos, pressure)).accepts(next) == state.accepts(next),
{
}

/// A move or an end that comes while no stroke is in progress leaves the
/// finalized meshes, the pending batch and the stroke as they were. Only
/// the count of dropped messages goes up, by one, until it can go no higher.
pub proof fn law_misuse_changes_nothing(state: PipelineView, msg: PathMsg)
    requires
        state.stroke is None,
        msg is Move || msg is End,
    ensures
        state.outcome(msg) == OutcomeView::Dropped,
        state.after(msg).finalized == state.finalized,
        state.after(msg).pending == state.pending,
        state.after(msg).stroke == state.stroke,
        state.after(msg).in_progress() == state.in_progress(),
        state.after(msg).config == state.config,
        state.dropped < u64::MAX ==> state.after(msg).dropped == state.dropped + 1,
        state.dropped == u64::MAX ==> state.after(msg).dropped == state.dropped,
{
}

/// Whatever happens to a pipeline, in whatever order, the finalized meshes
/// only grow at the end: there are never fewer than before, and each mesh
/// that was there stays at its place, unchanged.
pub proof fn law_finalized_only_grows(state: PipelineView, steps: Seq<Step>)
    ensures
        run(state, steps).finalized.len() >= state.finalized.len(),
        forall|i: int|
            0 <= i < state.finalized.len() ==> run(state, steps).finalized[i]
                == #[trigger] state.finalized[i],
        state.finalized.is_prefix_of(run(state, steps).finalized),
    decreases steps.len(),
{
    if steps.len() > 0 {
        law_finalized_only_grows(state, steps.drop_last());
    }
}

/// Each merge adds exactly one mesh: after a sequence of steps the finalized
/// meshes are as many more as there were merges among the steps.
pub proof fn law_one_mesh_per_commit(state: PipelineView, steps: Seq<Step>)
    ensures
        run(state, steps).finalized.len() == state.finalized.len() + steps.filter(
            |step: Step| step is Commit,
        ).len(),
    decreases steps.len(),
{
    let is_commit = |step: Step| step is Commit;
    if steps.len() == 0 {
        assert(steps.filter(is_commit) =~= Seq::empty()) by {
            reveal(Seq::filter);
        }
    } else {
        law_one_mesh_per_commit(state, steps.drop_last());
        assert(steps.filter(is_commit) == if is_commit(steps.last()) {
            steps.drop_last().filter(is_commit).push(steps.last())
        } else {
            steps.drop_last().filter(is_commit)
        }) by {
            reveal(Seq::filter);
        }
    }
}

/// The quads of a ribbon, each as a mesh of its own: what is pending while
/// the ribbon grows. A ribbon without edges has no pending batch.
pub open spec fn ribbon_quads(edges: Seq<Edge>) -> Option<Seq<MeshView>> {
    if edges.len() == 0 {
        None
    } else {
        Some(Seq::new(quads_in(edges), |i: int| quad_mesh(ribbon_quad(edges, i))))
    }
}

/// A stroke is in progress, the pending batch holds exactly the quads of
/// its ribbon, and the last edge of the ribbon stands at the last sample,
/// across the last segment.
pub open spec fn pending_follows_ribbon(state: PipelineView) -> bool {
    &&& state.stroke matches Some(stroke)
    &&& state.pending == ribbon_quads(stroke.edges)
    &&& stroke.edges.len() != 1
    &&& stroke.edges.len() == 0 <==> stroke.prior is None
    &&& stroke.prior matches Some(prior) ==> stroke.edges.last() == ribbon_edge(
        state.config,
        prior.pos,
        stroke.last.pos,
        stroke.last,
    )
}

/// One more quad keeps the pending batch in step with the ribbon.
proof fn lemma_quad_keeps_step(state: PipelineView, pos: Point, pressure: u32)
    requires
        pending_follows_ribbon(state),
    ensures
        ({
            let quad = state.next_quad(pos, pressure);
            let longer = extended(state.stroke->0.edges, quad);
            &&& with_quad(state.pending, quad) == ribbon_quads(longer)
            &&& longer.len() >= 2
            &&& longer.last() == quad.leading
        }),
{
    let stroke = state.stroke->0;
    let quad = state.next_quad(pos, pressure);
    let longer = extended(stroke.edges, quad);
    let batch = with_quad(state.pending, quad)->0;
    let quads = ribbon_quads(longer)->0;
    assert(batch.len() == quads.len());
    assert forall|i: int| 0 <= i < batch.len() implies batch[i] == quads[i] by {
        if stroke.edges.len() > 0 {
            if i < batch.len() - 1 {
                assert(ribbon_quad(longer, i) == ribbon_quad(stroke.edges, i));
            } else {
                assert(ribbon_quad(longer, i) == quad);
            }
        } else {
            assert(ribbon_quad(longer, i) == quad);
        }
    }
    assert(batch =~= quads);
}

/// After a start and any moves, accepted or not, the pending batch holds
/// exactly the quads of the ribbon.
proof fn lemma_moves_keep_step(
    state: PipelineView,
    start: Point,
    pressure: u32,
    moves: Seq<(Point, u32)>,
)
    requires
        pressure >= PRESSURE_EPSILON,
    ensures
        ({
            let drawn = after_moves(state.after_start(start, pressure), moves);
            &&& pending_follows_ribbon(drawn)
            &&& drawn.stroke->0.edges.len() <= moves.len() + 1
            &&& drawn.config == state.config
            &&& drawn.finalized == state.finalized
        }),
    decreases moves.len(),
{
    if moves.len() > 0 {
        lemma_moves_keep_step(state, start, pressure, moves.drop_last());
        let before = after_moves(state.after_start(start, pressure), moves.drop_last());
        lemma_quad_keeps_step(before, moves.last().0, moves.last().1);
    }
}

/// What is merged is what was pending. From its start to its end the
/// pending batch of a stroke holds exactly the quads of its ribbon, and the
/// mesh that the ribbon is merged into is these quads laid end to end: the
/// vertex and colour at `i` of the mesh are those at `i % 4` of the pending
/// quad `i / 4`. The stroke must fit its buffer.
pub proof fn law_merged_mesh_is_the_pending_batch(
    state: PipelineView,
    start: Point,
    pressure: u32,
    moves: Seq<(Point, u32)>,
    end: Point,
)
    requires
        pressure >= PRESSURE_EPSILON,
        moves.len() + 2 <= MAX_EDGES,
    ensures
        ({
            let drawn = after_moves(state.after(PathMsg::Start(start, pressure)), moves);
            let ribbon = drawn.closed_ribbon(end);
            let closed = drawn.after(PathMsg::End(end));
            let mesh = merged_mesh(ribbon);
            &&& drawn.stroke is Some
            &&& drawn.pending == ribbon_quads(drawn.stroke->0.edges)
            &&& closed.pending == ribbon_quads(ribbon)
            &&& closed.pending matches Some(batch) && mesh.vertices.len() == 4 * batch.len()
                && mesh.colors.len() == 4 * batch.len() && forall|i: int|
                0 <= i < 4 * batch.len() ==> mesh.vertices[i] == (#[trigger] batch[i / 4]).vertices[i
                    % 4] && mesh.colors[i] == batch[i / 4].colors[i % 4]
        }),
{
    lemma_moves_keep_step(state, start, pressure, moves);
    let drawn = after_moves(state.after_start(start, pressure), moves);
    assert(fits(drawn.stroke->0.edges));
    lemma_quad_keeps_step(drawn, end, 0);
}

/// Two frames drawn from one state issue the same draw primitives, in the
/// same order.
pub proof fn law_draw_repeats(state: PipelineView, first: Seq<DrawCall>, second: Seq<DrawCall>)
    requires
        primitives(first) == modulated(state.draw_list()),
        primitives(second) == modulated(state.draw_list()),
    ensures
        primitives(first) == primitives(second),
        first.len() == second.len(),
        forall|i: int|
            0 <= i < first.len() ==> (#[trigger] first[i]).mesh@ == second[i].mesh@ && first[i].blend
                == second[i].blend,
{
    assert(first.len() == primitives(first).len());
    assert(second.len() == primitives(second).len());
    assert forall|i: int| 0 <= i < first.len() implies (#[trigger] first[i]).mesh@
        == second[i].mesh@ && first[i].blend == second[i].blend by {
        assert(primitives(first)[i] == primitives(second)[i]);
    }
}

/// Neighbouring quads of a stroke share an edge: the trailing edge of a
/// quad is the leading edge of the quad before it.
pub proof fn law_quads_share_edges(
    config: Config,
    prior: Option<Sample>,
    last: Sample,
    next: Sample,
    after: Sample,
)
    ensures
        segment_quad(config, Some(last), next, after).trailing == segment_quad(
            config,
            prior,
            last,
            next,
        ).leading,
{
}

/// A quad extends a ribbon by two vertices, and the first quad of a stroke
/// by four.
pub proof fn law_quad_adds_vertices(
    edges: Seq<Edge>,
    config: Config,
    prior: Option<Sample>,
    last: Sample,
    next: Sample,
)
    ensures
        ({
            let longer = extended(edges, segment_quad(config, prior, last, next));
            strip_vertices(longer).len() == strip_vertices(edges).len() + if edges.len() == 0 {
                4int
            } else {
                2int
            }
        }),
{
}

} // verus!
