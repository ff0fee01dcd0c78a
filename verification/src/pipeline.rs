//! The single writer: what one inbound frame and one checkpoint tick do to
//! the state, what is broadcast, and why a client that starts from the cached
//! frames and follows the broadcast arrives at the canvas.

use vstd::prelude::*;
use crate::canvas::{
    lemma_apply_edit_rectangular, lemma_replay_concat, lemma_replay_push, spec_apply_edit,
    spec_in_bounds, spec_rectangular, spec_replay,
};
use crate::frames::{
    decode_pixel_frame, lemma_delta_frame_round_trip, lemma_grid_frame_round_trip,
    spec_decode_delta_frame, spec_decode_grid_frame, spec_decode_pixel_frame, spec_delta_frame,
    spec_delta_frame_encodable, spec_grid_frame_encodable,
};
use crate::laws::lemma_delta_round_trip;
use crate::place::{spec_checkpoint, State, StateView};
use crate::records::{Color, DecodeError, Pixel};

verus! {

/// Number of inbound frames that may wait for the single writer.
pub const QUEUE_CAPACITY: usize = 16;

/// Number of broadcast frames that are kept for a slow subscriber.
pub const BROADCAST_CAPACITY: usize = 16;

/// Milliseconds between two checkpoints, unless configured otherwise.
pub const CHECKPOINT_INTERVAL_MILLIS: u64 = 5000;

/// What became of an inbound frame.
#[derive(Debug, PartialEq, Eq)]
pub enum EditOutcome {
    /// The edit was applied and logged: these bytes, the inbound frame as it
    /// came, go out to every subscriber.
    Broadcast(Vec<u8>),
    /// The frame named a cell outside the canvas: nothing was changed, logged
    /// or broadcast.
    OutOfBounds(Pixel),
    /// The frame was not a whole pixel frame of this protocol version:
    /// nothing was changed, logged or broadcast.
    Rejected(DecodeError),
}

/// What arrives at the single writer.
pub enum PipelineEvent {
    /// A frame that a client sent.
    Inbound(Seq<u8>),
    /// The checkpoint timer fired.
    Tick,
}

/// The edit that the single writer applies for `frame` on the canvas `cells`:
/// the one the frame carries, if it is a pixel frame and names a cell of the
/// canvas.
pub open spec fn spec_accepted(cells: Seq<Seq<Color>>, frame: Seq<u8>) -> Option<Pixel> {
    match spec_decode_pixel_frame(frame) {
        Ok(edit) => if spec_in_bounds(cells, edit) {
            Some(edit)
        } else {
            None
        },
        Err(_) => None,
    }
}

/// The state after the single writer handled the inbound `frame`: an accepted
/// edit is in its cell and at the end of the delta log; any other frame
/// leaves the state as it was.
pub open spec fn spec_after_frame(v: StateView, frame: Seq<u8>) -> StateView {
    match spec_accepted(v.cells, frame) {
        Some(edit) => StateView {
            cells: spec_apply_edit(v.cells, edit),
            delta: v.delta.push(edit),
            ..v
        },
        None => v,
    }
}

/// The state after a checkpoint tick: checkpointed, unless the canvas does
/// not fit a frame.
pub open spec fn spec_after_tick(v: StateView) -> StateView {
    if spec_grid_frame_encodable(v.cells) {
        spec_checkpoint(v)
    } else {
        v
    }
}

/// The state after one event.
pub open spec fn spec_after(v: StateView, event: PipelineEvent) -> StateView {
    match event {
        PipelineEvent::Inbound(frame) => spec_after_frame(v, frame),
        PipelineEvent::Tick => spec_after_tick(v),
    }
}

/// The state after `events`, handled in order.
pub open spec fn spec_run(v: StateView, events: Seq<PipelineEvent>) -> StateView
    decreases events.len(),
{
    if events.len() == 0 {
        v
    } else {
        spec_run(spec_after(v, events[0]), events.skip(1))
    }
}

/// The frames that are broadcast while `events` are handled, in order: each
/// accepted inbound frame, as it came.
pub open spec fn spec_published(v: StateView, events: Seq<PipelineEvent>) -> Seq<Seq<u8>>
    decreases events.len(),
{
    if events.len() == 0 {
        Seq::empty()
    } else {
        let rest = spec_published(spec_after(v, events[0]), events.skip(1));
        match events[0] {
            PipelineEvent::Inbound(frame) => if spec_accepted(v.cells, frame).is_some() {
                seq![frame] + rest
            } else {
                rest
            },
            PipelineEvent::Tick => rest,
        }
    }
}

/// The edits that a client reads out of the live `frames`, in order; a frame
/// that is no pixel frame gives none.
pub open spec fn spec_edits_of(frames: Seq<Seq<u8>>) -> Seq<Pixel>
    decreases frames.len(),
{
    if frames.len() == 0 {
        Seq::empty()
    } else {
        let rest = spec_edits_of(frames.skip(1));
        match spec_decode_pixel_frame(frames[0]) {
            Ok(edit) => seq![edit] + rest,
            Err(_) => rest,
        }
    }
}

/// The canvas of a client that was greeted with `grid_frame` and
/// `delta_frame` and then received the frames of `live`: the grid of the
/// first, then the edits of the second in order, then the edits of `live` in
/// order. There is none if a greeting frame cannot be read.
pub open spec fn spec_client_canvas(
    grid_frame: Seq<u8>,
    delta_frame: Seq<u8>,
    live: Seq<Seq<u8>>,
) -> Option<Seq<Seq<Color>>> {
    match (spec_decode_grid_frame(grid_frame), spec_decode_delta_frame(delta_frame)) {
        (Ok(cells), Ok(edits)) => Some(spec_replay(cells, edits + spec_edits_of(live))),
        _ => None,
    }
}

/// Whether the cached frames alone give a client the canvas as it is.
pub open spec fn spec_snapshot_current(v: StateView) -> bool {
    spec_client_canvas(v.grid_frame, v.delta_frame, Seq::empty()) == Some(v.cells)
}

/// Whether the delta log holds every edit since the cached full-grid frame
/// was made: the grid of that frame, with the log applied in order, is the
/// canvas as it is.
pub open spec fn spec_log_complete(v: StateView) -> bool {
    match spec_decode_grid_frame(v.grid_frame) {
        Ok(cells) => spec_replay(cells, v.delta) == v.cells,
        Err(_) => false,
    }
}

/// Whether every edit of `edits` names a cell of a canvas of the given size.
pub open spec fn spec_all_in_bounds(edits: Seq<Pixel>, width: nat, height: nat) -> bool {
    forall|i: int| 0 <= i < edits.len() ==> (#[trigger] edits[i]).x < width && edits[i].y < height
}

/// Handles one inbound frame as the single writer does: reads it as a pixel
/// frame, writes the edit into its cell, appends it to the delta log, and
/// hands the frame back for the broadcast. A frame that cannot be read, and
/// an edit outside the canvas, change nothing.
pub fn apply_frame(state: &mut State, frame: Vec<u8>) -> (outcome: EditOutcome)
    requires
        old(state).well_formed(),
    ensures
        final(state).well_formed(),
        final(state)@ == spec_after_frame(old(state)@, frame@),
        match outcome {
            EditOutcome::Broadcast(bytes) => bytes == frame && spec_accepted(
                old(state)@.cells,
                frame@,
            ).is_some(),
            EditOutcome::OutOfBounds(edit) => spec_decode_pixel_frame(frame@) == Ok::<
                Pixel,
                DecodeError,
            >(edit) && !spec_in_bounds(old(state)@.cells, edit),
            EditOutcome::Rejected(e) => spec_decode_pixel_frame(frame@) == Err::<
                Pixel,
                DecodeError,
            >(e),
        },
{
    match decode_pixel_frame(frame.as_slice()) {
        Err(e) => EditOutcome::Rejected(e),
        Ok(edit) => {
            if state.set_pixel(edit) {
                state.add_pixel_to_delta(edit);
                EditOutcome::Broadcast(frame)
            } else {
                EditOutcome::OutOfBounds(edit)
            }
        },
    }
}

/// A frame whose edit names a cell outside the canvas changes neither the
/// canvas nor the delta log, and is not broadcast.
pub proof fn lemma_out_of_bounds_frame_ignored(v: StateView, frame: Seq<u8>, edit: Pixel)
    requires
        spec_rectangular(v.cells, v.width, v.height),
        spec_decode_pixel_frame(frame) == Ok::<Pixel, DecodeError>(edit),
        edit.x >= v.width || edit.y >= v.height,
    ensures
        spec_after_frame(v, frame) == v,
        spec_published(v, seq![PipelineEvent::Inbound(frame)]) == Seq::<Seq<u8>>::empty(),
{
    let events = seq![PipelineEvent::Inbound(frame)];
    assert(spec_published(spec_after(v, events[0]), events.skip(1)) == Seq::<Seq<u8>>::empty());
}

/// Whatever arrives, the canvas keeps its size and its shape, and the delta
/// log only ever takes edits that name a cell of the canvas.
pub proof fn lemma_run_keeps_bounds(v: StateView, events: Seq<PipelineEvent>)
    requires
        spec_rectangular(v.cells, v.width, v.height),
        spec_all_in_bounds(v.delta, v.width, v.height),
    ensures
        spec_run(v, events).width == v.width,
        spec_run(v, events).height == v.height,
        spec_rectangular(spec_run(v, events).cells, v.width, v.height),
        spec_all_in_bounds(spec_run(v, events).delta, v.width, v.height),
    decreases events.len(),
{
    if events.len() > 0 {
        let next = spec_after(v, events[0]);
        match events[0] {
            PipelineEvent::Inbound(frame) => {
                if let Some(edit) = spec_accepted(v.cells, frame) {
                    lemma_apply_edit_rectangular(v.cells, v.width, v.height, edit);
                    assert(spec_all_in_bounds(next.delta, v.width, v.height)) by {
                        assert forall|i: int| 0 <= i < next.delta.len() implies (
                        #[trigger] next.delta[i]).x < v.width && next.delta[i].y < v.height by {
                            if i < v.delta.len() {
                                assert(next.delta[i] == v.delta[i]);
                            }
                        }
                    }
                }
            },
            PipelineEvent::Tick => {},
        }
        lemma_run_keeps_bounds(next, events.skip(1));
    }
}

/// Applying the edits of the broadcast, in order, to the canvas as it was
/// gives the canvas as it is after the events.
pub proof fn lemma_broadcast_replays_run(v: StateView, events: Seq<PipelineEvent>)
    ensures
        spec_replay(v.cells, spec_edits_of(spec_published(v, events))) == spec_run(v, events).cells,
    decreases events.len(),
{
    if events.len() > 0 {
        let next = spec_after(v, events[0]);
        let rest = spec_published(next, events.skip(1));
        lemma_broadcast_replays_run(next, events.skip(1));
        match events[0] {
            PipelineEvent::Inbound(frame) => {
                if let Some(edit) = spec_accepted(v.cells, frame) {
                    let out = seq![frame] + rest;
                    assert(out[0] == frame);
                    assert(out.skip(1) == rest);
                    let edits = seq![edit] + spec_edits_of(rest);
                    assert(spec_edits_of(out) == edits);
                    assert(edits[0] == edit);
                    assert(edits.skip(1) == spec_edits_of(rest));
                }
            },
            PipelineEvent::Tick => {},
        }
    }
}

/// Catch-up: a client that is greeted with the cached frames of a state
/// whose snapshot is current, and then applies every frame broadcast from
/// then on in order, holds the canvas as it is after those events, whichever
/// they are.
pub proof fn lemma_catch_up(v: StateView, events: Seq<PipelineEvent>)
    requires
        spec_snapshot_current(v),
    ensures
        spec_client_canvas(v.grid_frame, v.delta_frame, spec_published(v, events)) == Some(
            spec_run(v, events).cells,
        ),
{
    let live = spec_edits_of(spec_published(v, events));
    match (spec_decode_grid_frame(v.grid_frame), spec_decode_delta_frame(v.delta_frame)) {
        (Ok(cells), Ok(edits)) => {
            assert(edits + Seq::<Pixel>::empty() == edits);
            lemma_replay_concat(cells, edits, live);
            lemma_broadcast_replays_run(v, events);
        },
        _ => {},
    }
}

/// Right after a checkpoint the snapshot is current, and the delta frame
/// decodes to no edit at all.
pub proof fn lemma_checkpoint_current(v: StateView)
    requires
        spec_grid_frame_encodable(v.cells),
    ensures
        spec_snapshot_current(spec_checkpoint(v)),
        spec_decode_grid_frame(spec_checkpoint(v).grid_frame) == Ok::<
            Seq<Seq<Color>>,
            DecodeError,
        >(v.cells),
        spec_decode_delta_frame(spec_checkpoint(v).delta_frame) == Ok::<Seq<Pixel>, DecodeError>(
            Seq::empty(),
        ),
{
    lemma_grid_frame_round_trip(v.cells);
    lemma_delta_round_trip(Seq::empty(), Seq::empty());
    lemma_delta_frame_round_trip(Seq::empty());
    assert(Seq::<Pixel>::empty() + Seq::<Pixel>::empty() == Seq::<Pixel>::empty());
}

/// Catch-up from a checkpoint: a client that is greeted with the frames of a
/// checkpoint, and then applies every frame broadcast after that checkpoint
/// in order, holds the canvas as it is at any later point.
pub proof fn lemma_catch_up_from_checkpoint(v: StateView, events: Seq<PipelineEvent>)
    requires
        spec_grid_frame_encodable(v.cells),
    ensures
        spec_client_canvas(
            spec_checkpoint(v).grid_frame,
            spec_checkpoint(v).delta_frame,
            spec_published(spec_checkpoint(v), events),
        ) == Some(spec_run(spec_checkpoint(v), events).cells),
{
    lemma_checkpoint_current(v);
    lemma_catch_up(spec_checkpoint(v), events);
}

/// No edit is lost between a checkpoint and the delta log: once the log is
/// complete it stays complete, whatever frames and ticks arrive.
pub proof fn lemma_log_stays_complete(v: StateView, events: Seq<PipelineEvent>)
    requires
        spec_log_complete(v),
    ensures
        spec_log_complete(spec_run(v, events)),
    decreases events.len(),
{
    if events.len() > 0 {
        let next = spec_after(v, events[0]);
        match events[0] {
            PipelineEvent::Inbound(frame) => {
                if let Some(edit) = spec_accepted(v.cells, frame) {
                    lemma_replay_push(spec_decode_grid_frame(v.grid_frame).unwrap(), v.delta, edit);
                }
            },
            PipelineEvent::Tick => {
                if spec_grid_frame_encodable(v.cells) {
                    lemma_checkpoint_current(v);
                }
            },
        }
        lemma_log_stays_complete(next, events.skip(1));
    }
}

/// When the log is complete, encoding it into the cached delta frame makes
/// the snapshot current.
pub proof fn lemma_refreshed_delta_current(v: StateView)
    requires
        spec_log_complete(v),
        spec_delta_frame_encodable(v.delta),
    ensures
        spec_snapshot_current(StateView { delta_frame: spec_delta_frame(v.delta), ..v }),
{
    lemma_delta_frame_round_trip(v.delta);
    assert(v.delta + Seq::<Pixel>::empty() == v.delta);
}

/// A checkpoint taken right after a checkpoint, with no edit in between,
/// changes nothing: the same frames, and a delta frame that decodes to no
/// edit.
pub proof fn lemma_checkpoint_idempotent(v: StateView)
    ensures
        spec_checkpoint(spec_checkpoint(v)) == spec_checkpoint(v),
        spec_decode_delta_frame(spec_checkpoint(spec_checkpoint(v)).delta_frame) == Ok::<
            Seq<Pixel>,
            DecodeError,
        >(Seq::empty()),
{
    lemma_delta_round_trip(Seq::empty(), Seq::empty());
    lemma_delta_frame_round_trip(Seq::empty());
}

} // verus!
