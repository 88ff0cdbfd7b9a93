//! The deterministic replay driver.
//!
//! Given a loaded console and an event log, the driver walks the log in
//! the order given: for each event it advances frames until the engine has
//! reached the event's frame index, then applies the edge to the pad. An
//! event whose frame has already been passed is applied immediately,
//! folding it into the current frame. After the last event one more frame
//! is advanced unconditionally, so the final event's pad state is visible
//! in the emitted frame. The whole run is a pure function of the image
//! and the log: `replay_trace` computes, at the spec level, the exact
//! pad state the engine holds during every frame the run advances, and
//! the committed output is pinned to that trace.

use crate::engine::Emulator;
use crate::engine::FRAME_BUFFER_LEN;
use crate::engine::engine_accepts;
use crate::engine::engine_advance_ok;
use crate::engine::engine_frame_buffer;
use crate::events::Button;
use crate::events::CommittedOutput;
use crate::events::ControllerEvent;
use crate::events::ReplayError;
use crate::events::apply_edge;
use crate::events::spec_button_mask;
use vstd::prelude::*;

verus! {

/// The driver's abstract state between events: the pad state held during
/// each frame advanced so far, and the current pad state.
pub ghost struct ReplayState {
    pub frames: Seq<u8>,
    pub pad: u8,
}

/// Advance frames, holding pad state `pad`, until `target` frames have
/// run. If that many frames have already run, nothing is advanced.
pub open spec fn pad_to(frames: Seq<u8>, pad: u8, target: int) -> Seq<u8>
    decreases target - frames.len(),
{
    if frames.len() >= target {
        frames
    } else {
        pad_to(frames.push(pad), pad, target)
    }
}

/// What one event does to the driver state: catch up to the event's
/// frame, then apply the edge.
pub open spec fn step_state(s: ReplayState, ev: ControllerEvent) -> ReplayState {
    ReplayState {
        frames: pad_to(s.frames, s.pad, ev.frame as int),
        pad: apply_edge(s.pad, ev.btn, ev.pressed),
    }
}

/// The state before any event: no frames run, no button held.
pub open spec fn init_state() -> ReplayState {
    ReplayState { frames: Seq::empty(), pad: 0 }
}

/// The driver state after the whole log has been applied in order.
pub open spec fn state_after(log: Seq<ControllerEvent>) -> ReplayState
    decreases log.len(),
{
    if log.len() == 0 {
        init_state()
    } else {
        step_state(state_after(log.drop_last()), log.last())
    }
}

/// The pad state the engine holds during each frame a full run advances,
/// including the one unconditional trailing frame.
pub open spec fn replay_trace(log: Seq<ControllerEvent>) -> Seq<u8> {
    state_after(log).frames.push(state_after(log).pad)
}

/// The frame index a full run of `log` commits to.
pub open spec fn spec_final_frame_index(log: Seq<ControllerEvent>) -> int {
    replay_trace(log).len() as int
}

/// Whether a run of `log` against `image` goes through: the engine
/// accepts the image, and every frame of the trace advances without a
/// fault.
pub open spec fn run_ok(image: Seq<u8>, log: Seq<ControllerEvent>) -> bool {
    &&& engine_accepts(image)
    &&& forall|k: int|
        1 <= k <= replay_trace(log).len() ==> engine_advance_ok(
            image,
            #[trigger] replay_trace(log).take(k),
        )
}

/// The committed output a successful run of `log` against `image` must
/// carry: the trace's length as the final frame index, and the engine's
/// frame buffer after the trace.
pub open spec fn is_committed_output(
    image: Seq<u8>,
    log: Seq<ControllerEvent>,
    out: CommittedOutput,
) -> bool {
    &&& out.final_frame_index as int == spec_final_frame_index(log)
    &&& out.frame_buffer@ == engine_frame_buffer(image, replay_trace(log))
}

pub proof fn lemma_pad_to_len(frames: Seq<u8>, pad: u8, target: int)
    ensures
        pad_to(frames, pad, target).len() == (if frames.len() >= target {
            frames.len() as int
        } else {
            target
        }),
    decreases target - frames.len(),
{
    if frames.len() < target {
        lemma_pad_to_len(frames.push(pad), pad, target);
    }
}

pub proof fn lemma_prefix_trans(a: Seq<u8>, b: Seq<u8>, c: Seq<u8>)
    requires
        a.is_prefix_of(b),
        b.is_prefix_of(c),
    ensures
        a.is_prefix_of(c),
{
    assert forall|i: int| 0 <= i < a.len() implies a[i] == c[i] by {
        assert(a[i] == b.subrange(0, a.len() as int)[i]);
        assert(b[i] == c.subrange(0, b.len() as int)[i]);
    }
    assert(a =~= c.subrange(0, a.len() as int));
}

pub proof fn lemma_pad_to_prefix(frames: Seq<u8>, pad: u8, target: int)
    ensures
        frames.is_prefix_of(pad_to(frames, pad, target)),
    decreases target - frames.len(),
{
    if frames.len() < target {
        lemma_pad_to_prefix(frames.push(pad), pad, target);
        assert(frames.is_prefix_of(frames.push(pad)));
        lemma_prefix_trans(frames, frames.push(pad), pad_to(frames, pad, target));
    } else {
        assert(frames =~= pad_to(frames, pad, target).subrange(0, frames.len() as int));
    }
}

/// Unfold one step: the state after `i + 1` events is the state after
/// `i` of them, stepped by the event at `i`.
pub proof fn lemma_step_unfold(log: Seq<ControllerEvent>, i: int)
    requires
        0 <= i < log.len(),
    ensures
        state_after(log.take(i + 1)) == step_state(state_after(log.take(i)), log[i]),
{
    assert(log.take(i + 1).drop_last() =~= log.take(i));
    assert(log.take(i + 1).last() == log[i]);
}

/// The frames run after any prefix of the log are a prefix of the frames
/// run after the whole log.
pub proof fn lemma_frames_prefix(log: Seq<ControllerEvent>, i: int)
    requires
        0 <= i <= log.len(),
    ensures
        state_after(log.take(i)).frames.is_prefix_of(state_after(log).frames),
    decreases log.len() - i,
{
    if i == log.len() {
        let f = state_after(log).frames;
        assert(log.take(i) =~= log);
        assert(f =~= f.subrange(0, f.len() as int));
    } else {
        lemma_step_unfold(log, i);
        lemma_pad_to_prefix(
            state_after(log.take(i)).frames,
            state_after(log.take(i)).pad,
            log[i].frame as int,
        );
        lemma_frames_prefix(log, i + 1);
        lemma_prefix_trans(
            state_after(log.take(i)).frames,
            state_after(log.take(i + 1)).frames,
            state_after(log).frames,
        );
    }
}

/// No event can run the frame counter past the largest frame any event
/// names.
pub proof fn lemma_state_frames_bound(log: Seq<ControllerEvent>, bound: int)
    requires
        bound >= 0,
        forall|j: int| 0 <= j < log.len() ==> (#[trigger] log[j]).frame as int <= bound,
    ensures
        state_after(log).frames.len() <= bound,
    decreases log.len(),
{
    if log.len() != 0 {
        lemma_state_frames_bound(log.drop_last(), bound);
        lemma_pad_to_len(
            state_after(log.drop_last()).frames,
            state_after(log.drop_last()).pad,
            log.last().frame as int,
        );
    }
}

/// Replay a log against a console image.
///
/// The run loads the image, applies every event at its frame boundary in
/// list order, advances one unconditional trailing frame, and commits the
/// engine's frame index and frame buffer. It succeeds exactly when the
/// engine accepts the image and no frame of the trace faults; an image
/// the engine rejects is `InvalidImage` before any frame runs, and a
/// faulting frame is `EmulationFault`, aborting the run unretried.
pub fn replay(image: &[u8], log: &Vec<ControllerEvent>) -> (r: Result<
    CommittedOutput,
    ReplayError,
>)
    requires
        forall|j: int| 0 <= j < log@.len() ==> (#[trigger] log@[j]).frame < 0xffff_ffffu32,
    ensures
        r is Ok <==> run_ok(image@, log@),
        r is Ok ==> is_committed_output(image@, log@, r->Ok_0),
        r is Ok ==> r->Ok_0.frame_buffer@.len() == FRAME_BUFFER_LEN as int,
        r is Err ==> (r->Err_0 == ReplayError::InvalidImage <==> !engine_accepts(image@)),
        r is Err ==> (r->Err_0 == ReplayError::InvalidImage || r->Err_0
            == ReplayError::EmulationFault),
{
    let mut emu = match Emulator::load(image) {
        Ok(e) => e,
        Err(e) => {
            return Err(e);
        },
    };
    let n: usize = log.len();
    proof {
        assert(log@.take(0) =~= Seq::<ControllerEvent>::empty());
    }
    let mut i: usize = 0;
    while i < n
        invariant
            n == log@.len(),
            forall|j: int| 0 <= j < log@.len() ==> (#[trigger] log@[j]).frame < 0xffff_ffffu32,
            i <= n,
            emu.wf(),
            emu.image() == image@,
            engine_accepts(image@),
            emu.inputs() == state_after(log@.take(i as int)).frames,
            emu.pad() == state_after(log@.take(i as int)).pad,
            forall|k: int|
                1 <= k <= emu.inputs().len() ==> engine_advance_ok(
                    image@,
                    #[trigger] emu.inputs().take(k),
                ),
        decreases n - i,
    {
        let ev = log[i];
        let ghost s_i = state_after(log@.take(i as int));
        let ghost s_next = state_after(log@.take(i as int + 1));
        let ghost target = ev.frame as int;
        proof {
            lemma_step_unfold(log@, i as int);
        }
        while emu.current_frame_index() < ev.frame
            invariant
                n == log@.len(),
                forall|j: int| 0 <= j < log@.len() ==> (#[trigger] log@[j]).frame < 0xffff_ffffu32,
                i < n,
                ev == log@[i as int],
                target == ev.frame as int,
                s_i == state_after(log@.take(i as int)),
                s_next == state_after(log@.take(i as int + 1)),
                s_next == step_state(s_i, ev),
                emu.wf(),
                emu.image() == image@,
                engine_accepts(image@),
                emu.pad() == s_i.pad,
                pad_to(emu.inputs(), s_i.pad, target) == s_next.frames,
                forall|k: int|
                    1 <= k <= emu.inputs().len() ==> engine_advance_ok(
                        image@,
                        #[trigger] emu.inputs().take(k),
                    ),
            decreases target - emu.frame_count(),
        {
            let ghost cur = emu.inputs();
            match emu.advance_frame() {
                Ok(_) => {
                    proof {
                        let ni = emu.inputs();
                        assert(ni == cur.push(s_i.pad));
                        assert(cur.len() < target);
                        assert(pad_to(cur, s_i.pad, target) == pad_to(ni, s_i.pad, target));
                        assert forall|k: int|
                            1 <= k <= ni.len() implies engine_advance_ok(
                            image@,
                            #[trigger] ni.take(k),
                        ) by {
                            if k <= cur.len() {
                                assert(ni.take(k) =~= cur.take(k));
                                assert(engine_advance_ok(image@, cur.take(k)));
                            } else {
                                assert(ni.take(k) =~= ni);
                            }
                        }
                    }
                },
                Err(e) => {
                    proof {
                        let p = cur.push(s_i.pad);
                        assert(cur.len() < target);
                        assert(pad_to(cur, s_i.pad, target) == pad_to(p, s_i.pad, target));
                        lemma_pad_to_prefix(p, s_i.pad, target);
                        assert(p.is_prefix_of(s_next.frames));
                        lemma_frames_prefix(log@, i as int + 1);
                        lemma_prefix_trans(p, s_next.frames, state_after(log@).frames);
                        let tr = replay_trace(log@);
                        assert(state_after(log@).frames.is_prefix_of(tr)) by {
                            let f = state_after(log@).frames;
                            assert(f =~= tr.subrange(0, f.len() as int));
                        }
                        lemma_prefix_trans(p, state_after(log@).frames, tr);
                        assert(p =~= tr.take(p.len() as int));
                        assert(!engine_advance_ok(image@, tr.take(p.len() as int)));
                        assert(!run_ok(image@, log@));
                    }
                    return Err(e);
                },
            }
        }
        proof {
            assert(emu.inputs().len() >= target);
            assert(pad_to(emu.inputs(), s_i.pad, target) == emu.inputs());
            assert(emu.inputs() == s_next.frames);
        }
        emu.set_button(ev.btn, ev.pressed);
        i += 1;
    }
    proof {
        assert(log@.take(n as int) =~= log@);
        lemma_state_frames_bound(log@, 0xffff_fffe);
    }
    let ghost s_n = state_after(log@);
    let ghost cur = emu.inputs();
    let ghost tr = replay_trace(log@);
    match emu.advance_frame() {
        Ok(_) => {},
        Err(e) => {
            proof {
                assert(cur.push(s_n.pad) == tr);
                assert(tr =~= tr.take(tr.len() as int));
                assert(!engine_advance_ok(image@, tr.take(tr.len() as int)));
                assert(!run_ok(image@, log@));
            }
            return Err(e);
        },
    }
    proof {
        assert(emu.inputs() == tr);
        assert forall|k: int|
            1 <= k <= tr.len() implies engine_advance_ok(image@, #[trigger] tr.take(k)) by {
            if k <= cur.len() {
                assert(tr.take(k) =~= cur.take(k));
                assert(engine_advance_ok(image@, cur.take(k)));
            } else {
                assert(tr.take(k) =~= tr);
                assert(tr == cur.push(s_n.pad));
            }
        }
        assert(run_ok(image@, log@));
    }
    let idx = emu.current_frame_index();
    let buf = emu.read_frame_buffer();
    Ok(CommittedOutput { final_frame_index: idx, frame_buffer: buf })
}

/// Replay is deterministic: the committed output is a pure function of
/// the image and the log, so any two outputs a successful run can
/// produce for the same pair are bit-identical.
pub proof fn lemma_replay_deterministic(
    image: Seq<u8>,
    log: Seq<ControllerEvent>,
    o1: CommittedOutput,
    o2: CommittedOutput,
)
    requires
        is_committed_output(image, log, o1),
        is_committed_output(image, log, o2),
    ensures
        o1.final_frame_index == o2.final_frame_index,
        o1.frame_buffer@ == o2.frame_buffer@,
{
}

/// An empty log still advances exactly one frame, with no button held:
/// the trace is a single all-buttons-up frame and the committed frame
/// index is 1.
pub proof fn lemma_empty_log_single_frame()
    ensures
        replay_trace(Seq::<ControllerEvent>::empty()) =~= seq![0u8],
        spec_final_frame_index(Seq::<ControllerEvent>::empty()) == 1,
{
}

/// An event whose frame the engine has already reached when it comes up
/// is applied without any frame advance: the step changes the pad and
/// nothing else.
pub proof fn lemma_late_event_no_advance(log: Seq<ControllerEvent>, i: int)
    requires
        0 <= i < log.len(),
        log[i].frame as int <= state_after(log.take(i)).frames.len(),
    ensures
        state_after(log.take(i + 1)).frames == state_after(log.take(i)).frames,
        state_after(log.take(i + 1)).pad == apply_edge(
            state_after(log.take(i)).pad,
            log[i].btn,
            log[i].pressed,
        ),
{
    lemma_step_unfold(log, i);
}

/// Two events that share a frame and touch different buttons commit the
/// same trace in either order, and both their states are visible in the
/// pad held during the frame advanced after that boundary.
pub proof fn lemma_same_frame_pair_order_irrelevant(e1: ControllerEvent, e2: ControllerEvent)
    requires
        e1.frame == e2.frame,
        e1.btn != e2.btn,
    ensures
        replay_trace(seq![e1, e2]) == replay_trace(seq![e2, e1]),
        replay_trace(seq![e1, e2]).len() == e1.frame as int + 1,
        (replay_trace(seq![e1, e2])[e1.frame as int] & spec_button_mask(e1.btn) != 0)
            == e1.pressed,
        (replay_trace(seq![e1, e2])[e1.frame as int] & spec_button_mask(e2.btn) != 0)
            == e2.pressed,
{
    let m1 = spec_button_mask(e1.btn);
    let m2 = spec_button_mask(e2.btn);
    assert(m1 != m2);
    lemma_pair_state(e1, e2);
    lemma_pair_state(e2, e1);
    let t = e1.frame as int;
    lemma_pad_to_len(Seq::empty(), 0u8, t);
    let p12 = apply_edge(apply_edge(0u8, e1.btn, e1.pressed), e2.btn, e2.pressed);
    let p21 = apply_edge(apply_edge(0u8, e2.btn, e2.pressed), e1.btn, e1.pressed);
    lemma_apply_edge_commutes_from_zero(m1, e1.pressed, m2, e2.pressed);
    assert(p12 == p21);
    assert(state_after(seq![e1, e2]).frames =~= state_after(seq![e2, e1]).frames);
    assert(replay_trace(seq![e1, e2]) == replay_trace(seq![e2, e1]));
    assert(replay_trace(seq![e1, e2])[t] == p12);
}

/// The driver state after a two-event log, written out.
proof fn lemma_pair_state(e1: ControllerEvent, e2: ControllerEvent)
    requires
        e1.frame == e2.frame,
    ensures
        state_after(seq![e1, e2]).frames == pad_to(Seq::empty(), 0u8, e1.frame as int),
        state_after(seq![e1, e2]).pad == apply_edge(
            apply_edge(0u8, e1.btn, e1.pressed),
            e2.btn,
            e2.pressed,
        ),
{
    let l = seq![e1, e2];
    assert(l.drop_last() =~= seq![e1]);
    assert(l.last() == e2);
    assert(seq![e1].drop_last() =~= Seq::<ControllerEvent>::empty());
    assert(seq![e1].last() == e1);
    assert(state_after(Seq::<ControllerEvent>::empty()) == init_state());
    assert(state_after(seq![e1]) == step_state(init_state(), e1));
    assert(state_after(l) == step_state(state_after(seq![e1]), e2));
    let f1 = pad_to(Seq::empty(), 0u8, e1.frame as int);
    assert(state_after(seq![e1]).frames == f1);
    lemma_pad_to_len(Seq::empty(), 0u8, e1.frame as int);
    assert(f1.len() >= e2.frame as int);
    assert(pad_to(f1, apply_edge(0u8, e1.btn, e1.pressed), e2.frame as int) == f1);
}

/// Edges of two different buttons land on independent bits, so they
/// commute when applied from the all-up pad, and each edge's state is
/// readable in the result.
proof fn lemma_apply_edge_commutes_from_zero(m1: u8, p1: bool, m2: u8, p2: bool)
    requires
        m1 == 1 || m1 == 2 || m1 == 4 || m1 == 8 || m1 == 16 || m1 == 32 || m1 == 64 || m1 == 128,
        m2 == 1 || m2 == 2 || m2 == 4 || m2 == 8 || m2 == 16 || m2 == 32 || m2 == 64 || m2 == 128,
        m1 != m2,
    ensures
        p1 && p2 ==> (0u8 | m1) | m2 == (0u8 | m2) | m1,
        p1 && !p2 ==> (0u8 | m1) & !m2 == (0u8 & !m2) | m1,
        !p1 && p2 ==> (0u8 & !m1) | m2 == (0u8 | m2) & !m1,
        !p1 && !p2 ==> (0u8 & !m1) & !m2 == (0u8 & !m2) & !m1,
        p1 && p2 ==> (((0u8 | m1) | m2) & m1 != 0) && (((0u8 | m1) | m2) & m2 != 0),
        p1 && !p2 ==> (((0u8 | m1) & !m2) & m1 != 0) && (((0u8 | m1) & !m2) & m2 == 0),
        !p1 && p2 ==> (((0u8 & !m1) | m2) & m1 == 0) && (((0u8 & !m1) | m2) & m2 != 0),
        !p1 && !p2 ==> (((0u8 & !m1) & !m2) & m1 == 0) && (((0u8 & !m1) & !m2) & m2 == 0),
{
    assert((m1 == 1 || m1 == 2 || m1 == 4 || m1 == 8 || m1 == 16 || m1 == 32 || m1 == 64 || m1
        == 128) && (m2 == 1 || m2 == 2 || m2 == 4 || m2 == 8 || m2 == 16 || m2 == 32 || m2 == 64
        || m2 == 128) && m1 != m2 ==> m1 & m2 == 0) by (bit_vector);
    assert(m1 & m2 == 0);
    assert((0u8 | m1) | m2 == (0u8 | m2) | m1) by (bit_vector);
    assert(m1 & m2 == 0 ==> (0u8 | m1) & !m2 == (0u8 & !m2) | m1) by (bit_vector);
    assert(m1 & m2 == 0 ==> (0u8 & !m1) | m2 == (0u8 | m2) & !m1) by (bit_vector);
    assert((0u8 & !m1) & !m2 == (0u8 & !m2) & !m1) by (bit_vector);
    assert(m1 != 0 && m2 != 0 ==> (((0u8 | m1) | m2) & m1 != 0) && (((0u8 | m1) | m2) & m2 != 0))
        by (bit_vector);
    assert(m1 & m2 == 0 && m1 != 0 ==> (((0u8 | m1) & !m2) & m1 != 0) && (((0u8 | m1) & !m2) & m2
        == 0)) by (bit_vector);
    assert(m1 & m2 == 0 && m2 != 0 ==> (((0u8 & !m1) | m2) & m1 == 0) && (((0u8 & !m1) | m2) & m2
        != 0)) by (bit_vector);
    assert((((0u8 & !m1) & !m2) & m1 == 0) && (((0u8 & !m1) & !m2) & m2 == 0)) by (bit_vector);
    assert(m1 != 0 && m2 != 0);
}

} // verus!
