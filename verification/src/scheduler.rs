//! The timed delivery scheduler, as a pure state machine. The caller owns
//! the transport, the per-frame deadline timer and the stop signal; it
//! performs each returned action, observes an event, and feeds the event
//! back. Events are only delivered between writes, so an in-progress chunk
//! write always completes before a deadline or a stop is honored.

use vstd::prelude::*;
use vstd::arithmetic::div_mod::{lemma_fundamental_div_mod, lemma_fundamental_div_mod_converse};

verus! {

/// Where the scheduler stands inside one display step.
#[derive(Debug, Clone, Copy, PartialEq, Eq, Structural)]
pub enum SchedulerState {
    /// The delta bytes of `frame` are due to be written and flushed.
    SendFrame { frame: usize },
    /// The delta is out; idle time until the deadline is filled with
    /// correction chunks, `next_chunk` being the next one to write.
    FillIdle { frame: usize, next_chunk: usize },
    /// The stream is flushed and closed; nothing more happens.
    Stopped,
}

/// What the caller observed since the last step.
#[derive(Debug, Clone, Copy, PartialEq, Eq, Structural)]
pub enum SchedulerEvent {
    /// The delta write and flush completed and the frame deadline is armed.
    DeltaSent,
    /// The deadline check found time left in this display step.
    TimeLeft,
    /// The deadline elapsed; `stop` tells whether the cooperative stop
    /// signal has been received.
    TimeUp { stop: bool },
}

/// What the caller must do before reporting the next event.
#[derive(Debug, Clone, Copy, PartialEq, Eq, Structural)]
pub enum SchedulerAction {
    /// Check the deadline (or simply proceed) and report the outcome.
    Nothing,
    /// Write `frame`'s delta bytes, flush, and arm the frame's deadline.
    WriteDeltaAndFlush { frame: usize },
    /// Write correction chunk `chunk` of `frame`.
    WriteChunk { frame: usize, chunk: usize },
    /// No corrections exist: sleep until the deadline.
    WaitDeadline,
    /// Flush and close the transport; the run is over.
    FlushAndClose,
}

/// A state is well formed for a loop of `n_frames` frames whose current
/// frame has `n_corr` correction chunks.
pub open spec fn state_wf(s: SchedulerState, n_frames: int, n_corr: int) -> bool {
    match s {
        SchedulerState::SendFrame { frame } => frame < n_frames,
        SchedulerState::FillIdle { frame, next_chunk } => frame < n_frames && (if n_corr > 0 {
            next_chunk < n_corr
        } else {
            next_chunk == 0
        }),
        SchedulerState::Stopped => true,
    }
}

/// The transition relation of the scheduler: from a state and an observed
/// event to the next state and the action the caller must perform.
pub open spec fn step_spec(
    s: SchedulerState,
    e: SchedulerEvent,
    n_frames: int,
    n_corr: int,
) -> (SchedulerState, SchedulerAction) {
    match (s, e) {
        (SchedulerState::SendFrame { frame }, SchedulerEvent::DeltaSent) => (
            SchedulerState::FillIdle { frame, next_chunk: 0 },
            SchedulerAction::Nothing,
        ),
        (SchedulerState::FillIdle { frame, next_chunk }, SchedulerEvent::TimeLeft) => {
            if n_corr > 0 {
                let next = if next_chunk + 1 < n_corr {
                    (next_chunk + 1) as usize
                } else {
                    0usize
                };
                (
                    SchedulerState::FillIdle { frame, next_chunk: next },
                    SchedulerAction::WriteChunk { frame, chunk: next_chunk },
                )
            } else {
                (
                    SchedulerState::FillIdle { frame, next_chunk },
                    SchedulerAction::WaitDeadline,
                )
            }
        },
        (SchedulerState::FillIdle { frame, next_chunk }, SchedulerEvent::TimeUp { stop }) => {
            if stop {
                (SchedulerState::Stopped, SchedulerAction::FlushAndClose)
            } else {
                let next = if frame + 1 < n_frames {
                    (frame + 1) as usize
                } else {
                    0usize
                };
                (
                    SchedulerState::SendFrame { frame: next },
                    SchedulerAction::WriteDeltaAndFlush { frame: next },
                )
            }
        },
        (SchedulerState::Stopped, _) => (SchedulerState::Stopped, SchedulerAction::Nothing),
        _ => (s, SchedulerAction::Nothing),
    }
}

/// The state of the scheduler when a run begins, and the first action:
/// write and flush frame 0's delta.
pub fn start_schedule() -> (r: (SchedulerState, SchedulerAction))
    ensures
        r.0 == (SchedulerState::SendFrame { frame: 0usize }),
        r.1 == (SchedulerAction::WriteDeltaAndFlush { frame: 0usize }),
{
    (
        SchedulerState::SendFrame { frame: 0 },
        SchedulerAction::WriteDeltaAndFlush { frame: 0 },
    )
}

/// Performs one scheduler step; see [`step_spec`] for the full transition
/// relation. A well-formed state stays well formed as long as the frame
/// does not change; on a frame change the new state is `SendFrame` with a
/// valid frame index.
pub fn scheduler_step(
    s: SchedulerState,
    e: SchedulerEvent,
    n_frames: usize,
    n_corr: usize,
) -> (r: (SchedulerState, SchedulerAction))
    requires
        n_frames >= 1,
        state_wf(s, n_frames as int, n_corr as int),
    ensures
        r == step_spec(s, e, n_frames as int, n_corr as int),
        r.0 is SendFrame ==> state_wf(r.0, n_frames as int, 0),
        !(r.0 is SendFrame) ==> state_wf(r.0, n_frames as int, n_corr as int),
{
    match (s, e) {
        (SchedulerState::SendFrame { frame }, SchedulerEvent::DeltaSent) => (
            SchedulerState::FillIdle { frame, next_chunk: 0 },
            SchedulerAction::Nothing,
        ),
        (SchedulerState::FillIdle { frame, next_chunk }, SchedulerEvent::TimeLeft) => {
            if n_corr > 0 {
                let next = if next_chunk + 1 < n_corr {
                    next_chunk + 1
                } else {
                    0
                };
                (
                    SchedulerState::FillIdle { frame, next_chunk: next },
                    SchedulerAction::WriteChunk { frame, chunk: next_chunk },
                )
            } else {
                (
                    SchedulerState::FillIdle { frame, next_chunk },
                    SchedulerAction::WaitDeadline,
                )
            }
        },
        (SchedulerState::FillIdle { frame: _, next_chunk: _ }, SchedulerEvent::TimeUp {
            stop: true,
        }) => (SchedulerState::Stopped, SchedulerAction::FlushAndClose),
        (SchedulerState::FillIdle { frame, next_chunk: _ }, SchedulerEvent::TimeUp {
            stop: false,
        }) => {
            let next = if frame + 1 < n_frames {
                frame + 1
            } else {
                0
            };
            (
                SchedulerState::SendFrame { frame: next },
                SchedulerAction::WriteDeltaAndFlush { frame: next },
            )
        },
        (SchedulerState::Stopped, _) => (SchedulerState::Stopped, SchedulerAction::Nothing),
        (other, _) => (other, SchedulerAction::Nothing),
    }
}

/// The display delay of one frame in milliseconds: the source delay is in
/// hundredths of a second and is scaled by the configured time factor.
pub fn frame_delay_millis(delay: u16, time_factor: u64) -> (r: u64)
    requires
        delay * 10 * time_factor <= u64::MAX,
    ensures
        r == delay * 10 * time_factor,
{
    (delay as u64) * 10 * time_factor
}

/// The state after `k` consecutive `TimeLeft` events.
pub open spec fn run_fill(s: SchedulerState, k: nat, n_frames: int, n_corr: int) -> SchedulerState
    decreases k,
{
    if k == 0 {
        s
    } else {
        step_spec(
            run_fill(s, (k - 1) as nat, n_frames, n_corr),
            SchedulerEvent::TimeLeft,
            n_frames,
            n_corr,
        ).0
    }
}

/// The idle filler cycles the correction list without skipping: starting
/// from chunk position `c` of a frame with `n_corr > 0` chunks, after `k`
/// deadline checks that found time left the position is `(c + k) % n_corr`,
/// and the `i`-th such check wrote exactly chunk `(c + i) % n_corr` — one
/// chunk per check, wrapping at the list boundary.
pub proof fn lemma_fill_idle_cycles(
    f: usize,
    c: usize,
    k: nat,
    n_frames: int,
    n_corr: int,
)
    requires
        0 < n_corr <= usize::MAX,
        c < n_corr,
        f < n_frames,
    ensures
        run_fill(SchedulerState::FillIdle { frame: f, next_chunk: c }, k, n_frames, n_corr)
            == (SchedulerState::FillIdle {
            frame: f,
            next_chunk: ((c + k) % n_corr) as usize,
        }),
        forall|i: nat|
            i < k ==> #[trigger] step_spec(
                run_fill(
                    SchedulerState::FillIdle { frame: f, next_chunk: c },
                    i,
                    n_frames,
                    n_corr,
                ),
                SchedulerEvent::TimeLeft,
                n_frames,
                n_corr,
            ).1 == (SchedulerAction::WriteChunk { frame: f, chunk: ((c + i) % n_corr) as usize }),
    decreases k,
{
    let s0 = SchedulerState::FillIdle { frame: f, next_chunk: c };
    if k == 0 {
        assert((c as int) % n_corr == c) by {
            lemma_fundamental_div_mod_converse(c as int, n_corr, 0, c as int);
        }
    } else {
        let km1 = (k - 1) as nat;
        lemma_fill_idle_cycles(f, c, km1, n_frames, n_corr);
        let r = (c + km1) % n_corr;
        let q = (c + km1) / n_corr;
        lemma_fundamental_div_mod(c + km1 as int, n_corr);
        assert(n_corr * q == q * n_corr) by (nonlinear_arith);
        assert((q + 1) * n_corr == q * n_corr + n_corr) by (nonlinear_arith);
        if r + 1 < n_corr {
            lemma_fundamental_div_mod_converse(c + k as int, n_corr, q, r + 1);
        } else {
            lemma_fundamental_div_mod_converse(c + k as int, n_corr, q + 1, 0);
        }
    }
}

/// The outcome of feeding an arbitrary event sequence to the scheduler.
pub open spec fn run_events(
    s: SchedulerState,
    es: Seq<SchedulerEvent>,
    n_frames: int,
    n_corr: int,
) -> SchedulerState
    decreases es.len(),
{
    if es.len() == 0 {
        s
    } else {
        run_events(step_spec(s, es[0], n_frames, n_corr).0, es.drop_first(), n_frames, n_corr)
    }
}

/// A stop signal observed at a deadline while filling idle time ends the
/// run cleanly: the machine flushes and closes at once, and no later event
/// of any kind starts another frame step or produces another action.
pub proof fn lemma_stop_is_final(
    f: usize,
    c: usize,
    es: Seq<SchedulerEvent>,
    n_frames: int,
    n_corr: int,
)
    ensures
        step_spec(
            SchedulerState::FillIdle { frame: f, next_chunk: c },
            SchedulerEvent::TimeUp { stop: true },
            n_frames,
            n_corr,
        ) == (SchedulerState::Stopped, SchedulerAction::FlushAndClose),
        run_events(SchedulerState::Stopped, es, n_frames, n_corr) == SchedulerState::Stopped,
        forall|e: SchedulerEvent|
            #[trigger] step_spec(SchedulerState::Stopped, e, n_frames, n_corr) == (
                SchedulerState::Stopped,
                SchedulerAction::Nothing,
            ),
    decreases es.len(),
{
    if es.len() > 0 {
        lemma_stop_is_final(f, c, es.drop_first(), n_frames, n_corr);
    }
}

/// Within one display step the machine waits the deadline out and then
/// advances promptly: while the deadline has not elapsed (no `TimeUp` is
/// observed) the machine stays in the same frame's idle filling and never
/// issues another frame's delta write — with no corrections it simply
/// waits; the moment the deadline elapses without a stop it moves to the
/// next frame (wrapping after the last) and writes its delta at once.
pub proof fn lemma_no_advance_before_deadline(
    f: usize,
    c: usize,
    es: Seq<SchedulerEvent>,
    n_frames: int,
    n_corr: int,
)
    requires
        f < n_frames,
        forall|j: int| 0 <= j < es.len() ==> !((#[trigger] es[j]) is TimeUp),
    ensures
        run_events(SchedulerState::FillIdle { frame: f, next_chunk: c }, es, n_frames, n_corr)
            matches SchedulerState::FillIdle { frame, next_chunk: _ } && frame == f,
        n_corr <= 0 ==> step_spec(
            SchedulerState::FillIdle { frame: f, next_chunk: c },
            SchedulerEvent::TimeLeft,
            n_frames,
            n_corr,
        ) == (
            SchedulerState::FillIdle { frame: f, next_chunk: c },
            SchedulerAction::WaitDeadline,
        ),
        step_spec(
            SchedulerState::FillIdle { frame: f, next_chunk: c },
            SchedulerEvent::TimeUp { stop: false },
            n_frames,
            n_corr,
        ) == (
            SchedulerState::SendFrame {
                frame: (if f + 1 < n_frames {
                    (f + 1) as usize
                } else {
                    0usize
                }),
            },
            SchedulerAction::WriteDeltaAndFlush {
                frame: (if f + 1 < n_frames {
                    (f + 1) as usize
                } else {
                    0usize
                }),
            },
        ),
    decreases es.len(),
{
    if es.len() > 0 {
        let s1 = step_spec(
            SchedulerState::FillIdle { frame: f, next_chunk: c },
            es[0],
            n_frames,
            n_corr,
        ).0;
        match es[0] {
            SchedulerEvent::TimeLeft => {
                if n_corr > 0 {
                    let c1 = if c + 1 < n_corr {
                        (c + 1) as usize
                    } else {
                        0usize
                    };
                    assert(s1 == (SchedulerState::FillIdle { frame: f, next_chunk: c1 }));
                    lemma_no_advance_before_deadline(f, c1, es.drop_first(), n_frames, n_corr);
                } else {
                    lemma_no_advance_before_deadline(f, c, es.drop_first(), n_frames, n_corr);
                }
            },
            SchedulerEvent::DeltaSent => {
                lemma_no_advance_before_deadline(f, c, es.drop_first(), n_frames, n_corr);
            },
            SchedulerEvent::TimeUp { stop: _ } => {
                assert(!(es[0] is TimeUp));
            },
        }
    }
}

} // verus!
