use flutgif::scheduler::{
    frame_delay_millis, scheduler_step, start_schedule, SchedulerAction, SchedulerEvent,
    SchedulerState,
};

#[test]
fn a_run_begins_by_sending_frame_zero() {
    let (state, action) = start_schedule();
    assert_eq!(state, SchedulerState::SendFrame { frame: 0 });
    assert_eq!(action, SchedulerAction::WriteDeltaAndFlush { frame: 0 });
}

#[test]
fn delta_sent_enters_idle_filling() {
    let (state, action) = scheduler_step(
        SchedulerState::SendFrame { frame: 0 },
        SchedulerEvent::DeltaSent,
        2,
        3,
    );
    assert_eq!(state, SchedulerState::FillIdle { frame: 0, next_chunk: 0 });
    assert_eq!(action, SchedulerAction::Nothing);
}

/// The idle filler cycles through the correction list, wrapping at the
/// boundary, and writes exactly one chunk per deadline check that found
/// time left.
#[test]
fn idle_filler_cycles_the_correction_list() {
    let n_frames = 2;
    let n_corr = 3;
    let mut state = SchedulerState::FillIdle { frame: 0, next_chunk: 0 };
    let mut written: Vec<usize> = Vec::new();
    for _ in 0..7 {
        let (next, action) = scheduler_step(state, SchedulerEvent::TimeLeft, n_frames, n_corr);
        match action {
            SchedulerAction::WriteChunk { frame, chunk } => {
                assert_eq!(frame, 0);
                written.push(chunk);
            }
            other => panic!("expected a chunk write, got {:?}", other),
        }
        state = next;
    }
    assert_eq!(written, vec![0, 1, 2, 0, 1, 2, 0]);
    assert_eq!(state, SchedulerState::FillIdle { frame: 0, next_chunk: 1 });
}

#[test]
fn no_corrections_means_waiting_out_the_deadline() {
    let (state, action) = scheduler_step(
        SchedulerState::FillIdle { frame: 1, next_chunk: 0 },
        SchedulerEvent::TimeLeft,
        2,
        0,
    );
    assert_eq!(state, SchedulerState::FillIdle { frame: 1, next_chunk: 0 });
    assert_eq!(action, SchedulerAction::WaitDeadline);
}

#[test]
fn deadline_without_stop_advances_and_wraps() {
    let (state, action) = scheduler_step(
        SchedulerState::FillIdle { frame: 0, next_chunk: 2 },
        SchedulerEvent::TimeUp { stop: false },
        3,
        5,
    );
    assert_eq!(state, SchedulerState::SendFrame { frame: 1 });
    assert_eq!(action, SchedulerAction::WriteDeltaAndFlush { frame: 1 });

    let (state, action) = scheduler_step(
        SchedulerState::FillIdle { frame: 2, next_chunk: 0 },
        SchedulerEvent::TimeUp { stop: false },
        3,
        0,
    );
    assert_eq!(state, SchedulerState::SendFrame { frame: 0 });
    assert_eq!(action, SchedulerAction::WriteDeltaAndFlush { frame: 0 });
}

/// A stop observed at a deadline mid-fill closes the stream, and no event
/// afterwards starts another frame step.
#[test]
fn stop_signal_ends_the_run_cleanly() {
    let (state, action) = scheduler_step(
        SchedulerState::FillIdle { frame: 1, next_chunk: 2 },
        SchedulerEvent::TimeUp { stop: true },
        2,
        4,
    );
    assert_eq!(state, SchedulerState::Stopped);
    assert_eq!(action, SchedulerAction::FlushAndClose);

    let events = [
        SchedulerEvent::DeltaSent,
        SchedulerEvent::TimeLeft,
        SchedulerEvent::TimeUp { stop: false },
        SchedulerEvent::TimeUp { stop: true },
    ];
    let mut state = SchedulerState::Stopped;
    for e in events {
        let (next, action) = scheduler_step(state, e, 2, 4);
        assert_eq!(next, SchedulerState::Stopped);
        assert_eq!(action, SchedulerAction::Nothing);
        state = next;
    }
}

#[test]
fn frame_delay_scales_the_source_delay() {
    assert_eq!(frame_delay_millis(5, 10), 500);
    assert_eq!(frame_delay_millis(0, 10), 0);
    assert_eq!(frame_delay_millis(1, 1), 10);
}
