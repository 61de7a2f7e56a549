use projectm_lambda::supervisor::{
    step, supervise, Command, ElementScope, EngineState, PipelineEvent, PipelineOutcome,
};

fn set_state(target: EngineState) -> Command {
    Command::SetState { target }
}

#[test]
fn step_pauses_on_partial_buffering() {
    let r = step(EngineState::Playing, PipelineEvent::BufferingLevel { percent: 50 });
    assert_eq!(r.command, Some(set_state(EngineState::Paused)));
    assert_eq!(r.intended, EngineState::Paused);
    assert!(r.terminal.is_none());
}

#[test]
fn step_resumes_on_full_buffering() {
    let r = step(EngineState::Paused, PipelineEvent::BufferingLevel { percent: 100 });
    assert_eq!(r.command, Some(set_state(EngineState::Playing)));
    assert_eq!(r.intended, EngineState::Playing);
    assert!(r.terminal.is_none());
}

#[test]
fn step_corrects_unexpected_pause_once() {
    let r = step(
        EngineState::Playing,
        PipelineEvent::StateTransition {
            element: ElementScope::TopLevel,
            from: EngineState::Playing,
            to: EngineState::Paused,
        },
    );
    assert_eq!(r.command, Some(set_state(EngineState::Playing)));
    assert_eq!(r.intended, EngineState::Playing);
    assert!(r.terminal.is_none());
}

#[test]
fn step_ignores_inner_element_pause() {
    let r = step(
        EngineState::Playing,
        PipelineEvent::StateTransition {
            element: ElementScope::Inner,
            from: EngineState::Playing,
            to: EngineState::Paused,
        },
    );
    assert!(r.command.is_none());
    assert_eq!(r.intended, EngineState::Playing);
}

#[test]
fn step_ignores_expected_pause() {
    let r = step(
        EngineState::Paused,
        PipelineEvent::StateTransition {
            element: ElementScope::TopLevel,
            from: EngineState::Playing,
            to: EngineState::Paused,
        },
    );
    assert!(r.command.is_none());
    assert_eq!(r.intended, EngineState::Paused);
}

#[test]
fn eos_ends_loop_with_single_teardown() {
    let r = supervise(true, vec![PipelineEvent::Other, PipelineEvent::EndOfStream]);
    assert!(matches!(r.outcome, PipelineOutcome::Success));
    assert_eq!(r.consumed, 2);
    assert_eq!(
        r.commands,
        vec![set_state(EngineState::Playing), set_state(EngineState::Null)]
    );
    let teardowns = r
        .commands
        .iter()
        .filter(|c| **c == set_state(EngineState::Null))
        .count();
    assert_eq!(teardowns, 1);
}

#[test]
fn loop_stops_at_first_terminal_event() {
    let r = supervise(
        true,
        vec![
            PipelineEvent::EndOfStream,
            PipelineEvent::Failure { message: String::from("late") },
        ],
    );
    assert!(matches!(r.outcome, PipelineOutcome::Success));
    assert_eq!(r.consumed, 1);
}

#[test]
fn failure_carries_its_message() {
    let r = supervise(
        true,
        vec![PipelineEvent::Failure { message: String::from("decode error") }],
    );
    match r.outcome {
        PipelineOutcome::Failed { message } => assert_eq!(message, "decode error"),
        _ => panic!("expected a failed outcome"),
    }
    assert_eq!(r.commands.last(), Some(&set_state(EngineState::Null)));
}

#[test]
fn closed_bus_is_incomplete_with_teardown() {
    let r = supervise(true, vec![]);
    assert!(matches!(r.outcome, PipelineOutcome::Incomplete));
    assert_eq!(r.consumed, 0);
    assert_eq!(
        r.commands,
        vec![set_state(EngineState::Playing), set_state(EngineState::Null)]
    );
}

#[test]
fn refused_start_still_tears_down() {
    let r = supervise(false, vec![PipelineEvent::EndOfStream]);
    assert!(matches!(r.outcome, PipelineOutcome::StartRefused));
    assert_eq!(r.consumed, 0);
    assert_eq!(
        r.commands,
        vec![set_state(EngineState::Playing), set_state(EngineState::Null)]
    );
}

#[test]
fn buffering_pauses_then_resumes_in_order() {
    let r = supervise(
        true,
        vec![
            PipelineEvent::BufferingLevel { percent: 50 },
            PipelineEvent::BufferingLevel { percent: 100 },
            PipelineEvent::EndOfStream,
        ],
    );
    assert!(matches!(r.outcome, PipelineOutcome::Success));
    assert_eq!(
        r.commands,
        vec![
            set_state(EngineState::Playing),
            set_state(EngineState::Paused),
            set_state(EngineState::Playing),
            set_state(EngineState::Null),
        ]
    );
}

#[test]
fn corrective_playing_once_per_stall() {
    let stall = |_: u32| PipelineEvent::StateTransition {
        element: ElementScope::TopLevel,
        from: EngineState::Playing,
        to: EngineState::Paused,
    };
    let r = supervise(true, vec![stall(0), stall(1), PipelineEvent::EndOfStream]);
    assert_eq!(
        r.commands,
        vec![
            set_state(EngineState::Playing),
            set_state(EngineState::Playing),
            set_state(EngineState::Playing),
            set_state(EngineState::Null),
        ]
    );
}

#[test]
fn latency_change_draws_recalculation() {
    let r = supervise(true, vec![PipelineEvent::LatencyChanged, PipelineEvent::EndOfStream]);
    assert_eq!(
        r.commands,
        vec![
            set_state(EngineState::Playing),
            Command::RecalcLatency,
            set_state(EngineState::Null),
        ]
    );
}

#[test]
fn clock_lost_forces_playing() {
    let r = supervise(true, vec![PipelineEvent::ClockLost, PipelineEvent::EndOfStream]);
    assert_eq!(
        r.commands,
        vec![
            set_state(EngineState::Playing),
            set_state(EngineState::Playing),
            set_state(EngineState::Null),
        ]
    );
}
