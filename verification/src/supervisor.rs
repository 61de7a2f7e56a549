use vstd::prelude::*;

verus! {

/// The states the supervisor can ask the engine to take.
#[derive(Debug, Clone, Copy, PartialEq, Eq, Structural)]
pub enum EngineState {
    Null,
    Paused,
    Playing,
}

/// Whether a state-transition report concerns the top-level pipeline
/// element or one of its inner elements.
#[derive(Debug, Clone, Copy, PartialEq, Eq, Structural)]
pub enum ElementScope {
    TopLevel,
    Inner,
}

/// A notification from the engine's event bus. The supervisor only consumes
/// these; it never constructs them.
#[derive(Debug)]
pub enum PipelineEvent {
    EndOfStream,
    Failure { message: String },
    StateTransition { element: ElementScope, from: EngineState, to: EngineState },
    BufferingLevel { percent: u32 },
    LatencyChanged,
    ClockLost,
    Other,
}

/// An instruction the supervisor issues to the engine.
#[derive(Debug, Clone, Copy, PartialEq, Eq, Structural)]
pub enum Command {
    SetState { target: EngineState },
    RecalcLatency,
}

/// How one supervised pipeline run ended.
///
/// `Incomplete` is the ambiguous exit: the bus closed without either an
/// end-of-stream or a failure report; it is kept distinct from success.
/// `StartRefused` records that the engine never reached the playing state.
#[derive(Debug)]
pub enum PipelineOutcome {
    Success,
    Failed { message: String },
    Incomplete,
    StartRefused,
}

/// What the engine did for one job: whether the initial transition to
/// playing was accepted, and the events its bus yielded before closing.
#[derive(Debug)]
pub struct EngineRun {
    pub start_ok: bool,
    pub events: Vec<PipelineEvent>,
}

/// What one event does to the supervisor: the new intended state, at most
/// one command for the engine, and a terminal outcome if the loop must stop.
#[derive(Debug)]
pub struct StepResult {
    pub intended: EngineState,
    pub command: Option<Command>,
    pub terminal: Option<PipelineOutcome>,
}

pub open spec fn playing_command() -> Command {
    Command::SetState { target: EngineState::Playing }
}

pub open spec fn paused_command() -> Command {
    Command::SetState { target: EngineState::Paused }
}

pub open spec fn teardown_command() -> Command {
    Command::SetState { target: EngineState::Null }
}

/// An event that ends the loop: end of stream, or an engine failure.
pub open spec fn is_terminal_event(e: PipelineEvent) -> bool {
    e is EndOfStream || e is Failure
}

/// The supervision policy, one event at a time.
///
/// - End of stream is terminal success; a failure report is terminal with
///   its message.
/// - An unexpected pause of the top-level element while the intended state
///   is playing draws exactly one corrective playing command.
/// - A buffering level below full pauses the pipeline; a full level
///   resumes it.
/// - A latency change draws a recalculation; a lost clock forces playing.
/// - Everything else is informational and advances nothing.
pub open spec fn step_spec(intended: EngineState, event: PipelineEvent) -> StepResult {
    match event {
        PipelineEvent::EndOfStream => StepResult {
            intended,
            command: None,
            terminal: Some(PipelineOutcome::Success),
        },
        PipelineEvent::Failure { message } => StepResult {
            intended,
            command: None,
            terminal: Some(PipelineOutcome::Failed { message }),
        },
        PipelineEvent::StateTransition { element, from, to } => {
            if element is TopLevel && to is Paused && intended is Playing {
                StepResult { intended: EngineState::Playing, command: Some(playing_command()), terminal: None }
            } else {
                StepResult { intended, command: None, terminal: None }
            }
        },
        PipelineEvent::BufferingLevel { percent } => {
            if percent < 100 {
                StepResult { intended: EngineState::Paused, command: Some(paused_command()), terminal: None }
            } else {
                StepResult { intended: EngineState::Playing, command: Some(playing_command()), terminal: None }
            }
        },
        PipelineEvent::LatencyChanged => StepResult {
            intended,
            command: Some(Command::RecalcLatency),
            terminal: None,
        },
        PipelineEvent::ClockLost => StepResult {
            intended: EngineState::Playing,
            command: Some(playing_command()),
            terminal: None,
        },
        PipelineEvent::Other => StepResult { intended, command: None, terminal: None },
    }
}

/// Apply the supervision policy to one event.
pub fn step(intended: EngineState, event: PipelineEvent) -> (r: StepResult)
    ensures
        r == step_spec(intended, event),
{
    match event {
        PipelineEvent::EndOfStream => StepResult {
            intended,
            command: None,
            terminal: Some(PipelineOutcome::Success),
        },
        PipelineEvent::Failure { message } => StepResult {
            intended,
            command: None,
            terminal: Some(PipelineOutcome::Failed { message }),
        },
        PipelineEvent::StateTransition { element, from, to } => {
            if matches!(element, ElementScope::TopLevel) && matches!(to, EngineState::Paused)
                && matches!(intended, EngineState::Playing) {
                StepResult {
                    intended: EngineState::Playing,
                    command: Some(Command::SetState { target: EngineState::Playing }),
                    terminal: None,
                }
            } else {
                StepResult { intended, command: None, terminal: None }
            }
        },
        PipelineEvent::BufferingLevel { percent } => {
            if percent < 100 {
                StepResult {
                    intended: EngineState::Paused,
                    command: Some(Command::SetState { target: EngineState::Paused }),
                    terminal: None,
                }
            } else {
                StepResult {
                    intended: EngineState::Playing,
                    command: Some(Command::SetState { target: EngineState::Playing }),
                    terminal: None,
                }
            }
        },
        PipelineEvent::LatencyChanged => StepResult {
            intended,
            command: Some(Command::RecalcLatency),
            terminal: None,
        },
        PipelineEvent::ClockLost => StepResult {
            intended: EngineState::Playing,
            command: Some(Command::SetState { target: EngineState::Playing }),
            terminal: None,
        },
        PipelineEvent::Other => StepResult { intended, command: None, terminal: None },
    }
}

pub open spec fn commands_of(c: Option<Command>) -> Seq<Command> {
    match c {
        Some(cmd) => seq![cmd],
        None => Seq::<Command>::empty(),
    }
}

/// The event loop, as a function of the whole event sequence the bus will
/// yield before it closes: the outcome, the commands issued while looping
/// (teardown not included), and how many events were consumed.
pub open spec fn run_spec(intended: EngineState, events: Seq<PipelineEvent>) -> (
    PipelineOutcome,
    Seq<Command>,
    int,
)
    decreases events.len(),
{
    if events.len() == 0 {
        (PipelineOutcome::Incomplete, Seq::<Command>::empty(), 0)
    } else {
        let s = step_spec(intended, events[0]);
        match s.terminal {
            Some(o) => (o, Seq::<Command>::empty(), 1),
            None => {
                let rest = run_spec(s.intended, events.drop_first());
                (rest.0, commands_of(s.command) + rest.1, 1 + rest.2)
            },
        }
    }
}

/// One whole supervision: the attempted initial transition to playing, the
/// event loop if the start was accepted, and the unconditional teardown.
pub open spec fn supervise_spec(start_ok: bool, events: Seq<PipelineEvent>) -> (
    PipelineOutcome,
    Seq<Command>,
    int,
) {
    if !start_ok {
        (PipelineOutcome::StartRefused, seq![playing_command(), teardown_command()], 0)
    } else {
        let r = run_spec(EngineState::Playing, events);
        (r.0, seq![playing_command()] + r.1 + seq![teardown_command()], r.2)
    }
}

/// The record of one supervised run: its outcome, every command issued to
/// the engine (initial start and final teardown included, in order), and
/// how many bus events were consumed.
#[derive(Debug)]
pub struct SupervisionReport {
    pub outcome: PipelineOutcome,
    pub commands: Vec<Command>,
    pub consumed: usize,
}

/// Drive one pipeline through its lifecycle, given whether the initial
/// transition to playing was accepted and the events the bus yielded before
/// closing. The loop stops at the first terminal event; the bus closing
/// without one is the distinct incomplete outcome; teardown is always the
/// last command, exactly once, whatever ended the loop.
pub fn supervise(start_ok: bool, events: Vec<PipelineEvent>) -> (r: SupervisionReport)
    ensures
        r.outcome == supervise_spec(start_ok, events@).0,
        r.commands@ == supervise_spec(start_ok, events@).1,
        r.consumed as int == supervise_spec(start_ok, events@).2,
{
    let ghost all = events@;
    let total = events.len();
    let mut commands: Vec<Command> = Vec::new();
    commands.push(Command::SetState { target: EngineState::Playing });
    if !start_ok {
        commands.push(Command::SetState { target: EngineState::Null });
        assert(commands@ =~= seq![playing_command(), teardown_command()]);
        return SupervisionReport { outcome: PipelineOutcome::StartRefused, commands, consumed: 0 };
    }
    let mut events = events;
    let mut intended = EngineState::Playing;
    let mut terminal: Option<PipelineOutcome> = None;
    let mut consumed: usize = 0;
    while terminal.is_none() && events.len() > 0
        invariant
            commands@.len() >= 1,
            commands@[0] == playing_command(),
            consumed + events@.len() == all.len(),
            all.len() == total,
            terminal is None ==> {
                &&& run_spec(EngineState::Playing, all).0 == run_spec(intended, events@).0
                &&& run_spec(EngineState::Playing, all).1 == commands@.drop_first() + run_spec(
                    intended,
                    events@,
                ).1
                &&& run_spec(EngineState::Playing, all).2 == consumed + run_spec(
                    intended,
                    events@,
                ).2
            },
            terminal matches Some(o) ==> {
                &&& run_spec(EngineState::Playing, all).0 == o
                &&& run_spec(EngineState::Playing, all).1 == commands@.drop_first()
                &&& run_spec(EngineState::Playing, all).2 == consumed
            },
        decreases events.len(),
    {
        let ghost pre_events = events@;
        let ghost pre_commands = commands@;
        let ev = events.remove(0);
        proof {
            assert(events@ =~= pre_events.drop_first());
        }
        consumed = consumed + 1;
        let s = step(intended, ev);
        let ghost spec_s = step_spec(intended, pre_events[0]);
        intended = s.intended;
        match s.command {
            Some(c) => {
                commands.push(c);
            },
            None => {},
        }
        match s.terminal {
            Some(o) => {
                proof {
                    assert(run_spec(EngineState::Playing, all).1 == pre_commands.drop_first()
                        + Seq::<Command>::empty());
                    assert(pre_commands.drop_first() + Seq::<Command>::empty()
                        =~= pre_commands.drop_first());
                    assert(commands@ == pre_commands);
                }
                terminal = Some(o);
            },
            None => {
                proof {
                    let rest = run_spec(spec_s.intended, pre_events.drop_first());
                    assert(run_spec(intended, pre_events).1 == commands_of(spec_s.command)
                        + rest.1);
                    assert(commands@.drop_first() =~= pre_commands.drop_first() + commands_of(
                        spec_s.command,
                    ));
                    assert((pre_commands.drop_first() + commands_of(spec_s.command)) + rest.1
                        =~= pre_commands.drop_first() + (commands_of(spec_s.command) + rest.1));
                }
            },
        }
    }
    let outcome = match terminal {
        Some(o) => o,
        None => {
            proof {
                assert(events@.len() == 0);
                assert(run_spec(intended, events@).1 =~= Seq::<Command>::empty());
                assert(commands@.drop_first() + Seq::<Command>::empty() =~= commands@.drop_first());
            }
            PipelineOutcome::Incomplete
        },
    };
    let ghost pre_teardown = commands@;
    commands.push(Command::SetState { target: EngineState::Null });
    proof {
        assert(pre_teardown =~= seq![playing_command()] + pre_teardown.drop_first());
        assert(commands@ =~= (seq![playing_command()] + run_spec(EngineState::Playing, all).1)
            + seq![teardown_command()]);
    }
    SupervisionReport { outcome, commands, consumed }
}

/// A step ends the loop exactly on the two terminal events.
pub proof fn lemma_step_terminal(intended: EngineState, event: PipelineEvent)
    ensures
        step_spec(intended, event).terminal is Some <==> is_terminal_event(event),
{
}

/// The event loop never issues the teardown command itself.
proof fn lemma_run_no_teardown(intended: EngineState, events: Seq<PipelineEvent>)
    ensures
        forall|i: int|
            0 <= i < run_spec(intended, events).1.len() ==> #[trigger] run_spec(
                intended,
                events,
            ).1[i] != teardown_command(),
    decreases events.len(),
{
    if events.len() > 0 {
        let s = step_spec(intended, events[0]);
        if s.terminal is None {
            lemma_run_no_teardown(s.intended, events.drop_first());
            let here = commands_of(s.command);
            let rest = run_spec(s.intended, events.drop_first()).1;
            assert forall|i: int| 0 <= i < run_spec(intended, events).1.len() implies #[trigger]
            run_spec(intended, events).1[i] != teardown_command() by {
                if i < here.len() {
                    assert(run_spec(intended, events).1[i] == here[0]);
                } else {
                    assert(run_spec(intended, events).1[i] == rest[i - here.len()]);
                }
            }
        }
    }
}

/// Teardown happens exactly once per supervised run, as the very last
/// command, whatever ended the loop: end of stream, a failure report, a
/// refused start, or the bus closing without a terminal event.
pub proof fn lemma_teardown_exactly_once(start_ok: bool, events: Seq<PipelineEvent>)
    ensures
        ({
            let cmds = supervise_spec(start_ok, events).1;
            &&& cmds.len() >= 2
            &&& cmds.last() == teardown_command()
            &&& forall|i: int| 0 <= i < cmds.len() - 1 ==> #[trigger] cmds[i] != teardown_command()
        }),
{
    let cmds = supervise_spec(start_ok, events).1;
    if start_ok {
        lemma_run_no_teardown(EngineState::Playing, events);
        let middle = run_spec(EngineState::Playing, events).1;
        assert(cmds == seq![playing_command()] + middle + seq![teardown_command()]);
        assert(cmds.last() == teardown_command());
        assert forall|i: int| 0 <= i < cmds.len() - 1 implies #[trigger] cmds[i]
            != teardown_command() by {
            if i == 0 {
                assert(cmds[0] == playing_command());
            } else {
                assert(cmds[i] == middle[i - 1]);
            }
        }
    } else {
        assert(cmds[0] == playing_command());
        assert(cmds.last() == teardown_command());
    }
}

/// The first terminal event ends the loop right there: exactly the events
/// up to and including it are consumed, an end of stream ends it as
/// success, and a failure report ends it carrying that report's message.
proof fn lemma_run_first_terminal(intended: EngineState, events: Seq<PipelineEvent>, i: int)
    requires
        0 <= i < events.len(),
        is_terminal_event(events[i]),
        forall|j: int| 0 <= j < i ==> !is_terminal_event(#[trigger] events[j]),
    ensures
        run_spec(intended, events).2 == i + 1,
        events[i] is EndOfStream ==> run_spec(intended, events).0 is Success,
        events[i] matches PipelineEvent::Failure { message } ==> run_spec(intended, events).0
            == (PipelineOutcome::Failed { message }),
    decreases i,
{
    let s = step_spec(intended, events[0]);
    if i == 0 {
        lemma_step_terminal(intended, events[0]);
    } else {
        assert(!is_terminal_event(events[0]));
        lemma_step_terminal(intended, events[0]);
        assert forall|j: int| 0 <= j < i - 1 implies !is_terminal_event(
            #[trigger] events.drop_first()[j],
        ) by {
            assert(events.drop_first()[j] == events[j + 1]);
        }
        assert(events.drop_first()[i - 1] == events[i]);
        lemma_run_first_terminal(s.intended, events.drop_first(), i - 1);
    }
}

/// A pipeline whose bus yields end of stream, with no earlier terminal
/// event, ends the event loop exactly there — the events consumed are
/// precisely those up to and including it — with the success outcome; by
/// `lemma_teardown_exactly_once` the run still proceeds to teardown,
/// exactly once. A first terminal failure report likewise ends the loop
/// there, carrying its message.
pub proof fn lemma_first_terminal_ends_loop(events: Seq<PipelineEvent>, i: int)
    requires
        0 <= i < events.len(),
        is_terminal_event(events[i]),
        forall|j: int| 0 <= j < i ==> !is_terminal_event(#[trigger] events[j]),
    ensures
        supervise_spec(true, events).2 == i + 1,
        events[i] is EndOfStream ==> supervise_spec(true, events).0 is Success,
        events[i] matches PipelineEvent::Failure { message } ==> supervise_spec(true, events).0
            == (PipelineOutcome::Failed { message }),
{
    lemma_run_first_terminal(EngineState::Playing, events, i);
}

/// The commands the loop would issue for a run of events, terminal
/// handling aside; used to locate one event's command inside a whole run.
pub open spec fn phase_commands(intended: EngineState, events: Seq<PipelineEvent>) -> Seq<Command>
    decreases events.len(),
{
    if events.len() == 0 {
        Seq::<Command>::empty()
    } else {
        let s = step_spec(intended, events[0]);
        commands_of(s.command) + phase_commands(s.intended, events.drop_first())
    }
}

/// The intended state after the loop has handled a run of events.
pub open spec fn intended_after(intended: EngineState, events: Seq<PipelineEvent>) -> EngineState
    decreases events.len(),
{
    if events.len() == 0 {
        intended
    } else {
        intended_after(step_spec(intended, events[0]).intended, events.drop_first())
    }
}

proof fn lemma_phase_split(intended: EngineState, events: Seq<PipelineEvent>, k: int)
    requires
        0 <= k <= events.len(),
    ensures
        phase_commands(intended, events) == phase_commands(intended, events.take(k))
            + phase_commands(intended_after(intended, events.take(k)), events.skip(k)),
    decreases k,
{
    if k == 0 {
        assert(events.take(0) =~= Seq::<PipelineEvent>::empty());
        assert(events.skip(0) =~= events);
        assert(phase_commands(intended, events.take(0)) + phase_commands(intended, events)
            =~= phase_commands(intended, events));
    } else {
        let s = step_spec(intended, events[0]);
        let df = events.drop_first();
        lemma_phase_split(s.intended, df, k - 1);
        assert(events.take(k).drop_first() =~= df.take(k - 1));
        assert(df.skip(k - 1) =~= events.skip(k));
        assert(events.take(k)[0] == events[0]);
        assert(phase_commands(intended, events.take(k)) == commands_of(s.command)
            + phase_commands(s.intended, df.take(k - 1)));
        assert(intended_after(intended, events.take(k)) == intended_after(
            s.intended,
            df.take(k - 1),
        ));
        assert(commands_of(s.command) + (phase_commands(s.intended, df.take(k - 1))
            + phase_commands(intended_after(s.intended, df.take(k - 1)), events.skip(k)))
            =~= (commands_of(s.command) + phase_commands(s.intended, df.take(k - 1)))
            + phase_commands(intended_after(s.intended, df.take(k - 1)), events.skip(k)));
    }
}

proof fn lemma_run_split(intended: EngineState, events: Seq<PipelineEvent>, k: int)
    requires
        0 <= k <= events.len(),
        forall|j: int| 0 <= j < k ==> !is_terminal_event(#[trigger] events[j]),
    ensures
        run_spec(intended, events).1 == phase_commands(intended, events.take(k)) + run_spec(
            intended_after(intended, events.take(k)),
            events.skip(k),
        ).1,
    decreases k,
{
    if k == 0 {
        assert(events.take(0) =~= Seq::<PipelineEvent>::empty());
        assert(events.skip(0) =~= events);
        assert(phase_commands(intended, events.take(0)) + run_spec(intended, events).1
            =~= run_spec(intended, events).1);
    } else {
        let s = step_spec(intended, events[0]);
        lemma_step_terminal(intended, events[0]);
        let df = events.drop_first();
        assert forall|j: int| 0 <= j < k - 1 implies !is_terminal_event(
            #[trigger] df[j],
        ) by {
            assert(df[j] == events[j + 1]);
        }
        lemma_run_split(s.intended, df, k - 1);
        assert(events.take(k).drop_first() =~= df.take(k - 1));
        assert(df.skip(k - 1) =~= events.skip(k));
        assert(events.take(k)[0] == events[0]);
        assert(phase_commands(intended, events.take(k)) == commands_of(s.command)
            + phase_commands(s.intended, df.take(k - 1)));
        assert(intended_after(intended, events.take(k)) == intended_after(
            s.intended,
            df.take(k - 1),
        ));
        assert(commands_of(s.command) + (phase_commands(s.intended, df.take(k - 1)) + run_spec(
            intended_after(s.intended, df.take(k - 1)),
            events.skip(k),
        ).1) =~= (commands_of(s.command) + phase_commands(s.intended, df.take(k - 1))) + run_spec(
            intended_after(s.intended, df.take(k - 1)),
            events.skip(k),
        ).1);
    }
}

/// Backpressure handling keeps the event order: the pause issued for a
/// below-full buffering report stands strictly before the resume issued
/// for any later buffering-complete report — `Paused` then `Playing`,
/// never the reverse — as long as no terminal event intervenes.
pub proof fn lemma_backpressure_order(events: Seq<PipelineEvent>, i: int, j: int, p: u32)
    requires
        0 <= i < j < events.len(),
        forall|k: int| 0 <= k <= j ==> !is_terminal_event(#[trigger] events[k]),
        events[i] == (PipelineEvent::BufferingLevel { percent: p }),
        p < 100,
        events[j] == (PipelineEvent::BufferingLevel { percent: 100u32 }),
    ensures
        ({
            let cmds = supervise_spec(true, events).1;
            let a = phase_commands(EngineState::Playing, events.take(i)).len() as int + 1;
            let b = phase_commands(EngineState::Playing, events.take(j)).len() as int + 1;
            &&& 0 < a < b < cmds.len()
            &&& cmds[a] == paused_command()
            &&& cmds[b] == playing_command()
        }),
{
    let start = EngineState::Playing;
    let run1 = run_spec(start, events).1;
    let cmds = supervise_spec(true, events).1;
    assert(cmds == seq![playing_command()] + run1 + seq![teardown_command()]);

    // The command for the below-full report sits right after the commands
    // of the events before it.
    lemma_run_split(start, events, i);
    let ai = intended_after(start, events.take(i));
    let pa = phase_commands(start, events.take(i));
    assert(events.skip(i)[0] == events[i]);
    let si = step_spec(ai, events.skip(i)[0]);
    assert(si.command == Some(paused_command()));
    assert(run_spec(ai, events.skip(i)).1 == seq![paused_command()] + run_spec(
        si.intended,
        events.skip(i).drop_first(),
    ).1);
    assert(run1[pa.len() as int] == paused_command());

    // The command for the buffering-complete report sits right after the
    // commands of the events before it.
    lemma_run_split(start, events, j);
    let aj = intended_after(start, events.take(j));
    let pb = phase_commands(start, events.take(j));
    assert(events.skip(j)[0] == events[j]);
    let sj = step_spec(aj, events.skip(j)[0]);
    assert(sj.command == Some(playing_command()));
    assert(run_spec(aj, events.skip(j)).1 == seq![playing_command()] + run_spec(
        sj.intended,
        events.skip(j).drop_first(),
    ).1);
    assert(run1[pb.len() as int] == playing_command());

    // The earlier report's command comes strictly first.
    lemma_phase_split(start, events.take(j), i);
    assert(events.take(j).take(i) =~= events.take(i));
    let between = events.take(j).skip(i);
    assert(between[0] == events[i]);
    assert(phase_commands(ai, between) == seq![paused_command()] + phase_commands(
        step_spec(ai, between[0]).intended,
        between.drop_first(),
    ));
    assert(pb.len() >= pa.len() + 1);

    assert(cmds[pa.len() as int + 1] == run1[pa.len() as int]);
    assert(cmds[pb.len() as int + 1] == run1[pb.len() as int]);
}

/// An unexpected pause of the top-level element while the supervisor
/// intends playing draws exactly one corrective command, which re-issues
/// playing; every other transition report draws no command and changes no
/// state; transition reports never end the loop.
pub proof fn lemma_stall_correction(
    intended: EngineState,
    element: ElementScope,
    from: EngineState,
    to: EngineState,
)
    ensures
        ({
            let s = step_spec(intended, PipelineEvent::StateTransition { element, from, to });
            &&& s.terminal is None
            &&& (element is TopLevel && to is Paused && intended is Playing) ==> (s.command
                == Some(playing_command()) && s.intended is Playing)
            &&& !(element is TopLevel && to is Paused && intended is Playing) ==> (s.command
                is None && s.intended == intended)
        }),
{
}

} // verus!
