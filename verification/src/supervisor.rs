//! The child supervisor and the event bridge.
//!
//! The supervisor launches one helper process, reads its standard output,
//! frames it into lines, waits for the helper when the output ends, and
//! stops. The program around this crate does the launching, the reading and
//! the waiting; what to do next, and which lines to pass on, is decided
//! here. The bridge turns each line into an event for the front end.

use crate::lines::{
    fed_rest, fed_texts, is_plain_line, joined, lemma_fed_in_chunks, lemma_lines_round_trip,
    line_texts, output_texts, text_of, texts, unfinished, written, LineAssembler,
};
use vstd::prelude::*;

verus! {

/// The executable that runs the helper.
pub const HELPER_PROGRAM: &'static str = "python";

/// The helper's script, the one argument of the executable, relative to the
/// working directory of the shell.
pub const HELPER_SCRIPT: &'static str = "../vad.py";

/// The name of the event that carries one line of the helper to the front
/// end.
pub const TRANSCRIBED_TEXT: &'static str = "transcribed_text";

/// What ended a supervisor before its helper was done.
#[derive(Clone, Copy, Debug, PartialEq, Eq)]
pub enum Failure {
    /// The helper could not be launched.
    Spawn,
    /// Reading the helper's output failed.
    Read,
    /// Waiting for the helper to exit failed.
    Wait,
}

/// Where a supervisor stands.
#[derive(Clone, Copy, Debug, PartialEq, Eq)]
pub enum Phase {
    /// The helper is not running yet.
    Launching,
    /// The helper runs and its output is read.
    Reading,
    /// The output has ended and the helper is waited for.
    Reaping,
    /// The helper has exited and its handle is released.
    Finished,
    /// The supervisor gave up; nothing is published any more.
    Failed(Failure),
}

/// What the program does next for a supervisor.
#[derive(Clone, Copy, Debug, PartialEq, Eq)]
pub enum Action {
    /// Launch the helper with its standard output captured.
    Spawn,
    /// Read the next piece of the helper's output.
    Read,
    /// Wait for the helper to exit.
    Wait,
    /// Nothing more: the supervisor is done.
    Stop,
}

/// What the program observed while it did what the supervisor asked for.
#[derive(Debug, PartialEq, Eq)]
pub enum Event {
    /// The helper was launched.
    Spawned,
    /// The helper could not be launched.
    SpawnFailed,
    /// The helper wrote these bytes.
    Output(Vec<u8>),
    /// The helper's output has ended.
    OutputEnded,
    /// Reading the helper's output failed.
    ReadFailed,
    /// The helper has exited.
    Exited,
    /// Waiting for the helper failed.
    WaitFailed,
}

/// The answer to one event: the lines to pass on, in order, and what to do
/// next.
#[derive(Debug, PartialEq, Eq)]
pub struct Step {
    /// The lines that the event finished.
    pub lines: Vec<String>,
    /// What the program does next.
    pub action: Action,
}

/// A supervisor as contracts see it.
pub struct SupervisorView {
    /// Where it stands.
    pub phase: Phase,
    /// The bytes of the helper's output since the last line feed.
    pub held: Seq<u8>,
}

/// The supervisor of one helper process.
pub struct Supervisor {
    phase: Phase,
    assembler: LineAssembler,
}

/// The phase that follows `phase` on `event`. An event that a phase does not
/// wait for changes nothing.
pub open spec fn next_phase(phase: Phase, event: Event) -> Phase {
    match (phase, event) {
        (Phase::Launching, Event::Spawned) => Phase::Reading,
        (Phase::Launching, Event::SpawnFailed) => Phase::Failed(Failure::Spawn),
        (Phase::Reading, Event::OutputEnded) => Phase::Reaping,
        (Phase::Reading, Event::ReadFailed) => Phase::Failed(Failure::Read),
        (Phase::Reaping, Event::Exited) => Phase::Finished,
        (Phase::Reaping, Event::WaitFailed) => Phase::Failed(Failure::Wait),
        _ => phase,
    }
}

/// What the program is asked to do in `phase`.
pub open spec fn action_in(phase: Phase) -> Action {
    match phase {
        Phase::Launching => Action::Spawn,
        Phase::Reading => Action::Read,
        Phase::Reaping => Action::Wait,
        Phase::Finished => Action::Stop,
        Phase::Failed(_) => Action::Stop,
    }
}

/// The texts of the lines that `event` finishes for a supervisor in `state`:
/// output finishes the lines whose line feed it brings, and the end of the
/// output finishes what was left. Nothing else finishes a line.
pub open spec fn published(state: SupervisorView, event: Event) -> Seq<Seq<char>> {
    match (state.phase, event) {
        (Phase::Reading, Event::Output(chunk)) => line_texts(state.held + chunk@),
        (Phase::Reading, Event::OutputEnded) => if state.held.len() > 0 {
            seq![text_of(state.held)]
        } else {
            Seq::empty()
        },
        _ => Seq::empty(),
    }
}

/// The bytes held back after `event`.
pub open spec fn held_after(state: SupervisorView, event: Event) -> Seq<u8> {
    match (state.phase, event) {
        (Phase::Reading, Event::Output(chunk)) => unfinished(state.held + chunk@),
        (Phase::Reading, Event::OutputEnded) => Seq::empty(),
        (Phase::Reading, Event::ReadFailed) => Seq::empty(),
        _ => state.held,
    }
}

/// The supervisor after `event`.
pub open spec fn after(state: SupervisorView, event: Event) -> SupervisorView {
    SupervisorView { phase: next_phase(state.phase, event), held: held_after(state, event) }
}

impl View for Supervisor {
    type V = SupervisorView;

    closed spec fn view(&self) -> SupervisorView {
        SupervisorView { phase: self.phase, held: self.assembler@ }
    }
}

impl Phase {
    /// The action that this phase asks for.
    pub fn action(&self) -> (action: Action)
        ensures
            action == action_in(*self),
    {
        match self {
            Phase::Launching => Action::Spawn,
            Phase::Reading => Action::Read,
            Phase::Reaping => Action::Wait,
            Phase::Finished => Action::Stop,
            Phase::Failed(_) => Action::Stop,
        }
    }
}

impl Supervisor {
    /// A supervisor whose helper is yet to be launched.
    pub fn new() -> (supervisor: Self)
        ensures
            supervisor@ == (SupervisorView { phase: Phase::Launching, held: Seq::empty() }),
    {
        Supervisor { phase: Phase::Launching, assembler: LineAssembler::new() }
    }

    /// Where the supervisor stands.
    pub fn phase(&self) -> (phase: Phase)
        ensures
            phase == self@.phase,
    {
        self.phase
    }

    /// What the program does next.
    pub fn action(&self) -> (action: Action)
        ensures
            action == action_in(self@.phase),
    {
        self.phase.action()
    }

    /// Takes what the program observed and answers with the lines to pass
    /// on and with what to do next.
    pub fn on_event(&mut self, event: Event) -> (step: Step)
        ensures
            final(self)@ == after(old(self)@, event),
            texts(step.lines@) == published(old(self)@, event),
            step.action == action_in(final(self)@.phase),
    {
        let mut lines: Vec<String> = Vec::new();
        assert(texts(lines@) =~= Seq::<Seq<char>>::empty());
        match self.phase {
            Phase::Launching => match event {
                Event::Spawned => {
                    self.phase = Phase::Reading;
                },
                Event::SpawnFailed => {
                    self.phase = Phase::Failed(Failure::Spawn);
                },
                _ => {},
            },
            Phase::Reading => match event {
                Event::Output(chunk) => {
                    lines = self.assembler.feed(chunk.as_slice());
                },
                Event::OutputEnded => {
                    match self.assembler.finish() {
                        Some(last) => {
                            lines.push(last);
                            assert(texts(lines@) =~= seq![last@]);
                        },
                        None => {},
                    }
                    self.phase = Phase::Reaping;
                },
                Event::ReadFailed => {
                    let _ = self.assembler.finish();
                    self.phase = Phase::Failed(Failure::Read);
                },
                _ => {},
            },
            Phase::Reaping => match event {
                Event::Exited => {
                    self.phase = Phase::Finished;
                },
                Event::WaitFailed => {
                    self.phase = Phase::Failed(Failure::Wait);
                },
                _ => {},
            },
            Phase::Finished => {},
            Phase::Failed(_) => {},
        }
        Step { lines, action: self.phase.action() }
    }
}

/// One notification for the front end.
#[derive(Clone, Debug, PartialEq, Eq)]
pub struct UiEvent {
    /// The name under which the front end subscribes.
    pub name: String,
    /// The text that the event carries.
    pub payload: String,
}

/// The event bridge: the event that carries `line` to the front end. Its
/// name is always the same, and its payload is the line as it came.
pub fn transcription_event(line: String) -> (event: UiEvent)
    ensures
        event.name@ == TRANSCRIBED_TEXT@,
        event.payload == line,
{
    UiEvent { name: TRANSCRIBED_TEXT.to_string(), payload: line }
}

/// The events for `lines`, one for each line, in the order of the lines.
pub fn transcription_events(lines: Vec<String>) -> (events: Vec<UiEvent>)
    ensures
        events@.len() == lines@.len(),
        forall|i: int|
            0 <= i < lines@.len() ==> (#[trigger] events@[i]).name@ == TRANSCRIBED_TEXT@
                && events@[i].payload == lines@[i],
{
    let mut events: Vec<UiEvent> = Vec::new();
    let mut i: usize = 0;
    while i < lines.len()
        invariant
            i <= lines.len(),
            events@.len() == i,
            forall|k: int|
                0 <= k < i ==> (#[trigger] events@[k]).name@ == TRANSCRIBED_TEXT@
                    && events@[k].payload == lines@[k],
        decreases lines.len() - i,
    {
        events.push(transcription_event(lines[i].clone()));
        i += 1;
    }
    events
}

/// The state of a supervisor after `events`, taken in order.
pub open spec fn after_all(state: SupervisorView, events: Seq<Event>) -> SupervisorView
    decreases events.len(),
{
    if events.len() == 0 {
        state
    } else {
        after_all(after(state, events.first()), events.drop_first())
    }
}

/// The texts of all lines that `events`, taken in order, finish.
pub open spec fn published_by_all(state: SupervisorView, events: Seq<Event>) -> Seq<Seq<char>>
    decreases events.len(),
{
    if events.len() == 0 {
        Seq::empty()
    } else {
        published(state, events.first()) + published_by_all(
            after(state, events.first()),
            events.drop_first(),
        )
    }
}

/// The pieces of output that `events` hold, where every one is output.
pub open spec fn chunks_of(events: Seq<Event>) -> Seq<Seq<u8>> {
    events.map_values(|event: Event| event->Output_0@)
}

/// A supervisor that stopped stays as it is: no event changes its state,
/// finishes a line, or asks for anything but to stop.
pub proof fn lemma_stopped_is_final(state: SupervisorView, event: Event)
    requires
        state.phase is Finished || state.phase is Failed,
    ensures
        after(state, event) == state,
        published(state, event) == Seq::<Seq<char>>::empty(),
        action_in(state.phase) == Action::Stop,
{
}

/// Events taken in two runs do what they do in one.
pub proof fn lemma_runs_compose(state: SupervisorView, first: Seq<Event>, second: Seq<Event>)
    ensures
        after_all(state, first + second) == after_all(after_all(state, first), second),
        published_by_all(state, first + second) == published_by_all(state, first)
            + published_by_all(after_all(state, first), second),
    decreases first.len(),
{
    if first.len() == 0 {
        assert(first + second =~= second);
        assert(Seq::<Seq<char>>::empty() + published_by_all(state, second) =~= published_by_all(
            state,
            second,
        ));
    } else {
        let next = after(state, first.first());
        assert((first + second).first() == first.first());
        assert((first + second).drop_first() =~= first.drop_first() + second);
        lemma_runs_compose(next, first.drop_first(), second);
        assert(published(state, first.first()) + (published_by_all(next, first.drop_first())
            + published_by_all(after_all(state, first), second)) =~= (published(
            state,
            first.first(),
        ) + published_by_all(next, first.drop_first())) + published_by_all(
            after_all(state, first),
            second,
        ));
    }
}

/// While a supervisor reads, pieces of output finish the lines that an
/// assembler fed with them hands out, and leave it reading.
pub proof fn lemma_reading(held: Seq<u8>, outputs: Seq<Event>)
    requires
        forall|i: int| 0 <= i < outputs.len() ==> (#[trigger] outputs[i]) is Output,
    ensures
        after_all(SupervisorView { phase: Phase::Reading, held }, outputs) == (SupervisorView {
            phase: Phase::Reading,
            held: fed_rest(held, chunks_of(outputs)),
        }),
        published_by_all(SupervisorView { phase: Phase::Reading, held }, outputs) == fed_texts(
            held,
            chunks_of(outputs),
        ),
    decreases outputs.len(),
{
    if outputs.len() > 0 {
        let state = SupervisorView { phase: Phase::Reading, held };
        let rest = outputs.drop_first();
        assert(outputs[0] is Output);
        assert forall|i: int| 0 <= i < rest.len() implies (#[trigger] rest[i]) is Output by {
            assert(rest[i] == outputs[i + 1]);
        }
        assert(chunks_of(outputs).first() == outputs.first()->Output_0@);
        assert(chunks_of(outputs).drop_first() =~= chunks_of(rest));
        lemma_reading(held_after(state, outputs.first()), rest);
    }
}

/// From launch to exit: a helper that is launched, writes its output in any
/// number of pieces, ends its output and exits makes the supervisor pass on
/// exactly the lines of that output, in order, and finish.
pub proof fn lemma_whole_run(outputs: Seq<Event>)
    requires
        forall|i: int| 0 <= i < outputs.len() ==> (#[trigger] outputs[i]) is Output,
    ensures
        ({
            let start = SupervisorView { phase: Phase::Launching, held: Seq::empty() };
            let events = seq![Event::Spawned] + outputs + seq![Event::OutputEnded, Event::Exited];
            &&& after_all(start, events) == (SupervisorView {
                phase: Phase::Finished,
                held: Seq::empty(),
            })
            &&& published_by_all(start, events) == output_texts(joined(chunks_of(outputs)))
        }),
{
    let start = SupervisorView { phase: Phase::Launching, held: Seq::empty() };
    let reading = SupervisorView { phase: Phase::Reading, held: Seq::empty() };
    let head = seq![Event::Spawned];
    let tail = seq![Event::OutputEnded, Event::Exited];
    let chunks = chunks_of(outputs);
    let stream = joined(chunks);
    let read = SupervisorView { phase: Phase::Reading, held: unfinished(stream) };

    reveal_with_fuel(after_all, 3);
    reveal_with_fuel(published_by_all, 3);
    assert(head.drop_first() =~= Seq::<Event>::empty());
    assert(after_all(start, head) == reading);
    assert(published_by_all(start, head) =~= Seq::<Seq<char>>::empty());

    lemma_reading(Seq::empty(), outputs);
    lemma_fed_in_chunks(Seq::empty(), chunks);
    assert(Seq::<u8>::empty() + stream =~= stream);
    assert(after_all(reading, outputs) == read);
    assert(published_by_all(reading, outputs) == line_texts(stream));

    let reaping = SupervisorView { phase: Phase::Reaping, held: Seq::empty() };
    assert(tail.first() == Event::OutputEnded);
    assert(tail.drop_first() =~= seq![Event::Exited]);
    assert(tail.drop_first().first() == Event::Exited);
    assert(tail.drop_first().drop_first() =~= Seq::<Event>::empty());
    assert(after(read, Event::OutputEnded) == reaping);
    assert(after_all(read, tail) == (SupervisorView {
        phase: Phase::Finished,
        held: Seq::empty(),
    }));
    assert(published_by_all(read, tail) =~= published(read, Event::OutputEnded));

    lemma_runs_compose(start, head, outputs + tail);
    lemma_runs_compose(reading, outputs, tail);
    assert(head + (outputs + tail) =~= head + outputs + tail);
    assert(published_by_all(start, head + outputs + tail) =~= output_texts(stream));
}

/// Lines reach the front end as the helper wrote them: where the helper's
/// output, in whatever pieces it came, is `lines` written one after the
/// other, the supervisor passes on exactly `lines`, each once and in the
/// helper's order.
pub proof fn lemma_lines_reach_the_bridge(lines: Seq<Seq<char>>, outputs: Seq<Event>)
    requires
        forall|i: int| 0 <= i < lines.len() ==> is_plain_line(#[trigger] lines[i]),
        forall|i: int| 0 <= i < outputs.len() ==> (#[trigger] outputs[i]) is Output,
        joined(chunks_of(outputs)) == written(lines),
    ensures
        published_by_all(
            SupervisorView { phase: Phase::Launching, held: Seq::empty() },
            seq![Event::Spawned] + outputs + seq![Event::OutputEnded, Event::Exited],
        ) == lines,
{
    lemma_whole_run(outputs);
    lemma_lines_round_trip(lines);
}

} // verus!
