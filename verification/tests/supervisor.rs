use honey_shell::supervisor::{
    transcription_event, transcription_events, Action, Event, Failure, Phase, Step, Supervisor,
    UiEvent, HELPER_PROGRAM, HELPER_SCRIPT, TRANSCRIBED_TEXT,
};

fn no_lines(action: Action) -> Step {
    Step { lines: Vec::new(), action }
}

#[test]
fn helper_invocation_is_fixed() {
    assert_eq!(HELPER_PROGRAM, "python");
    assert_eq!(HELPER_SCRIPT, "../vad.py");
}

#[test]
fn event_name_is_fixed() {
    assert_eq!(TRANSCRIBED_TEXT, "transcribed_text");
    assert_eq!(transcription_event(String::new()).name, "transcribed_text");
}

#[test]
fn new_supervisor_asks_to_spawn() {
    let supervisor = Supervisor::new();
    assert_eq!(supervisor.phase(), Phase::Launching);
    assert_eq!(supervisor.action(), Action::Spawn);
}

#[test]
fn hello_world_reaches_the_front_end_as_two_events() {
    let mut supervisor = Supervisor::new();
    assert_eq!(supervisor.on_event(Event::Spawned), no_lines(Action::Read));
    let step = supervisor.on_event(Event::Output(b"hello\nworld\n".to_vec()));
    assert_eq!(step.action, Action::Read);
    let events = transcription_events(step.lines);
    assert_eq!(
        events,
        vec![
            UiEvent { name: "transcribed_text".to_string(), payload: "hello".to_string() },
            UiEvent { name: "transcribed_text".to_string(), payload: "world".to_string() },
        ]
    );
    assert_eq!(supervisor.on_event(Event::OutputEnded), no_lines(Action::Wait));
    assert_eq!(supervisor.on_event(Event::Exited), no_lines(Action::Stop));
    assert_eq!(supervisor.phase(), Phase::Finished);
}

#[test]
fn output_in_pieces_is_passed_on_line_by_line() {
    let mut supervisor = Supervisor::new();
    supervisor.on_event(Event::Spawned);
    assert_eq!(supervisor.on_event(Event::Output(b"one\ntw".to_vec())).lines, vec!["one"]);
    assert_eq!(supervisor.on_event(Event::Output(b"o\r".to_vec())).lines, Vec::<String>::new());
    assert_eq!(supervisor.on_event(Event::Output(b"\nthree".to_vec())).lines, vec!["two"]);
    let last = supervisor.on_event(Event::OutputEnded);
    assert_eq!(last, Step { lines: vec!["three".to_string()], action: Action::Wait });
    assert_eq!(supervisor.phase(), Phase::Reaping);
}

#[test]
fn invalid_utf8_does_not_stop_the_stream() {
    let mut supervisor = Supervisor::new();
    supervisor.on_event(Event::Spawned);
    let step = supervisor.on_event(Event::Output(b"bad \xFE byte\ngood\n".to_vec()));
    assert_eq!(step.lines, vec!["bad \u{FFFD} byte", "good"]);
    assert_eq!(step.action, Action::Read);
}

#[test]
fn spawn_failure_stops_the_supervisor() {
    let mut supervisor = Supervisor::new();
    assert_eq!(supervisor.on_event(Event::SpawnFailed), no_lines(Action::Stop));
    assert_eq!(supervisor.phase(), Phase::Failed(Failure::Spawn));
}

#[test]
fn read_failure_stops_the_supervisor_and_drops_the_unfinished_line() {
    let mut supervisor = Supervisor::new();
    supervisor.on_event(Event::Spawned);
    assert_eq!(supervisor.on_event(Event::Output(b"whole\nhalf".to_vec())).lines, vec!["whole"]);
    assert_eq!(supervisor.on_event(Event::ReadFailed), no_lines(Action::Stop));
    assert_eq!(supervisor.phase(), Phase::Failed(Failure::Read));
    assert_eq!(supervisor.on_event(Event::OutputEnded), no_lines(Action::Stop));
}

#[test]
fn wait_failure_stops_the_supervisor() {
    let mut supervisor = Supervisor::new();
    supervisor.on_event(Event::Spawned);
    supervisor.on_event(Event::OutputEnded);
    assert_eq!(supervisor.on_event(Event::WaitFailed), no_lines(Action::Stop));
    assert_eq!(supervisor.phase(), Phase::Failed(Failure::Wait));
}

#[test]
fn stopped_supervisor_ignores_every_event() {
    for stop in [Event::SpawnFailed, Event::Spawned] {
        let mut supervisor = Supervisor::new();
        supervisor.on_event(stop);
        if supervisor.phase() == Phase::Reading {
            supervisor.on_event(Event::OutputEnded);
            supervisor.on_event(Event::Exited);
        }
        let phase = supervisor.phase();
        let events = [
            Event::Spawned,
            Event::SpawnFailed,
            Event::Output(b"late\n".to_vec()),
            Event::OutputEnded,
            Event::ReadFailed,
            Event::Exited,
            Event::WaitFailed,
        ];
        for event in events {
            assert_eq!(supervisor.on_event(event), no_lines(Action::Stop));
            assert_eq!(supervisor.phase(), phase);
        }
    }
}

#[test]
fn unexpected_event_changes_nothing() {
    let mut supervisor = Supervisor::new();
    assert_eq!(supervisor.on_event(Event::Output(b"early\n".to_vec())), no_lines(Action::Spawn));
    assert_eq!(supervisor.on_event(Event::Exited), no_lines(Action::Spawn));
    supervisor.on_event(Event::Spawned);
    assert_eq!(supervisor.on_event(Event::Spawned), no_lines(Action::Read));
    assert_eq!(supervisor.on_event(Event::Exited), no_lines(Action::Read));
    supervisor.on_event(Event::OutputEnded);
    assert_eq!(supervisor.on_event(Event::Output(b"late\n".to_vec())), no_lines(Action::Wait));
    assert_eq!(supervisor.phase(), Phase::Reaping);
}

#[test]
fn phases_ask_for_their_actions() {
    assert_eq!(Phase::Launching.action(), Action::Spawn);
    assert_eq!(Phase::Reading.action(), Action::Read);
    assert_eq!(Phase::Reaping.action(), Action::Wait);
    assert_eq!(Phase::Finished.action(), Action::Stop);
    assert_eq!(Phase::Failed(Failure::Read).action(), Action::Stop);
}

#[test]
fn events_keep_the_order_and_the_text_of_the_lines() {
    let lines = vec!["b".to_string(), "a".to_string(), "b".to_string(), String::new()];
    let events = transcription_events(lines.clone());
    assert_eq!(events.len(), 4);
    for (event, line) in events.iter().zip(lines.iter()) {
        assert_eq!(event.name, "transcribed_text");
        assert_eq!(&event.payload, line);
    }
    assert_eq!(transcription_events(Vec::new()), Vec::new());
}
