use dashboard_core::terminal::{
    clear_sequence, Command, Event, Geometry, Phase, Session, TerminalAction, INITIAL_COLS,
    INITIAL_ROWS, READ_BUFFER_LEN,
};

fn running() -> Session {
    let (session, _) = Session::start();
    let (session, cmds) = session.step(Event::Spawned);
    assert!(cmds.is_empty());
    assert_eq!(session.phase, Phase::Running);
    session
}

fn restart_commands() -> Vec<Command> {
    vec![
        Command::Release,
        Command::Emit(vec![0x1B, b'c']),
        Command::Spawn(Geometry { rows: 24, cols: 80 }),
    ]
}

fn count_clears(cmds: &[Command]) -> usize {
    cmds.iter().filter(|c| **c == Command::Emit(vec![0x1B, b'c'])).count()
}

fn count_spawns(cmds: &[Command]) -> usize {
    cmds.iter().filter(|c| matches!(c, Command::Spawn(_))).count()
}

#[test]
fn constants_have_their_values() {
    assert_eq!(READ_BUFFER_LEN, 4096);
    assert_eq!(INITIAL_ROWS, 24);
    assert_eq!(INITIAL_COLS, 80);
    assert_eq!(clear_sequence(), b"\x1Bc".to_vec());
    assert_eq!(Geometry::initial(), Geometry { rows: 24, cols: 80 });
}

#[test]
fn start_asks_for_one_shell() {
    let (session, cmds) = Session::start();
    assert_eq!(session.phase, Phase::Starting);
    assert_eq!(session.geometry, Geometry { rows: 24, cols: 80 });
    assert_eq!(cmds, vec![Command::Spawn(Geometry { rows: 24, cols: 80 })]);
    assert!(!session.is_final());
}

#[test]
fn first_spawn_failure_is_final() {
    let (session, _) = Session::start();
    let (session, cmds) = session.step(Event::SpawnFailed);
    assert_eq!(session.phase, Phase::Failed);
    assert!(cmds.is_empty());
    assert!(session.is_final());
}

#[test]
fn input_is_written_verbatim() {
    let (session, cmds) = running().step(Event::Action(TerminalAction::Input(b"ls -l\n".to_vec())));
    assert_eq!(session.phase, Phase::Running);
    assert_eq!(cmds, vec![Command::Write(b"ls -l\n".to_vec())]);
}

#[test]
fn output_is_forwarded() {
    let (session, cmds) = running().step(Event::Output(b"hello".to_vec()));
    assert_eq!(session.phase, Phase::Running);
    assert_eq!(cmds, vec![Command::Emit(b"hello".to_vec())]);
}

#[test]
fn zero_length_read_restarts_once() {
    let (session, cmds) = running().step(Event::Output(Vec::new()));
    assert_eq!(session.phase, Phase::Restarting);
    assert_eq!(cmds, restart_commands());
    assert_eq!(count_clears(&cmds), 1);
    assert_eq!(count_spawns(&cmds), 1);

    let (up, none) = session.step(Event::Spawned);
    assert_eq!(up.phase, Phase::Running);
    assert!(none.is_empty());

    let (down, none) = session.step(Event::SpawnFailed);
    assert_eq!(down.phase, Phase::Failed);
    assert!(none.is_empty());
}

#[test]
fn every_fault_ends_the_period() {
    for fault in [
        Event::ReadFailed,
        Event::WriteFailed,
        Event::ResizeFailed,
        Event::ChildExited,
        Event::Output(Vec::new()),
    ] {
        let (session, cmds) = running().step(fault);
        assert_eq!(session.phase, Phase::Restarting);
        assert_eq!(cmds, restart_commands());
    }
}

#[test]
fn resize_while_running_reaches_the_pty() {
    let g = Geometry { rows: 50, cols: 132 };
    let (session, cmds) = running().step(Event::Action(TerminalAction::Resize(g)));
    assert_eq!(session.phase, Phase::Running);
    assert_eq!(session.geometry, g);
    assert_eq!(cmds, vec![Command::Resize(g)]);
}

#[test]
fn resize_while_restarting_is_dropped() {
    let (restarting, _) = running().step(Event::ChildExited);
    let g = Geometry { rows: 50, cols: 132 };
    let (session, cmds) = restarting.step(Event::Action(TerminalAction::Resize(g)));
    assert_eq!(session, restarting);
    assert!(cmds.is_empty());
}

#[test]
fn respawn_resets_geometry() {
    let g = Geometry { rows: 50, cols: 132 };
    let (session, _) = running().step(Event::Action(TerminalAction::Resize(g)));
    let (session, _) = session.step(Event::ChildExited);
    let (session, _) = session.step(Event::Spawned);
    assert_eq!(session.geometry, Geometry { rows: 24, cols: 80 });
}

#[test]
fn closed_channel_stops_without_restart() {
    let (session, cmds) = running().step(Event::ActionsClosed);
    assert_eq!(session.phase, Phase::Stopped);
    assert_eq!(cmds, vec![Command::Release]);
    assert!(session.is_final());

    let (restarting, _) = running().step(Event::ChildExited);
    let (session, cmds) = restarting.step(Event::ActionsClosed);
    assert_eq!(session.phase, Phase::Stopped);
    assert!(cmds.is_empty());
    let (session, cmds) = session.step(Event::Spawned);
    assert_eq!(session.phase, Phase::Stopped);
    assert_eq!(cmds, vec![Command::Release]);
}

#[test]
fn failed_session_ignores_everything() {
    let (restarting, _) = running().step(Event::ChildExited);
    let (failed, _) = restarting.step(Event::SpawnFailed);
    for event in [
        Event::Spawned,
        Event::SpawnFailed,
        Event::Action(TerminalAction::Input(vec![b'x'])),
        Event::ActionsClosed,
        Event::Output(vec![1, 2, 3]),
        Event::ChildExited,
    ] {
        let (session, cmds) = failed.step(event);
        assert_eq!(session, failed);
        assert!(cmds.is_empty());
    }
}

#[test]
fn three_clean_exits_leave_the_session_running() {
    let events = vec![
        Event::ChildExited,
        Event::Spawned,
        Event::ChildExited,
        Event::Spawned,
        Event::ChildExited,
        Event::Spawned,
    ];
    let (session, cmds) = running().run(events);
    assert_eq!(session.phase, Phase::Running);
    assert_eq!(count_clears(&cmds), 3);
    assert_eq!(count_spawns(&cmds), 3);
    let mut expected = Vec::new();
    for _ in 0..3 {
        expected.extend(restart_commands());
    }
    assert_eq!(cmds, expected);
}

#[test]
fn run_agrees_with_step_by_step() {
    let events = vec![
        Event::Action(TerminalAction::Input(b"a".to_vec())),
        Event::Output(b"a".to_vec()),
        Event::Action(TerminalAction::Resize(Geometry { rows: 10, cols: 20 })),
        Event::WriteFailed,
        Event::Action(TerminalAction::Input(b"lost".to_vec())),
        Event::Spawned,
        Event::Output(b"login: ".to_vec()),
    ];
    let mut session = running();
    let mut cmds = Vec::new();
    for e in events.clone() {
        let (next, more) = session.step(e);
        session = next;
        cmds.extend(more);
    }
    let (ran, ran_cmds) = running().run(events);
    assert_eq!(ran, session);
    assert_eq!(ran_cmds, cmds);
    assert_eq!(
        ran_cmds,
        vec![
            Command::Write(b"a".to_vec()),
            Command::Emit(b"a".to_vec()),
            Command::Resize(Geometry { rows: 10, cols: 20 }),
            Command::Release,
            Command::Emit(vec![0x1B, b'c']),
            Command::Spawn(Geometry { rows: 24, cols: 80 }),
            Command::Emit(b"login: ".to_vec()),
        ]
    );
}

#[test]
fn run_of_nothing_changes_nothing() {
    let (session, cmds) = running().run(Vec::new());
    assert_eq!(session, running());
    assert!(cmds.is_empty());
}
