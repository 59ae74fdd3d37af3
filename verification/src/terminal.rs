//! The terminal session: one login shell on a pseudo-terminal, restarted
//! whenever it ends.
//!
//! The session itself never touches a pseudo-terminal. It is a state machine:
//! [`Session::step`] takes what the driver observed and returns the commands
//! the driver has to carry out, in order, before it observes anything else.
//! A command that fails is reported back as the next event.

use vstd::prelude::*;

verus! {

/// Size of the buffer the driver reads pseudo-terminal output into.
pub const READ_BUFFER_LEN: usize = 4096;

/// Rows of a freshly opened pseudo-terminal.
pub const INITIAL_ROWS: u16 = 24;

/// Columns of a freshly opened pseudo-terminal.
pub const INITIAL_COLS: u16 = 80;

/// The two bytes `ESC c`, which reset a terminal emulator to a clean screen.
pub open spec fn clear_sequence_spec() -> Seq<u8> {
    seq![0x1Bu8, 0x63u8]
}

/// The bytes sent downstream whenever a shell has ended.
pub fn clear_sequence() -> (bytes: Vec<u8>)
    ensures
        bytes@ == clear_sequence_spec(),
{
    let mut bytes: Vec<u8> = Vec::new();
    bytes.push(0x1Bu8);
    bytes.push(0x63u8);
    assert(bytes@ =~= clear_sequence_spec());
    bytes
}

/// Size of a terminal window in character cells.
#[derive(Clone, Copy, Debug, PartialEq, Eq, Structural)]
pub struct Geometry {
    pub rows: u16,
    pub cols: u16,
}

impl Geometry {
    /// The geometry every new pseudo-terminal starts with.
    pub open spec fn initial_spec() -> Geometry {
        Geometry { rows: INITIAL_ROWS, cols: INITIAL_COLS }
    }

    /// The geometry every new pseudo-terminal starts with.
    pub fn initial() -> (g: Geometry)
        ensures
            g == Geometry::initial_spec(),
    {
        Geometry { rows: INITIAL_ROWS, cols: INITIAL_COLS }
    }
}

/// Where a session is in its life.
#[derive(Clone, Copy, Debug, PartialEq, Eq, Structural)]
pub enum Phase {
    /// The first shell has been asked for and has not come up yet.
    Starting,
    /// A shell is up; bytes flow both ways.
    Running,
    /// The last shell ended; a new one has been asked for.
    Restarting,
    /// A shell could not be spawned. The session never leaves this phase.
    Failed,
    /// Nobody can send to the session any more. The session never leaves
    /// this phase.
    Stopped,
}

/// A request made of the session by a viewer.
#[derive(Clone, Debug, PartialEq, Eq)]
pub enum TerminalAction {
    /// Keystrokes for the shell.
    Input(Vec<u8>),
    /// The viewer's window changed size.
    Resize(Geometry),
}

/// What [`TerminalAction`] is to a contract.
pub enum TerminalActionView {
    Input(Seq<u8>),
    Resize(Geometry),
}

impl View for TerminalAction {
    type V = TerminalActionView;

    open spec fn view(&self) -> TerminalActionView {
        match *self {
            TerminalAction::Input(data) => TerminalActionView::Input(data@),
            TerminalAction::Resize(g) => TerminalActionView::Resize(g),
        }
    }
}

/// Something the driver observed.
#[derive(Clone, Debug, PartialEq, Eq)]
pub enum Event {
    /// The spawn that was asked for succeeded.
    Spawned,
    /// The spawn that was asked for failed.
    SpawnFailed,
    /// A viewer sent an action.
    Action(TerminalAction),
    /// The channel that actions arrive on has no senders left.
    ActionsClosed,
    /// A read from the pseudo-terminal returned these bytes. No bytes means
    /// end of stream.
    Output(Vec<u8>),
    /// A read from the pseudo-terminal failed.
    ReadFailed,
    /// The write that was asked for failed.
    WriteFailed,
    /// The resize that was asked for failed.
    ResizeFailed,
    /// The shell process ended.
    ChildExited,
}

/// What [`Event`] is to a contract.
pub enum EventView {
    Spawned,
    SpawnFailed,
    Action(TerminalActionView),
    ActionsClosed,
    Output(Seq<u8>),
    ReadFailed,
    WriteFailed,
    ResizeFailed,
    ChildExited,
}

impl View for Event {
    type V = EventView;

    open spec fn view(&self) -> EventView {
        match *self {
            Event::Spawned => EventView::Spawned,
            Event::SpawnFailed => EventView::SpawnFailed,
            Event::Action(a) => EventView::Action(a@),
            Event::ActionsClosed => EventView::ActionsClosed,
            Event::Output(data) => EventView::Output(data@),
            Event::ReadFailed => EventView::ReadFailed,
            Event::WriteFailed => EventView::WriteFailed,
            Event::ResizeFailed => EventView::ResizeFailed,
            Event::ChildExited => EventView::ChildExited,
        }
    }
}

/// Something the driver has to do.
#[derive(Clone, Debug, PartialEq, Eq)]
pub enum Command {
    /// Open a pseudo-terminal of this size and spawn a login shell on it.
    /// Answer with [`Event::Spawned`] or [`Event::SpawnFailed`].
    Spawn(Geometry),
    /// Write all of these bytes to the pseudo-terminal. Answer with
    /// [`Event::WriteFailed`] if that fails.
    Write(Vec<u8>),
    /// Set the pseudo-terminal's size. Answer with [`Event::ResizeFailed`] if
    /// that fails.
    Resize(Geometry),
    /// Send these bytes downstream as terminal output. A failure to send is
    /// ignored.
    Emit(Vec<u8>),
    /// Let go of the pseudo-terminal and of the shell process.
    Release,
}

/// What [`Command`] is to a contract.
pub enum CommandView {
    Spawn(Geometry),
    Write(Seq<u8>),
    Resize(Geometry),
    Emit(Seq<u8>),
    Release,
}

impl View for Command {
    type V = CommandView;

    open spec fn view(&self) -> CommandView {
        match *self {
            Command::Spawn(g) => CommandView::Spawn(g),
            Command::Write(data) => CommandView::Write(data@),
            Command::Resize(g) => CommandView::Resize(g),
            Command::Emit(data) => CommandView::Emit(data@),
            Command::Release => CommandView::Release,
        }
    }
}

/// The views of a list of commands, in order.
pub open spec fn command_views(cmds: Seq<Command>) -> Seq<CommandView> {
    Seq::new(cmds.len(), |i: int| cmds[i]@)
}

/// A terminal session.
#[derive(Clone, Copy, Debug, PartialEq, Eq, Structural)]
pub struct Session {
    /// Where the session is in its life.
    pub phase: Phase,
    /// The size the pseudo-terminal was last asked to have.
    pub geometry: Geometry,
}

/// Does this event end the period in which a shell is running?
///
/// A failed read, write or resize does, and so does end of stream on the
/// pseudo-terminal and the exit of the shell. An action and a non-empty read
/// do not.
pub open spec fn ends_period(event: EventView) -> bool {
    match event {
        EventView::Output(data) => data.len() == 0,
        EventView::ReadFailed => true,
        EventView::WriteFailed => true,
        EventView::ResizeFailed => true,
        EventView::ChildExited => true,
        _ => false,
    }
}

/// What the driver does when a shell has ended: let go of the old
/// pseudo-terminal, clear the viewers' screens, ask for a new shell.
pub open spec fn restart_commands() -> Seq<CommandView> {
    seq![
        CommandView::Release,
        CommandView::Emit(clear_sequence_spec()),
        CommandView::Spawn(Geometry::initial_spec()),
    ]
}

impl Session {
    /// The same session in another phase.
    pub open spec fn in_phase(self, phase: Phase) -> Session {
        Session { phase, geometry: self.geometry }
    }
}

/// The session after `event`, and the commands that `event` calls for.
///
/// While a shell is asked for, only the outcome of the spawn and the closing
/// of the action channel matter; anything else is passed over. While a shell
/// runs, whatever ends the period restarts it; keystrokes are written, a
/// resize is applied, output is sent on, and the closing of the action
/// channel stops the session. A session that has failed takes note of
/// nothing. One that has stopped lets go of a shell that comes up too late.
pub open spec fn transition(session: Session, event: EventView) -> (Session, Seq<CommandView>) {
    match session.phase {
        Phase::Starting | Phase::Restarting => match event {
            EventView::Spawned => (
                Session { phase: Phase::Running, geometry: Geometry::initial_spec() },
                Seq::empty(),
            ),
            EventView::SpawnFailed => (session.in_phase(Phase::Failed), Seq::empty()),
            EventView::ActionsClosed => (session.in_phase(Phase::Stopped), Seq::empty()),
            _ => (session, Seq::empty()),
        },
        Phase::Running => if ends_period(event) {
            (session.in_phase(Phase::Restarting), restart_commands())
        } else {
            match event {
                EventView::ActionsClosed => (
                    session.in_phase(Phase::Stopped),
                    seq![CommandView::Release],
                ),
                EventView::Action(TerminalActionView::Input(data)) => (
                    session,
                    seq![CommandView::Write(data)],
                ),
                EventView::Action(TerminalActionView::Resize(g)) => (
                    Session { phase: Phase::Running, geometry: g },
                    seq![CommandView::Resize(g)],
                ),
                EventView::Output(data) => (session, seq![CommandView::Emit(data)]),
                _ => (session, Seq::empty()),
            }
        },
        Phase::Failed => (session, Seq::empty()),
        Phase::Stopped => match event {
            EventView::Spawned => (session, seq![CommandView::Release]),
            _ => (session, Seq::empty()),
        },
    }
}

fn restart() -> (cmds: Vec<Command>)
    ensures
        command_views(cmds@) == restart_commands(),
{
    let mut cmds: Vec<Command> = Vec::new();
    cmds.push(Command::Release);
    cmds.push(Command::Emit(clear_sequence()));
    cmds.push(Command::Spawn(Geometry::initial()));
    assert(command_views(cmds@) =~= restart_commands());
    cmds
}

fn no_commands() -> (cmds: Vec<Command>)
    ensures
        command_views(cmds@) == Seq::<CommandView>::empty(),
{
    let cmds: Vec<Command> = Vec::new();
    assert(command_views(cmds@) =~= Seq::<CommandView>::empty());
    cmds
}

fn one_command(cmd: Command) -> (cmds: Vec<Command>)
    ensures
        command_views(cmds@) == seq![cmd@],
{
    let mut cmds: Vec<Command> = Vec::new();
    cmds.push(cmd);
    assert(command_views(cmds@) =~= seq![cmd@]);
    cmds
}

impl Session {
    /// A new session, and the command that asks for its first shell.
    pub fn start() -> (r: (Session, Vec<Command>))
        ensures
            r.0 == (Session { phase: Phase::Starting, geometry: Geometry::initial_spec() }),
            command_views(r.1@) == seq![CommandView::Spawn(Geometry::initial_spec())],
    {
        let session = Session { phase: Phase::Starting, geometry: Geometry::initial() };
        (session, one_command(Command::Spawn(Geometry::initial())))
    }

    /// Has the session come to rest for good?
    pub open spec fn is_final_spec(&self) -> bool {
        self.phase == Phase::Failed || self.phase == Phase::Stopped
    }

    /// Has the session come to rest for good? Once it has, the driver may
    /// stop observing.
    #[verifier::when_used_as_spec(is_final_spec)]
    pub fn is_final(&self) -> (b: bool)
        ensures
            b == self.is_final_spec(),
    {
        match self.phase {
            Phase::Failed => true,
            Phase::Stopped => true,
            _ => false,
        }
    }

    /// The session after `event`, and the commands the driver has to carry
    /// out, in order, before it observes the next event.
    pub fn step(self, event: Event) -> (r: (Session, Vec<Command>))
        ensures
            (r.0, command_views(r.1@)) == transition(self, event@),
            r.1@.len() == transition(self, event@).1.len(),
    {
        match self.phase {
            Phase::Starting | Phase::Restarting => match event {
                Event::Spawned => (
                    Session { phase: Phase::Running, geometry: Geometry::initial() },
                    no_commands(),
                ),
                Event::SpawnFailed => (
                    Session { phase: Phase::Failed, geometry: self.geometry },
                    no_commands(),
                ),
                Event::ActionsClosed => (
                    Session { phase: Phase::Stopped, geometry: self.geometry },
                    no_commands(),
                ),
                _ => (self, no_commands()),
            },
            Phase::Running => match event {
                Event::ActionsClosed => (
                    Session { phase: Phase::Stopped, geometry: self.geometry },
                    one_command(Command::Release),
                ),
                Event::Action(TerminalAction::Input(data)) => (
                    self,
                    one_command(Command::Write(data)),
                ),
                Event::Action(TerminalAction::Resize(g)) => (
                    Session { phase: Phase::Running, geometry: g },
                    one_command(Command::Resize(g)),
                ),
                Event::Output(data) => {
                    if data.len() == 0 {
                        (Session { phase: Phase::Restarting, geometry: self.geometry }, restart())
                    } else {
                        (self, one_command(Command::Emit(data)))
                    }
                },
                Event::ReadFailed | Event::WriteFailed | Event::ResizeFailed
                | Event::ChildExited => (
                    Session { phase: Phase::Restarting, geometry: self.geometry },
                    restart(),
                ),
                Event::Spawned | Event::SpawnFailed => (self, no_commands()),
            },
            Phase::Failed => (self, no_commands()),
            Phase::Stopped => match event {
                Event::Spawned => (self, one_command(Command::Release)),
                _ => (self, no_commands()),
            },
        }
    }
}

/// What a whole run of events does: the session after the last of them, and
/// every command they called for, in order.
pub open spec fn run_spec(session: Session, events: Seq<EventView>) -> (Session, Seq<CommandView>)
    decreases events.len(),
{
    if events.len() == 0 {
        (session, Seq::empty())
    } else {
        let before = run_spec(session, events.drop_last());
        let last = transition(before.0, events.last());
        (last.0, before.1 + last.1)
    }
}

/// The views of a list of events, in order.
pub open spec fn event_views(events: Seq<Event>) -> Seq<EventView> {
    Seq::new(events.len(), |i: int| events[i]@)
}

/// How many shells a list of commands asks for.
pub open spec fn count_spawns(cmds: Seq<CommandView>) -> nat
    decreases cmds.len(),
{
    if cmds.len() == 0 {
        0
    } else {
        count_spawns(cmds.drop_last()) + if cmds.last() is Spawn {
            1nat
        } else {
            0nat
        }
    }
}

/// How many times a run of events ends a period in which a shell was running.
pub open spec fn count_period_ends(session: Session, events: Seq<EventView>) -> nat
    decreases events.len(),
{
    if events.len() == 0 {
        0
    } else {
        let before = run_spec(session, events.drop_last()).0;
        count_period_ends(session, events.drop_last()) + if before.phase == Phase::Running
            && ends_period(events.last()) {
            1nat
        } else {
            0nat
        }
    }
}

impl Session {
    /// Feeds a whole run of events to the session, as if each had been given
    /// to [`Session::step`] in turn.
    pub fn run(self, events: Vec<Event>) -> (r: (Session, Vec<Command>))
        ensures
            (r.0, command_views(r.1@)) == run_spec(self, event_views(events@)),
            r.1@.len() == run_spec(self, event_views(events@)).1.len(),
    {
        let ghost all = event_views(events@);
        let mut session = self;
        let mut cmds: Vec<Command> = Vec::new();
        assert(all.take(0) =~= Seq::<EventView>::empty());
        assert(command_views(cmds@) =~= Seq::<CommandView>::empty());
        for event in it: events
            invariant
                event_views(it.seq()) == all,
                (session, command_views(cmds@)) == run_spec(self, all.take(it.index() as int)),
                cmds@.len() == run_spec(self, all.take(it.index() as int)).1.len(),
        {
            let ghost before = command_views(cmds@);
            proof {
                assert(all.take(it.index() + 1).drop_last() =~= all.take(it.index() as int));
                assert(all.take(it.index() + 1).last() == event@);
            }
            let (next, mut more) = session.step(event);
            let ghost more_views = command_views(more@);
            cmds.append(&mut more);
            assert(command_views(cmds@) =~= before + more_views);
            session = next;
        }
        assert(all.take(all.len() as int) =~= all);
        (session, cmds)
    }
}

/// When the pseudo-terminal reports end of stream to a running session, the
/// session goes to `Restarting` and asks, in this order, for the old resources
/// to be released, for one clear sequence to be sent downstream and for one
/// new shell; nothing else. Whatever the spawn does, the session asks for
/// nothing more: it is `Running` again if the spawn succeeded and `Failed` if
/// it did not.
pub proof fn lemma_end_of_stream_restarts_once(session: Session)
    requires
        session.phase == Phase::Running,
    ensures
        ({
            let (restarting, cmds) = transition(session, EventView::Output(Seq::empty()));
            &&& restarting.phase == Phase::Restarting
            &&& cmds == seq![
                CommandView::Release,
                CommandView::Emit(clear_sequence_spec()),
                CommandView::Spawn(Geometry::initial_spec()),
            ]
            &&& count_spawns(cmds) == 1
            &&& transition(restarting, EventView::Spawned).0.phase == Phase::Running
            &&& transition(restarting, EventView::Spawned).1.len() == 0
            &&& transition(restarting, EventView::SpawnFailed).0.phase == Phase::Failed
            &&& transition(restarting, EventView::SpawnFailed).1.len() == 0
        }),
{
    let cmds = restart_commands();
    reveal_with_fuel(count_spawns, 4);
    assert(cmds.drop_last() =~= seq![
        CommandView::Release,
        CommandView::Emit(clear_sequence_spec()),
    ]);
    assert(cmds.drop_last().drop_last() =~= seq![CommandView::Release]);
    assert(cmds.drop_last().drop_last().drop_last() =~= Seq::<CommandView>::empty());
}

/// Every event that ends a running period is answered as end of stream is:
/// release, one clear sequence, one spawn.
pub proof fn lemma_period_end_restarts(session: Session, event: EventView)
    requires
        session.phase == Phase::Running,
        ends_period(event),
    ensures
        transition(session, event).0.phase == Phase::Restarting,
        transition(session, event).1 == restart_commands(),
{
}

/// A resize that reaches a running session is passed to the pseudo-terminal
/// at once, as the only command of that step, and the session remembers the
/// new size.
pub proof fn lemma_resize_while_running(session: Session, g: Geometry)
    requires
        session.phase == Phase::Running,
    ensures
        ({
            let (next, cmds) = transition(
                session,
                EventView::Action(TerminalActionView::Resize(g)),
            );
            &&& next.phase == Phase::Running
            &&& next.geometry == g
            &&& cmds == seq![CommandView::Resize(g)]
        }),
{
}

/// An action that reaches a session with no shell up is dropped: the session
/// stays as it is and asks for nothing.
pub proof fn lemma_action_without_shell_is_dropped(session: Session, action: TerminalActionView)
    requires
        session.phase != Phase::Running,
    ensures
        transition(session, EventView::Action(action)) == (session, Seq::<CommandView>::empty()),
{
}

/// When the channel that actions arrive on is closed, a session that has not
/// failed stops, and does not ask for another shell: it lets go of the shell
/// it has, if it has one, and that is all.
pub proof fn lemma_closed_channel_stops(session: Session)
    requires
        session.phase != Phase::Failed,
    ensures
        ({
            let (next, cmds) = transition(session, EventView::ActionsClosed);
            &&& next.phase == Phase::Stopped
            &&& cmds == if session.phase == Phase::Running {
                seq![CommandView::Release]
            } else {
                Seq::<CommandView>::empty()
            }
            &&& count_spawns(cmds) == 0
        }),
{
    let cmds = transition(session, EventView::ActionsClosed).1;
    reveal_with_fuel(count_spawns, 2);
    if cmds.len() > 0 {
        assert(cmds.drop_last() =~= Seq::<CommandView>::empty());
    }
}

/// A session that has failed or stopped stays so, and never asks for another
/// shell.
pub proof fn lemma_final_phases_absorb(session: Session, event: EventView)
    requires
        session.is_final_spec(),
    ensures
        transition(session, event).0 == session,
        count_spawns(transition(session, event).1) == 0,
{
    let cmds = transition(session, event).1;
    if cmds.len() > 0 {
        assert(cmds =~= seq![CommandView::Release]);
        assert(cmds.drop_last() =~= Seq::<CommandView>::empty());
        reveal_with_fuel(count_spawns, 2);
    }
}

/// Over any run of events, a session asks for exactly one new shell each time
/// a running period ends, and for none otherwise.
pub proof fn lemma_one_spawn_per_period_end(session: Session, events: Seq<EventView>)
    ensures
        count_spawns(run_spec(session, events).1) == count_period_ends(session, events),
    decreases events.len(),
{
    if events.len() > 0 {
        lemma_one_spawn_per_period_end(session, events.drop_last());
        let before = run_spec(session, events.drop_last());
        let last = transition(before.0, events.last());
        lemma_count_spawns_concat(before.1, last.1);
        lemma_count_spawns_of_step(before.0, events.last());
    }
}

proof fn lemma_count_spawns_concat(a: Seq<CommandView>, b: Seq<CommandView>)
    ensures
        count_spawns(a + b) == count_spawns(a) + count_spawns(b),
    decreases b.len(),
{
    if b.len() == 0 {
        assert(a + b =~= a);
    } else {
        lemma_count_spawns_concat(a, b.drop_last());
        assert((a + b).drop_last() =~= a + b.drop_last());
    }
}

proof fn lemma_count_spawns_of_step(session: Session, event: EventView)
    ensures
        count_spawns(transition(session, event).1) == if session.phase == Phase::Running
            && ends_period(event) {
            1nat
        } else {
            0nat
        },
{
    let cmds = transition(session, event).1;
    reveal_with_fuel(count_spawns, 4);
    if cmds.len() == 3 {
        assert(cmds.drop_last() =~= seq![
            CommandView::Release,
            CommandView::Emit(clear_sequence_spec()),
        ]);
        assert(cmds.drop_last().drop_last() =~= seq![CommandView::Release]);
        assert(cmds.drop_last().drop_last().drop_last() =~= Seq::<CommandView>::empty());
    } else if cmds.len() == 1 {
        assert(cmds.drop_last() =~= Seq::<CommandView>::empty());
    }
}

} // verus!
