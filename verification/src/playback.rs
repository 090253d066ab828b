//! Replaying a recorded command log: as one fold over the whole log, and
//! step by step on a clock, as a viewer shows it.

use vstd::prelude::*;
use crate::robot::{Robot, RobotCommand};
use crate::simulation::{
    apply_command,
    initial,
    run,
    status_after,
    step,
    Event,
    SimState,
    Status,
};
use crate::world::{Grid, World};

verus! {

/// The number of clock ticks a viewer spends on each command.
pub const TICKS_PER_COMMAND: u8 = 30;

/// The robot after every command of `log` has been carried out in order,
/// each under the rules the simulation applies to it.
pub open spec fn replayed(grid: Grid, robot: Robot, log: Seq<RobotCommand>) -> Robot
    decreases log.len(),
{
    if log.len() == 0 {
        robot
    } else {
        apply_command(grid, replayed(grid, robot, log.drop_last()), log.last())
    }
}

/// Carries out the commands in order on a copy of `robot` and returns the
/// robot they lead to.
pub fn replay(world: &World, robot: Robot, commands: &Vec<RobotCommand>) -> (end: Robot)
    requires
        world.wf(),
    ensures
        end == replayed(world@, robot, commands@),
{
    let mut current = robot;
    let mut index: usize = 0;
    while index < commands.len()
        invariant
            index <= commands.len(),
            world.wf(),
            current == replayed(world@, robot, commands@.take(index as int)),
        decreases commands.len() - index,
    {
        proof {
            assert(commands@.take(index + 1).drop_last() =~= commands@.take(index as int));
        }
        match commands[index] {
            RobotCommand::Forward => {
                let _ = current.forward(world);
            },
            RobotCommand::Left => current.left(),
            RobotCommand::Right => current.right(),
            RobotCommand::Scan => {},
            RobotCommand::End => {},
        }
        index += 1;
    }
    proof {
        assert(commands@.take(index as int) =~= commands@);
    }
    current
}

/// Replaying the log of a live run on the robot and the grid the run
/// started from leads to the robot the run ended with, whatever events the
/// run was fed and wherever it stopped.
pub proof fn lemma_replay_reproduces_run(
    grid: Grid,
    limit: nat,
    robot: Robot,
    events: Seq<Event>,
)
    ensures
        replayed(grid, robot, run(grid, limit, initial(robot), events).log) == run(
            grid,
            limit,
            initial(robot),
            events,
        ).robot,
    decreases events.len(),
{
    if events.len() > 0 {
        lemma_replay_reproduces_run(grid, limit, robot, events.drop_last());
        let before = run(grid, limit, initial(robot), events.drop_last());
        lemma_replay_follows_step(grid, limit, robot, before, events.last());
    }
}

/// One step of the simulation keeps the replay of its log equal to its
/// robot.
pub proof fn lemma_replay_follows_step(
    grid: Grid,
    limit: nat,
    robot: Robot,
    state: SimState,
    event: Event,
)
    requires
        replayed(grid, robot, state.log) == state.robot,
    ensures
        replayed(grid, robot, step(grid, limit, state, event).0.log) == step(
            grid,
            limit,
            state,
            event,
        ).0.robot,
{
    let after = step(grid, limit, state, event).0;
    if after.log != state.log {
        let command = event->Command_0;
        assert(after.log == state.log.push(command));
        assert(after.log.drop_last() =~= state.log);
    }
}

/// Replaying never depends on the flag that marks a scan being shown: two
/// robots in the same pose stay in the same pose under any command.
pub proof fn lemma_command_respects_pose(
    grid: Grid,
    first: Robot,
    second: Robot,
    command: RobotCommand,
)
    requires
        first.same_pose(second),
    ensures
        apply_command(grid, first, command).same_pose(apply_command(grid, second, command)),
        status_after(grid, first, command) == status_after(grid, second, command),
{
}

/// What a viewer of a replay holds at one moment.
pub struct PlaybackState {
    pub paused: bool,
    pub ended: bool,
    pub tick: nat,
    pub robot: Robot,
    /// How many commands of the log have been shown.
    pub index: nat,
}

/// The robot as shown right after `command`: moved or turned as the rules
/// say, and marked as scanning exactly when the command is a scan.
pub open spec fn shown(grid: Grid, robot: Robot, command: RobotCommand) -> Robot {
    Robot { scanning: command == RobotCommand::Scan, ..apply_command(grid, robot, command) }
}

/// The viewer after it has shown the next command, if one is left and the
/// replay has not ended. The replay ends where the live run would have
/// stopped: on `End`, and on a move that reaches the exit.
pub open spec fn advanced(grid: Grid, log: Seq<RobotCommand>, state: PlaybackState)
    -> PlaybackState {
    if state.ended || state.index >= log.len() {
        state
    } else {
        PlaybackState {
            robot: shown(grid, state.robot, log[state.index as int]),
            index: state.index + 1,
            ended: status_after(grid, state.robot, log[state.index as int]) != Status::Running,
            ..state
        }
    }
}

/// The viewer after one frame. The pause key, if pressed, flips the pause
/// first. A paused viewer does nothing more; a playing one counts the frame
/// and shows the next command each time the count wraps round.
pub open spec fn updated(
    grid: Grid,
    log: Seq<RobotCommand>,
    state: PlaybackState,
    pause_pressed: bool,
) -> PlaybackState {
    let paused = if pause_pressed {
        !state.paused
    } else {
        state.paused
    };
    if paused {
        PlaybackState { paused, ..state }
    } else {
        let tick = ((state.tick as int + 1) % (TICKS_PER_COMMAND as int)) as nat;
        let counted = PlaybackState { paused, tick, ..state };
        if tick == 0 {
            advanced(grid, log, counted)
        } else {
            counted
        }
    }
}

/// The line that tells a viewer what the replay is doing and which key
/// acts on it: an ended replay says so, whether paused or not.
pub open spec fn caption_of(state: PlaybackState) -> Seq<char> {
    if state.ended {
        "[Escape] End"@
    } else if state.paused {
        "[Space] Paused"@
    } else {
        "[Space] Playing"@
    }
}

/// A replay in front of a viewer: a robot, the world it moves in, the log
/// that drives it and the clock that paces it.
pub struct Playback {
    paused: bool,
    playback_ended: bool,
    tick: u8,
    robot: Robot,
    world: World,
    commands: Vec<RobotCommand>,
    command_index: usize,
}

impl View for Playback {
    type V = PlaybackState;

    closed spec fn view(&self) -> PlaybackState {
        PlaybackState {
            paused: self.paused,
            ended: self.playback_ended,
            tick: self.tick as nat,
            robot: self.robot,
            index: self.command_index as nat,
        }
    }
}

impl Playback {
    pub closed spec fn grid(&self) -> Grid {
        self.world@
    }

    pub closed spec fn log(&self) -> Seq<RobotCommand> {
        self.commands@
    }

    pub closed spec fn inv(&self) -> bool {
        self.world.wf()
    }

    /// The world is well formed, the clock is within its period and no more
    /// commands have been shown than the log holds.
    pub open spec fn wf(&self) -> bool {
        &&& self.inv()
        &&& self.grid().wf()
        &&& self@.tick < TICKS_PER_COMMAND
        &&& self@.index <= self.log().len()
    }

    /// A paused replay of `commands` that has shown none of them yet.
    pub fn new(world: World, robot: Robot, commands: Vec<RobotCommand>) -> (playback: Self)
        requires
            world.wf(),
        ensures
            playback.wf(),
            playback.grid() == world@,
            playback.log() == commands@,
            playback@ == (PlaybackState {
                paused: true,
                ended: false,
                tick: 0,
                robot,
                index: 0,
            }),
    {
        Playback {
            paused: true,
            playback_ended: false,
            tick: 0,
            robot,
            world,
            commands,
            command_index: 0,
        }
    }

    /// Shows the next command, if one is left and the replay has not ended.
    pub fn advance(&mut self)
        requires
            old(self).wf(),
        ensures
            final(self).wf(),
            final(self).grid() == old(self).grid(),
            final(self).log() == old(self).log(),
            final(self)@ == advanced(old(self).grid(), old(self).log(), old(self)@),
    {
        if self.playback_ended || self.command_index >= self.commands.len() {
            return ;
        }
        self.robot.scanning = false;
        match self.commands[self.command_index] {
            RobotCommand::Forward => match self.robot.forward(&self.world) {
                Ok(()) => {
                    if self.robot.is_on_end_tile(&self.world) {
                        self.playback_ended = true;
                    }
                },
                Err(_) => {},
            },
            RobotCommand::Left => self.robot.left(),
            RobotCommand::Right => self.robot.right(),
            RobotCommand::Scan => self.robot.scanning = true,
            RobotCommand::End => self.playback_ended = true,
        }
        self.command_index += 1;
    }

    /// Takes the viewer through one frame; `pause_pressed` says whether the
    /// pause key went down in it.
    pub fn update(&mut self, pause_pressed: bool)
        requires
            old(self).wf(),
        ensures
            final(self).wf(),
            final(self).grid() == old(self).grid(),
            final(self).log() == old(self).log(),
            final(self)@ == updated(
                old(self).grid(),
                old(self).log(),
                old(self)@,
                pause_pressed,
            ),
    {
        if pause_pressed {
            self.paused = !self.paused;
        }
        if !self.paused {
            self.tick = (self.tick + 1) % TICKS_PER_COMMAND;
            if self.tick == 0 {
                self.advance();
            }
        }
    }

    /// The line a viewer is shown above the grid.
    pub fn caption(&self) -> (text: &'static str)
        ensures
            text@ == caption_of(self@),
    {
        if self.playback_ended {
            "[Escape] End"
        } else if self.paused {
            "[Space] Paused"
        } else {
            "[Space] Playing"
        }
    }

    pub fn robot(&self) -> (robot: Robot)
        ensures
            robot == self@.robot,
    {
        self.robot
    }

    pub fn world(&self) -> (world: &World)
        ensures
            world@ == self.grid(),
            self.wf() ==> world.wf(),
    {
        &self.world
    }

    /// The log being replayed.
    pub fn commands(&self) -> (log: &Vec<RobotCommand>)
        ensures
            log@ == self.log(),
    {
        &self.commands
    }

    pub fn is_paused(&self) -> (paused: bool)
        ensures
            paused == self@.paused,
    {
        self.paused
    }

    pub fn has_ended(&self) -> (ended: bool)
        ensures
            ended == self@.ended,
    {
        self.playback_ended
    }

    /// How many commands have been shown.
    pub fn command_index(&self) -> (index: usize)
        ensures
            index == self@.index,
    {
        self.command_index
    }
}

/// Showing one more command keeps the viewer's robot in the pose that a
/// replay of the commands shown so far leads to.
pub proof fn lemma_advance_follows_replay(
    grid: Grid,
    log: Seq<RobotCommand>,
    start: Robot,
    state: PlaybackState,
)
    requires
        state.index <= log.len(),
        state.robot.same_pose(replayed(grid, start, log.take(state.index as int))),
    ensures
        advanced(grid, log, state).index <= log.len(),
        advanced(grid, log, state).robot.same_pose(
            replayed(grid, start, log.take(advanced(grid, log, state).index as int)),
        ),
{
    if !state.ended && state.index < log.len() {
        let shown_so_far = log.take(state.index as int);
        let with_next = log.take(state.index as int + 1);
        assert(with_next.drop_last() =~= shown_so_far);
        assert(with_next.last() == log[state.index as int]);
        lemma_command_respects_pose(
            grid,
            state.robot,
            replayed(grid, start, shown_so_far),
            log[state.index as int],
        );
    }
}

/// The viewer before it has shown anything: paused, at the first command.
pub open spec fn opening(robot: Robot) -> PlaybackState {
    PlaybackState { paused: true, ended: false, tick: 0, robot, index: 0 }
}

/// The viewer after it has been asked `count` times to show the next
/// command.
pub open spec fn advanced_by(
    grid: Grid,
    log: Seq<RobotCommand>,
    state: PlaybackState,
    count: nat,
) -> PlaybackState
    decreases count,
{
    if count == 0 {
        state
    } else {
        advanced(grid, log, advanced_by(grid, log, state, (count - 1) as nat))
    }
}

/// The command at `position` of `log` is one that stops a run: `End`, or a
/// move that lands on the exit.
pub open spec fn stops_at(grid: Grid, robot: Robot, log: Seq<RobotCommand>, position: int)
    -> bool {
    status_after(grid, replayed(grid, robot, log.take(position)), log[position])
        != Status::Running
}

/// In the log of a live run, a command that stops a run can only be the
/// last one, and then the run has stopped.
pub proof fn lemma_live_log_stops_at_its_end(
    grid: Grid,
    limit: nat,
    robot: Robot,
    events: Seq<Event>,
)
    ensures
        forall|position: int|
            0 <= position < run(grid, limit, initial(robot), events).log.len()
                && #[trigger] stops_at(
                grid,
                robot,
                run(grid, limit, initial(robot), events).log,
                position,
            ) ==> position == run(grid, limit, initial(robot), events).log.len() - 1 && run(
                grid,
                limit,
                initial(robot),
                events,
            ).status != Status::Running,
    decreases events.len(),
{
    let end = run(grid, limit, initial(robot), events);
    if events.len() > 0 {
        let before = run(grid, limit, initial(robot), events.drop_last());
        lemma_live_log_stops_at_its_end(grid, limit, robot, events.drop_last());
        lemma_replay_reproduces_run(grid, limit, robot, events.drop_last());
        assert forall|position: int|
            0 <= position < end.log.len() && #[trigger] stops_at(
                grid,
                robot,
                end.log,
                position,
            ) implies position == end.log.len() - 1 && end.status != Status::Running by {
            if end.log == before.log {
                assert(stops_at(grid, robot, before.log, position));
            } else {
                let command = events.last()->Command_0;
                assert(end.log == before.log.push(command));
                if position < before.log.len() {
                    assert(end.log.take(position) =~= before.log.take(position));
                    assert(stops_at(grid, robot, before.log, position));
                } else {
                    assert(end.log.take(position) =~= before.log);
                }
            }
        }
    }
}

/// A viewer taken through the log of a live run shows every command of it:
/// after `count` commands it has shown exactly that many, its robot is in
/// the pose that replaying them leads to, and it has not ended before the
/// last.
pub proof fn lemma_viewer_follows_live_log(
    grid: Grid,
    limit: nat,
    robot: Robot,
    events: Seq<Event>,
    count: nat,
)
    requires
        count <= run(grid, limit, initial(robot), events).log.len(),
    ensures
        ({
            let log = run(grid, limit, initial(robot), events).log;
            let viewer = advanced_by(grid, log, opening(robot), count);
            &&& viewer.index == count
            &&& viewer.robot.same_pose(replayed(grid, robot, log.take(count as int)))
            &&& viewer.ended ==> count == log.len()
        }),
    decreases count,
{
    let log = run(grid, limit, initial(robot), events).log;
    if count == 0 {
        assert(log.take(0) =~= Seq::<RobotCommand>::empty());
    } else {
        let shown_before = (count - 1) as nat;
        lemma_viewer_follows_live_log(grid, limit, robot, events, shown_before);
        lemma_live_log_stops_at_its_end(grid, limit, robot, events);
        let viewer = advanced_by(grid, log, opening(robot), shown_before);
        let command = log[shown_before as int];
        lemma_advance_follows_replay(grid, log, robot, viewer);
        lemma_command_respects_pose(
            grid,
            viewer.robot,
            replayed(grid, robot, log.take(shown_before as int)),
            command,
        );
        if advanced(grid, log, viewer).ended {
            assert(stops_at(grid, robot, log, shown_before as int));
        }
    }
}

/// A viewer that has shown the whole log of a live run holds the robot in
/// the pose in which the run left it.
pub proof fn lemma_viewer_reproduces_run(grid: Grid, limit: nat, robot: Robot, events: Seq<Event>)
    ensures
        ({
            let end = run(grid, limit, initial(robot), events);
            advanced_by(grid, end.log, opening(robot), end.log.len()).robot.same_pose(end.robot)
        }),
{
    let end = run(grid, limit, initial(robot), events);
    lemma_viewer_follows_live_log(grid, limit, robot, events, end.log.len());
    lemma_replay_reproduces_run(grid, limit, robot, events);
    assert(end.log.take(end.log.len() as int) =~= end.log);
}

} // verus!
