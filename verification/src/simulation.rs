//! The simulation loop as a state machine: it owns the robot and the world,
//! takes one event at a time, answers each accepted command and records it.

use vstd::prelude::*;
use crate::robot::{Robot, RobotCommand, RobotResponse};
use crate::world::{Grid, World};

verus! {

/// The number of commands a simulation accepts unless told otherwise.
pub const MAX_COMMANDS: usize = 2048;

/// Why a simulation stopped.
#[derive(Debug, Clone, Copy, PartialEq, Eq, Structural)]
pub enum TerminationReason {
    /// The script finished and `End` arrived.
    ScriptEnded,
    /// A move brought the robot onto the exit.
    ExitReached,
    /// A command arrived after the log had reached its ceiling.
    CommandLimitExceeded,
    /// The script side went away without sending `End`.
    ChannelClosed,
}

#[derive(Debug, Clone, Copy, PartialEq, Eq, Structural)]
pub enum Status {
    Running,
    Terminated(TerminationReason),
}

/// What the loop can receive while it waits.
#[derive(Debug, Clone, Copy, PartialEq, Eq, Structural)]
pub enum Event {
    Command(RobotCommand),
    Disconnected,
}

/// The part of a simulation that changes from event to event.
pub struct SimState {
    pub robot: Robot,
    pub log: Seq<RobotCommand>,
    pub status: Status,
}

/// The robot after `command` has been carried out under the movement rules.
/// Only a move into an enterable cell and the two turns change it.
pub open spec fn apply_command(grid: Grid, robot: Robot, command: RobotCommand) -> Robot {
    match command {
        RobotCommand::Forward => robot.advanced(grid),
        RobotCommand::Left => robot.turned_left(),
        RobotCommand::Right => robot.turned_right(),
        RobotCommand::Scan => robot,
        RobotCommand::End => robot,
    }
}

/// The answer owed to an accepted command, given the robot it reached.
/// `End` is owed none.
pub open spec fn response_to(grid: Grid, robot: Robot, command: RobotCommand) -> Option<
    RobotResponse,
> {
    match command {
        RobotCommand::Forward => Some(
            if robot.can_advance(grid) {
                RobotResponse::Done
            } else {
                RobotResponse::Error
            },
        ),
        RobotCommand::Left => Some(RobotResponse::Done),
        RobotCommand::Right => Some(RobotResponse::Done),
        RobotCommand::Scan => Some(RobotResponse::Scan(!robot.can_advance(grid))),
        RobotCommand::End => None,
    }
}

/// The status after an accepted command: `End` stops the run, and so does a
/// move that succeeds and lands on the exit.
pub open spec fn status_after(grid: Grid, robot: Robot, command: RobotCommand) -> Status {
    match command {
        RobotCommand::End => Status::Terminated(TerminationReason::ScriptEnded),
        RobotCommand::Forward => if robot.can_advance(grid) && grid.is_exit(
            robot.forward_target().0,
            robot.forward_target().1,
        ) {
            Status::Terminated(TerminationReason::ExitReached)
        } else {
            Status::Running
        },
        _ => Status::Running,
    }
}

/// One transition of the loop, with the response it emits.
///
/// A stopped simulation ignores every event. A running one stops on a
/// disconnection; answers `Error` and stops, recording nothing, when a
/// command arrives with `limit` commands already in the log; and otherwise
/// appends the command and carries it out.
pub open spec fn step(grid: Grid, limit: nat, state: SimState, event: Event) -> (
    SimState,
    Option<RobotResponse>,
) {
    if state.status != Status::Running {
        (state, None)
    } else {
        match event {
            Event::Disconnected => (
                SimState { status: Status::Terminated(TerminationReason::ChannelClosed), ..state },
                None,
            ),
            Event::Command(command) => if state.log.len() >= limit {
                (
                    SimState {
                        status: Status::Terminated(TerminationReason::CommandLimitExceeded),
                        ..state
                    },
                    Some(RobotResponse::Error),
                )
            } else {
                (
                    SimState {
                        robot: apply_command(grid, state.robot, command),
                        log: state.log.push(command),
                        status: status_after(grid, state.robot, command),
                    },
                    response_to(grid, state.robot, command),
                )
            },
        }
    }
}

/// The state in which a simulation of `robot` starts.
pub open spec fn initial(robot: Robot) -> SimState {
    SimState { robot, log: Seq::empty(), status: Status::Running }
}

/// The state after a whole sequence of events, taken in order.
pub open spec fn run(grid: Grid, limit: nat, state: SimState, events: Seq<Event>) -> SimState
    decreases events.len(),
{
    if events.len() == 0 {
        state
    } else {
        step(grid, limit, run(grid, limit, state, events.drop_last()), events.last()).0
    }
}

/// The responses emitted over a whole sequence of events, in order; an event
/// that is owed no response contributes none.
pub open spec fn responses(grid: Grid, limit: nat, state: SimState, events: Seq<Event>) -> Seq<
    RobotResponse,
>
    decreases events.len(),
{
    if events.len() == 0 {
        Seq::empty()
    } else {
        let before = responses(grid, limit, state, events.drop_last());
        match step(grid, limit, run(grid, limit, state, events.drop_last()), events.last()).1 {
            Some(response) => before.push(response),
            None => before,
        }
    }
}

/// A simulation in progress or finished.
pub struct Simulation {
    world: World,
    robot: Robot,
    commands: Vec<RobotCommand>,
    status: Status,
    limit: usize,
}

impl View for Simulation {
    type V = SimState;

    closed spec fn view(&self) -> SimState {
        SimState { robot: self.robot, log: self.commands@, status: self.status }
    }
}

impl Simulation {
    /// The grid the simulation moves its robot in.
    pub closed spec fn grid(&self) -> Grid {
        self.world@
    }

    /// The ceiling on the number of commands in the log.
    pub closed spec fn ceiling(&self) -> nat {
        self.limit as nat
    }

    pub closed spec fn inv(&self) -> bool {
        self.world.wf()
    }

    /// The world is well formed and the log is within its ceiling.
    pub open spec fn wf(&self) -> bool {
        &&& self.inv()
        &&& self.grid().wf()
        &&& self@.log.len() <= self.ceiling()
    }

    /// A simulation of `robot` in `world` that accepts [`MAX_COMMANDS`]
    /// commands.
    pub fn new(world: World, robot: Robot) -> (simulation: Self)
        requires
            world.wf(),
        ensures
            simulation.wf(),
            simulation.grid() == world@,
            simulation.ceiling() == MAX_COMMANDS,
            simulation@ == initial(robot),
    {
        Simulation::with_limit(world, robot, MAX_COMMANDS)
    }

    /// A simulation of `robot` in `world` that accepts `limit` commands.
    pub fn with_limit(world: World, robot: Robot, limit: usize) -> (simulation: Self)
        requires
            world.wf(),
        ensures
            simulation.wf(),
            simulation.grid() == world@,
            simulation.ceiling() == limit,
            simulation@ == initial(robot),
    {
        let simulation = Simulation {
            world,
            robot,
            commands: Vec::new(),
            status: Status::Running,
            limit,
        };
        assert(simulation@.log =~= Seq::empty());
        simulation
    }

    /// Takes one event and returns the response to send, if one is owed.
    pub fn step(&mut self, event: Event) -> (response: Option<RobotResponse>)
        requires
            old(self).wf(),
        ensures
            final(self).wf(),
            final(self).grid() == old(self).grid(),
            final(self).ceiling() == old(self).ceiling(),
            (final(self)@, response) == step(
                old(self).grid(),
                old(self).ceiling(),
                old(self)@,
                event,
            ),
    {
        if !self.is_running() {
            return None;
        }
        let command = match event {
            Event::Disconnected => {
                self.status = Status::Terminated(TerminationReason::ChannelClosed);
                return None;
            },
            Event::Command(command) => command,
        };
        if self.commands.len() >= self.limit {
            self.status = Status::Terminated(TerminationReason::CommandLimitExceeded);
            return Some(RobotResponse::Error);
        }
        self.commands.push(command);
        match command {
            RobotCommand::Forward => match self.robot.forward(&self.world) {
                Ok(_) => {
                    if self.robot.is_on_end_tile(&self.world) {
                        self.status = Status::Terminated(TerminationReason::ExitReached);
                    }
                    Some(RobotResponse::Done)
                },
                Err(_) => Some(RobotResponse::Error),
            },
            RobotCommand::Left => {
                self.robot.left();
                Some(RobotResponse::Done)
            },
            RobotCommand::Right => {
                self.robot.right();
                Some(RobotResponse::Done)
            },
            RobotCommand::Scan => Some(RobotResponse::Scan(self.robot.scan(&self.world))),
            RobotCommand::End => {
                self.status = Status::Terminated(TerminationReason::ScriptEnded);
                None
            },
        }
    }

    /// Takes the events in order, stopping early once the simulation has
    /// stopped, and returns the responses emitted.
    pub fn run(&mut self, events: &Vec<Event>) -> (emitted: Vec<RobotResponse>)
        requires
            old(self).wf(),
        ensures
            final(self).wf(),
            final(self).grid() == old(self).grid(),
            final(self).ceiling() == old(self).ceiling(),
            final(self)@ == run(old(self).grid(), old(self).ceiling(), old(self)@, events@),
            emitted@ == responses(old(self).grid(), old(self).ceiling(), old(self)@, events@),
    {
        let mut emitted: Vec<RobotResponse> = Vec::new();
        let mut taken: usize = 0;
        while taken < events.len() && self.is_running()
            invariant
                taken <= events.len(),
                self.wf(),
                self.grid() == old(self).grid(),
                self.ceiling() == old(self).ceiling(),
                self@ == run(
                    old(self).grid(),
                    old(self).ceiling(),
                    old(self)@,
                    events@.take(taken as int),
                ),
                emitted@ == responses(
                    old(self).grid(),
                    old(self).ceiling(),
                    old(self)@,
                    events@.take(taken as int),
                ),
            decreases events.len() - taken,
        {
            let response = self.step(events[taken]);
            proof {
                assert(events@.take(taken + 1).drop_last() =~= events@.take(taken as int));
            }
            match response {
                Some(response) => emitted.push(response),
                None => {},
            }
            taken += 1;
        }
        proof {
            lemma_stopped_run_ignores_rest(
                old(self).grid(),
                old(self).ceiling(),
                old(self)@,
                events@,
                taken as int,
            );
        }
        emitted
    }

    pub fn status(&self) -> (status: Status)
        ensures
            status == self@.status,
    {
        self.status
    }

    pub fn is_running(&self) -> (running: bool)
        ensures
            running == (self@.status == Status::Running),
    {
        match self.status {
            Status::Running => true,
            Status::Terminated(_) => false,
        }
    }

    pub fn robot(&self) -> (robot: Robot)
        ensures
            robot == self@.robot,
    {
        self.robot
    }

    pub fn world(&self) -> (world: &World)
        ensures
            world@ == self.grid(),
            self.wf() ==> world.wf(),
    {
        &self.world
    }

    /// The ceiling on the number of commands this simulation accepts.
    pub fn limit(&self) -> (limit: usize)
        ensures
            limit == self.ceiling(),
    {
        self.limit
    }

    /// The commands accepted so far, oldest first.
    pub fn commands(&self) -> (log: &Vec<RobotCommand>)
        ensures
            log@ == self@.log,
    {
        &self.commands
    }

    /// Gives up the simulation for its command log.
    pub fn into_commands(self) -> (log: Vec<RobotCommand>)
        ensures
            log@ == self@.log,
    {
        self.commands
    }
}

/// A stopped simulation stays as it is whatever events follow, and emits
/// nothing more.
pub proof fn lemma_stopped_is_final(grid: Grid, limit: nat, state: SimState, events: Seq<Event>)
    requires
        state.status != Status::Running,
    ensures
        run(grid, limit, state, events) == state,
        responses(grid, limit, state, events) == Seq::<RobotResponse>::empty(),
    decreases events.len(),
{
    if events.len() > 0 {
        lemma_stopped_is_final(grid, limit, state, events.drop_last());
    }
}

/// Once the first `taken` events have stopped the simulation, or are all
/// there are, the rest change neither the state nor the responses.
pub proof fn lemma_stopped_run_ignores_rest(
    grid: Grid,
    limit: nat,
    state: SimState,
    events: Seq<Event>,
    taken: int,
)
    requires
        0 <= taken <= events.len(),
        taken == events.len() || run(grid, limit, state, events.take(taken)).status
            != Status::Running,
    ensures
        run(grid, limit, state, events) == run(grid, limit, state, events.take(taken)),
        responses(grid, limit, state, events) == responses(
            grid,
            limit,
            state,
            events.take(taken),
        ),
    decreases events.len(),
{
    if taken == events.len() {
        assert(events.take(taken) =~= events);
    } else {
        assert(events.drop_last().take(taken) =~= events.take(taken));
        lemma_stopped_run_ignores_rest(grid, limit, state, events.drop_last(), taken);
    }
}

/// The log never outgrows its ceiling: a step keeps a log that is within
/// the ceiling within it, and so does any sequence of steps.
pub proof fn lemma_log_within_ceiling(grid: Grid, limit: nat, state: SimState, events: Seq<Event>)
    requires
        state.log.len() <= limit,
    ensures
        run(grid, limit, state, events).log.len() <= limit,
    decreases events.len(),
{
    if events.len() > 0 {
        lemma_log_within_ceiling(grid, limit, state, events.drop_last());
    }
}

/// A command that arrives when the log is at its ceiling is answered with
/// `Error`, is not recorded, and stops the simulation; after that no event
/// is accepted: the log and the robot stay as they are and nothing is
/// emitted.
pub proof fn lemma_ceiling_stops_run(
    grid: Grid,
    limit: nat,
    state: SimState,
    command: RobotCommand,
    later: Event,
)
    requires
        state.status == Status::Running,
        state.log.len() >= limit,
    ensures
        step(grid, limit, state, Event::Command(command)).1 == Some(RobotResponse::Error),
        step(grid, limit, state, Event::Command(command)).0 == (SimState {
            status: Status::Terminated(TerminationReason::CommandLimitExceeded),
            ..state
        }),
        step(grid, limit, step(grid, limit, state, Event::Command(command)).0, later) == (
            step(grid, limit, state, Event::Command(command)).0,
            None::<RobotResponse>,
        ),
{
}

/// How many of the events are commands.
pub open spec fn commands_in(events: Seq<Event>) -> nat
    decreases events.len(),
{
    if events.len() == 0 {
        0
    } else if events.last() is Command {
        commands_in(events.drop_last()) + 1
    } else {
        commands_in(events.drop_last())
    }
}

/// A simulation that is still running has accepted every command it was
/// sent and has met no disconnection.
pub proof fn lemma_running_accepted_all(
    grid: Grid,
    limit: nat,
    state: SimState,
    events: Seq<Event>,
)
    requires
        run(grid, limit, state, events).status == Status::Running,
    ensures
        state.status == Status::Running,
        run(grid, limit, state, events).log.len() == state.log.len() + commands_in(events),
        commands_in(events) == events.len(),
    decreases events.len(),
{
    if events.len() > 0 {
        lemma_running_accepted_all(grid, limit, state, events.drop_last());
    }
}

/// No script outruns the ceiling: once more commands have been sent than
/// the log has room for, the simulation has stopped.
pub proof fn lemma_ceiling_bounds_run(grid: Grid, limit: nat, state: SimState, events: Seq<Event>)
    requires
        state.log.len() <= limit,
        state.log.len() + commands_in(events) > limit,
    ensures
        run(grid, limit, state, events).status != Status::Running,
{
    if run(grid, limit, state, events).status == Status::Running {
        lemma_running_accepted_all(grid, limit, state, events);
        lemma_log_within_ceiling(grid, limit, state, events);
    }
}

/// Exactly one response is emitted for every command a running simulation
/// takes, but for `End`, which is owed none.
pub proof fn lemma_one_response_per_command(
    grid: Grid,
    limit: nat,
    state: SimState,
    command: RobotCommand,
)
    requires
        state.status == Status::Running,
    ensures
        step(grid, limit, state, Event::Command(command)).1 is Some <==> !(command
            == RobotCommand::End && state.log.len() < limit),
{
}

/// While a simulation runs, and when it has just stopped, the robot stands
/// where it may: a step keeps a well-placed robot well placed.
pub proof fn lemma_robot_stays_placed(grid: Grid, limit: nat, state: SimState, event: Event)
    requires
        grid.wf(),
        state.robot.placed_in(grid),
    ensures
        step(grid, limit, state, event).0.robot.placed_in(grid),
{
}

} // verus!
