//! What a script primitive sends and what it hands back to the script for
//! the reply it got.

use vstd::prelude::*;
use crate::robot::{Robot, RobotCommand, RobotResponse};
use crate::simulation::{step, Event, SimState, Simulation};
use crate::world::Grid;

verus! {

/// The calls a script can make.
#[derive(Debug, Clone, Copy, PartialEq, Eq, Structural)]
pub enum Primitive {
    Forward,
    Left,
    Right,
    Scan,
}

/// What came back after a command was sent.
#[derive(Debug, Clone, Copy, PartialEq, Eq, Structural)]
pub enum Reply {
    Response(RobotResponse),
    /// The simulation had gone away.
    Disconnected,
}

/// What a call returns to the script when it returns normally.
#[derive(Debug, Clone, Copy, PartialEq, Eq, Structural)]
pub enum ScriptValue {
    Nothing,
    Bool(bool),
}

#[derive(Debug, Clone, Copy, PartialEq, Eq, Structural)]
pub enum BridgeError {
    /// The move was rejected; the script may catch this.
    InvalidMove,
    /// The reply does not fit the call that asked for it.
    ProtocolViolation,
    /// A scan was left without an answer.
    Disconnected,
}

/// The command that a primitive stands for. No primitive stands for `End`.
pub open spec fn command_of(primitive: Primitive) -> RobotCommand {
    match primitive {
        Primitive::Forward => RobotCommand::Forward,
        Primitive::Left => RobotCommand::Left,
        Primitive::Right => RobotCommand::Right,
        Primitive::Scan => RobotCommand::Scan,
    }
}

/// What a call of `primitive` hands to the script for `reply`.
///
/// A move returns normally when it was carried out or when nobody answered,
/// and fails when it was rejected. A turn always returns normally. A scan
/// returns the answer it was given, and fails without one.
pub open spec fn outcome_of(primitive: Primitive, reply: Reply) -> Result<
    ScriptValue,
    BridgeError,
> {
    match primitive {
        Primitive::Forward => match reply {
            Reply::Response(RobotResponse::Done) => Ok(ScriptValue::Nothing),
            Reply::Response(RobotResponse::Error) => Err(BridgeError::InvalidMove),
            Reply::Response(RobotResponse::Scan(_)) => Err(BridgeError::ProtocolViolation),
            Reply::Disconnected => Ok(ScriptValue::Nothing),
        },
        Primitive::Left => Ok(ScriptValue::Nothing),
        Primitive::Right => Ok(ScriptValue::Nothing),
        Primitive::Scan => match reply {
            Reply::Response(RobotResponse::Scan(obstacle)) => Ok(ScriptValue::Bool(obstacle)),
            Reply::Response(_) => Err(BridgeError::ProtocolViolation),
            Reply::Disconnected => Err(BridgeError::Disconnected),
        },
    }
}

/// The command to send for a call of `primitive`.
pub fn command_for(primitive: Primitive) -> (command: RobotCommand)
    ensures
        command == command_of(primitive),
        command != RobotCommand::End,
{
    match primitive {
        Primitive::Forward => RobotCommand::Forward,
        Primitive::Left => RobotCommand::Left,
        Primitive::Right => RobotCommand::Right,
        Primitive::Scan => RobotCommand::Scan,
    }
}

/// What a call of `primitive` returns to the script once `reply` is in.
pub fn outcome(primitive: Primitive, reply: Reply) -> (result: Result<ScriptValue, BridgeError>)
    ensures
        result == outcome_of(primitive, reply),
{
    match primitive {
        Primitive::Forward => match reply {
            Reply::Response(RobotResponse::Done) => Ok(ScriptValue::Nothing),
            Reply::Response(RobotResponse::Error) => Err(BridgeError::InvalidMove),
            Reply::Response(RobotResponse::Scan(_)) => Err(BridgeError::ProtocolViolation),
            Reply::Disconnected => Ok(ScriptValue::Nothing),
        },
        Primitive::Left => Ok(ScriptValue::Nothing),
        Primitive::Right => Ok(ScriptValue::Nothing),
        Primitive::Scan => match reply {
            Reply::Response(RobotResponse::Scan(obstacle)) => Ok(ScriptValue::Bool(obstacle)),
            Reply::Response(_) => Err(BridgeError::ProtocolViolation),
            Reply::Disconnected => Err(BridgeError::Disconnected),
        },
    }
}

/// What the bridge holds once it has waited for the answer to a command:
/// the response, or the news that none will come.
pub open spec fn reply_of(response: Option<RobotResponse>) -> Reply {
    match response {
        Some(response) => Reply::Response(response),
        None => Reply::Disconnected,
    }
}

/// One round trip: the state the simulation is left in after it took the
/// command of `primitive`, and what the call hands to the script.
pub open spec fn round_trip(grid: Grid, limit: nat, state: SimState, primitive: Primitive) -> (
    SimState,
    Result<ScriptValue, BridgeError>,
) {
    let (after, response) = step(grid, limit, state, Event::Command(command_of(primitive)));
    (after, outcome_of(primitive, reply_of(response)))
}

/// One scripted run seen from the script's side: every call is sent, waited
/// for and answered before the next can be made.
pub struct Session {
    simulation: Simulation,
}

impl Session {
    /// The simulation behind the session.
    pub closed spec fn simulation(&self) -> Simulation {
        self.simulation
    }

    pub open spec fn wf(&self) -> bool {
        self.simulation().wf()
    }

    pub fn new(simulation: Simulation) -> (session: Self)
        ensures
            session.simulation() == simulation,
    {
        Session { simulation }
    }

    /// Makes one call on behalf of the script: sends its command, lets the
    /// simulation take it, and turns the reply into what the script gets.
    pub fn call(&mut self, primitive: Primitive) -> (result: Result<ScriptValue, BridgeError>)
        requires
            old(self).wf(),
        ensures
            final(self).wf(),
            final(self).simulation().grid() == old(self).simulation().grid(),
            final(self).simulation().ceiling() == old(self).simulation().ceiling(),
            (final(self).simulation()@, result) == round_trip(
                old(self).simulation().grid(),
                old(self).simulation().ceiling(),
                old(self).simulation()@,
                primitive,
            ),
    {
        let response = self.simulation.step(Event::Command(command_for(primitive)));
        let reply = match response {
            Some(response) => Reply::Response(response),
            None => Reply::Disconnected,
        };
        outcome(primitive, reply)
    }

    /// The robot as the simulation holds it now.
    pub fn robot(&self) -> (robot: Robot)
        ensures
            robot == self.simulation()@.robot,
    {
        self.simulation.robot()
    }

    /// Ends the run once the script is over, however it ended: sends `End`
    /// and hands out the log. A simulation that had already stopped keeps
    /// its log as it was.
    pub fn finish(self) -> (log: Vec<RobotCommand>)
        requires
            self.wf(),
        ensures
            log@ == step(
                self.simulation().grid(),
                self.simulation().ceiling(),
                self.simulation()@,
                Event::Command(RobotCommand::End),
            ).0.log,
            log@.len() <= self.simulation().ceiling(),
    {
        let mut simulation = self.simulation;
        let _ = simulation.step(Event::Command(RobotCommand::End));
        simulation.into_commands()
    }
}

} // verus!
