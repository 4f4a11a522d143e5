//! The request/response protocols a component runs against its peer, written as state
//! machines: the driver performs each step (send, wait) and reports back what it saw.

use vstd::prelude::*;
use crate::dialect::{
    ack_fields_of, base_mode, base_mode_of, command_ack, health_bits_of, mission_reply, mission_reply_of, sensor_health,
};
use crate::error::Error;
use crate::wire::{Header, Packet};

verus! {

/// Attempts a probe makes before it gives up.
pub const MAX_RETRY: usize = 5;

/// Number of COMMAND_LONG transmissions, counted by its `confirmation` field.
pub const MAX_CONFIRMATION: u8 = 5;

/// How long one attempt waits for an answer, in milliseconds.
pub const ACK_TIMEOUT_MS: u64 = 1500;

/// How long a command reported in progress is waited on, in milliseconds.
pub const LONG_TIMEOUT_MS: u64 = 6000;

/// Command result code: the command is still running.
pub const RESULT_IN_PROGRESS: u8 = 5;

/// Base-mode flag of a HEARTBEAT: the vehicle is armed.
pub const MODE_FLAG_SAFETY_ARMED: u8 = 0x80;

/// Sensor bit of SYS_STATUS: the pre-arm checks pass.
pub const SENSOR_PREARM_CHECK: u32 = 0x1000_0000;

/// A reply of the peer during a mission upload.
#[derive(Clone, Copy, Debug, PartialEq, Eq, Structural)]
pub enum MissionReply {
    /// MISSION_REQUEST (`integer == false`) or MISSION_REQUEST_INT (`integer == true`) for item `seq`.
    Request { seq: u16, integer: bool },
    /// MISSION_ACK with its result code.
    Ack { result: u8 },
}

/// What the driver saw while it waited during a command exchange.
#[derive(Clone, Copy, Debug, PartialEq, Eq, Structural)]
pub enum CommandEvent {
    /// A COMMAND_ACK for the command, with its result code.
    Ack(u8),
    /// The wait ran out.
    TimedOut,
    /// The link closed.
    Closed,
}

/// What a command exchange asks its driver to do next.
#[derive(Clone, Copy, Debug, PartialEq, Eq, Structural)]
pub enum CommandStep {
    /// Send the command with this `confirmation` field, then wait up to `wait_ms`.
    Send { confirmation: u8, wait_ms: u64 },
    /// Wait up to `wait_ms` more without sending.
    Wait { wait_ms: u64 },
    /// The exchange is over: the peer answered with this result code.
    Done { result: u8 },
    /// The exchange failed.
    Fail { error: Error },
}

/// What the driver saw while it waited during a mission upload.
#[derive(Clone, Copy, Debug, PartialEq, Eq, Structural)]
pub enum MissionEvent {
    Reply(MissionReply),
    TimedOut,
    Closed,
}

/// What a mission upload asks its driver to do next.
#[derive(Clone, Copy, Debug, PartialEq, Eq, Structural)]
pub enum MissionStep {
    /// Send MISSION_COUNT with `count`, then wait up to `wait_ms`.
    SendCount { count: u16, wait_ms: u64 },
    /// Send item `seq` (as MISSION_ITEM_INT when `integer`, else as MISSION_ITEM), then wait up to `wait_ms`.
    SendItem { seq: u16, integer: bool, wait_ms: u64 },
    /// Wait up to `wait_ms` more without sending.
    Wait { wait_ms: u64 },
    /// The upload is over: the peer acknowledged with this result code.
    Done { result: u8 },
    /// The upload failed.
    Fail { error: Error },
}

/// The retry counter behind every wait for an answer: a number of attempts, each of
/// which may time out.
pub struct Probe {
    remaining: usize,
}

impl Probe {
    /// Attempts left.
    pub closed spec fn remaining(&self) -> nat {
        self.remaining as nat
    }

    pub fn new(retries: usize) -> (r: Probe)
        ensures
            r.remaining() == retries,
    {
        Probe { remaining: retries }
    }

    /// Records one attempt that timed out; tells whether another attempt remains.
    pub fn on_timeout(&mut self) -> (again: bool)
        requires
            old(self).remaining() > 0,
        ensures
            final(self).remaining() == old(self).remaining() - 1,
            again == (final(self).remaining() > 0),
    {
        self.remaining = self.remaining - 1;
        self.remaining > 0
    }
}

/// COMMAND_INT exchange: send once, then wait for the acknowledgement, with
/// `MAX_RETRY` attempts of `ACK_TIMEOUT_MS` each.
pub struct CommandIntExchange {
    probe: Probe,
    finished: bool,
}

impl CommandIntExchange {
    pub closed spec fn attempts_left(&self) -> nat {
        self.probe.remaining()
    }

    pub closed spec fn is_finished(&self) -> bool {
        self.finished
    }

    pub fn start() -> (r: (CommandIntExchange, CommandStep))
        ensures
            r.1 == (CommandStep::Send { confirmation: 0, wait_ms: ACK_TIMEOUT_MS }),
            r.0.attempts_left() == MAX_RETRY,
            !r.0.is_finished(),
    {
        (CommandIntExchange { probe: Probe::new(MAX_RETRY), finished: false },
         CommandStep::Send { confirmation: 0, wait_ms: ACK_TIMEOUT_MS })
    }

    /// The next step after `event`.
    pub fn on_event(&mut self, event: CommandEvent) -> (r: CommandStep)
        requires
            !old(self).is_finished(),
            old(self).attempts_left() > 0,
        ensures
            match event {
                CommandEvent::Ack(result) => r == CommandStep::Done { result } && final(self).is_finished(),
                CommandEvent::TimedOut => if old(self).attempts_left() > 1 {
                    r == CommandStep::Wait { wait_ms: ACK_TIMEOUT_MS } && !final(self).is_finished()
                        && final(self).attempts_left() == old(self).attempts_left() - 1
                } else {
                    r == CommandStep::Fail { error: Error::Timeout } && final(self).is_finished()
                },
                CommandEvent::Closed => r == CommandStep::Fail { error: Error::Closed } && final(self).is_finished(),
            },
    {
        match event {
            CommandEvent::Ack(result) => {
                self.finished = true;
                CommandStep::Done { result }
            },
            CommandEvent::TimedOut => {
                if self.probe.on_timeout() {
                    CommandStep::Wait { wait_ms: ACK_TIMEOUT_MS }
                } else {
                    self.finished = true;
                    CommandStep::Fail { error: Error::Timeout }
                }
            },
            CommandEvent::Closed => {
                self.finished = true;
                CommandStep::Fail { error: Error::Closed }
            },
        }
    }
}

/// Where a COMMAND_LONG exchange stands.
#[derive(Clone, Copy, Debug, PartialEq, Eq, Structural)]
pub enum CommandPhase {
    /// The command went out with this `confirmation`; an acknowledgement is awaited.
    Confirming { confirmation: u8 },
    /// The peer reported the command in progress; its final result is awaited.
    InProgress,
    /// The exchange is over.
    Finished,
}

/// The COMMAND_LONG protocol, one transition per event.
pub open spec fn command_long_next(phase: CommandPhase, event: CommandEvent) -> (CommandPhase, CommandStep) {
    match event {
        CommandEvent::Ack(result) => if result == RESULT_IN_PROGRESS {
            (CommandPhase::InProgress, CommandStep::Wait { wait_ms: LONG_TIMEOUT_MS })
        } else {
            (CommandPhase::Finished, CommandStep::Done { result })
        },
        CommandEvent::TimedOut => match phase {
            CommandPhase::Confirming { confirmation } => if confirmation + 1 < MAX_CONFIRMATION {
                (
                    CommandPhase::Confirming { confirmation: (confirmation + 1) as u8 },
                    CommandStep::Send { confirmation: (confirmation + 1) as u8, wait_ms: ACK_TIMEOUT_MS },
                )
            } else {
                (CommandPhase::Finished, CommandStep::Fail { error: Error::Timeout })
            },
            _ => (CommandPhase::Finished, CommandStep::Fail { error: Error::Timeout }),
        },
        CommandEvent::Closed => (CommandPhase::Finished, CommandStep::Fail { error: Error::Closed }),
    }
}

/// COMMAND_LONG exchange: resend with a growing `confirmation` on each timeout, and once
/// the peer reports the command in progress, wait `LONG_TIMEOUT_MS` for its final result
/// without resending.
pub struct CommandLongExchange {
    pub phase: CommandPhase,
}

impl CommandLongExchange {
    pub fn start() -> (r: (CommandLongExchange, CommandStep))
        ensures
            r.0.phase == (CommandPhase::Confirming { confirmation: 0 }),
            r.1 == (CommandStep::Send { confirmation: 0, wait_ms: ACK_TIMEOUT_MS }),
    {
        (CommandLongExchange { phase: CommandPhase::Confirming { confirmation: 0 } },
         CommandStep::Send { confirmation: 0, wait_ms: ACK_TIMEOUT_MS })
    }

    /// The next step after `event`.
    pub fn on_event(&mut self, event: CommandEvent) -> (r: CommandStep)
        requires
            old(self).phase != CommandPhase::Finished,
            old(self).phase matches CommandPhase::Confirming { confirmation } ==> confirmation < MAX_CONFIRMATION,
        ensures
            (final(self).phase, r) == command_long_next(old(self).phase, event),
            final(self).phase matches CommandPhase::Confirming { confirmation } ==> confirmation < MAX_CONFIRMATION,
    {
        let (phase, step) = match event {
            CommandEvent::Ack(result) => if result == RESULT_IN_PROGRESS {
                (CommandPhase::InProgress, CommandStep::Wait { wait_ms: LONG_TIMEOUT_MS })
            } else {
                (CommandPhase::Finished, CommandStep::Done { result })
            },
            CommandEvent::TimedOut => match self.phase {
                CommandPhase::Confirming { confirmation } => if confirmation + 1 < MAX_CONFIRMATION {
                    (
                        CommandPhase::Confirming { confirmation: confirmation + 1 },
                        CommandStep::Send { confirmation: confirmation + 1, wait_ms: ACK_TIMEOUT_MS },
                    )
                } else {
                    (CommandPhase::Finished, CommandStep::Fail { error: Error::Timeout })
                },
                _ => (CommandPhase::Finished, CommandStep::Fail { error: Error::Timeout }),
            },
            CommandEvent::Closed => (CommandPhase::Finished, CommandStep::Fail { error: Error::Closed }),
        };
        self.phase = phase;
        step
    }
}

/// Mission upload: announce the item count, then serve each item the peer asks for,
/// until the peer acknowledges. A request for an item past the end is a protocol error.
pub struct MissionUpload {
    count: u16,
    probe: Probe,
    finished: bool,
}

impl MissionUpload {
    pub closed spec fn count(&self) -> u16 {
        self.count
    }

    pub closed spec fn attempts_left(&self) -> nat {
        self.probe.remaining()
    }

    pub closed spec fn is_finished(&self) -> bool {
        self.finished
    }

    pub fn start(count: u16) -> (r: (MissionUpload, MissionStep))
        ensures
            r.1 == (MissionStep::SendCount { count, wait_ms: ACK_TIMEOUT_MS }),
            r.0.count() == count,
            r.0.attempts_left() == MAX_RETRY,
            !r.0.is_finished(),
    {
        (MissionUpload { count, probe: Probe::new(MAX_RETRY), finished: false },
         MissionStep::SendCount { count, wait_ms: ACK_TIMEOUT_MS })
    }

    /// The next step after `event`.
    pub fn on_event(&mut self, event: MissionEvent) -> (r: MissionStep)
        requires
            !old(self).is_finished(),
            old(self).attempts_left() > 0,
        ensures
            final(self).count() == old(self).count(),
            match event {
                MissionEvent::Reply(MissionReply::Request { seq, integer }) => if seq < old(self).count() {
                    r == MissionStep::SendItem { seq, integer, wait_ms: ACK_TIMEOUT_MS } && !final(self).is_finished()
                        && final(self).attempts_left() == MAX_RETRY
                } else {
                    r == MissionStep::Fail { error: Error::Protocol } && final(self).is_finished()
                },
                MissionEvent::Reply(MissionReply::Ack { result }) => r == MissionStep::Done { result } && final(self).is_finished(),
                MissionEvent::TimedOut => if old(self).attempts_left() > 1 {
                    r == MissionStep::Wait { wait_ms: ACK_TIMEOUT_MS } && !final(self).is_finished()
                        && final(self).attempts_left() == old(self).attempts_left() - 1
                } else {
                    r == MissionStep::Fail { error: Error::Timeout } && final(self).is_finished()
                },
                MissionEvent::Closed => r == MissionStep::Fail { error: Error::Closed } && final(self).is_finished(),
            },
    {
        match event {
            MissionEvent::Reply(MissionReply::Request { seq, integer }) => {
                if seq < self.count {
                    self.probe = Probe::new(MAX_RETRY);
                    MissionStep::SendItem { seq, integer, wait_ms: ACK_TIMEOUT_MS }
                } else {
                    self.finished = true;
                    MissionStep::Fail { error: Error::Protocol }
                }
            },
            MissionEvent::Reply(MissionReply::Ack { result }) => {
                self.finished = true;
                MissionStep::Done { result }
            },
            MissionEvent::TimedOut => {
                if self.probe.on_timeout() {
                    MissionStep::Wait { wait_ms: ACK_TIMEOUT_MS }
                } else {
                    self.finished = true;
                    MissionStep::Fail { error: Error::Timeout }
                }
            },
            MissionEvent::Closed => {
                self.finished = true;
                MissionStep::Fail { error: Error::Closed }
            },
        }
    }
}

/// An addressed peer on a link: the system and component whose packets a component
/// listens to and whose requests it answers.
#[derive(Clone, Copy, Debug, PartialEq, Eq, Structural)]
pub struct Component {
    pub id: u8,
    pub system: u8,
}

impl Component {
    pub fn new(id: u8, system: u8) -> (r: Component)
        ensures
            r.id == id,
            r.system == system,
    {
        Component { id, system }
    }

    /// The header says the packet came from this peer.
    pub open spec fn is_peer(&self, header: Header) -> bool {
        header.system_id == self.system && header.component_id == self.id
    }

    pub fn is_from_peer(&self, header: &Header) -> (r: bool)
        ensures
            r == self.is_peer(*header),
    {
        header.system_id == self.system && header.component_id == self.id
    }

    /// The result code of `packet` when it is the peer's COMMAND_ACK for `command`.
    pub fn command_answer(&self, packet: &Packet, command: u16) -> (r: Option<u8>)
        ensures
            r == if self.is_peer(packet.header) {
                acknowledges_spec(ack_fields_of(packet.message.id, packet.message.payload@), command)
            } else {
                None
            },
    {
        if !self.is_from_peer(&packet.header) {
            return None;
        }
        acknowledges(command_ack(packet.message.id, packet.message.payload.as_slice()), command)
    }

    /// The mission reply that `packet` carries, when it is one from the peer.
    pub fn mission_answer(&self, packet: &Packet) -> (r: Option<MissionReply>)
        ensures
            r == if self.is_peer(packet.header) {
                mission_reply_of(packet.message.id, packet.message.payload@)
            } else {
                None
            },
    {
        if !self.is_from_peer(&packet.header) {
            return None;
        }
        mission_reply(packet.message.id, packet.message.payload.as_slice())
    }

    /// `packet` is a SYS_STATUS from the peer that reports the pre-arm checks passing.
    pub fn is_armable_report(&self, packet: &Packet) -> (r: bool)
        ensures
            r == (self.is_peer(packet.header)
                && armable_spec(health_bits_of(packet.message.id, packet.message.payload@))),
    {
        if !self.is_from_peer(&packet.header) {
            return false;
        }
        reports_armable(sensor_health(packet.message.id, packet.message.payload.as_slice()))
    }

    /// `packet` is a HEARTBEAT from the peer whose base mode says it is armed.
    pub fn is_armed_report(&self, packet: &Packet) -> (r: bool)
        ensures
            r == (self.is_peer(packet.header)
                && armed_spec(base_mode_of(packet.message.id, packet.message.payload@))),
    {
        if !self.is_from_peer(&packet.header) {
            return false;
        }
        reports_armed(base_mode(packet.message.id, packet.message.payload.as_slice()))
    }
}

/// The result code of an acknowledgement with fields `(command, result)`, when it answers `command`.
pub open spec fn acknowledges_spec(ack: Option<(u16, u8)>, command: u16) -> Option<u8> {
    match ack {
        Some((acked, result)) => if acked == command { Some(result) } else { None },
        None => None,
    }
}

/// A SYS_STATUS sensor-health word (`None` for other messages) reports the pre-arm checks passing.
pub open spec fn armable_spec(health: Option<u32>) -> bool {
    match health {
        Some(bits) => bits & SENSOR_PREARM_CHECK != 0,
        None => false,
    }
}

/// A HEARTBEAT base mode (`None` for other messages) says the vehicle is armed.
pub open spec fn armed_spec(base_mode: Option<u8>) -> bool {
    match base_mode {
        Some(bits) => bits & MODE_FLAG_SAFETY_ARMED != 0,
        None => false,
    }
}

/// The result code of an acknowledgement with fields `(command, result)`, when it answers `command`.
pub fn acknowledges(ack: Option<(u16, u8)>, command: u16) -> (r: Option<u8>)
    ensures
        r == acknowledges_spec(ack, command),
{
    match ack {
        Some((acked, result)) => if acked == command { Some(result) } else { None },
        None => None,
    }
}

/// A SYS_STATUS sensor-health word (`None` for other messages) reports the pre-arm checks passing.
pub fn reports_armable(health: Option<u32>) -> (r: bool)
    ensures
        r == armable_spec(health),
{
    match health {
        Some(bits) => bits & SENSOR_PREARM_CHECK != 0,
        None => false,
    }
}

/// A HEARTBEAT base mode (`None` for other messages) says the vehicle is armed.
pub fn reports_armed(mode: Option<u8>) -> (r: bool)
    ensures
        r == armed_spec(mode),
{
    match mode {
        Some(bits) => bits & MODE_FLAG_SAFETY_ARMED != 0,
        None => false,
    }
}

} // verus!
