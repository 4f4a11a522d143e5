//! The message dialect: the generated ArduPilotMega message set, reached through
//! the few entry points that the codec and the protocols need.

use vstd::prelude::*;
use mavlink::ardupilotmega::MavMessage;
use mavlink::error::ParserError;
use crate::component::MissionReply;
use crate::wire::trimmed;

verus! {

#[verifier::external_type_specification]
#[verifier::external_body]
pub struct ExMavMessage(mavlink::ardupilotmega::MavMessage);

#[verifier::external_type_specification]
#[verifier::external_body]
pub struct ExParserError(mavlink::error::ParserError);

/// Names the CRC-extra byte that the dialect assigns to a message id.
pub uninterp spec fn crc_extra_of(id: u32) -> u8;

/// Names whether the dialect parses `payload` as a message with the given id.
pub uninterp spec fn parses(id: u32, payload: Seq<u8>) -> bool;

/// Relies on `mavlink::Message::extra_crc` of the ArduPilotMega dialect: a fixed byte per message id.
#[verifier::external_body]
pub(crate) fn crc_extra(id: u32) -> (r: u8)
    ensures
        r == crc_extra_of(id),
{
    <MavMessage as mavlink::Message>::extra_crc(id)
}

/// Relies on `mavlink::Message::parse` for protocol version 2: whether it succeeds
/// depends on the id and the payload bytes alone.
#[verifier::external_body]
pub(crate) fn parse_payload(id: u32, payload: &[u8]) -> (r: core::result::Result<MavMessage, ParserError>)
    ensures
        r.is_ok() == parses(id, payload@),
{
    <MavMessage as mavlink::Message>::parse(mavlink::MavlinkVersion::V2, id, payload)
}

/// Relies on `mavlink::Message::message_id`: the numeric id of the message's variant, one
/// of the ids in the dialect's definitions, all of which fit in 24 bits.
#[verifier::external_body]
pub(crate) fn message_id(m: &MavMessage) -> (r: u32)
    ensures
        r < 0x1000000,
{
    <MavMessage as mavlink::Message>::message_id(m)
}

/// Relies on `mavlink::Message::ser` for protocol version 2, writing into a buffer of
/// the largest payload size: it returns the number of bytes written, at most the buffer's
/// size, after dropping trailing zero bytes but the first.
#[verifier::external_body]
pub(crate) fn serialize(m: &MavMessage) -> (r: Vec<u8>)
    ensures
        r@.len() <= 255,
        trimmed(r@) == r@,
{
    let mut buf = [0u8; 255];
    let n = <MavMessage as mavlink::Message>::ser(m, mavlink::MavlinkVersion::V2, &mut buf);
    buf[..n].to_vec()
}

/// Names the `(command, result)` codes of the COMMAND_ACK that `payload` parses to as
/// message `id`, or `None` when it parses to no COMMAND_ACK.
pub uninterp spec fn ack_fields_of(id: u32, payload: Seq<u8>) -> Option<(u16, u8)>;

/// Names the mission reply that `payload` parses to as message `id`, or `None` when it
/// parses to no MISSION_REQUEST, MISSION_REQUEST_INT or MISSION_ACK.
pub uninterp spec fn mission_reply_of(id: u32, payload: Seq<u8>) -> Option<MissionReply>;

/// Names the sensor-health bits of the SYS_STATUS that `payload` parses to as message `id`,
/// or `None` when it parses to no SYS_STATUS.
pub uninterp spec fn health_bits_of(id: u32, payload: Seq<u8>) -> Option<u32>;

/// Names the base-mode bits of the HEARTBEAT that `payload` parses to as message `id`,
/// or `None` when it parses to no HEARTBEAT.
pub uninterp spec fn base_mode_of(id: u32, payload: Seq<u8>) -> Option<u8>;

/// Relies on `mavlink::Message::parse` for protocol version 2 and the generated
/// COMMAND_ACK variant: its `command` and `result` codes, which depend on the id and the
/// payload alone.
#[verifier::external_body]
pub(crate) fn command_ack(id: u32, payload: &[u8]) -> (r: Option<(u16, u8)>)
    ensures
        r == ack_fields_of(id, payload@),
        r is Some ==> parses(id, payload@),
{
    match <MavMessage as mavlink::Message>::parse(mavlink::MavlinkVersion::V2, id, payload) {
        Ok(MavMessage::COMMAND_ACK(ack)) => Some((ack.command as u16, ack.result as u8)),
        _ => None,
    }
}

/// Relies on `mavlink::Message::parse` for protocol version 2 and the generated
/// MISSION_REQUEST, MISSION_REQUEST_INT and MISSION_ACK variants: the requested `seq`, or
/// the acknowledgement's result code, which depend on the id and the payload alone.
#[verifier::external_body]
pub(crate) fn mission_reply(id: u32, payload: &[u8]) -> (r: Option<MissionReply>)
    ensures
        r == mission_reply_of(id, payload@),
        r is Some ==> parses(id, payload@),
{
    match <MavMessage as mavlink::Message>::parse(mavlink::MavlinkVersion::V2, id, payload) {
        Ok(MavMessage::MISSION_REQUEST(req)) => Some(MissionReply::Request { seq: req.seq, integer: false }),
        Ok(MavMessage::MISSION_REQUEST_INT(req)) => Some(MissionReply::Request { seq: req.seq, integer: true }),
        Ok(MavMessage::MISSION_ACK(ack)) => Some(MissionReply::Ack { result: ack.mavtype as u8 }),
        _ => None,
    }
}

/// Relies on `mavlink::Message::parse` for protocol version 2 and the generated SYS_STATUS
/// variant: the raw bits of `onboard_control_sensors_health`, which depend on the id and
/// the payload alone.
#[verifier::external_body]
pub(crate) fn sensor_health(id: u32, payload: &[u8]) -> (r: Option<u32>)
    ensures
        r == health_bits_of(id, payload@),
        r is Some ==> parses(id, payload@),
{
    match <MavMessage as mavlink::Message>::parse(mavlink::MavlinkVersion::V2, id, payload) {
        Ok(MavMessage::SYS_STATUS(status)) => Some(status.onboard_control_sensors_health.bits()),
        _ => None,
    }
}

/// Relies on `mavlink::Message::parse` for protocol version 2 and the generated HEARTBEAT
/// variant: the raw bits of `base_mode`, which depend on the id and the payload alone.
#[verifier::external_body]
pub(crate) fn base_mode(id: u32, payload: &[u8]) -> (r: Option<u8>)
    ensures
        r == base_mode_of(id, payload@),
        r is Some ==> parses(id, payload@),
{
    match <MavMessage as mavlink::Message>::parse(mavlink::MavlinkVersion::V2, id, payload) {
        Ok(MavMessage::HEARTBEAT(heartbeat)) => Some(heartbeat.base_mode.bits()),
        _ => None,
    }
}

/// Relies on `HEARTBEAT_DATA::default`: a HEARTBEAT with every field at its default value.
#[verifier::external_body]
pub(crate) fn default_heartbeat() -> (r: MavMessage) {
    MavMessage::HEARTBEAT(Default::default())
}

} // verus!
