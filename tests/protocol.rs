use mavlink::ardupilotmega::{
    MavCmd, MavMessage, MavMissionResult, MavModeFlag, MavResult, MavSysStatusSensor,
    COMMAND_ACK_DATA, HEARTBEAT_DATA, MISSION_ACK_DATA, MISSION_REQUEST_INT_DATA,
    SYS_STATUS_DATA,
};
use nightingale::component::{
    acknowledges, reports_armable, reports_armed, CommandEvent, CommandIntExchange, CommandLongExchange, CommandPhase, CommandStep, Component,
    MissionEvent, MissionReply, MissionStep, MissionUpload, Probe, ACK_TIMEOUT_MS, LONG_TIMEOUT_MS,
    RESULT_IN_PROGRESS,
};
use nightingale::error::Error;
use nightingale::link::Sequencer;
use nightingale::wire::{Header, Packet, RawMessage};

const ACCEPTED: u8 = 0;

fn packet_from(system_id: u8, component_id: u8, message: &MavMessage) -> Packet {
    Packet {
        header: Header { system_id, component_id, sequence: 0 },
        message: RawMessage::from_message(message),
    }
}

#[test]
fn command_long_retries_until_acknowledged() {
    let (mut exchange, first) = CommandLongExchange::start();
    let mut sends = vec![first];
    for event in [CommandEvent::TimedOut, CommandEvent::TimedOut] {
        sends.push(exchange.on_event(event));
    }
    let last = exchange.on_event(CommandEvent::Ack(ACCEPTED));
    assert_eq!(
        sends,
        vec![
            CommandStep::Send { confirmation: 0, wait_ms: ACK_TIMEOUT_MS },
            CommandStep::Send { confirmation: 1, wait_ms: ACK_TIMEOUT_MS },
            CommandStep::Send { confirmation: 2, wait_ms: ACK_TIMEOUT_MS },
        ]
    );
    assert_eq!(last, CommandStep::Done { result: ACCEPTED });
    assert_eq!(exchange.phase, CommandPhase::Finished);
}

#[test]
fn command_long_in_progress_waits_without_resending() {
    let (mut exchange, first) = CommandLongExchange::start();
    assert_eq!(first, CommandStep::Send { confirmation: 0, wait_ms: ACK_TIMEOUT_MS });
    let step = exchange.on_event(CommandEvent::Ack(RESULT_IN_PROGRESS));
    assert_eq!(step, CommandStep::Wait { wait_ms: LONG_TIMEOUT_MS });
    assert_eq!(exchange.phase, CommandPhase::InProgress);
    let step = exchange.on_event(CommandEvent::Ack(RESULT_IN_PROGRESS));
    assert_eq!(step, CommandStep::Wait { wait_ms: LONG_TIMEOUT_MS });
    let step = exchange.on_event(CommandEvent::Ack(ACCEPTED));
    assert_eq!(step, CommandStep::Done { result: ACCEPTED });
}

#[test]
fn command_long_in_progress_then_silence_times_out() {
    let (mut exchange, _) = CommandLongExchange::start();
    exchange.on_event(CommandEvent::Ack(RESULT_IN_PROGRESS));
    let step = exchange.on_event(CommandEvent::TimedOut);
    assert_eq!(step, CommandStep::Fail { error: Error::Timeout });
}

#[test]
fn command_long_gives_up_after_five_sends() {
    let (mut exchange, first) = CommandLongExchange::start();
    let mut steps = vec![first];
    for _ in 0..5 {
        steps.push(exchange.on_event(CommandEvent::TimedOut));
    }
    let sends = steps.iter().filter(|s| matches!(s, CommandStep::Send { .. })).count();
    assert_eq!(sends, 5);
    assert_eq!(steps[4], CommandStep::Send { confirmation: 4, wait_ms: ACK_TIMEOUT_MS });
    assert_eq!(steps[5], CommandStep::Fail { error: Error::Timeout });
}

#[test]
fn command_long_rejection_is_a_result() {
    let (mut exchange, _) = CommandLongExchange::start();
    let denied = MavResult::MAV_RESULT_DENIED as u8;
    assert_eq!(exchange.on_event(CommandEvent::Ack(denied)), CommandStep::Done { result: 2 });
}

#[test]
fn command_long_closed_link_fails() {
    let (mut exchange, _) = CommandLongExchange::start();
    assert_eq!(exchange.on_event(CommandEvent::Closed), CommandStep::Fail { error: Error::Closed });
}

#[test]
fn command_int_waits_five_attempts() {
    let (mut exchange, first) = CommandIntExchange::start();
    assert_eq!(first, CommandStep::Send { confirmation: 0, wait_ms: ACK_TIMEOUT_MS });
    for _ in 0..4 {
        assert_eq!(exchange.on_event(CommandEvent::TimedOut), CommandStep::Wait { wait_ms: ACK_TIMEOUT_MS });
    }
    assert_eq!(exchange.on_event(CommandEvent::TimedOut), CommandStep::Fail { error: Error::Timeout });
}

#[test]
fn command_int_returns_ack_result() {
    let (mut exchange, _) = CommandIntExchange::start();
    exchange.on_event(CommandEvent::TimedOut);
    assert_eq!(exchange.on_event(CommandEvent::Ack(4)), CommandStep::Done { result: 4 });
}

#[test]
fn probe_counts_attempts() {
    let mut probe = Probe::new(2);
    assert!(probe.on_timeout());
    assert!(!probe.on_timeout());
}

#[test]
fn mission_upload_serves_requested_items() {
    let (mut upload, first) = MissionUpload::start(3);
    assert_eq!(first, MissionStep::SendCount { count: 3, wait_ms: ACK_TIMEOUT_MS });
    for seq in 0..3u16 {
        let step = upload.on_event(MissionEvent::Reply(MissionReply::Request { seq, integer: true }));
        assert_eq!(step, MissionStep::SendItem { seq, integer: true, wait_ms: ACK_TIMEOUT_MS });
    }
    let done = upload.on_event(MissionEvent::Reply(MissionReply::Ack { result: ACCEPTED }));
    assert_eq!(done, MissionStep::Done { result: ACCEPTED });
}

#[test]
fn mission_upload_float_request() {
    let (mut upload, _) = MissionUpload::start(2);
    let step = upload.on_event(MissionEvent::Reply(MissionReply::Request { seq: 1, integer: false }));
    assert_eq!(step, MissionStep::SendItem { seq: 1, integer: false, wait_ms: ACK_TIMEOUT_MS });
}

#[test]
fn mission_upload_out_of_range_is_protocol_error() {
    let (mut upload, _) = MissionUpload::start(3);
    let step = upload.on_event(MissionEvent::Reply(MissionReply::Request { seq: 3, integer: true }));
    assert_eq!(step, MissionStep::Fail { error: Error::Protocol });
}

#[test]
fn mission_upload_retry_resets_after_request() {
    let (mut upload, _) = MissionUpload::start(1);
    for _ in 0..4 {
        assert_eq!(upload.on_event(MissionEvent::TimedOut), MissionStep::Wait { wait_ms: ACK_TIMEOUT_MS });
    }
    upload.on_event(MissionEvent::Reply(MissionReply::Request { seq: 0, integer: true }));
    for _ in 0..4 {
        assert_eq!(upload.on_event(MissionEvent::TimedOut), MissionStep::Wait { wait_ms: ACK_TIMEOUT_MS });
    }
    assert_eq!(upload.on_event(MissionEvent::TimedOut), MissionStep::Fail { error: Error::Timeout });
}

#[test]
fn mission_upload_closed_link_fails() {
    let (mut upload, _) = MissionUpload::start(1);
    assert_eq!(upload.on_event(MissionEvent::Closed), MissionStep::Fail { error: Error::Closed });
}

#[test]
fn sequence_numbers_step_by_one_and_wrap() {
    let mut sequencer = Sequencer::new(255, 1);
    for i in 0..300u32 {
        let p = sequencer.stamp(RawMessage { id: 0, payload: vec![1] });
        assert_eq!(p.header.sequence, (i % 256) as u8);
        assert_eq!(p.header.system_id, 255);
        assert_eq!(p.header.component_id, 1);
    }
}

#[test]
fn component_hears_only_its_peer() {
    let component = Component::new(1, 1);
    assert!(component.is_from_peer(&Header { system_id: 1, component_id: 1, sequence: 9 }));
    assert!(!component.is_from_peer(&Header { system_id: 2, component_id: 1, sequence: 0 }));
    assert!(!component.is_from_peer(&Header { system_id: 1, component_id: 2, sequence: 0 }));
}

#[test]
fn command_answer_matches_command_and_peer() {
    let component = Component::new(1, 1);
    let ack = MavMessage::COMMAND_ACK(COMMAND_ACK_DATA {
        command: MavCmd::MAV_CMD_COMPONENT_ARM_DISARM,
        result: MavResult::MAV_RESULT_IN_PROGRESS,
        ..Default::default()
    });
    let arm = MavCmd::MAV_CMD_COMPONENT_ARM_DISARM as u16;
    let start = MavCmd::MAV_CMD_MISSION_START as u16;
    assert_eq!(component.command_answer(&packet_from(1, 1, &ack), arm), Some(5));
    assert_eq!(component.command_answer(&packet_from(1, 1, &ack), start), None);
    assert_eq!(component.command_answer(&packet_from(2, 1, &ack), arm), None);
}

#[test]
fn mission_answer_reads_requests_and_acks() {
    let component = Component::new(1, 1);
    let req = MavMessage::MISSION_REQUEST_INT(MISSION_REQUEST_INT_DATA { seq: 2, ..Default::default() });
    assert_eq!(
        component.mission_answer(&packet_from(1, 1, &req)),
        Some(MissionReply::Request { seq: 2, integer: true })
    );
    let ack = MavMessage::MISSION_ACK(MISSION_ACK_DATA {
        mavtype: MavMissionResult::MAV_MISSION_INVALID_SEQUENCE,
        ..Default::default()
    });
    assert_eq!(
        component.mission_answer(&packet_from(1, 1, &ack)),
        Some(MissionReply::Ack { result: MavMissionResult::MAV_MISSION_INVALID_SEQUENCE as u8 })
    );
    let hb = MavMessage::HEARTBEAT(HEARTBEAT_DATA::default());
    assert_eq!(component.mission_answer(&packet_from(1, 1, &hb)), None);
}

#[test]
fn armed_heartbeat_is_recognised() {
    let component = Component::new(1, 1);
    let armed = MavMessage::HEARTBEAT(HEARTBEAT_DATA {
        base_mode: MavModeFlag::MAV_MODE_FLAG_SAFETY_ARMED | MavModeFlag::MAV_MODE_FLAG_CUSTOM_MODE_ENABLED,
        ..Default::default()
    });
    let disarmed = MavMessage::HEARTBEAT(HEARTBEAT_DATA {
        base_mode: MavModeFlag::MAV_MODE_FLAG_CUSTOM_MODE_ENABLED,
        ..Default::default()
    });
    assert!(component.is_armed_report(&packet_from(1, 1, &armed)));
    assert!(!component.is_armed_report(&packet_from(1, 1, &disarmed)));
    assert!(!component.is_armed_report(&packet_from(3, 1, &armed)));
}

#[test]
fn prearm_status_is_recognised() {
    let component = Component::new(1, 1);
    let ready = MavMessage::SYS_STATUS(SYS_STATUS_DATA {
        onboard_control_sensors_health: MavSysStatusSensor::MAV_SYS_STATUS_PREARM_CHECK,
        ..Default::default()
    });
    let not_ready = MavMessage::SYS_STATUS(SYS_STATUS_DATA::default());
    assert!(component.is_armable_report(&packet_from(1, 1, &ready)));
    assert!(!component.is_armable_report(&packet_from(1, 1, &not_ready)));
}

#[test]
fn acknowledgement_must_name_the_command() {
    assert_eq!(acknowledges(Some((400, 0)), 400), Some(0));
    assert_eq!(acknowledges(Some((400, 0)), 300), None);
    assert_eq!(acknowledges(None, 400), None);
}

#[test]
fn status_bits_are_read() {
    assert!(reports_armed(Some(0x81)));
    assert!(!reports_armed(Some(0x01)));
    assert!(!reports_armed(None));
    assert!(reports_armable(Some(0x1000_0000)));
    assert!(!reports_armable(Some(0x0FFF_FFFF)));
    assert!(!reports_armable(None));
}
