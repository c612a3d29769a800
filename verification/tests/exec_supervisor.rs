//! The execution supervisor: frame order and the never-started rejection.

use boa::connection::WsOutbound;
use boa::packets::server::{ProcessEventPacket, ProcessOutputPacket, ServerError, ServerPacket};
use boa::supervisor::ExecSupervisor;

fn only_packet(mut frames: Vec<WsOutbound>) -> ServerPacket {
    assert_eq!(frames.len(), 1);
    match frames.remove(0) {
        WsOutbound::Packet(p) => p,
        other => panic!("expected a packet, got {other:?}"),
    }
}

#[test]
fn exec_against_stopped_container_never_starts() {
    let mut sup = ExecSupervisor::new();
    let frames = sup.on_inspected(false);
    match only_packet(frames) {
        ServerPacket::ServerError(p) => {
            assert_eq!(p.err, ServerError::ProcessStartFailed);
            assert!(p.message.contains("not started"));
            assert_eq!(p.message, "container is not started");
        },
        other => panic!("unexpected packet {other:?}"),
    }
}

#[test]
fn launch_failure_reports_and_stops() {
    let mut sup = ExecSupervisor::new();
    assert!(sup.on_inspected(true).is_empty());
    let frames = sup.on_launched(false, "failed to create exec: boom");
    match only_packet(frames) {
        ServerPacket::ServerError(p) => {
            assert_eq!(p.err, ServerError::ProcessStartFailed);
            assert_eq!(p.message, "failed to create exec: boom");
        },
        other => panic!("unexpected packet {other:?}"),
    }
}

#[test]
fn full_run_is_started_outputs_finished() {
    let mut sup = ExecSupervisor::new();
    assert!(sup.on_inspected(true).is_empty());
    assert_eq!(
        only_packet(sup.on_launched(true, "")),
        ServerPacket::ProcessEvent(ProcessEventPacket::Started)
    );
    assert_eq!(
        only_packet(sup.on_chunk(true, &b"hello from container\n".to_vec())),
        ServerPacket::ProcessOutput(ProcessOutputPacket::StdOut(
            "hello from container\n".to_string()
        ))
    );
    assert_eq!(
        only_packet(sup.on_chunk(false, &b"warning: boa\n".to_vec())),
        ServerPacket::ProcessOutput(ProcessOutputPacket::StdErr("warning: boa\n".to_string()))
    );
    assert_eq!(
        only_packet(sup.on_stream_end(Some(0))),
        ServerPacket::ProcessEvent(ProcessEventPacket::Finished { exit_code: 0 })
    );
}

#[test]
fn missing_exit_code_reports_minus_one() {
    let mut sup = ExecSupervisor::new();
    sup.on_inspected(true);
    sup.on_launched(true, "");
    assert_eq!(
        only_packet(sup.on_stream_end(None)),
        ServerPacket::ProcessEvent(ProcessEventPacket::Finished { exit_code: -1 })
    );
}

#[test]
fn invalid_utf8_is_replaced_never_dropped() {
    let mut sup = ExecSupervisor::new();
    sup.on_inspected(true);
    sup.on_launched(true, "");
    let frames = sup.on_chunk(true, &vec![0x68, 0x69, 0xff, 0x21]);
    match only_packet(frames) {
        ServerPacket::ProcessOutput(ProcessOutputPacket::StdOut(t)) => {
            assert_eq!(t, "hi\u{fffd}!");
        },
        other => panic!("unexpected packet {other:?}"),
    }
}
