//! The per-connection state machine, driven through whole scenarios.

use boa::connection::{Command, Connection, WsOutbound};
use boa::packets::client::ControlSignal;
use boa::packets::server::{
    ProcessCloseResultPacket, ProcessEventPacket, ProcessOpenResultPacket, ProcessOutputPacket,
    ServerError, ServerPacket,
};

fn error_kind(frame: &WsOutbound) -> ServerError {
    match frame {
        WsOutbound::Packet(ServerPacket::ServerError(p)) => p.err,
        other => panic!("expected an error frame, got {other:?}"),
    }
}

#[test]
fn happy_path_session() {
    let mut conn = Connection::new();

    // Open: the runtime is asked for a container.
    let step = conn.handle_text("{\"type\":\"ProcessOpen\",\"data\":{}}");
    assert_eq!(step.commands, vec![Command::Create]);
    assert!(step.frames.is_empty());
    assert!(!step.close);

    // The runtime created it: the id is announced.
    let step = conn.on_created("boa-1".to_string());
    assert_eq!(
        step.frames,
        vec![WsOutbound::Packet(ServerPacket::ProcessOpenResult(ProcessOpenResultPacket {
            container_id: "boa-1".to_string(),
        }))]
    );
    assert!(step.commands.is_empty());

    // Upload main.py.
    let step = conn.handle_text(
        "{\"type\":\"UploadStart\",\"data\":{\"container_id\":\"boa-1\",\"path\":\"main.py\",\"size\":30}}",
    );
    assert_eq!(step.commands, vec![Command::OpenScratch]);
    assert!(step.frames.is_empty());
    let step = conn.handle_binary(b"print('hello from container')\n".to_vec());
    assert_eq!(
        step.commands,
        vec![Command::AppendScratch { bytes: b"print('hello from container')\n".to_vec() }]
    );
    assert!(step.frames.is_empty());
    let step =
        conn.handle_text("{\"type\":\"UploadFinish\",\"data\":{\"container_id\":\"boa-1\"}}");
    assert_eq!(
        step.commands,
        vec![Command::Finalize {
            container_id: "boa-1".to_string(),
            file_name: "main.py".to_string(),
        }]
    );
    assert!(step.frames.is_empty());

    // Start the container.
    let step = conn.handle_text(
        "{\"type\":\"ProcessControlSignal\",\"data\":{\"container_id\":\"boa-1\",\"control_signal\":\"Start\"}}",
    );
    assert_eq!(step.commands, vec![Command::Start { container_id: "boa-1".to_string() }]);
    let step = conn.on_start_done("boa-1", true, "");
    assert_eq!(
        step.frames,
        vec![WsOutbound::Packet(ServerPacket::ProcessEvent(ProcessEventPacket::Started))]
    );

    // Exec main.py.
    let step = conn.handle_text(
        "{\"type\":\"ProcessControlSignal\",\"data\":{\"container_id\":\"boa-1\",\"control_signal\":{\"Exec\":\"main.py\"}}}",
    );
    assert_eq!(
        step.commands,
        vec![Command::Exec {
            container_id: "boa-1".to_string(),
            file_name: "main.py".to_string(),
        }]
    );

    // Close the session.
    let step =
        conn.handle_text("{\"type\":\"ProcessClose\",\"data\":{\"container_id\":\"boa-1\"}}");
    assert_eq!(step.commands, vec![Command::Remove { container_id: "boa-1".to_string() }]);
    let step = conn.on_remove_done(true);
    assert_eq!(
        step.frames,
        vec![WsOutbound::Packet(ServerPacket::ProcessCloseResult(ProcessCloseResultPacket {
            success: true,
        }))]
    );
}

#[test]
fn malformed_json_answers_and_closes_1007() {
    let mut conn = Connection::new();
    let step = conn.handle_text("{\"type\":\"Nope\"}");
    assert_eq!(step.frames.len(), 1);
    assert_eq!(error_kind(&step.frames[0]), ServerError::InvalidJson);
    assert!(step.close);
    assert_eq!(step.close_code, Some(1007));
}

#[test]
fn second_close_reports_invalid_container_id() {
    let mut conn = Connection::new();
    conn.handle_text("{\"type\":\"ProcessOpen\",\"data\":{}}");
    conn.on_created("boa-1".to_string());
    let first =
        conn.handle_text("{\"type\":\"ProcessClose\",\"data\":{\"container_id\":\"boa-1\"}}");
    assert_eq!(first.commands, vec![Command::Remove { container_id: "boa-1".to_string() }]);
    let second =
        conn.handle_text("{\"type\":\"ProcessClose\",\"data\":{\"container_id\":\"boa-1\"}}");
    assert!(second.commands.is_empty());
    assert_eq!(second.frames.len(), 1);
    assert_eq!(error_kind(&second.frames[0]), ServerError::InvalidContainerId);
    assert!(!second.close);
}

#[test]
fn signals_map_to_runtime_stops() {
    let mut conn = Connection::new();
    conn.handle_text("{\"type\":\"ProcessOpen\",\"data\":{}}");
    conn.on_created("boa-1".to_string());
    let step = conn.handle_text(
        "{\"type\":\"ProcessControlSignal\",\"data\":{\"container_id\":\"boa-1\",\"control_signal\":\"Interrupt\"}}",
    );
    assert_eq!(
        step.commands,
        vec![Command::Signal {
            container_id: "boa-1".to_string(),
            signal: ControlSignal::Interrupt,
        }]
    );
    let step = conn.handle_text(
        "{\"type\":\"ProcessControlSignal\",\"data\":{\"container_id\":\"boa-1\",\"control_signal\":\"Terminate\"}}",
    );
    assert_eq!(
        step.commands,
        vec![Command::Signal {
            container_id: "boa-1".to_string(),
            signal: ControlSignal::Terminate,
        }]
    );
    // A failed stop ends the connection; a successful one does not.
    assert!(!conn.on_signal_done(true).close);
    assert!(conn.on_signal_done(false).close);
}

#[test]
fn signal_on_unknown_container_reports_invalid_id() {
    let mut conn = Connection::new();
    let step = conn.handle_text(
        "{\"type\":\"ProcessControlSignal\",\"data\":{\"container_id\":\"ghost\",\"control_signal\":\"Start\"}}",
    );
    assert!(step.commands.is_empty());
    assert_eq!(error_kind(&step.frames[0]), ServerError::InvalidContainerId);
    assert!(!step.close);
}

#[test]
fn start_failure_reports_process_start_failed() {
    let mut conn = Connection::new();
    conn.handle_text("{\"type\":\"ProcessOpen\",\"data\":{}}");
    conn.on_created("boa-1".to_string());
    let step = conn.on_start_done("boa-1", false, "failed to start: no such image");
    assert_eq!(step.frames.len(), 1);
    match &step.frames[0] {
        WsOutbound::Packet(ServerPacket::ServerError(p)) => {
            assert_eq!(p.err, ServerError::ProcessStartFailed);
            assert_eq!(p.message, "failed to start: no such image");
        },
        other => panic!("unexpected frame {other:?}"),
    }
}

#[test]
fn ping_answers_pong() {
    let mut conn = Connection::new();
    let step = conn.handle_ping(vec![1, 2, 3]);
    assert_eq!(step.frames, vec![WsOutbound::Pong(vec![1, 2, 3])]);
    assert!(step.commands.is_empty());
}

#[test]
fn teardown_reclaims_every_container() {
    let mut conn = Connection::new();
    conn.handle_text("{\"type\":\"ProcessOpen\",\"data\":{}}");
    conn.on_created("boa-1".to_string());
    conn.handle_text("{\"type\":\"ProcessOpen\",\"data\":{}}");
    conn.on_created("boa-2".to_string());
    let step = conn.handle_close();
    assert!(step.close);
    assert_eq!(
        step.commands,
        vec![
            Command::Reclaim { container_id: "boa-1".to_string() },
            Command::Reclaim { container_id: "boa-2".to_string() },
        ]
    );

    // Nothing is left: a close on either id now reports an unknown id.
    let step =
        conn.handle_text("{\"type\":\"ProcessClose\",\"data\":{\"container_id\":\"boa-1\"}}");
    assert_eq!(error_kind(&step.frames[0]), ServerError::InvalidContainerId);
}

#[test]
fn output_frames_keep_their_stream() {
    // The packet shapes the supervisor emits for the two streams differ.
    let out = ServerPacket::ProcessOutput(ProcessOutputPacket::StdOut("a".to_string()));
    let err = ServerPacket::ProcessOutput(ProcessOutputPacket::StdErr("a".to_string()));
    assert_ne!(out, err);
}

#[test]
fn stop_signals_have_their_posix_names() {
    assert_eq!(ControlSignal::Interrupt.signal_name(), "SIGINT");
    assert_eq!(ControlSignal::Terminate.signal_name(), "SIGTERM");
}
