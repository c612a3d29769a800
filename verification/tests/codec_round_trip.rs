//! Encode-then-decode round trips for every packet shape.

use boa::codec::{decode_client, encode_client, encode_server};
use boa::codec_server::decode_server;
use boa::packets::client::{
    ClientPacket, ProcessClosePacket, ProcessControlSignal, ProcessControlSignalPacket,
    ProcessOpenPacket,
};
use boa::packets::server::{
    ProcessCloseResultPacket, ProcessEventPacket, ProcessOpenResultPacket, ProcessOutputPacket,
    ServerError, ServerErrorPacket, ServerPacket,
};

fn client_round_trip(p: ClientPacket) {
    let text = encode_client(&p);
    let back = decode_client(&text).expect("canonical frame must decode");
    assert_eq!(back, p);
}

fn server_round_trip(p: ServerPacket) {
    let text = encode_server(&p);
    let back = decode_server(&text).expect("canonical frame must decode");
    assert_eq!(back, p);
}

#[test]
fn round_trip_process_open() {
    client_round_trip(ClientPacket::ProcessOpen(ProcessOpenPacket {}));
}

#[test]
fn round_trip_process_close() {
    client_round_trip(ClientPacket::ProcessClose(ProcessClosePacket {
        container_id: "boa-42".to_string(),
    }));
}

#[test]
fn round_trip_control_signals() {
    for signal in [
        ProcessControlSignal::Start,
        ProcessControlSignal::Exec("main.py".to_string()),
        ProcessControlSignal::Interrupt,
        ProcessControlSignal::Terminate,
    ] {
        client_round_trip(ClientPacket::ProcessControlSignal(ProcessControlSignalPacket {
            container_id: "boa-1".to_string(),
            control_signal: signal,
        }));
    }
}

#[test]
fn round_trip_upload_frames() {
    client_round_trip(ClientPacket::UploadStart {
        container_id: "boa-1".to_string(),
        path: "main.py".to_string(),
        size: 30,
    });
    client_round_trip(ClientPacket::UploadStart {
        container_id: String::new(),
        path: String::new(),
        size: 0,
    });
    client_round_trip(ClientPacket::UploadStart {
        container_id: "x".to_string(),
        path: "y".to_string(),
        size: u64::MAX,
    });
    client_round_trip(ClientPacket::UploadFinish { container_id: "boa-1".to_string() });
}

#[test]
fn round_trip_strings_with_escapes() {
    for id in [
        "plain",
        "with \"quotes\"",
        "back\\slash",
        "tab\tnewline\nreturn\rbell\u{7}form\u{c}backspace\u{8}",
        "control \u{1} and \u{1f}",
        "unicode ünïcødé 🐍",
        "",
    ] {
        client_round_trip(ClientPacket::ProcessClose(ProcessClosePacket {
            container_id: id.to_string(),
        }));
    }
}

#[test]
fn round_trip_server_packets() {
    server_round_trip(ServerPacket::ProcessOpenResult(ProcessOpenResultPacket {
        container_id: "boa-7".to_string(),
    }));
    server_round_trip(ServerPacket::ProcessCloseResult(ProcessCloseResultPacket {
        success: true,
    }));
    server_round_trip(ServerPacket::ProcessCloseResult(ProcessCloseResultPacket {
        success: false,
    }));
    server_round_trip(ServerPacket::ProcessOutput(ProcessOutputPacket::StdOut(
        "hello from container\n".to_string(),
    )));
    server_round_trip(ServerPacket::ProcessOutput(ProcessOutputPacket::StdErr(
        "Traceback (most recent call last):\n".to_string(),
    )));
    server_round_trip(ServerPacket::ProcessEvent(ProcessEventPacket::Started));
    server_round_trip(ServerPacket::ProcessEvent(ProcessEventPacket::TimedOut));
    for code in [0i64, 1, -1, 137, i64::MAX, i64::MIN] {
        server_round_trip(ServerPacket::ProcessEvent(ProcessEventPacket::Finished {
            exit_code: code,
        }));
    }
}

#[test]
fn round_trip_every_error_kind() {
    for err in [
        ServerError::InvalidJson,
        ServerError::InvalidContainerId,
        ServerError::ProcessStartFailed,
        ServerError::TempFileCreationFailed,
        ServerError::UploadAlreadyInProgress,
        ServerError::UploadFailed,
        ServerError::UnexpectedBinaryFrame,
    ] {
        server_round_trip(ServerPacket::ServerError(ServerErrorPacket {
            err,
            message: "something went wrong: \"details\"".to_string(),
        }));
    }
}
