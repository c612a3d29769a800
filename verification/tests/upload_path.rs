//! The upload coordinator: one upload at a time, byte accounting, and the
//! archive that finally reaches the container.

use std::io::Read;

use boa::archive::build_upload_archive;
use boa::connection::{Command, Connection, WsOutbound};
use boa::packets::server::{ServerError, ServerPacket};

fn upload_error_kind(frame: &WsOutbound) -> ServerError {
    match frame {
        WsOutbound::Packet(ServerPacket::ServerError(p)) => p.err,
        other => panic!("expected an error frame, got {other:?}"),
    }
}

fn open_session(conn: &mut Connection, id: &str) {
    conn.handle_text("{\"type\":\"ProcessOpen\",\"data\":{}}");
    conn.on_created(id.to_string());
}

#[test]
fn second_upload_start_is_refused_and_first_survives() {
    let mut conn = Connection::new();
    open_session(&mut conn, "boa-1");
    let first = conn.handle_text(
        "{\"type\":\"UploadStart\",\"data\":{\"container_id\":\"boa-1\",\"path\":\"a.py\",\"size\":4}}",
    );
    assert_eq!(first.commands, vec![Command::OpenScratch]);
    let second = conn.handle_text(
        "{\"type\":\"UploadStart\",\"data\":{\"container_id\":\"boa-1\",\"path\":\"b.py\",\"size\":9}}",
    );
    assert_eq!(upload_error_kind(&second.frames[0]), ServerError::UploadAlreadyInProgress);
    assert!(second.commands.is_empty());
    assert!(!second.close);

    // The first upload is still the one that finishes.
    let finish =
        conn.handle_text("{\"type\":\"UploadFinish\",\"data\":{\"container_id\":\"boa-1\"}}");
    assert_eq!(
        finish.commands,
        vec![Command::Finalize {
            container_id: "boa-1".to_string(),
            file_name: "a.py".to_string(),
        }]
    );
}

#[test]
fn upload_start_for_unknown_container_is_refused() {
    let mut conn = Connection::new();
    let step = conn.handle_text(
        "{\"type\":\"UploadStart\",\"data\":{\"container_id\":\"ghost\",\"path\":\"a.py\",\"size\":4}}",
    );
    assert_eq!(upload_error_kind(&step.frames[0]), ServerError::InvalidContainerId);
    assert!(step.commands.is_empty());
}

#[test]
fn binary_frame_without_upload_is_a_protocol_error() {
    let mut conn = Connection::new();
    let step = conn.handle_binary(vec![5, 6, 7, 8]);
    assert_eq!(step.frames.len(), 1);
    assert_eq!(upload_error_kind(&step.frames[0]), ServerError::UnexpectedBinaryFrame);
    assert!(step.commands.is_empty());
    assert!(!step.close);
}

#[test]
fn upload_finish_without_start_is_silent() {
    let mut conn = Connection::new();
    let step =
        conn.handle_text("{\"type\":\"UploadFinish\",\"data\":{\"container_id\":\"ghost\"}}");
    assert!(step.frames.is_empty());
    assert!(step.commands.is_empty());
    assert!(!step.close);
}

#[test]
fn write_failure_clears_the_upload() {
    let mut conn = Connection::new();
    open_session(&mut conn, "boa-1");
    conn.handle_text(
        "{\"type\":\"UploadStart\",\"data\":{\"container_id\":\"boa-1\",\"path\":\"a.py\",\"size\":4}}",
    );
    let step = conn.on_scratch_write_failed("disk full");
    assert_eq!(upload_error_kind(&step.frames[0]), ServerError::UploadFailed);
    // The coordinator is idle again: payload bytes are now unexpected.
    let step = conn.handle_binary(vec![1]);
    assert_eq!(upload_error_kind(&step.frames[0]), ServerError::UnexpectedBinaryFrame);
}

#[test]
fn scratch_failure_clears_the_upload() {
    let mut conn = Connection::new();
    open_session(&mut conn, "boa-1");
    conn.handle_text(
        "{\"type\":\"UploadStart\",\"data\":{\"container_id\":\"boa-1\",\"path\":\"a.py\",\"size\":4}}",
    );
    let step = conn.on_scratch_open_failed();
    assert_eq!(upload_error_kind(&step.frames[0]), ServerError::TempFileCreationFailed);
    let step = conn.handle_binary(vec![1]);
    assert_eq!(upload_error_kind(&step.frames[0]), ServerError::UnexpectedBinaryFrame);
}

#[test]
fn empty_upload_produces_an_empty_file_in_the_archive() {
    // An upload of size zero: start, no binary frames, finish.
    let mut conn = Connection::new();
    open_session(&mut conn, "boa-1");
    let start = conn.handle_text(
        "{\"type\":\"UploadStart\",\"data\":{\"container_id\":\"boa-1\",\"path\":\"main.py\",\"size\":0}}",
    );
    assert_eq!(start.commands, vec![Command::OpenScratch]);
    let finish =
        conn.handle_text("{\"type\":\"UploadFinish\",\"data\":{\"container_id\":\"boa-1\"}}");
    assert_eq!(
        finish.commands,
        vec![Command::Finalize {
            container_id: "boa-1".to_string(),
            file_name: "main.py".to_string(),
        }]
    );

    // The archive that the runtime unpacks holds exactly one empty file.
    let bytes = build_upload_archive("main.py", &Vec::new()).expect("archive must build");
    let mut archive = tar::Archive::new(&bytes[..]);
    let mut entries = archive.entries().expect("archive must list");
    let mut entry = entries.next().expect("one entry").expect("entry must read");
    assert_eq!(entry.path().unwrap().to_str().unwrap(), "main.py");
    let mut contents = Vec::new();
    entry.read_to_end(&mut contents).unwrap();
    assert!(contents.is_empty());
    assert!(entries.next().is_none());
}

#[test]
fn archive_carries_the_file_contents() {
    let payload = b"print('hello from container')\n".to_vec();
    let bytes = build_upload_archive("main.py", &payload).expect("archive must build");
    assert_ne!(bytes, payload);
    let mut archive = tar::Archive::new(&bytes[..]);
    let mut entries = archive.entries().expect("archive must list");
    let mut entry = entries.next().expect("one entry").expect("entry must read");
    assert_eq!(entry.path().unwrap().to_str().unwrap(), "main.py");
    let mut contents = Vec::new();
    entry.read_to_end(&mut contents).unwrap();
    assert_eq!(contents, payload);
    assert!(entries.next().is_none());
}
