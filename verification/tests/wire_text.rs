//! The exact canonical frame text, and what the decoder refuses.

use boa::codec::{decode_client, encode_client, encode_server};
use boa::codec_server::decode_server;
use boa::packets::client::{
    ClientPacket, ProcessClosePacket, ProcessControlSignal, ProcessControlSignalPacket,
    ProcessOpenPacket,
};
use boa::packets::server::{
    ProcessEventPacket, ProcessOpenResultPacket, ProcessOutputPacket, ServerError,
    ServerErrorPacket, ServerPacket,
};

#[test]
fn client_frames_read_as_expected() {
    assert_eq!(
        encode_client(&ClientPacket::ProcessOpen(ProcessOpenPacket {})),
        "{\"type\":\"ProcessOpen\",\"data\":{}}"
    );
    assert_eq!(
        encode_client(&ClientPacket::ProcessClose(ProcessClosePacket {
            container_id: "boa-1".to_string(),
        })),
        "{\"type\":\"ProcessClose\",\"data\":{\"container_id\":\"boa-1\"}}"
    );
    assert_eq!(
        encode_client(&ClientPacket::UploadStart {
            container_id: "boa-1".to_string(),
            path: "main.py".to_string(),
            size: 30,
        }),
        "{\"type\":\"UploadStart\",\"data\":{\"container_id\":\"boa-1\",\"path\":\"main.py\",\"size\":30}}"
    );
    assert_eq!(
        encode_client(&ClientPacket::ProcessControlSignal(ProcessControlSignalPacket {
            container_id: "boa-1".to_string(),
            control_signal: ProcessControlSignal::Start,
        })),
        "{\"type\":\"ProcessControlSignal\",\"data\":{\"container_id\":\"boa-1\",\"control_signal\":\"Start\"}}"
    );
    assert_eq!(
        encode_client(&ClientPacket::ProcessControlSignal(ProcessControlSignalPacket {
            container_id: "boa-1".to_string(),
            control_signal: ProcessControlSignal::Exec("main.py".to_string()),
        })),
        "{\"type\":\"ProcessControlSignal\",\"data\":{\"container_id\":\"boa-1\",\"control_signal\":{\"Exec\":\"main.py\"}}}"
    );
}

#[test]
fn server_frames_read_as_expected() {
    assert_eq!(
        encode_server(&ServerPacket::ProcessOpenResult(ProcessOpenResultPacket {
            container_id: "boa-1".to_string(),
        })),
        "{\"type\":\"ProcessOpenResult\",\"data\":{\"container_id\":\"boa-1\"}}"
    );
    assert_eq!(
        encode_server(&ServerPacket::ProcessEvent(ProcessEventPacket::Started)),
        "{\"type\":\"ProcessEvent\",\"data\":\"Started\"}"
    );
    assert_eq!(
        encode_server(&ServerPacket::ProcessEvent(ProcessEventPacket::Finished {
            exit_code: 0,
        })),
        "{\"type\":\"ProcessEvent\",\"data\":{\"Finished\":{\"exit_code\":0}}}"
    );
    assert_eq!(
        encode_server(&ServerPacket::ProcessEvent(ProcessEventPacket::Finished {
            exit_code: -17,
        })),
        "{\"type\":\"ProcessEvent\",\"data\":{\"Finished\":{\"exit_code\":-17}}}"
    );
    assert_eq!(
        encode_server(&ServerPacket::ProcessOutput(ProcessOutputPacket::StdOut(
            "hello\n".to_string(),
        ))),
        "{\"type\":\"ProcessOutput\",\"data\":{\"StdOut\":\"hello\\n\"}}"
    );
    assert_eq!(
        encode_server(&ServerPacket::ServerError(ServerErrorPacket {
            err: ServerError::InvalidJson,
            message: "invalid json".to_string(),
        })),
        "{\"type\":\"ServerError\",\"data\":{\"err\":\"InvalidJson\",\"message\":\"invalid json\"}}"
    );
}

#[test]
fn string_escapes_read_as_expected() {
    let text = encode_client(&ClientPacket::ProcessClose(ProcessClosePacket {
        container_id: "a\"b\\c\nd\te\u{1}f".to_string(),
    }));
    assert_eq!(
        text,
        "{\"type\":\"ProcessClose\",\"data\":{\"container_id\":\"a\\\"b\\\\c\\nd\\te\\u0001f\"}}"
    );
}

#[test]
fn unknown_tag_is_refused() {
    assert!(decode_client("{\"type\":\"Nope\"}").is_none());
    assert!(decode_client("{\"type\":\"Nope\",\"data\":{}}").is_none());
    assert!(decode_server("{\"type\":\"Nope\",\"data\":{}}").is_none());
}

#[test]
fn malformed_text_is_refused() {
    for text in [
        "",
        "{",
        "not json at all",
        "{\"type\":\"ProcessOpen\",\"data\":{}",
        "{\"type\":\"ProcessOpen\",\"data\":{}}trailing",
        "{\"type\":\"ProcessClose\",\"data\":{\"container_id\":\"unterminated}}",
        "{\"type\":\"UploadStart\",\"data\":{\"container_id\":\"c\",\"path\":\"p\",\"size\":-3}}",
        "{\"type\":\"UploadStart\",\"data\":{\"container_id\":\"c\",\"path\":\"p\",\"size\":007}}",
        "{\"type\":\"UploadStart\",\"data\":{\"container_id\":\"c\",\"path\":\"p\",\"size\":99999999999999999999999}}",
    ] {
        assert!(decode_client(text).is_none(), "must refuse: {text}");
    }
}

#[test]
fn non_canonical_layout_is_refused() {
    // Valid JSON for the same value, but not the canonical frame.
    for text in [
        "{ \"type\":\"ProcessOpen\",\"data\":{}}",
        "{\"type\": \"ProcessOpen\",\"data\":{}}",
        "{\"data\":{},\"type\":\"ProcessOpen\"}",
    ] {
        assert!(decode_client(text).is_none(), "must refuse: {text}");
    }
}

#[test]
fn decode_accepts_exactly_the_encoder_output() {
    let text = "{\"type\":\"UploadFinish\",\"data\":{\"container_id\":\"boa-9\"}}";
    let p = decode_client(text).expect("canonical frame must decode");
    assert_eq!(encode_client(&p), text);
}
