//! The wire codec: every packet travels as one JSON text frame in the
//! envelope `{"type": <tag>, "data": <payload>}`.
//!
//! `client_json` and `server_json` define the canonical frame text of each
//! packet.  The encoders produce exactly that text; the decoders accept
//! exactly the canonical frames and reject everything else, so that decoding
//! an encoded packet always yields the packet back.

use vstd::prelude::*;

use crate::chars::{chars_of_str, chars_eq, chars_is, push_str_chars, string_from_chars};
use crate::jsontext::{
    bool_json, dec_at, dec_of, int_json, lit_at, p_lit, p_quoted, p_u64, push_bool_json,
    push_i64_json, push_quoted, push_u64, quoted, quoted_at,
};
use crate::packets::client::{
    ClientPacket, ClientPacketV, ProcessClosePacket, ProcessControlSignal,
    ProcessControlSignalPacket, ProcessControlSignalV, ProcessOpenPacket,
};
use crate::packets::server::{
    ProcessCloseResultPacket, ProcessEventPacket, ProcessOpenResultPacket, ProcessOutputPacket,
    ProcessOutputPacketV, ServerError, ServerErrorPacket, ServerPacket, ServerPacketV,
};

verus! {

/// The JSON envelope: a `type` tag and a `data` payload.
pub open spec fn obj_json(tag: Seq<char>, data: Seq<char>) -> Seq<char> {
    "{\"type\":"@ + quoted(tag) + ",\"data\":"@ + data + "}"@
}

/// The canonical JSON text of a control signal.
pub open spec fn sig_json(v: ProcessControlSignalV) -> Seq<char> {
    match v {
        ProcessControlSignalV::Start => quoted("Start"@),
        ProcessControlSignalV::Exec(f) => "{\"Exec\":"@ + quoted(f) + "}"@,
        ProcessControlSignalV::Interrupt => quoted("Interrupt"@),
        ProcessControlSignalV::Terminate => quoted("Terminate"@),
    }
}

/// The canonical frame text of a client packet.
pub open spec fn client_json(v: ClientPacketV) -> Seq<char> {
    match v {
        ClientPacketV::ProcessOpen => obj_json("ProcessOpen"@, "{}"@),
        ClientPacketV::ProcessClose { container_id } => obj_json(
            "ProcessClose"@,
            "{\"container_id\":"@ + quoted(container_id) + "}"@,
        ),
        ClientPacketV::ProcessControlSignal { container_id, control_signal } => obj_json(
            "ProcessControlSignal"@,
            "{\"container_id\":"@ + quoted(container_id) + ",\"control_signal\":"@ + sig_json(
                control_signal,
            ) + "}"@,
        ),
        ClientPacketV::UploadStart { container_id, path, size } => obj_json(
            "UploadStart"@,
            "{\"container_id\":"@ + quoted(container_id) + ",\"path\":"@ + quoted(path)
                + ",\"size\":"@ + dec_of(size as nat) + "}"@,
        ),
        ClientPacketV::UploadFinish { container_id } => obj_json(
            "UploadFinish"@,
            "{\"container_id\":"@ + quoted(container_id) + "}"@,
        ),
    }
}

/// The canonical JSON text of a process lifecycle event.
pub open spec fn event_json(e: ProcessEventPacket) -> Seq<char> {
    match e {
        ProcessEventPacket::Started => quoted("Started"@),
        ProcessEventPacket::Finished { exit_code } => "{\"Finished\":{\"exit_code\":"@ + int_json(
            exit_code as int,
        ) + "}}"@,
        ProcessEventPacket::TimedOut => quoted("TimedOut"@),
    }
}

/// The canonical JSON text of an output chunk.
pub open spec fn output_json(o: ProcessOutputPacketV) -> Seq<char> {
    match o {
        ProcessOutputPacketV::StdOut(t) => "{\"StdOut\":"@ + quoted(t) + "}"@,
        ProcessOutputPacketV::StdErr(t) => "{\"StdErr\":"@ + quoted(t) + "}"@,
    }
}

/// The wire name of each error kind.
pub open spec fn err_name(e: ServerError) -> Seq<char> {
    match e {
        ServerError::InvalidJson => "InvalidJson"@,
        ServerError::InvalidContainerId => "InvalidContainerId"@,
        ServerError::ProcessStartFailed => "ProcessStartFailed"@,
        ServerError::TempFileCreationFailed => "TempFileCreationFailed"@,
        ServerError::UploadAlreadyInProgress => "UploadAlreadyInProgress"@,
        ServerError::UploadFailed => "UploadFailed"@,
        ServerError::UnexpectedBinaryFrame => "UnexpectedBinaryFrame"@,
    }
}

/// The canonical frame text of a server packet.
pub open spec fn server_json(v: ServerPacketV) -> Seq<char> {
    match v {
        ServerPacketV::ProcessOpenResult { container_id } => obj_json(
            "ProcessOpenResult"@,
            "{\"container_id\":"@ + quoted(container_id) + "}"@,
        ),
        ServerPacketV::ProcessCloseResult { success } => obj_json(
            "ProcessCloseResult"@,
            "{\"success\":"@ + bool_json(success) + "}"@,
        ),
        ServerPacketV::ProcessOutput(o) => obj_json("ProcessOutput"@, output_json(o)),
        ServerPacketV::ProcessEvent(e) => obj_json("ProcessEvent"@, event_json(e)),
        ServerPacketV::ServerError { err, message } => obj_json(
            "ServerError"@,
            "{\"err\":"@ + quoted(err_name(err)) + ",\"message\":"@ + quoted(message) + "}"@,
        ),
    }
}

/// The characters of the canonical frame for a client packet.
pub fn encode_client_chars(p: &ClientPacket) -> (r: Vec<char>)
    ensures
        r@ == client_json(p@),
{
    let mut out: Vec<char> = Vec::new();
    push_str_chars(&mut out, "{\"type\":");
    match p {
        ClientPacket::ProcessOpen(_) => {
            push_quoted(&mut out, "ProcessOpen");
            push_str_chars(&mut out, ",\"data\":");
            push_str_chars(&mut out, "{}");
        },
        ClientPacket::ProcessClose(pkt) => {
            push_quoted(&mut out, "ProcessClose");
            push_str_chars(&mut out, ",\"data\":");
            push_str_chars(&mut out, "{\"container_id\":");
            push_quoted(&mut out, pkt.container_id.as_str());
            push_str_chars(&mut out, "}");
        },
        ClientPacket::ProcessControlSignal(pkt) => {
            push_quoted(&mut out, "ProcessControlSignal");
            push_str_chars(&mut out, ",\"data\":");
            push_str_chars(&mut out, "{\"container_id\":");
            push_quoted(&mut out, pkt.container_id.as_str());
            push_str_chars(&mut out, ",\"control_signal\":");
            match &pkt.control_signal {
                ProcessControlSignal::Start => {
                    push_quoted(&mut out, "Start");
                },
                ProcessControlSignal::Exec(f) => {
                    push_str_chars(&mut out, "{\"Exec\":");
                    push_quoted(&mut out, f.as_str());
                    push_str_chars(&mut out, "}");
                },
                ProcessControlSignal::Interrupt => {
                    push_quoted(&mut out, "Interrupt");
                },
                ProcessControlSignal::Terminate => {
                    push_quoted(&mut out, "Terminate");
                },
            }
            push_str_chars(&mut out, "}");
        },
        ClientPacket::UploadStart { container_id, path, size } => {
            push_quoted(&mut out, "UploadStart");
            push_str_chars(&mut out, ",\"data\":");
            push_str_chars(&mut out, "{\"container_id\":");
            push_quoted(&mut out, container_id.as_str());
            push_str_chars(&mut out, ",\"path\":");
            push_quoted(&mut out, path.as_str());
            push_str_chars(&mut out, ",\"size\":");
            push_u64(&mut out, *size);
            push_str_chars(&mut out, "}");
        },
        ClientPacket::UploadFinish { container_id } => {
            push_quoted(&mut out, "UploadFinish");
            push_str_chars(&mut out, ",\"data\":");
            push_str_chars(&mut out, "{\"container_id\":");
            push_quoted(&mut out, container_id.as_str());
            push_str_chars(&mut out, "}");
        },
    }
    push_str_chars(&mut out, "}");
    proof {
        assert(out@ =~= client_json(p@));
    }
    out
}

/// The canonical frame for a client packet.
pub fn encode_client(p: &ClientPacket) -> (r: String)
    ensures
        r@ == client_json(p@),
{
    let out = encode_client_chars(p);
    string_from_chars(&out)
}

/// The characters of the canonical frame for a server packet.
pub fn encode_server_chars(p: &ServerPacket) -> (r: Vec<char>)
    ensures
        r@ == server_json(p@),
{
    let mut out: Vec<char> = Vec::new();
    push_str_chars(&mut out, "{\"type\":");
    match p {
        ServerPacket::ProcessOpenResult(pkt) => {
            push_quoted(&mut out, "ProcessOpenResult");
            push_str_chars(&mut out, ",\"data\":");
            push_str_chars(&mut out, "{\"container_id\":");
            push_quoted(&mut out, pkt.container_id.as_str());
            push_str_chars(&mut out, "}");
        },
        ServerPacket::ProcessCloseResult(pkt) => {
            push_quoted(&mut out, "ProcessCloseResult");
            push_str_chars(&mut out, ",\"data\":");
            push_str_chars(&mut out, "{\"success\":");
            push_bool_json(&mut out, pkt.success);
            push_str_chars(&mut out, "}");
        },
        ServerPacket::ProcessOutput(o) => {
            push_quoted(&mut out, "ProcessOutput");
            push_str_chars(&mut out, ",\"data\":");
            match o {
                ProcessOutputPacket::StdOut(t) => {
                    push_str_chars(&mut out, "{\"StdOut\":");
                    push_quoted(&mut out, t.as_str());
                    push_str_chars(&mut out, "}");
                },
                ProcessOutputPacket::StdErr(t) => {
                    push_str_chars(&mut out, "{\"StdErr\":");
                    push_quoted(&mut out, t.as_str());
                    push_str_chars(&mut out, "}");
                },
            }
        },
        ServerPacket::ProcessEvent(e) => {
            push_quoted(&mut out, "ProcessEvent");
            push_str_chars(&mut out, ",\"data\":");
            match e {
                ProcessEventPacket::Started => {
                    push_quoted(&mut out, "Started");
                },
                ProcessEventPacket::Finished { exit_code } => {
                    push_str_chars(&mut out, "{\"Finished\":{\"exit_code\":");
                    push_i64_json(&mut out, *exit_code);
                    push_str_chars(&mut out, "}}");
                },
                ProcessEventPacket::TimedOut => {
                    push_quoted(&mut out, "TimedOut");
                },
            }
        },
        ServerPacket::ServerError(pkt) => {
            push_quoted(&mut out, "ServerError");
            push_str_chars(&mut out, ",\"data\":");
            push_str_chars(&mut out, "{\"err\":");
            match pkt.err {
                ServerError::InvalidJson => push_quoted(&mut out, "InvalidJson"),
                ServerError::InvalidContainerId => push_quoted(&mut out, "InvalidContainerId"),
                ServerError::ProcessStartFailed => push_quoted(&mut out, "ProcessStartFailed"),
                ServerError::TempFileCreationFailed => push_quoted(
                    &mut out,
                    "TempFileCreationFailed",
                ),
                ServerError::UploadAlreadyInProgress => push_quoted(
                    &mut out,
                    "UploadAlreadyInProgress",
                ),
                ServerError::UploadFailed => push_quoted(&mut out, "UploadFailed"),
                ServerError::UnexpectedBinaryFrame => push_quoted(
                    &mut out,
                    "UnexpectedBinaryFrame",
                ),
            }
            push_str_chars(&mut out, ",\"message\":");
            push_quoted(&mut out, pkt.message.as_str());
            push_str_chars(&mut out, "}");
        },
    }
    push_str_chars(&mut out, "}");
    proof {
        assert(out@ =~= server_json(p@));
    }
    out
}

/// The canonical frame for a server packet.
pub fn encode_server(p: &ServerPacket) -> (r: String)
    ensures
        r@ == server_json(p@),
{
    let out = encode_server_chars(p);
    string_from_chars(&out)
}

/// The wire tag of a client packet.
pub open spec fn client_tag(v: ClientPacketV) -> Seq<char> {
    match v {
        ClientPacketV::ProcessOpen => "ProcessOpen"@,
        ClientPacketV::ProcessClose { .. } => "ProcessClose"@,
        ClientPacketV::ProcessControlSignal { .. } => "ProcessControlSignal"@,
        ClientPacketV::UploadStart { .. } => "UploadStart"@,
        ClientPacketV::UploadFinish { .. } => "UploadFinish"@,
    }
}

/// No two client tags read the same, and no two signal names read the same.
pub(crate) proof fn lemma_client_names_distinct()
    ensures
        "ProcessOpen"@ != "ProcessClose"@,
        "ProcessOpen"@ != "ProcessControlSignal"@,
        "ProcessOpen"@ != "UploadStart"@,
        "ProcessOpen"@ != "UploadFinish"@,
        "ProcessClose"@ != "ProcessControlSignal"@,
        "ProcessClose"@ != "UploadStart"@,
        "ProcessClose"@ != "UploadFinish"@,
        "ProcessControlSignal"@ != "UploadStart"@,
        "ProcessControlSignal"@ != "UploadFinish"@,
        "UploadStart"@ != "UploadFinish"@,
        "Start"@ != "Interrupt"@,
        "Start"@ != "Terminate"@,
        "Interrupt"@ != "Terminate"@,
{
    reveal_strlit("ProcessOpen");
    reveal_strlit("ProcessClose");
    reveal_strlit("ProcessControlSignal");
    reveal_strlit("UploadStart");
    reveal_strlit("UploadFinish");
    reveal_strlit("Start");
    reveal_strlit("Interrupt");
    reveal_strlit("Terminate");
    assert("ProcessOpen"@.len() == 11);
    assert("ProcessClose"@.len() == 12);
    assert("ProcessControlSignal"@.len() == 20);
    assert("UploadStart"@.len() == 11);
    assert("UploadFinish"@.len() == 12);
    assert("ProcessOpen"@[0] == 'P');
    assert("ProcessClose"@[0] == 'P');
    assert("UploadStart"@[0] == 'U');
    assert("UploadFinish"@[0] == 'U');
    assert("Start"@.len() == 5);
    assert("Interrupt"@.len() == 9);
    assert("Terminate"@.len() == 9);
    assert("Interrupt"@[0] == 'I');
    assert("Terminate"@[0] == 'T');
}

/// Where the frame text of a client packet stands, each of its parts stands
/// at its fixed place.
/// Common prefix of every client frame: the envelope opener, the tag, and
/// the data key.
pub(crate) proof fn lemma_client_head(v: ClientPacketV, s: Seq<char>)
    requires
        s == client_json(v),
    ensures
        lit_at(s, 0, "{\"type\":"@),
        quoted_at(s, "{\"type\":"@.len() as int, client_tag(v)),
        lit_at(s, ("{\"type\":"@.len() + quoted(client_tag(v)).len()) as int, ",\"data\":"@),
{
    let aa = "{\"type\":"@;
    let bb = ",\"data\":"@;
    let qt = quoted(client_tag(v));
    let p1 = aa.len() as int;
    let p2 = p1 + qt.len();
    let p3 = p2 + bb.len();
    assert(s.subrange(0, p1) =~= aa);
    assert(s.subrange(p1, p2) =~= qt);
    assert(s.subrange(p2, p3) =~= bb);
}

/// Layout of a data object holding a single `container_id` field, as the
/// close and upload-finish frames carry it.
pub(crate) proof fn lemma_client_id_data(v: ClientPacketV, s: Seq<char>, container_id: Seq<char>, p3: int)
    requires
        s == client_json(v),
        (v matches ClientPacketV::ProcessClose { container_id: c } && c == container_id && p3
            == "{\"type\":"@.len() + quoted("ProcessClose"@).len() + ",\"data\":"@.len()) || (
        v matches ClientPacketV::UploadFinish { container_id: c } && c == container_id && p3
            == "{\"type\":"@.len() + quoted("UploadFinish"@).len() + ",\"data\":"@.len()),
    ensures
        ({
            let p4 = p3 + "{\"container_id\":"@.len();
            let p5 = p4 + quoted(container_id).len();
            &&& lit_at(s, p3, "{\"container_id\":"@)
            &&& quoted_at(s, p4, container_id)
            &&& lit_at(s, p5, "}"@)
            &&& lit_at(s, p5 + "}"@.len(), "}"@)
            &&& s.len() == p5 + "}"@.len() + "}"@.len()
        }),
{
    let cc = "}"@;
    let dd = "{\"container_id\":"@;
    let p4 = p3 + dd.len();
    let p5 = p4 + quoted(container_id).len();
    assert(s.subrange(p3, p4) =~= dd);
    assert(s.subrange(p4, p5) =~= quoted(container_id));
    assert(s.subrange(p5, p5 + cc.len()) =~= cc);
    assert(s.subrange(p5 + cc.len(), p5 + 2 * cc.len()) =~= cc);
}

/// Layout of the open frame's empty data object.
pub(crate) proof fn lemma_client_open_data(s: Seq<char>)
    requires
        s == client_json(ClientPacketV::ProcessOpen),
    ensures
        ({
            let p3 = ("{\"type\":"@.len() + quoted("ProcessOpen"@).len() + ",\"data\":"@.len())
                as int;
            &&& lit_at(s, p3, "{}"@)
            &&& lit_at(s, p3 + "{}"@.len(), "}"@)
            &&& s.len() == p3 + "{}"@.len() + "}"@.len()
        }),
{
    let cc = "}"@;
    let p3 = ("{\"type\":"@.len() + quoted("ProcessOpen"@).len() + ",\"data\":"@.len()) as int;
    assert(s.subrange(p3, p3 + "{}"@.len()) =~= "{}"@);
    assert(s.subrange(p3 + "{}"@.len(), p3 + "{}"@.len() + cc.len()) =~= cc);
}

/// Layout of the control-signal frame's data object.
pub(crate) proof fn lemma_client_signal_data(
    s: Seq<char>,
    container_id: Seq<char>,
    control_signal: ProcessControlSignalV,
)
    requires
        s == client_json(
            ClientPacketV::ProcessControlSignal { container_id, control_signal },
        ),
    ensures
        ({
            let p3 = ("{\"type\":"@.len() + quoted("ProcessControlSignal"@).len()
                + ",\"data\":"@.len()) as int;
            let p4 = p3 + "{\"container_id\":"@.len();
            let p5 = p4 + quoted(container_id).len();
            let p6 = p5 + ",\"control_signal\":"@.len();
            &&& lit_at(s, p3, "{\"container_id\":"@)
            &&& quoted_at(s, p4, container_id)
            &&& lit_at(s, p5, ",\"control_signal\":"@)
            &&& match control_signal {
                ProcessControlSignalV::Start => ({
                    let p7 = p6 + quoted("Start"@).len();
                    &&& quoted_at(s, p6, "Start"@)
                    &&& lit_at(s, p7, "}"@)
                    &&& lit_at(s, p7 + "}"@.len(), "}"@)
                    &&& s.len() == p7 + "}"@.len() + "}"@.len()
                }),
                ProcessControlSignalV::Exec(f) => ({
                    let p7 = p6 + "{\"Exec\":"@.len();
                    let p8 = p7 + quoted(f).len();
                    &&& lit_at(s, p6, "{\"Exec\":"@)
                    &&& quoted_at(s, p7, f)
                    &&& lit_at(s, p8, "}"@)
                    &&& lit_at(s, p8 + "}"@.len(), "}"@)
                    &&& lit_at(s, p8 + "}"@.len() + "}"@.len(), "}"@)
                    &&& s.len() == p8 + 3 * "}"@.len()
                }),
                ProcessControlSignalV::Interrupt => ({
                    let p7 = p6 + quoted("Interrupt"@).len();
                    &&& quoted_at(s, p6, "Interrupt"@)
                    &&& lit_at(s, p7, "}"@)
                    &&& lit_at(s, p7 + "}"@.len(), "}"@)
                    &&& s.len() == p7 + "}"@.len() + "}"@.len()
                }),
                ProcessControlSignalV::Terminate => ({
                    let p7 = p6 + quoted("Terminate"@).len();
                    &&& quoted_at(s, p6, "Terminate"@)
                    &&& lit_at(s, p7, "}"@)
                    &&& lit_at(s, p7 + "}"@.len(), "}"@)
                    &&& s.len() == p7 + "}"@.len() + "}"@.len()
                }),
            }
        }),
{
    let cc = "}"@;
    let dd = "{\"container_id\":"@;
    let ee = ",\"control_signal\":"@;
    let p3 = ("{\"type\":"@.len() + quoted("ProcessControlSignal"@).len() + ",\"data\":"@.len())
        as int;
    let p4 = p3 + dd.len();
    let p5 = p4 + quoted(container_id).len();
    let p6 = p5 + ee.len();
    assert(s.subrange(p3, p4) =~= dd);
    assert(s.subrange(p4, p5) =~= quoted(container_id));
    assert(s.subrange(p5, p6) =~= ee);
    match control_signal {
        ProcessControlSignalV::Start => {
            let p7 = p6 + quoted("Start"@).len();
            assert(s.subrange(p6, p7) =~= quoted("Start"@));
            assert(s.subrange(p7, p7 + cc.len()) =~= cc);
            assert(s.subrange(p7 + cc.len(), p7 + 2 * cc.len()) =~= cc);
        },
        ProcessControlSignalV::Exec(f) => {
            let ff = "{\"Exec\":"@;
            let p7 = p6 + ff.len();
            let p8 = p7 + quoted(f).len();
            assert(s.subrange(p6, p7) =~= ff);
            assert(s.subrange(p7, p8) =~= quoted(f));
            assert(s.subrange(p8, p8 + cc.len()) =~= cc);
            assert(s.subrange(p8 + cc.len(), p8 + 2 * cc.len()) =~= cc);
            assert(s.subrange(p8 + 2 * cc.len(), p8 + 3 * cc.len()) =~= cc);
        },
        ProcessControlSignalV::Interrupt => {
            let p7 = p6 + quoted("Interrupt"@).len();
            assert(s.subrange(p6, p7) =~= quoted("Interrupt"@));
            assert(s.subrange(p7, p7 + cc.len()) =~= cc);
            assert(s.subrange(p7 + cc.len(), p7 + 2 * cc.len()) =~= cc);
        },
        ProcessControlSignalV::Terminate => {
            let p7 = p6 + quoted("Terminate"@).len();
            assert(s.subrange(p6, p7) =~= quoted("Terminate"@));
            assert(s.subrange(p7, p7 + cc.len()) =~= cc);
            assert(s.subrange(p7 + cc.len(), p7 + 2 * cc.len()) =~= cc);
        },
    }
}

/// Layout of the upload-start frame's data object.
pub(crate) proof fn lemma_client_upload_data(
    s: Seq<char>,
    container_id: Seq<char>,
    path: Seq<char>,
    size: u64,
)
    requires
        s == client_json(ClientPacketV::UploadStart { container_id, path, size }),
    ensures
        ({
            let p3 = ("{\"type\":"@.len() + quoted("UploadStart"@).len() + ",\"data\":"@.len())
                as int;
            let p4 = p3 + "{\"container_id\":"@.len();
            let p5 = p4 + quoted(container_id).len();
            let p6 = p5 + ",\"path\":"@.len();
            let p7 = p6 + quoted(path).len();
            let p8 = p7 + ",\"size\":"@.len();
            let p9 = p8 + dec_of(size as nat).len();
            &&& lit_at(s, p3, "{\"container_id\":"@)
            &&& quoted_at(s, p4, container_id)
            &&& lit_at(s, p5, ",\"path\":"@)
            &&& quoted_at(s, p6, path)
            &&& lit_at(s, p7, ",\"size\":"@)
            &&& dec_at(s, p8, size as nat)
            &&& lit_at(s, p9, "}"@)
            &&& lit_at(s, p9 + "}"@.len(), "}"@)
            &&& s.len() == p9 + "}"@.len() + "}"@.len()
        }),
{
    reveal_strlit("}");
    let cc = "}"@;
    let dd = "{\"container_id\":"@;
    let gg = ",\"path\":"@;
    let hh = ",\"size\":"@;
    let p3 = ("{\"type\":"@.len() + quoted("UploadStart"@).len() + ",\"data\":"@.len()) as int;
    let p4 = p3 + dd.len();
    let p5 = p4 + quoted(container_id).len();
    let p6 = p5 + gg.len();
    let p7 = p6 + quoted(path).len();
    let p8 = p7 + hh.len();
    let p9 = p8 + dec_of(size as nat).len();
    assert(s.subrange(p3, p4) =~= dd);
    assert(s.subrange(p4, p5) =~= quoted(container_id));
    assert(s.subrange(p5, p6) =~= gg);
    assert(s.subrange(p6, p7) =~= quoted(path));
    assert(s.subrange(p7, p8) =~= hh);
    assert(s.subrange(p8, p9) =~= dec_of(size as nat));
    assert(s.subrange(p9, p9 + cc.len()) =~= cc);
    assert(s.subrange(p9 + cc.len(), p9 + 2 * cc.len()) =~= cc);
    assert(s[p9] == '}');
}


/// Reads a client packet from its canonical frame characters.
///
/// Whenever the input is the canonical frame of some packet value, the read
/// yields exactly that packet.
#[verifier::rlimit(100)]
pub fn parse_client(s: &Vec<char>) -> (r: Option<ClientPacket>)
    ensures
        forall|v: ClientPacketV| s@ == #[trigger] client_json(v) ==> (r matches Some(p) && p@
            == v),
{
    let r1 = p_lit(s, 0, "{\"type\":");
    if r1.is_none() {
        proof {
            assert forall|v: ClientPacketV| s@ == client_json(v) implies false by {
                lemma_client_head(v, s@);
            }
        }
        return None;
    }
    let j1 = r1.unwrap();
    let r2 = p_quoted(s, j1);
    if r2.is_none() {
        proof {
            assert forall|v: ClientPacketV| s@ == client_json(v) implies false by {
                lemma_client_head(v, s@);
                assert(quoted_at(s@, j1 as int, client_tag(v)));
            }
        }
        return None;
    }
    let (tagv, j2) = r2.unwrap();
    let r3 = p_lit(s, j2, ",\"data\":");
    if r3.is_none() {
        proof {
            assert forall|v: ClientPacketV| s@ == client_json(v) implies false by {
                lemma_client_head(v, s@);
                assert(quoted_at(s@, j1 as int, client_tag(v)));
                assert(lit_at(s@, j2 as int, ",\"data\":"@));
            }
        }
        return None;
    }
    let j3 = r3.unwrap();
    if chars_is(&tagv, "ProcessOpen") {
        let r4 = p_lit(s, j3, "{}");
        if r4.is_some() {
            let j4 = r4.unwrap();
            let r5 = p_lit(s, j4, "}");
            if r5.is_some() {
                let j5 = r5.unwrap();
                if j5 == s.len() {
                    proof {
                        assert forall|v: ClientPacketV| s@ == client_json(v) implies v
                            == ClientPacketV::ProcessOpen by {
                            lemma_client_head(v, s@);
                            lemma_client_names_distinct();
                            assert(quoted_at(s@, j1 as int, client_tag(v)));
                        }
                    }
                    return Some(ClientPacket::ProcessOpen(ProcessOpenPacket {}));
                }
            }
        }
        proof {
            assert forall|v: ClientPacketV| s@ == client_json(v) implies false by {
                lemma_client_head(v, s@);
                lemma_client_names_distinct();
                assert(quoted_at(s@, j1 as int, client_tag(v)));
                match v {
                    ClientPacketV::ProcessOpen => {
                        lemma_client_open_data(s@);
                        assert(lit_at(s@, j3 as int, "{}"@));
                        assert(lit_at(s@, j3 + "{}"@.len(), "}"@));
                    },
                    _ => {},
                }
            }
        }
        return None;
    }
    if chars_is(&tagv, "ProcessClose") || chars_is(&tagv, "UploadFinish") {
        let close = chars_is(&tagv, "ProcessClose");
        let r4 = p_lit(s, j3, "{\"container_id\":");
        if r4.is_some() {
            let j4 = r4.unwrap();
            let r5 = p_quoted(s, j4);
            if r5.is_some() {
                let (idv, j5) = r5.unwrap();
                let r6 = p_lit(s, j5, "}");
                if r6.is_some() {
                    let j6 = r6.unwrap();
                    let r7 = p_lit(s, j6, "}");
                    if r7.is_some() {
                        let j7 = r7.unwrap();
                        if j7 == s.len() {
                            let id = string_from_chars(&idv);
                            if close {
                                proof {
                                    assert forall|v: ClientPacketV| s@ == client_json(v) implies v
                                        == (ClientPacketV::ProcessClose {
                                        container_id: idv@,
                                    }) by {
                                        lemma_client_head(v, s@);
                                        lemma_client_names_distinct();
                                        assert(quoted_at(s@, j1 as int, client_tag(v)));
                                        match v {
                                            ClientPacketV::ProcessClose { container_id } => {
                                                lemma_client_id_data(
                                                    v,
                                                    s@,
                                                    container_id,
                                                    j3 as int,
                                                );
                                                assert(quoted_at(s@, j4 as int, container_id));
                                            },
                                            _ => {},
                                        }
                                    }
                                }
                                return Some(
                                    ClientPacket::ProcessClose(
                                        ProcessClosePacket { container_id: id },
                                    ),
                                );
                            } else {
                                proof {
                                    assert forall|v: ClientPacketV| s@ == client_json(v) implies v
                                        == (ClientPacketV::UploadFinish {
                                        container_id: idv@,
                                    }) by {
                                        lemma_client_head(v, s@);
                                        lemma_client_names_distinct();
                                        assert(quoted_at(s@, j1 as int, client_tag(v)));
                                        match v {
                                            ClientPacketV::UploadFinish { container_id } => {
                                                lemma_client_id_data(
                                                    v,
                                                    s@,
                                                    container_id,
                                                    j3 as int,
                                                );
                                                assert(quoted_at(s@, j4 as int, container_id));
                                            },
                                            _ => {},
                                        }
                                    }
                                }
                                return Some(ClientPacket::UploadFinish { container_id: id });
                            }
                        }
                    }
                }
            }
        }
        proof {
            assert forall|v: ClientPacketV| s@ == client_json(v) implies false by {
                lemma_client_head(v, s@);
                lemma_client_names_distinct();
                assert(quoted_at(s@, j1 as int, client_tag(v)));
                match v {
                    ClientPacketV::ProcessClose { container_id } => {
                        lemma_client_id_data(v, s@, container_id, j3 as int);
                        assert(quoted_at(s@, j3 + "{\"container_id\":"@.len(), container_id));
                    },
                    ClientPacketV::UploadFinish { container_id } => {
                        lemma_client_id_data(v, s@, container_id, j3 as int);
                        assert(quoted_at(s@, j3 + "{\"container_id\":"@.len(), container_id));
                    },
                    _ => {},
                }
            }
        }
        return None;
    }
    if chars_is(&tagv, "ProcessControlSignal") {
        let r4 = p_lit(s, j3, "{\"container_id\":");
        if r4.is_some() {
            let j4 = r4.unwrap();
            let r5 = p_quoted(s, j4);
            if r5.is_some() {
                let (idv, j5) = r5.unwrap();
                let r6 = p_lit(s, j5, ",\"control_signal\":");
                if r6.is_some() {
                    let j6 = r6.unwrap();
                    let r7 = p_lit(s, j6, "{\"Exec\":");
                    if r7.is_some() {
                        // An `Exec` signal carries its file name as an object.
                        let j7 = r7.unwrap();
                        let r8 = p_quoted(s, j7);
                        if r8.is_some() {
                            let (fv, j8) = r8.unwrap();
                            let r9 = p_lit(s, j8, "}");
                            if r9.is_some() {
                                let j9 = r9.unwrap();
                                let r10 = p_lit(s, j9, "}");
                                if r10.is_some() {
                                    let j10 = r10.unwrap();
                                    let r11 = p_lit(s, j10, "}");
                                    if r11.is_some() {
                                        let j11 = r11.unwrap();
                                        if j11 == s.len() {
                                            proof {
                                                assert forall|v: ClientPacketV| s@ == client_json(
                                                    v,
                                                ) implies v
                                                    == (ClientPacketV::ProcessControlSignal {
                                                    container_id: idv@,
                                                    control_signal: ProcessControlSignalV::Exec(
                                                        fv@,
                                                    ),
                                                }) by {
                                                    lemma_client_head(v, s@);
                                                    lemma_client_names_distinct();
                                                    reveal_strlit("{\"Exec\":");
                                                    assert(quoted_at(
                                                        s@,
                                                        j1 as int,
                                                        client_tag(v),
                                                    ));
                                                    match v {
                                                        ClientPacketV::ProcessControlSignal {
                                                            container_id,
                                                            control_signal,
                                                        } => {
                                                            lemma_client_signal_data(
                                                                s@,
                                                                container_id,
                                                                control_signal,
                                                            );
                                                            assert(quoted_at(
                                                                s@,
                                                                j4 as int,
                                                                container_id,
                                                            ));
                                                            match control_signal {
                                                                ProcessControlSignalV::Exec(f) => {
                                                                    assert(quoted_at(
                                                                        s@,
                                                                        j7 as int,
                                                                        f,
                                                                    ));
                                                                },
                                                                _ => {
                                                                    assert(s@[j6 as int] == '"');
                                                                    assert(s@[j6 as int]
                                                                        == "{\"Exec\":"@[0]);
                                                                },
                                                            }
                                                        },
                                                        _ => {},
                                                    }
                                                }
                                            }
                                            let id = string_from_chars(&idv);
                                            let f = string_from_chars(&fv);
                                            return Some(
                                                ClientPacket::ProcessControlSignal(
                                                    ProcessControlSignalPacket {
                                                        container_id: id,
                                                        control_signal: ProcessControlSignal::Exec(
                                                            f,
                                                        ),
                                                    },
                                                ),
                                            );
                                        }
                                    }
                                }
                            }
                        }
                        proof {
                            assert forall|v: ClientPacketV| s@ == client_json(v) implies
                                false by {
                                lemma_client_head(v, s@);
                                lemma_client_names_distinct();
                                reveal_strlit("{\"Exec\":");
                                assert(quoted_at(s@, j1 as int, client_tag(v)));
                                match v {
                                    ClientPacketV::ProcessControlSignal {
                                        container_id,
                                        control_signal,
                                    } => {
                                        lemma_client_signal_data(
                                            s@,
                                            container_id,
                                            control_signal,
                                        );
                                        assert(quoted_at(s@, j4 as int, container_id));
                                        match control_signal {
                                            ProcessControlSignalV::Exec(f) => {
                                                assert(quoted_at(s@, j6 + "{\"Exec\":"@.len(), f));
                                            },
                                            _ => {
                                                assert(s@[j6 as int] == '"');
                                                assert(s@[j6 as int] == "{\"Exec\":"@[0]);
                                            },
                                        }
                                    },
                                    _ => {},
                                }
                            }
                        }
                        return None;
                    }
                    // A plain signal carries its name as a quoted string.
                    let r7 = p_quoted(s, j6);
                    if r7.is_some() {
                        let (sv, j7) = r7.unwrap();
                        let r8 = p_lit(s, j7, "}");
                        if r8.is_some() {
                            let j8 = r8.unwrap();
                            let r9 = p_lit(s, j8, "}");
                            if r9.is_some() {
                                let j9 = r9.unwrap();
                                if j9 == s.len() {
                                    let name_start = chars_is(&sv, "Start");
                                    let name_int = chars_is(&sv, "Interrupt");
                                    let name_term = chars_is(&sv, "Terminate");
                                    if name_start || name_int || name_term {
                                        let sig = if name_start {
                                            ProcessControlSignal::Start
                                        } else if name_int {
                                            ProcessControlSignal::Interrupt
                                        } else {
                                            ProcessControlSignal::Terminate
                                        };
                                        proof {
                                            assert forall|v: ClientPacketV| s@ == client_json(
                                                v,
                                            ) implies v == (ClientPacketV::ProcessControlSignal {
                                                container_id: idv@,
                                                control_signal: sig@,
                                            }) by {
                                                lemma_client_head(v, s@);
                                                lemma_client_names_distinct();
                                                assert(quoted_at(s@, j1 as int, client_tag(v)));
                                                match v {
                                                    ClientPacketV::ProcessControlSignal {
                                                        container_id,
                                                        control_signal,
                                                    } => {
                                                        lemma_client_signal_data(
                                                            s@,
                                                            container_id,
                                                            control_signal,
                                                        );
                                                        assert(quoted_at(
                                                            s@,
                                                            j4 as int,
                                                            container_id,
                                                        ));
                                                        match control_signal {
                                                            ProcessControlSignalV::Start => {
                                                                assert(quoted_at(
                                                                    s@,
                                                                    j6 as int,
                                                                    "Start"@,
                                                                ));
                                                            },
                                                            ProcessControlSignalV::Interrupt => {
                                                                assert(quoted_at(
                                                                    s@,
                                                                    j6 as int,
                                                                    "Interrupt"@,
                                                                ));
                                                            },
                                                            ProcessControlSignalV::Terminate => {
                                                                assert(quoted_at(
                                                                    s@,
                                                                    j6 as int,
                                                                    "Terminate"@,
                                                                ));
                                                            },
                                                            ProcessControlSignalV::Exec(f) => {
                                                                reveal_strlit("{\"Exec\":");
                                                                assert(lit_at(
                                                                    s@,
                                                                    j6 as int,
                                                                    "{\"Exec\":"@,
                                                                ));
                                                            },
                                                        }
                                                    },
                                                    _ => {},
                                                }
                                            }
                                        }
                                        let id = string_from_chars(&idv);
                                        return Some(
                                            ClientPacket::ProcessControlSignal(
                                                ProcessControlSignalPacket {
                                                    container_id: id,
                                                    control_signal: sig,
                                                },
                                            ),
                                        );
                                    }
                                }
                            }
                        }
                    }
                    proof {
                        assert forall|v: ClientPacketV| s@ == client_json(v) implies false by {
                            lemma_client_head(v, s@);
                            lemma_client_names_distinct();
                            assert(quoted_at(s@, j1 as int, client_tag(v)));
                            match v {
                                ClientPacketV::ProcessControlSignal {
                                    container_id,
                                    control_signal,
                                } => {
                                    lemma_client_signal_data(s@, container_id, control_signal);
                                    assert(quoted_at(s@, j4 as int, container_id));
                                    match control_signal {
                                        ProcessControlSignalV::Start => {
                                            assert(quoted_at(s@, j6 as int, "Start"@));
                                        },
                                        ProcessControlSignalV::Interrupt => {
                                            assert(quoted_at(s@, j6 as int, "Interrupt"@));
                                        },
                                        ProcessControlSignalV::Terminate => {
                                            assert(quoted_at(s@, j6 as int, "Terminate"@));
                                        },
                                        ProcessControlSignalV::Exec(f) => {
                                            reveal_strlit("{\"Exec\":");
                                            assert(lit_at(s@, j6 as int, "{\"Exec\":"@));
                                        },
                                    }
                                },
                                _ => {},
                            }
                        }
                    }
                    return None;
                }
            }
        }
        proof {
            assert forall|v: ClientPacketV| s@ == client_json(v) implies false by {
                lemma_client_head(v, s@);
                lemma_client_names_distinct();
                assert(quoted_at(s@, j1 as int, client_tag(v)));
                match v {
                    ClientPacketV::ProcessControlSignal { container_id, control_signal } => {
                        lemma_client_signal_data(s@, container_id, control_signal);
                        assert(quoted_at(s@, j3 + "{\"container_id\":"@.len(), container_id));
                    },
                    _ => {},
                }
            }
        }
        return None;
    }
    if chars_is(&tagv, "UploadStart") {
        let r4 = p_lit(s, j3, "{\"container_id\":");
        if r4.is_some() {
            let j4 = r4.unwrap();
            let r5 = p_quoted(s, j4);
            if r5.is_some() {
                let (idv, j5) = r5.unwrap();
                let r6 = p_lit(s, j5, ",\"path\":");
                if r6.is_some() {
                    let j6 = r6.unwrap();
                    let r7 = p_quoted(s, j6);
                    if r7.is_some() {
                        let (pv, j7) = r7.unwrap();
                        let r8 = p_lit(s, j7, ",\"size\":");
                        if r8.is_some() {
                            let j8 = r8.unwrap();
                            let r9 = p_u64(s, j8);
                            if r9.is_some() {
                                let (n, j9) = r9.unwrap();
                                let r10 = p_lit(s, j9, "}");
                                if r10.is_some() {
                                    let j10 = r10.unwrap();
                                    let r11 = p_lit(s, j10, "}");
                                    if r11.is_some() {
                                        let j11 = r11.unwrap();
                                        if j11 == s.len() {
                                            proof {
                                                assert forall|v: ClientPacketV| s@ == client_json(
                                                    v,
                                                ) implies v == (ClientPacketV::UploadStart {
                                                    container_id: idv@,
                                                    path: pv@,
                                                    size: n,
                                                }) by {
                                                    lemma_client_head(v, s@);
                                                    lemma_client_names_distinct();
                                                    assert(quoted_at(
                                                        s@,
                                                        j1 as int,
                                                        client_tag(v),
                                                    ));
                                                    match v {
                                                        ClientPacketV::UploadStart {
                                                            container_id,
                                                            path,
                                                            size,
                                                        } => {
                                                            lemma_client_upload_data(
                                                                s@,
                                                                container_id,
                                                                path,
                                                                size,
                                                            );
                                                            assert(quoted_at(
                                                                s@,
                                                                j4 as int,
                                                                container_id,
                                                            ));
                                                            assert(quoted_at(s@, j6 as int, path));
                                                            assert(dec_at(
                                                                s@,
                                                                j8 as int,
                                                                size as nat,
                                                            ));
                                                        },
                                                        _ => {},
                                                    }
                                                }
                                            }
                                            let id = string_from_chars(&idv);
                                            let path = string_from_chars(&pv);
                                            return Some(
                                                ClientPacket::UploadStart {
                                                    container_id: id,
                                                    path,
                                                    size: n,
                                                },
                                            );
                                        }
                                    }
                                }
                            }
                        }
                    }
                }
            }
        }
        proof {
            assert forall|v: ClientPacketV| s@ == client_json(v) implies false by {
                lemma_client_head(v, s@);
                lemma_client_names_distinct();
                assert(quoted_at(s@, j1 as int, client_tag(v)));
                match v {
                    ClientPacketV::UploadStart { container_id, path, size } => {
                        lemma_client_upload_data(s@, container_id, path, size);
                        assert(quoted_at(s@, j3 + "{\"container_id\":"@.len(), container_id));
                        assert(quoted_at(
                            s@,
                            j3 + "{\"container_id\":"@.len() + quoted(container_id).len()
                                + ",\"path\":"@.len(),
                            path,
                        ));
                        assert(dec_at(
                            s@,
                            j3 + "{\"container_id\":"@.len() + quoted(container_id).len()
                                + ",\"path\":"@.len() + quoted(path).len() + ",\"size\":"@.len(),
                            size as nat,
                        ));
                    },
                    _ => {},
                }
            }
        }
        return None;
    }
    proof {
        assert forall|v: ClientPacketV| s@ == client_json(v) implies false by {
            lemma_client_head(v, s@);
            lemma_client_names_distinct();
            assert(quoted_at(s@, j1 as int, client_tag(v)));
        }
    }
    None
}

/// Decodes a client packet from one text frame.
///
/// Exactly the canonical frames decode: the result is the unique packet
/// whose encoding is the input, and every encoded packet decodes back to
/// itself.
pub fn decode_client(s: &str) -> (r: Option<ClientPacket>)
    ensures
        r matches Some(p) ==> s@ == client_json(p@),
        forall|v: ClientPacketV| s@ == #[trigger] client_json(v) ==> (r matches Some(p) && p@
            == v),
{
    let cs = chars_of_str(s);
    let parsed = parse_client(&cs);
    if parsed.is_none() {
        return None;
    }
    let p = parsed.unwrap();
    let enc = encode_client_chars(&p);
    if chars_eq(&enc, &cs) {
        Some(p)
    } else {
        None
    }
}

} // verus!
