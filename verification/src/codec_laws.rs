//! The round-trip law of the wire codec.
//!
//! The decoders' contracts already say that the canonical frame of a packet
//! decodes to that packet; these lemmas add that no two packets share one
//! frame text, so a frame pins its packet completely.

use vstd::prelude::*;

use crate::codec::{
    client_json, client_tag, err_name, lemma_client_head, lemma_client_id_data,
    lemma_client_names_distinct, lemma_client_signal_data, lemma_client_upload_data, server_json,
};
use crate::codec_server::{
    lemma_server_closeresult_data, lemma_server_error_data, lemma_server_event_data,
    lemma_server_head, lemma_server_names_distinct, lemma_server_openresult_data,
    lemma_server_output_data, server_tag,
};
use crate::jsontext::{lemma_dec_at_unique, lemma_int_at_unique, lemma_quoted_at_unique, quoted};
use crate::packets::client::{ClientPacketV, ProcessControlSignalV};
use crate::packets::server::{ProcessEventPacket, ProcessOutputPacketV, ServerPacketV};

verus! {

/// One frame text is the canonical frame of at most one client packet.
///
/// Together with the decoder's contract this pins the round trip: decoding
/// the encoding of a packet yields exactly that packet, never another one
/// with the same frame.
pub proof fn lemma_client_frame_unique(v1: ClientPacketV, v2: ClientPacketV)
    requires
        client_json(v1) == client_json(v2),
    ensures
        v1 == v2,
{
    let s = client_json(v1);
    lemma_client_head(v1, s);
    lemma_client_head(v2, s);
    lemma_client_names_distinct();
    let p1 = "{\"type\":"@.len() as int;
    lemma_quoted_at_unique(s, p1, client_tag(v1), client_tag(v2));
    match v1 {
        ClientPacketV::ProcessOpen => {},
        ClientPacketV::ProcessClose { container_id: id1 } => {
            match v2 {
                ClientPacketV::ProcessClose { container_id: id2 } => {
                    let p3 = ("{\"type\":"@.len() + quoted("ProcessClose"@).len()
                        + ",\"data\":"@.len()) as int;
                    let p4 = p3 + "{\"container_id\":"@.len();
                    lemma_client_id_data(v1, s, id1, p3);
                    lemma_client_id_data(v2, s, id2, p3);
                    lemma_quoted_at_unique(s, p4, id1, id2);
                },
                _ => {},
            }
        },
        ClientPacketV::ProcessControlSignal { container_id: id1, control_signal: sig1 } => {
            match v2 {
                ClientPacketV::ProcessControlSignal {
                    container_id: id2,
                    control_signal: sig2,
                } => {
                    let p3 = ("{\"type\":"@.len() + quoted("ProcessControlSignal"@).len()
                        + ",\"data\":"@.len()) as int;
                    let p4 = p3 + "{\"container_id\":"@.len();
                    lemma_client_signal_data(s, id1, sig1);
                    lemma_client_signal_data(s, id2, sig2);
                    lemma_quoted_at_unique(s, p4, id1, id2);
                    let p6 = p4 + quoted(id1).len() + ",\"control_signal\":"@.len();
                    reveal_strlit("{\"Exec\":");
                    match (sig1, sig2) {
                        (ProcessControlSignalV::Exec(f1), ProcessControlSignalV::Exec(f2)) => {
                            let p7 = p6 + "{\"Exec\":"@.len();
                            lemma_quoted_at_unique(s, p7, f1, f2);
                        },
                        (ProcessControlSignalV::Exec(f1), _) => {
                            assert(s[p6] == "{\"Exec\":"@[0]);
                            assert(s[p6] == '"');
                        },
                        (_, ProcessControlSignalV::Exec(f2)) => {
                            assert(s[p6] == "{\"Exec\":"@[0]);
                            assert(s[p6] == '"');
                        },
                        (s1, s2) => {
                            let n1 = match s1 {
                                ProcessControlSignalV::Start => "Start"@,
                                ProcessControlSignalV::Interrupt => "Interrupt"@,
                                ProcessControlSignalV::Terminate => "Terminate"@,
                                ProcessControlSignalV::Exec(..) => Seq::<char>::empty(),
                            };
                            let n2 = match s2 {
                                ProcessControlSignalV::Start => "Start"@,
                                ProcessControlSignalV::Interrupt => "Interrupt"@,
                                ProcessControlSignalV::Terminate => "Terminate"@,
                                ProcessControlSignalV::Exec(..) => Seq::<char>::empty(),
                            };
                            lemma_quoted_at_unique(s, p6, n1, n2);
                        },
                    }
                },
                _ => {},
            }
        },
        ClientPacketV::UploadStart { container_id: id1, path: path1, size: size1 } => {
            match v2 {
                ClientPacketV::UploadStart { container_id: id2, path: path2, size: size2 } => {
                    let p3 = ("{\"type\":"@.len() + quoted("UploadStart"@).len()
                        + ",\"data\":"@.len()) as int;
                    let p4 = p3 + "{\"container_id\":"@.len();
                    lemma_client_upload_data(s, id1, path1, size1);
                    lemma_client_upload_data(s, id2, path2, size2);
                    lemma_quoted_at_unique(s, p4, id1, id2);
                    let p6 = p4 + quoted(id1).len() + ",\"path\":"@.len();
                    lemma_quoted_at_unique(s, p6, path1, path2);
                    let p8 = p6 + quoted(path1).len() + ",\"size\":"@.len();
                    lemma_dec_at_unique(s, p8, size1 as nat, size2 as nat);
                },
                _ => {},
            }
        },
        ClientPacketV::UploadFinish { container_id: id1 } => {
            match v2 {
                ClientPacketV::UploadFinish { container_id: id2 } => {
                    let p3 = ("{\"type\":"@.len() + quoted("UploadFinish"@).len()
                        + ",\"data\":"@.len()) as int;
                    let p4 = p3 + "{\"container_id\":"@.len();
                    lemma_client_id_data(v1, s, id1, p3);
                    lemma_client_id_data(v2, s, id2, p3);
                    lemma_quoted_at_unique(s, p4, id1, id2);
                },
                _ => {},
            }
        },
    }
}


/// One frame text is the canonical frame of at most one server packet.
///
/// Together with the decoder's contract this pins the round trip: decoding
/// the encoding of a packet yields exactly that packet, never another one
/// with the same frame.
pub proof fn lemma_server_frame_unique(v1: ServerPacketV, v2: ServerPacketV)
    requires
        server_json(v1) == server_json(v2),
    ensures
        v1 == v2,
{
    let s = server_json(v1);
    lemma_server_head(v1, s);
    lemma_server_head(v2, s);
    lemma_server_names_distinct();
    let p1 = "{\"type\":"@.len() as int;
    lemma_quoted_at_unique(s, p1, server_tag(v1), server_tag(v2));
    match v1 {
        ServerPacketV::ProcessOpenResult { container_id: id1 } => {
            match v2 {
                ServerPacketV::ProcessOpenResult { container_id: id2 } => {
                    let p3 = ("{\"type\":"@.len() + quoted("ProcessOpenResult"@).len()
                        + ",\"data\":"@.len()) as int;
                    let p4 = p3 + "{\"container_id\":"@.len();
                    lemma_server_openresult_data(s, id1);
                    lemma_server_openresult_data(s, id2);
                    lemma_quoted_at_unique(s, p4, id1, id2);
                },
                _ => {},
            }
        },
        ServerPacketV::ProcessCloseResult { success: b1 } => {
            match v2 {
                ServerPacketV::ProcessCloseResult { success: b2 } => {
                    let p3 = ("{\"type\":"@.len() + quoted("ProcessCloseResult"@).len()
                        + ",\"data\":"@.len()) as int;
                    let p4 = p3 + "{\"success\":"@.len();
                    lemma_server_closeresult_data(s, b1);
                    lemma_server_closeresult_data(s, b2);
                    if b1 != b2 {
                        reveal_strlit("true");
                        reveal_strlit("false");
                        assert(s.subrange(p4, p4 + "true"@.len())[0] == s[p4]);
                        assert(s.subrange(p4, p4 + "false"@.len())[0] == s[p4]);
                        assert(false);
                    }
                },
                _ => {},
            }
        },
        ServerPacketV::ProcessOutput(o1) => {
            match v2 {
                ServerPacketV::ProcessOutput(o2) => {
                    let p3 = ("{\"type\":"@.len() + quoted("ProcessOutput"@).len()
                        + ",\"data\":"@.len()) as int;
                    lemma_server_output_data(s, o1);
                    lemma_server_output_data(s, o2);
                    reveal_strlit("{\"StdOut\":");
                    reveal_strlit("{\"StdErr\":");
                    assert("{\"StdOut\":"@.len() == 10);
                    assert("{\"StdErr\":"@.len() == 10);
                    match (o1, o2) {
                        (ProcessOutputPacketV::StdOut(t1), ProcessOutputPacketV::StdOut(t2)) => {
                            lemma_quoted_at_unique(s, p3 + 10, t1, t2);
                        },
                        (ProcessOutputPacketV::StdErr(t1), ProcessOutputPacketV::StdErr(t2)) => {
                            lemma_quoted_at_unique(s, p3 + 10, t1, t2);
                        },
                        _ => {
                            assert(s[p3 + 5] == "{\"StdOut\":"@[5]);
                            assert(s[p3 + 5] == "{\"StdErr\":"@[5]);
                            assert(false);
                        },
                    }
                },
                _ => {},
            }
        },
        ServerPacketV::ProcessEvent(e1) => {
            match v2 {
                ServerPacketV::ProcessEvent(e2) => {
                    let p3 = ("{\"type\":"@.len() + quoted("ProcessEvent"@).len()
                        + ",\"data\":"@.len()) as int;
                    lemma_server_event_data(s, e1);
                    lemma_server_event_data(s, e2);
                    reveal_strlit("{\"Finished\":{\"exit_code\":");
                    match (e1, e2) {
                        (
                            ProcessEventPacket::Finished { exit_code: c1 },
                            ProcessEventPacket::Finished { exit_code: c2 },
                        ) => {
                            let p4 = p3 + "{\"Finished\":{\"exit_code\":"@.len();
                            lemma_int_at_unique(s, p4, c1 as int, c2 as int);
                        },
                        (ProcessEventPacket::Finished { .. }, _) => {
                            assert(s[p3] == "{\"Finished\":{\"exit_code\":"@[0]);
                            assert(s[p3] == '"');
                            assert(false);
                        },
                        (_, ProcessEventPacket::Finished { .. }) => {
                            assert(s[p3] == "{\"Finished\":{\"exit_code\":"@[0]);
                            assert(s[p3] == '"');
                            assert(false);
                        },
                        (x1, x2) => {
                            let n1 = match x1 {
                                ProcessEventPacket::Started => "Started"@,
                                ProcessEventPacket::TimedOut => "TimedOut"@,
                                ProcessEventPacket::Finished { .. } => Seq::<char>::empty(),
                            };
                            let n2 = match x2 {
                                ProcessEventPacket::Started => "Started"@,
                                ProcessEventPacket::TimedOut => "TimedOut"@,
                                ProcessEventPacket::Finished { .. } => Seq::<char>::empty(),
                            };
                            lemma_quoted_at_unique(s, p3, n1, n2);
                        },
                    }
                },
                _ => {},
            }
        },
        ServerPacketV::ServerError { err: e1, message: m1 } => {
            match v2 {
                ServerPacketV::ServerError { err: e2, message: m2 } => {
                    let p3 = ("{\"type\":"@.len() + quoted("ServerError"@).len()
                        + ",\"data\":"@.len()) as int;
                    let p4 = p3 + "{\"err\":"@.len();
                    lemma_server_error_data(s, e1, m1);
                    lemma_server_error_data(s, e2, m2);
                    lemma_quoted_at_unique(s, p4, err_name(e1), err_name(e2));
                    let p6 = p4 + quoted(err_name(e1)).len() + ",\"message\":"@.len();
                    lemma_quoted_at_unique(s, p6, m1, m2);
                },
                _ => {},
            }
        },
    }
}


} // verus!
