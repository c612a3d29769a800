//! Decoding of server frames.
//!
//! The encoders and the canonical frame text live in the codec module; this
//! module reads server frames back, exactly inverting the encoder.

use vstd::prelude::*;

use crate::chars::{chars_of_str, chars_eq, chars_is, string_from_chars};
use crate::codec::{encode_server_chars, err_name, server_json};
use crate::jsontext::{bool_json, int_at, int_json, lit_at, p_i64, p_lit, p_quoted, quoted,
    quoted_at};
use crate::packets::server::{
    ProcessCloseResultPacket, ProcessEventPacket, ProcessOpenResultPacket, ProcessOutputPacket,
    ProcessOutputPacketV, ServerError, ServerErrorPacket, ServerPacket, ServerPacketV,
};

verus! {

/// The wire tag of a server packet.
pub open spec fn server_tag(v: ServerPacketV) -> Seq<char> {
    match v {
        ServerPacketV::ProcessOpenResult { .. } => "ProcessOpenResult"@,
        ServerPacketV::ProcessCloseResult { .. } => "ProcessCloseResult"@,
        ServerPacketV::ProcessOutput(..) => "ProcessOutput"@,
        ServerPacketV::ProcessEvent(..) => "ProcessEvent"@,
        ServerPacketV::ServerError { .. } => "ServerError"@,
    }
}

/// No two server tags, event names or error names read the same.
pub(crate) proof fn lemma_server_names_distinct()
    ensures
        "ProcessOpenResult"@ != "ProcessCloseResult"@,
        "ProcessOpenResult"@ != "ProcessOutput"@,
        "ProcessOpenResult"@ != "ProcessEvent"@,
        "ProcessOpenResult"@ != "ServerError"@,
        "ProcessCloseResult"@ != "ProcessOutput"@,
        "ProcessCloseResult"@ != "ProcessEvent"@,
        "ProcessCloseResult"@ != "ServerError"@,
        "ProcessOutput"@ != "ProcessEvent"@,
        "ProcessOutput"@ != "ServerError"@,
        "ProcessEvent"@ != "ServerError"@,
        "Started"@ != "TimedOut"@,
        forall|e1: ServerError, e2: ServerError| err_name(e1) == err_name(e2) ==> e1 == e2,
{
    reveal_strlit("ProcessOpenResult");
    reveal_strlit("ProcessCloseResult");
    reveal_strlit("ProcessOutput");
    reveal_strlit("ProcessEvent");
    reveal_strlit("ServerError");
    reveal_strlit("Started");
    reveal_strlit("TimedOut");
    reveal_strlit("InvalidJson");
    reveal_strlit("InvalidContainerId");
    reveal_strlit("ProcessStartFailed");
    reveal_strlit("TempFileCreationFailed");
    reveal_strlit("UploadAlreadyInProgress");
    reveal_strlit("UploadFailed");
    reveal_strlit("UnexpectedBinaryFrame");
    assert("ProcessOpenResult"@.len() == 17);
    assert("ProcessCloseResult"@.len() == 18);
    assert("ProcessOutput"@.len() == 13);
    assert("ProcessEvent"@.len() == 12);
    assert("ServerError"@.len() == 11);
    assert("ProcessEvent"@[7] == 'E');
    assert("Started"@.len() == 7);
    assert("TimedOut"@.len() == 8);
    assert("InvalidJson"@.len() == 11);
    assert("InvalidContainerId"@.len() == 18);
    assert("ProcessStartFailed"@.len() == 18);
    assert("TempFileCreationFailed"@.len() == 22);
    assert("UploadAlreadyInProgress"@.len() == 23);
    assert("UploadFailed"@.len() == 12);
    assert("UnexpectedBinaryFrame"@.len() == 21);
    assert("InvalidContainerId"@[0] == 'I');
    assert("ProcessStartFailed"@[0] == 'P');
}

/// Common prefix of every server frame: the envelope opener, the tag, and
/// the data key.
pub(crate) proof fn lemma_server_head(v: ServerPacketV, s: Seq<char>)
    requires
        s == server_json(v),
    ensures
        lit_at(s, 0, "{\"type\":"@),
        quoted_at(s, "{\"type\":"@.len() as int, server_tag(v)),
        lit_at(s, ("{\"type\":"@.len() + quoted(server_tag(v)).len()) as int, ",\"data\":"@),
{
    let aa = "{\"type\":"@;
    let bb = ",\"data\":"@;
    let qt = quoted(server_tag(v));
    let p1 = aa.len() as int;
    let p2 = p1 + qt.len();
    let p3 = p2 + bb.len();
    assert(s.subrange(0, p1) =~= aa);
    assert(s.subrange(p1, p2) =~= qt);
    assert(s.subrange(p2, p3) =~= bb);
}

/// Layout of the open-result frame's data object.
pub(crate) proof fn lemma_server_openresult_data(s: Seq<char>, container_id: Seq<char>)
    requires
        s == server_json(ServerPacketV::ProcessOpenResult { container_id }),
    ensures
        ({
            let p3 = ("{\"type\":"@.len() + quoted("ProcessOpenResult"@).len()
                + ",\"data\":"@.len()) as int;
            let p4 = p3 + "{\"container_id\":"@.len();
            let p5 = p4 + quoted(container_id).len();
            &&& lit_at(s, p3, "{\"container_id\":"@)
            &&& quoted_at(s, p4, container_id)
            &&& lit_at(s, p5, "}"@)
            &&& lit_at(s, p5 + "}"@.len(), "}"@)
            &&& s.len() == p5 + "}"@.len() + "}"@.len()
        }),
{
    let cc = "}"@;
    let dd = "{\"container_id\":"@;
    let p3 = ("{\"type\":"@.len() + quoted("ProcessOpenResult"@).len() + ",\"data\":"@.len())
        as int;
    let p4 = p3 + dd.len();
    let p5 = p4 + quoted(container_id).len();
    assert(s.subrange(p3, p4) =~= dd);
    assert(s.subrange(p4, p5) =~= quoted(container_id));
    assert(s.subrange(p5, p5 + cc.len()) =~= cc);
    assert(s.subrange(p5 + cc.len(), p5 + 2 * cc.len()) =~= cc);
}

/// Layout of the close-result frame's data object.
pub(crate) proof fn lemma_server_closeresult_data(s: Seq<char>, success: bool)
    requires
        s == server_json(ServerPacketV::ProcessCloseResult { success }),
    ensures
        ({
            let p3 = ("{\"type\":"@.len() + quoted("ProcessCloseResult"@).len()
                + ",\"data\":"@.len()) as int;
            let p4 = p3 + "{\"success\":"@.len();
            let p5 = p4 + bool_json(success).len();
            &&& lit_at(s, p3, "{\"success\":"@)
            &&& (success ==> lit_at(s, p4, "true"@))
            &&& (!success ==> lit_at(s, p4, "false"@))
            &&& lit_at(s, p5, "}"@)
            &&& lit_at(s, p5 + "}"@.len(), "}"@)
            &&& s.len() == p5 + "}"@.len() + "}"@.len()
        }),
{
    let cc = "}"@;
    let dd = "{\"success\":"@;
    let p3 = ("{\"type\":"@.len() + quoted("ProcessCloseResult"@).len() + ",\"data\":"@.len())
        as int;
    let p4 = p3 + dd.len();
    let p5 = p4 + bool_json(success).len();
    assert(s.subrange(p3, p4) =~= dd);
    assert(s.subrange(p4, p5) =~= bool_json(success));
    assert(s.subrange(p5, p5 + cc.len()) =~= cc);
    assert(s.subrange(p5 + cc.len(), p5 + 2 * cc.len()) =~= cc);
}

/// Layout of the output frame's data object.
pub(crate) proof fn lemma_server_output_data(s: Seq<char>, o: ProcessOutputPacketV)
    requires
        s == server_json(ServerPacketV::ProcessOutput(o)),
    ensures
        ({
            let p3 = ("{\"type\":"@.len() + quoted("ProcessOutput"@).len() + ",\"data\":"@.len())
                as int;
            match o {
                ProcessOutputPacketV::StdOut(t) => ({
                    let p4 = p3 + "{\"StdOut\":"@.len();
                    let p5 = p4 + quoted(t).len();
                    &&& lit_at(s, p3, "{\"StdOut\":"@)
                    &&& quoted_at(s, p4, t)
                    &&& lit_at(s, p5, "}"@)
                    &&& lit_at(s, p5 + "}"@.len(), "}"@)
                    &&& s.len() == p5 + "}"@.len() + "}"@.len()
                }),
                ProcessOutputPacketV::StdErr(t) => ({
                    let p4 = p3 + "{\"StdErr\":"@.len();
                    let p5 = p4 + quoted(t).len();
                    &&& lit_at(s, p3, "{\"StdErr\":"@)
                    &&& quoted_at(s, p4, t)
                    &&& lit_at(s, p5, "}"@)
                    &&& lit_at(s, p5 + "}"@.len(), "}"@)
                    &&& s.len() == p5 + "}"@.len() + "}"@.len()
                }),
            }
        }),
{
    let cc = "}"@;
    let p3 = ("{\"type\":"@.len() + quoted("ProcessOutput"@).len() + ",\"data\":"@.len()) as int;
    match o {
        ProcessOutputPacketV::StdOut(t) => {
            let dd = "{\"StdOut\":"@;
            let p4 = p3 + dd.len();
            let p5 = p4 + quoted(t).len();
            assert(s.subrange(p3, p4) =~= dd);
            assert(s.subrange(p4, p5) =~= quoted(t));
            assert(s.subrange(p5, p5 + cc.len()) =~= cc);
            assert(s.subrange(p5 + cc.len(), p5 + 2 * cc.len()) =~= cc);
        },
        ProcessOutputPacketV::StdErr(t) => {
            let dd = "{\"StdErr\":"@;
            let p4 = p3 + dd.len();
            let p5 = p4 + quoted(t).len();
            assert(s.subrange(p3, p4) =~= dd);
            assert(s.subrange(p4, p5) =~= quoted(t));
            assert(s.subrange(p5, p5 + cc.len()) =~= cc);
            assert(s.subrange(p5 + cc.len(), p5 + 2 * cc.len()) =~= cc);
        },
    }
}

/// Layout of the event frame's data.
pub(crate) proof fn lemma_server_event_data(s: Seq<char>, e: ProcessEventPacket)
    requires
        s == server_json(ServerPacketV::ProcessEvent(e)),
    ensures
        ({
            let p3 = ("{\"type\":"@.len() + quoted("ProcessEvent"@).len() + ",\"data\":"@.len())
                as int;
            match e {
                ProcessEventPacket::Started => ({
                    let p4 = p3 + quoted("Started"@).len();
                    &&& quoted_at(s, p3, "Started"@)
                    &&& lit_at(s, p4, "}"@)
                    &&& s.len() == p4 + "}"@.len()
                }),
                ProcessEventPacket::Finished { exit_code } => ({
                    let p4 = p3 + "{\"Finished\":{\"exit_code\":"@.len();
                    let p5 = p4 + int_json(exit_code as int).len();
                    &&& lit_at(s, p3, "{\"Finished\":{\"exit_code\":"@)
                    &&& int_at(s, p4, exit_code as int)
                    &&& lit_at(s, p5, "}}"@)
                    &&& lit_at(s, p5 + "}}"@.len(), "}"@)
                    &&& s.len() == p5 + "}}"@.len() + "}"@.len()
                }),
                ProcessEventPacket::TimedOut => ({
                    let p4 = p3 + quoted("TimedOut"@).len();
                    &&& quoted_at(s, p3, "TimedOut"@)
                    &&& lit_at(s, p4, "}"@)
                    &&& s.len() == p4 + "}"@.len()
                }),
            }
        }),
{
    reveal_strlit("}}");
    let cc = "}"@;
    let p3 = ("{\"type\":"@.len() + quoted("ProcessEvent"@).len() + ",\"data\":"@.len()) as int;
    match e {
        ProcessEventPacket::Started => {
            let p4 = p3 + quoted("Started"@).len();
            assert(s.subrange(p3, p4) =~= quoted("Started"@));
            assert(s.subrange(p4, p4 + cc.len()) =~= cc);
        },
        ProcessEventPacket::Finished { exit_code } => {
            let dd = "{\"Finished\":{\"exit_code\":"@;
            let ee = "}}"@;
            let p4 = p3 + dd.len();
            let p5 = p4 + int_json(exit_code as int).len();
            assert(s.subrange(p3, p4) =~= dd);
            assert(s.subrange(p4, p5) =~= int_json(exit_code as int));
            assert(s.subrange(p5, p5 + ee.len()) =~= ee);
            assert(s.subrange(p5 + ee.len(), p5 + ee.len() + cc.len()) =~= cc);
            assert(s[p5] == '}');
        },
        ProcessEventPacket::TimedOut => {
            let p4 = p3 + quoted("TimedOut"@).len();
            assert(s.subrange(p3, p4) =~= quoted("TimedOut"@));
            assert(s.subrange(p4, p4 + cc.len()) =~= cc);
        },
    }
}

/// Layout of the error frame's data object.
pub(crate) proof fn lemma_server_error_data(s: Seq<char>, err: ServerError, message: Seq<char>)
    requires
        s == server_json(ServerPacketV::ServerError { err, message }),
    ensures
        ({
            let p3 = ("{\"type\":"@.len() + quoted("ServerError"@).len() + ",\"data\":"@.len())
                as int;
            let p4 = p3 + "{\"err\":"@.len();
            let p5 = p4 + quoted(err_name(err)).len();
            let p6 = p5 + ",\"message\":"@.len();
            let p7 = p6 + quoted(message).len();
            &&& lit_at(s, p3, "{\"err\":"@)
            &&& quoted_at(s, p4, err_name(err))
            &&& lit_at(s, p5, ",\"message\":"@)
            &&& quoted_at(s, p6, message)
            &&& lit_at(s, p7, "}"@)
            &&& lit_at(s, p7 + "}"@.len(), "}"@)
            &&& s.len() == p7 + "}"@.len() + "}"@.len()
        }),
{
    let cc = "}"@;
    let dd = "{\"err\":"@;
    let ee = ",\"message\":"@;
    let p3 = ("{\"type\":"@.len() + quoted("ServerError"@).len() + ",\"data\":"@.len()) as int;
    let p4 = p3 + dd.len();
    let p5 = p4 + quoted(err_name(err)).len();
    let p6 = p5 + ee.len();
    let p7 = p6 + quoted(message).len();
    assert(s.subrange(p3, p4) =~= dd);
    assert(s.subrange(p4, p5) =~= quoted(err_name(err)));
    assert(s.subrange(p5, p6) =~= ee);
    assert(s.subrange(p6, p7) =~= quoted(message));
    assert(s.subrange(p7, p7 + cc.len()) =~= cc);
    assert(s.subrange(p7 + cc.len(), p7 + 2 * cc.len()) =~= cc);
}


/// Reads a server packet from its canonical frame characters.
///
/// Whenever the input is the canonical frame of some packet value, the read
/// yields exactly that packet.
#[verifier::rlimit(100)]
pub fn parse_server(s: &Vec<char>) -> (r: Option<ServerPacket>)
    ensures
        forall|v: ServerPacketV| s@ == #[trigger] server_json(v) ==> (r matches Some(p) && p@
            == v),
{
    let r1 = p_lit(s, 0, "{\"type\":");
    if r1.is_none() {
        proof {
            assert forall|v: ServerPacketV| s@ == server_json(v) implies false by {
                lemma_server_head(v, s@);
            }
        }
        return None;
    }
    let j1 = r1.unwrap();
    let r2 = p_quoted(s, j1);
    if r2.is_none() {
        proof {
            assert forall|v: ServerPacketV| s@ == server_json(v) implies false by {
                lemma_server_head(v, s@);
                assert(quoted_at(s@, j1 as int, server_tag(v)));
            }
        }
        return None;
    }
    let (tagv, j2) = r2.unwrap();
    let r3 = p_lit(s, j2, ",\"data\":");
    if r3.is_none() {
        proof {
            assert forall|v: ServerPacketV| s@ == server_json(v) implies false by {
                lemma_server_head(v, s@);
                assert(quoted_at(s@, j1 as int, server_tag(v)));
                assert(lit_at(s@, j2 as int, ",\"data\":"@));
            }
        }
        return None;
    }
    let j3 = r3.unwrap();
    if chars_is(&tagv, "ProcessOpenResult") {
        let r4 = p_lit(s, j3, "{\"container_id\":");
        if r4.is_some() {
            let j4 = r4.unwrap();
            let r5 = p_quoted(s, j4);
            if r5.is_some() {
                let (idv, j5) = r5.unwrap();
                let r6 = p_lit(s, j5, "}");
                if r6.is_some() {
                    let j6 = r6.unwrap();
                    let r7 = p_lit(s, j6, "}");
                    if r7.is_some() {
                        let j7 = r7.unwrap();
                        if j7 == s.len() {
                            proof {
                                assert forall|v: ServerPacketV| s@ == server_json(v) implies v
                                    == (ServerPacketV::ProcessOpenResult {
                                    container_id: idv@,
                                }) by {
                                    lemma_server_head(v, s@);
                                    lemma_server_names_distinct();
                                    assert(quoted_at(s@, j1 as int, server_tag(v)));
                                    match v {
                                        ServerPacketV::ProcessOpenResult { container_id } => {
                                            lemma_server_openresult_data(s@, container_id);
                                            assert(quoted_at(s@, j4 as int, container_id));
                                        },
                                        _ => {},
                                    }
                                }
                            }
                            let id = string_from_chars(&idv);
                            return Some(
                                ServerPacket::ProcessOpenResult(
                                    ProcessOpenResultPacket { container_id: id },
                                ),
                            );
                        }
                    }
                }
            }
        }
        proof {
            assert forall|v: ServerPacketV| s@ == server_json(v) implies false by {
                lemma_server_head(v, s@);
                lemma_server_names_distinct();
                assert(quoted_at(s@, j1 as int, server_tag(v)));
                match v {
                    ServerPacketV::ProcessOpenResult { container_id } => {
                        lemma_server_openresult_data(s@, container_id);
                        assert(quoted_at(s@, j3 + "{\"container_id\":"@.len(), container_id));
                    },
                    _ => {},
                }
            }
        }
        return None;
    }
    if chars_is(&tagv, "ProcessCloseResult") {
        let r4 = p_lit(s, j3, "{\"success\":");
        if r4.is_some() {
            let j4 = r4.unwrap();
            let rt = p_lit(s, j4, "true");
            let rf = p_lit(s, j4, "false");
            let (succ, j5) = if rt.is_some() {
                (true, rt.unwrap())
            } else if rf.is_some() {
                (false, rf.unwrap())
            } else {
                proof {
                    assert forall|v: ServerPacketV| s@ == server_json(v) implies false by {
                        lemma_server_head(v, s@);
                        lemma_server_names_distinct();
                        assert(quoted_at(s@, j1 as int, server_tag(v)));
                        match v {
                            ServerPacketV::ProcessCloseResult { success } => {
                                lemma_server_closeresult_data(s@, success);
                            },
                            _ => {},
                        }
                    }
                }
                return None;
            };
            let r6 = p_lit(s, j5, "}");
            if r6.is_some() {
                let j6 = r6.unwrap();
                let r7 = p_lit(s, j6, "}");
                if r7.is_some() {
                    let j7 = r7.unwrap();
                    if j7 == s.len() {
                        proof {
                            assert forall|v: ServerPacketV| s@ == server_json(v) implies v
                                == (ServerPacketV::ProcessCloseResult { success: succ }) by {
                                lemma_server_head(v, s@);
                                lemma_server_names_distinct();
                                reveal_strlit("true");
                                reveal_strlit("false");
                                assert(quoted_at(s@, j1 as int, server_tag(v)));
                                match v {
                                    ServerPacketV::ProcessCloseResult { success } => {
                                        lemma_server_closeresult_data(s@, success);
                                        assert("true"@.len() == 4);
                                        assert("false"@.len() == 5);
                                        assert("true"@[0] == 't');
                                        assert("false"@[0] == 'f');
                                    },
                                    _ => {},
                                }
                            }
                        }
                        return Some(
                            ServerPacket::ProcessCloseResult(
                                ProcessCloseResultPacket { success: succ },
                            ),
                        );
                    }
                }
            }
        }
        proof {
            assert forall|v: ServerPacketV| s@ == server_json(v) implies false by {
                lemma_server_head(v, s@);
                lemma_server_names_distinct();
                reveal_strlit("true");
                reveal_strlit("false");
                assert(quoted_at(s@, j1 as int, server_tag(v)));
                match v {
                    ServerPacketV::ProcessCloseResult { success } => {
                        lemma_server_closeresult_data(s@, success);
                        assert("true"@.len() == 4);
                        assert("false"@.len() == 5);
                        assert("true"@[0] == 't');
                        assert("false"@[0] == 'f');
                    },
                    _ => {},
                }
            }
        }
        return None;
    }
    if chars_is(&tagv, "ProcessOutput") {
        let ro = p_lit(s, j3, "{\"StdOut\":");
        let re = p_lit(s, j3, "{\"StdErr\":");
        let (is_out, j4) = if ro.is_some() {
            (true, ro.unwrap())
        } else if re.is_some() {
            (false, re.unwrap())
        } else {
            proof {
                assert forall|v: ServerPacketV| s@ == server_json(v) implies false by {
                    lemma_server_head(v, s@);
                    lemma_server_names_distinct();
                    assert(quoted_at(s@, j1 as int, server_tag(v)));
                    match v {
                        ServerPacketV::ProcessOutput(o) => {
                            lemma_server_output_data(s@, o);
                        },
                        _ => {},
                    }
                }
            }
            return None;
        };
        let r5 = p_quoted(s, j4);
        if r5.is_some() {
            let (tv, j5) = r5.unwrap();
            let r6 = p_lit(s, j5, "}");
            if r6.is_some() {
                let j6 = r6.unwrap();
                let r7 = p_lit(s, j6, "}");
                if r7.is_some() {
                    let j7 = r7.unwrap();
                    if j7 == s.len() {
                        proof {
                            assert forall|v: ServerPacketV| s@ == server_json(v) implies v
                                == ServerPacketV::ProcessOutput(
                                if is_out {
                                    ProcessOutputPacketV::StdOut(tv@)
                                } else {
                                    ProcessOutputPacketV::StdErr(tv@)
                                },
                            ) by {
                                lemma_server_head(v, s@);
                                lemma_server_names_distinct();
                                reveal_strlit("{\"StdOut\":");
                                reveal_strlit("{\"StdErr\":");
                                assert(quoted_at(s@, j1 as int, server_tag(v)));
                                match v {
                                    ServerPacketV::ProcessOutput(o) => {
                                        lemma_server_output_data(s@, o);
                                        assert("{\"StdOut\":"@.len() == 10);
                                        assert("{\"StdErr\":"@.len() == 10);
                                        assert("{\"StdOut\":"@[5] == 'O');
                                        assert("{\"StdErr\":"@[5] == 'E');
                                        match o {
                                            ProcessOutputPacketV::StdOut(t) => {
                                                assert(quoted_at(s@, j4 as int, t));
                                            },
                                            ProcessOutputPacketV::StdErr(t) => {
                                                assert(quoted_at(s@, j4 as int, t));
                                            },
                                        }
                                    },
                                    _ => {},
                                }
                            }
                        }
                        let t = string_from_chars(&tv);
                        let o = if is_out {
                            ProcessOutputPacket::StdOut(t)
                        } else {
                            ProcessOutputPacket::StdErr(t)
                        };
                        return Some(ServerPacket::ProcessOutput(o));
                    }
                }
            }
        }
        proof {
            assert forall|v: ServerPacketV| s@ == server_json(v) implies false by {
                lemma_server_head(v, s@);
                lemma_server_names_distinct();
                reveal_strlit("{\"StdOut\":");
                reveal_strlit("{\"StdErr\":");
                assert(quoted_at(s@, j1 as int, server_tag(v)));
                match v {
                    ServerPacketV::ProcessOutput(o) => {
                        lemma_server_output_data(s@, o);
                        assert("{\"StdOut\":"@.len() == 10);
                        assert("{\"StdErr\":"@.len() == 10);
                        match o {
                            ProcessOutputPacketV::StdOut(t) => {
                                assert(quoted_at(s@, j3 + "{\"StdOut\":"@.len(), t));
                            },
                            ProcessOutputPacketV::StdErr(t) => {
                                assert(quoted_at(s@, j3 + "{\"StdErr\":"@.len(), t));
                            },
                        }
                    },
                    _ => {},
                }
            }
        }
        return None;
    }
    if chars_is(&tagv, "ProcessEvent") {
        let rf = p_lit(s, j3, "{\"Finished\":{\"exit_code\":");
        if rf.is_some() {
            // A finished event carries its exit code as a nested object.
            let j4 = rf.unwrap();
            let r5 = p_i64(s, j4);
            if r5.is_some() {
                let (code, j5) = r5.unwrap();
                let r6 = p_lit(s, j5, "}}");
                if r6.is_some() {
                    let j6 = r6.unwrap();
                    let r7 = p_lit(s, j6, "}");
                    if r7.is_some() {
                        let j7 = r7.unwrap();
                        if j7 == s.len() {
                            proof {
                                assert forall|v: ServerPacketV| s@ == server_json(v) implies v
                                    == ServerPacketV::ProcessEvent(
                                    ProcessEventPacket::Finished { exit_code: code },
                                ) by {
                                    lemma_server_head(v, s@);
                                    lemma_server_names_distinct();
                                    reveal_strlit("{\"Finished\":{\"exit_code\":");
                                    assert(quoted_at(s@, j1 as int, server_tag(v)));
                                    match v {
                                        ServerPacketV::ProcessEvent(e) => {
                                            lemma_server_event_data(s@, e);
                                            match e {
                                                ProcessEventPacket::Finished { exit_code } => {
                                                    assert(int_at(
                                                        s@,
                                                        j4 as int,
                                                        exit_code as int,
                                                    ));
                                                },
                                                _ => {
                                                    assert(s@[j3 as int] == '"');
                                                    assert(s@[j3 as int]
                                                        == "{\"Finished\":{\"exit_code\":"@[0]);
                                                },
                                            }
                                        },
                                        _ => {},
                                    }
                                }
                            }
                            return Some(
                                ServerPacket::ProcessEvent(
                                    ProcessEventPacket::Finished { exit_code: code },
                                ),
                            );
                        }
                    }
                }
            }
            proof {
                assert forall|v: ServerPacketV| s@ == server_json(v) implies false by {
                    lemma_server_head(v, s@);
                    lemma_server_names_distinct();
                    reveal_strlit("{\"Finished\":{\"exit_code\":");
                    assert(quoted_at(s@, j1 as int, server_tag(v)));
                    match v {
                        ServerPacketV::ProcessEvent(e) => {
                            lemma_server_event_data(s@, e);
                            match e {
                                ProcessEventPacket::Finished { exit_code } => {
                                    assert(int_at(
                                        s@,
                                        j3 + "{\"Finished\":{\"exit_code\":"@.len(),
                                        exit_code as int,
                                    ));
                                },
                                _ => {
                                    assert(s@[j3 as int] == '"');
                                    assert(s@[j3 as int] == "{\"Finished\":{\"exit_code\":"@[0]);
                                },
                            }
                        },
                        _ => {},
                    }
                }
            }
            return None;
        }
        // A plain event carries its name as a quoted string.
        let r4 = p_quoted(s, j3);
        if r4.is_some() {
            let (nv, j4) = r4.unwrap();
            let r5 = p_lit(s, j4, "}");
            if r5.is_some() {
                let j5 = r5.unwrap();
                if j5 == s.len() {
                    let is_started = chars_is(&nv, "Started");
                    let is_timed = chars_is(&nv, "TimedOut");
                    if is_started || is_timed {
                        let e = if is_started {
                            ProcessEventPacket::Started
                        } else {
                            ProcessEventPacket::TimedOut
                        };
                        proof {
                            assert forall|v: ServerPacketV| s@ == server_json(v) implies v
                                == ServerPacketV::ProcessEvent(e) by {
                                lemma_server_head(v, s@);
                                lemma_server_names_distinct();
                                assert(quoted_at(s@, j1 as int, server_tag(v)));
                                match v {
                                    ServerPacketV::ProcessEvent(ev) => {
                                        lemma_server_event_data(s@, ev);
                                        match ev {
                                            ProcessEventPacket::Started => {
                                                assert(quoted_at(s@, j3 as int, "Started"@));
                                            },
                                            ProcessEventPacket::TimedOut => {
                                                assert(quoted_at(s@, j3 as int, "TimedOut"@));
                                            },
                                            ProcessEventPacket::Finished { exit_code } => {
                                                reveal_strlit("{\"Finished\":{\"exit_code\":");
                                                assert(lit_at(
                                                    s@,
                                                    j3 as int,
                                                    "{\"Finished\":{\"exit_code\":"@,
                                                ));
                                            },
                                        }
                                    },
                                    _ => {},
                                }
                            }
                        }
                        return Some(ServerPacket::ProcessEvent(e));
                    }
                }
            }
        }
        proof {
            assert forall|v: ServerPacketV| s@ == server_json(v) implies false by {
                lemma_server_head(v, s@);
                lemma_server_names_distinct();
                assert(quoted_at(s@, j1 as int, server_tag(v)));
                match v {
                    ServerPacketV::ProcessEvent(ev) => {
                        lemma_server_event_data(s@, ev);
                        match ev {
                            ProcessEventPacket::Started => {
                                assert(quoted_at(s@, j3 as int, "Started"@));
                            },
                            ProcessEventPacket::TimedOut => {
                                assert(quoted_at(s@, j3 as int, "TimedOut"@));
                            },
                            ProcessEventPacket::Finished { exit_code } => {
                                reveal_strlit("{\"Finished\":{\"exit_code\":");
                                assert(lit_at(s@, j3 as int, "{\"Finished\":{\"exit_code\":"@));
                            },
                        }
                    },
                    _ => {},
                }
            }
        }
        return None;
    }
    if chars_is(&tagv, "ServerError") {
        let r4 = p_lit(s, j3, "{\"err\":");
        if r4.is_some() {
            let j4 = r4.unwrap();
            let r5 = p_quoted(s, j4);
            if r5.is_some() {
                let (ev, j5) = r5.unwrap();
                let r6 = p_lit(s, j5, ",\"message\":");
                if r6.is_some() {
                    let j6 = r6.unwrap();
                    let r7 = p_quoted(s, j6);
                    if r7.is_some() {
                        let (mv, j7) = r7.unwrap();
                        let r8 = p_lit(s, j7, "}");
                        if r8.is_some() {
                            let j8 = r8.unwrap();
                            let r9 = p_lit(s, j8, "}");
                            if r9.is_some() {
                                let j9 = r9.unwrap();
                                if j9 == s.len() {
                                    let kind = if chars_is(&ev, "InvalidJson") {
                                        Some(ServerError::InvalidJson)
                                    } else if chars_is(&ev, "InvalidContainerId") {
                                        Some(ServerError::InvalidContainerId)
                                    } else if chars_is(&ev, "ProcessStartFailed") {
                                        Some(ServerError::ProcessStartFailed)
                                    } else if chars_is(&ev, "TempFileCreationFailed") {
                                        Some(ServerError::TempFileCreationFailed)
                                    } else if chars_is(&ev, "UploadAlreadyInProgress") {
                                        Some(ServerError::UploadAlreadyInProgress)
                                    } else if chars_is(&ev, "UploadFailed") {
                                        Some(ServerError::UploadFailed)
                                    } else if chars_is(&ev, "UnexpectedBinaryFrame") {
                                        Some(ServerError::UnexpectedBinaryFrame)
                                    } else {
                                        None
                                    };
                                    if kind.is_some() {
                                        let k = kind.unwrap();
                                        proof {
                                            assert forall|v: ServerPacketV| s@ == server_json(
                                                v,
                                            ) implies v == (ServerPacketV::ServerError {
                                                err: k,
                                                message: mv@,
                                            }) by {
                                                lemma_server_head(v, s@);
                                                lemma_server_names_distinct();
                                                assert(quoted_at(s@, j1 as int, server_tag(v)));
                                                match v {
                                                    ServerPacketV::ServerError {
                                                        err,
                                                        message,
                                                    } => {
                                                        lemma_server_error_data(s@, err, message);
                                                        assert(quoted_at(
                                                            s@,
                                                            j4 as int,
                                                            err_name(err),
                                                        ));
                                                        assert(quoted_at(
                                                            s@,
                                                            j6 as int,
                                                            message,
                                                        ));
                                                        assert(err_name(err) == err_name(k));
                                                    },
                                                    _ => {},
                                                }
                                            }
                                        }
                                        let msg = string_from_chars(&mv);
                                        return Some(
                                            ServerPacket::ServerError(
                                                ServerErrorPacket { err: k, message: msg },
                                            ),
                                        );
                                    }
                                }
                            }
                        }
                    }
                }
            }
        }
        proof {
            assert forall|v: ServerPacketV| s@ == server_json(v) implies false by {
                lemma_server_head(v, s@);
                lemma_server_names_distinct();
                assert(quoted_at(s@, j1 as int, server_tag(v)));
                match v {
                    ServerPacketV::ServerError { err, message } => {
                        lemma_server_error_data(s@, err, message);
                        assert(quoted_at(s@, j3 + "{\"err\":"@.len(), err_name(err)));
                        assert(quoted_at(
                            s@,
                            j3 + "{\"err\":"@.len() + quoted(err_name(err)).len()
                                + ",\"message\":"@.len(),
                            message,
                        ));
                    },
                    _ => {},
                }
            }
        }
        return None;
    }
    proof {
        assert forall|v: ServerPacketV| s@ == server_json(v) implies false by {
            lemma_server_head(v, s@);
            lemma_server_names_distinct();
            assert(quoted_at(s@, j1 as int, server_tag(v)));
        }
    }
    None
}

/// Decodes a server packet from one text frame.
///
/// Exactly the canonical frames decode: the result is the unique packet
/// whose encoding is the input, and every encoded packet decodes back to
/// itself.
pub fn decode_server(s: &str) -> (r: Option<ServerPacket>)
    ensures
        r matches Some(p) ==> s@ == server_json(p@),
        forall|v: ServerPacketV| s@ == #[trigger] server_json(v) ==> (r matches Some(p) && p@
            == v),
{
    let cs = chars_of_str(s);
    let parsed = parse_server(&cs);
    if parsed.is_none() {
        return None;
    }
    let p = parsed.unwrap();
    let enc = encode_server_chars(&p);
    if chars_eq(&enc, &cs) {
        Some(p)
    } else {
        None
    }
}

} // verus!
