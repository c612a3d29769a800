//! The execution supervisor: one instance per `Exec` request.
//!
//! The caller drives it in order: first the running check, then the launch,
//! then each output chunk, and finally the end of the stream.  The
//! supervisor decides every frame; `supervisor_run` states the frames of a
//! whole run, and `lemma_exec_run_shape` proves their shape: a `Started`
//! is always balanced by one final `Finished`, with every output frame in
//! between, and a run that never started stays silent but for its error.

use vstd::prelude::*;

use crate::connection::{WsOutbound, WsOutboundV};
use crate::packets::server::{ProcessEventPacket, ProcessOutputPacket, ProcessOutputPacketV,
    ServerError, ServerErrorPacket, ServerPacket, ServerPacketV};

verus! {

/// The text that a chunk of raw process output decodes to.
pub uninterp spec fn utf8_lossy_of(bytes: Seq<u8>) -> Seq<char>;

/// Relies on `String::from_utf8_lossy`: the decoded text depends on the
/// bytes alone, with invalid sequences replaced; empty input decodes empty.
#[verifier::external_body]
fn utf8_lossy(bytes: &Vec<u8>) -> (r: String)
    ensures
        r@ == utf8_lossy_of(bytes@),
        bytes@.len() == 0 ==> r@.len() == 0,
{
    String::from_utf8_lossy(bytes).into_owned()
}

/// Where an exec stands.
#[derive(Debug, Clone, Copy, PartialEq, Eq, Structural)]
pub enum ExecPhase {
    /// The container's running state is being checked.
    Checking,
    /// The exec is being created and attached.
    Launching,
    /// Output is streaming.
    Streaming,
    /// The run is over; nothing more is emitted.
    Done,
}

/// One chunk of raw process output, with its stream.
pub struct ChunkV {
    pub stdout: bool,
    pub bytes: Seq<u8>,
}

/// The frame that one chunk becomes.
pub open spec fn chunk_frame(c: ChunkV) -> ServerPacketV {
    if c.stdout {
        ServerPacketV::ProcessOutput(ProcessOutputPacketV::StdOut(utf8_lossy_of(c.bytes)))
    } else {
        ServerPacketV::ProcessOutput(ProcessOutputPacketV::StdErr(utf8_lossy_of(c.bytes)))
    }
}

/// The exit code reported to the client: the real one, or -1 when the
/// stream ended without one.
pub open spec fn reported_exit(exit_code: Option<i64>) -> i64 {
    match exit_code {
        Some(c) => c,
        None => -1i64,
    }
}

/// Every frame of one whole exec run, in order.
pub open spec fn supervisor_run(
    running: bool,
    launch_ok: bool,
    launch_err: Seq<char>,
    chunks: Seq<ChunkV>,
    exit_code: Option<i64>,
) -> Seq<ServerPacketV> {
    if !running {
        seq![
            ServerPacketV::ServerError {
                err: ServerError::ProcessStartFailed,
                message: "container is not started"@,
            },
        ]
    } else if !launch_ok {
        seq![
            ServerPacketV::ServerError { err: ServerError::ProcessStartFailed, message: launch_err },
        ]
    } else {
        seq![ServerPacketV::ProcessEvent(ProcessEventPacket::Started)] + chunks.map_values(
            |c: ChunkV| chunk_frame(c),
        ) + seq![
            ServerPacketV::ProcessEvent(
                ProcessEventPacket::Finished { exit_code: reported_exit(exit_code) },
            ),
        ]
    }
}

/// The supervisor of one exec.
#[derive(Debug)]
pub struct ExecSupervisor {
    pub phase: ExecPhase,
}

impl ExecSupervisor {
    /// A supervisor for a fresh exec request.
    pub fn new() -> (r: ExecSupervisor)
        ensures
            r.phase == ExecPhase::Checking,
    {
        ExecSupervisor { phase: ExecPhase::Checking }
    }

    /// The container's running state came back.  A container that is not
    /// running ends the run with an error and emits no `Started`.
    pub fn on_inspected(&mut self, running: bool) -> (frames: Vec<WsOutbound>)
        requires
            old(self).phase == ExecPhase::Checking,
        ensures
            running ==> final(self).phase == ExecPhase::Launching && frames@.len() == 0,
            !running ==> final(self).phase == ExecPhase::Done && frames@.len() == 1
                && frames@[0]@ == WsOutboundV::Packet(
                ServerPacketV::ServerError {
                    err: ServerError::ProcessStartFailed,
                    message: "container is not started"@,
                },
            ),
    {
        if running {
            self.phase = ExecPhase::Launching;
            Vec::new()
        } else {
            self.phase = ExecPhase::Done;
            let mut frames: Vec<WsOutbound> = Vec::new();
            frames.push(
                WsOutbound::Packet(
                    ServerPacket::ServerError(
                        ServerErrorPacket {
                            err: ServerError::ProcessStartFailed,
                            message: String::from_str("container is not started"),
                        },
                    ),
                ),
            );
            frames
        }
    }

    /// The exec was created and attached, or failed to.  `Started` goes out
    /// exactly on success.
    pub fn on_launched(&mut self, ok: bool, error: &str) -> (frames: Vec<WsOutbound>)
        requires
            old(self).phase == ExecPhase::Launching,
        ensures
            ok ==> final(self).phase == ExecPhase::Streaming && frames@.len() == 1
                && frames@[0]@ == WsOutboundV::Packet(
                ServerPacketV::ProcessEvent(ProcessEventPacket::Started),
            ),
            !ok ==> final(self).phase == ExecPhase::Done && frames@.len() == 1 && frames@[0]@
                == WsOutboundV::Packet(
                ServerPacketV::ServerError {
                    err: ServerError::ProcessStartFailed,
                    message: error@,
                },
            ),
    {
        let mut frames: Vec<WsOutbound> = Vec::new();
        if ok {
            self.phase = ExecPhase::Streaming;
            frames.push(
                WsOutbound::Packet(ServerPacket::ProcessEvent(ProcessEventPacket::Started)),
            );
        } else {
            self.phase = ExecPhase::Done;
            frames.push(
                WsOutbound::Packet(
                    ServerPacket::ServerError(
                        ServerErrorPacket {
                            err: ServerError::ProcessStartFailed,
                            message: String::from_str(error),
                        },
                    ),
                ),
            );
        }
        frames
    }

    /// One chunk of output arrived: it goes out on the stream it came from,
    /// decoded as text with invalid sequences replaced, never dropped.
    pub fn on_chunk(&mut self, stdout: bool, bytes: &Vec<u8>) -> (frames: Vec<WsOutbound>)
        requires
            old(self).phase == ExecPhase::Streaming,
        ensures
            final(self).phase == ExecPhase::Streaming,
            frames@.len() == 1,
            frames@[0]@ == WsOutboundV::Packet(chunk_frame(ChunkV { stdout, bytes: bytes@ })),
    {
        let text = utf8_lossy(bytes);
        let packet = if stdout {
            ServerPacket::ProcessOutput(ProcessOutputPacket::StdOut(text))
        } else {
            ServerPacket::ProcessOutput(ProcessOutputPacket::StdErr(text))
        };
        let mut frames: Vec<WsOutbound> = Vec::new();
        frames.push(WsOutbound::Packet(packet));
        frames
    }

    /// The output stream ended: the exit code goes out as `Finished`, with
    /// -1 standing in when the runtime reported none.
    pub fn on_stream_end(&mut self, exit_code: Option<i64>) -> (frames: Vec<WsOutbound>)
        requires
            old(self).phase == ExecPhase::Streaming,
        ensures
            final(self).phase == ExecPhase::Done,
            frames@.len() == 1,
            frames@[0]@ == WsOutboundV::Packet(
                ServerPacketV::ProcessEvent(
                    ProcessEventPacket::Finished { exit_code: reported_exit(exit_code) },
                ),
            ),
    {
        self.phase = ExecPhase::Done;
        let code = match exit_code {
            Some(c) => c,
            None => -1,
        };
        let mut frames: Vec<WsOutbound> = Vec::new();
        frames.push(
            WsOutbound::Packet(ServerPacket::ProcessEvent(
                ProcessEventPacket::Finished { exit_code: code },
            )),
        );
        frames
    }
}

/// The shape of one whole exec run.
///
/// Whenever the run holds a `Started`, it opens the run, exactly one
/// `Finished` closes it, and everything between the two is an output frame
/// in chunk order.  A run against a container that is not running is the
/// lone `ProcessStartFailed` error with its fixed reason, and a run whose
/// launch failed is the lone `ProcessStartFailed` error with the runtime's
/// reason: neither holds a `Started` or a `Finished`.
pub proof fn lemma_exec_run_shape(
    running: bool,
    launch_ok: bool,
    launch_err: Seq<char>,
    chunks: Seq<ChunkV>,
    exit_code: Option<i64>,
)
    ensures
        ({
            let run = supervisor_run(running, launch_ok, launch_err, chunks, exit_code);
            &&& !running ==> run == seq![
                ServerPacketV::ServerError {
                    err: ServerError::ProcessStartFailed,
                    message: "container is not started"@,
                },
            ]
            &&& (running && !launch_ok) ==> run == seq![
                ServerPacketV::ServerError {
                    err: ServerError::ProcessStartFailed,
                    message: launch_err,
                },
            ]
            &&& (running && launch_ok) ==> {
                &&& run.len() == chunks.len() + 2
                &&& run[0] == ServerPacketV::ProcessEvent(ProcessEventPacket::Started)
                &&& run[run.len() - 1] == ServerPacketV::ProcessEvent(
                    ProcessEventPacket::Finished { exit_code: reported_exit(exit_code) },
                )
                &&& forall|k: int|
                    1 <= k < run.len() - 1 ==> run[k] == chunk_frame(chunks[k - 1])
            }
        }),
{
    if running && launch_ok {
        let run = supervisor_run(running, launch_ok, launch_err, chunks, exit_code);
        assert(run.len() == chunks.len() + 2);
        assert forall|k: int| 1 <= k < run.len() - 1 implies run[k] == chunk_frame(
            chunks[k - 1],
        ) by {
            assert(chunks.map_values(|c: ChunkV| chunk_frame(c))[k - 1] == chunk_frame(
                chunks[k - 1],
            ));
        }
    }
}

} // verus!
