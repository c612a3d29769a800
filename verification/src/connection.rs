//! The per-connection state machine.
//!
//! One connection owns a set of container sessions and at most one in-flight
//! upload.  Inbound frames come in through the `handle_*` functions; what
//! the runtime finished comes back through the `on_*` functions.  Each step
//! yields the frames to write, the runtime commands to run, and whether the
//! connection closes.  The caller performs the I/O; every decision is made
//! here.

use vstd::prelude::*;

use crate::codec::{client_json, decode_client};
use crate::container::BoaContainer;
use crate::packets::client::{ClientPacket, ClientPacketV, ControlSignal, ProcessControlSignal,
    ProcessControlSignalV};
use crate::packets::server::{ProcessCloseResultPacket, ProcessEventPacket,
    ProcessOpenResultPacket, ServerError, ServerErrorPacket, ServerPacket, ServerPacketV};
use crate::registry::Registry;

verus! {

/// One element of the outbound queue.
#[derive(Debug, Clone, PartialEq, Eq)]
pub enum WsOutbound {
    /// A packet, encoded as one text frame.
    Packet(ServerPacket),
    /// A raw pong answering a ping.
    Pong(Vec<u8>),
}

/// Mathematical value of a [`WsOutbound`].
pub enum WsOutboundV {
    Packet(ServerPacketV),
    Pong(Seq<u8>),
}

impl View for WsOutbound {
    type V = WsOutboundV;

    open spec fn view(&self) -> WsOutboundV {
        match self {
            WsOutbound::Packet(p) => WsOutboundV::Packet(p@),
            WsOutbound::Pong(b) => WsOutboundV::Pong(b@),
        }
    }
}

/// Work for the runtime or the host, carried out by the caller.
#[derive(Debug, Clone, PartialEq, Eq)]
pub enum Command {
    /// Provision a fresh container; answer through `on_created` or
    /// `on_create_failed`.
    Create,
    /// Start the container; answer through `on_start_done`.
    Start { container_id: String },
    /// Run the named file inside the container, driving an exec supervisor.
    Exec { container_id: String, file_name: String },
    /// Stop the container with a signal; answer through `on_signal_done`.
    Signal { container_id: String, signal: ControlSignal },
    /// Remove the container; answer through `on_remove_done`.
    Remove { container_id: String },
    /// Remove the container best-effort during teardown; no answer.
    Reclaim { container_id: String },
    /// Allocate the upload scratch file; on failure answer through
    /// `on_scratch_open_failed`.
    OpenScratch,
    /// Append the bytes to the scratch file; on failure answer through
    /// `on_scratch_write_failed`.
    AppendScratch { bytes: Vec<u8> },
    /// Pack the scratch file as a one-entry archive named `file_name` and
    /// push it into the container; failures are only logged.
    Finalize { container_id: String, file_name: String },
}

/// Mathematical value of a [`Command`].
pub enum CommandV {
    Create,
    Start { container_id: Seq<char> },
    Exec { container_id: Seq<char>, file_name: Seq<char> },
    Signal { container_id: Seq<char>, signal: ControlSignal },
    Remove { container_id: Seq<char> },
    Reclaim { container_id: Seq<char> },
    OpenScratch,
    AppendScratch { bytes: Seq<u8> },
    Finalize { container_id: Seq<char>, file_name: Seq<char> },
}

impl View for Command {
    type V = CommandV;

    open spec fn view(&self) -> CommandV {
        match self {
            Command::Create => CommandV::Create,
            Command::Start { container_id } => CommandV::Start { container_id: container_id@ },
            Command::Exec { container_id, file_name } => CommandV::Exec {
                container_id: container_id@,
                file_name: file_name@,
            },
            Command::Signal { container_id, signal } => CommandV::Signal {
                container_id: container_id@,
                signal: *signal,
            },
            Command::Remove { container_id } => CommandV::Remove { container_id: container_id@ },
            Command::Reclaim { container_id } => CommandV::Reclaim {
                container_id: container_id@,
            },
            Command::OpenScratch => CommandV::OpenScratch,
            Command::AppendScratch { bytes } => CommandV::AppendScratch { bytes: bytes@ },
            Command::Finalize { container_id, file_name } => CommandV::Finalize {
                container_id: container_id@,
                file_name: file_name@,
            },
        }
    }
}

/// The identifier a command aims at, if it aims at one.
pub open spec fn command_target(c: CommandV) -> Option<Seq<char>> {
    match c {
        CommandV::Create => None,
        CommandV::Start { container_id } => Some(container_id),
        CommandV::Exec { container_id, .. } => Some(container_id),
        CommandV::Signal { container_id, .. } => Some(container_id),
        CommandV::Remove { container_id } => Some(container_id),
        CommandV::Reclaim { container_id } => Some(container_id),
        CommandV::OpenScratch => None,
        CommandV::AppendScratch { .. } => None,
        CommandV::Finalize { container_id, .. } => Some(container_id),
    }
}

/// The in-flight upload of a connection.
#[derive(Debug)]
pub struct UploadState {
    /// The container the upload goes to.
    pub container_id: String,
    /// The directory inside the container, always `/src`.
    pub container_path: String,
    /// The file name inside the container.
    pub file_name: String,
    /// How many announced bytes are still to come, saturating at zero.
    pub remaining: u64,
    /// How many bytes the client announced.
    pub expected: u64,
}

/// Mathematical value of an [`UploadState`].
pub struct UploadStateV {
    pub container_id: Seq<char>,
    pub container_path: Seq<char>,
    pub file_name: Seq<char>,
    pub remaining: u64,
    pub expected: u64,
}

impl View for UploadState {
    type V = UploadStateV;

    open spec fn view(&self) -> UploadStateV {
        UploadStateV {
            container_id: self.container_id@,
            container_path: self.container_path@,
            file_name: self.file_name@,
            remaining: self.remaining,
            expected: self.expected,
        }
    }
}

/// What one step of the state machine asks the caller to do.
#[derive(Debug)]
pub struct Step {
    /// Frames to enqueue on the outbound queue, in this order.
    pub frames: Vec<WsOutbound>,
    /// Runtime and host work to run, in this order.
    pub commands: Vec<Command>,
    /// Whether the connection ends after this step.
    pub close: bool,
    /// The close code to send before ending, if one is owed.
    pub close_code: Option<u16>,
}

impl Step {
    /// A step that does nothing.
    fn quiet() -> (r: Step)
        ensures
            r.frames@.len() == 0,
            r.commands@.len() == 0,
            !r.close,
            r.close_code is None,
    {
        Step { frames: Vec::new(), commands: Vec::new(), close: false, close_code: None }
    }

    /// A step that only emits one error frame.
    fn error(err: ServerError, message: &str) -> (r: Step)
        ensures
            r.frames@.len() == 1,
            r.frames@[0]@ == WsOutboundV::Packet(
                ServerPacketV::ServerError { err, message: message@ },
            ),
            r.commands@.len() == 0,
            !r.close,
            r.close_code is None,
    {
        let mut frames: Vec<WsOutbound> = Vec::new();
        frames.push(
            WsOutbound::Packet(
                ServerPacket::ServerError(
                    ServerErrorPacket { err, message: String::from_str(message) },
                ),
            ),
        );
        Step { frames, commands: Vec::new(), close: false, close_code: None }
    }
}

/// The state of one connection.
pub struct Connection {
    /// The live sessions of this connection.
    pub registry: Registry,
    /// The at-most-one in-flight upload.
    pub upload: Option<UploadState>,
    /// The identifiers that were announced to the client through
    /// `ProcessOpenResult` frames.
    pub announced: Ghost<Set<Seq<char>>>,
}

impl Connection {
    /// The in-flight upload, if any, is consistent and aims at `/src`.
    pub open spec fn upload_wf(self) -> bool {
        match self.upload {
            Some(u) => u.remaining <= u.expected && u.container_path@ == "/src"@,
            None => true,
        }
    }

    /// Well-formedness: distinct session identifiers, a consistent upload,
    /// and no session whose identifier was never announced.
    pub open spec fn wf(self) -> bool {
        &&& self.registry.wf()
        &&& self.upload_wf()
        &&& forall|id: Seq<char>|
            self.registry.has(id) ==> #[trigger] self.announced@.contains(id)
    }

    /// A connection that has just been opened.
    pub fn new() -> (r: Connection)
        ensures
            r.wf(),
            r.upload is None,
            r.registry.sessions@.len() == 0,
            r.announced@ == Set::<Seq<char>>::empty(),
    {
        Connection {
            registry: Registry::new(),
            upload: None,
            announced: Ghost(Set::empty()),
        }
    }
}

/// What one inbound packet does: the dispatch table of the orchestrator.
pub open spec fn dispatch(
    pre: Connection,
    post: Connection,
    v: ClientPacketV,
    frames: Seq<WsOutbound>,
    commands: Seq<Command>,
    close: bool,
    close_code: Option<u16>,
) -> bool {
    match v {
        ClientPacketV::ProcessOpen => {
            &&& post == pre
            &&& frames.len() == 0
            &&& commands.len() == 1 && commands[0]@ == CommandV::Create
            &&& !close && close_code is None
        },
        ClientPacketV::ProcessClose { container_id } => {
            if pre.registry.has(container_id) {
                &&& post.registry.wf()
                &&& forall|x: Seq<char>|
                    post.registry.has(x) == (pre.registry.has(x) && x != container_id)
                &&& post.upload == pre.upload
                &&& post.announced == pre.announced
                &&& frames.len() == 0
                &&& commands.len() == 1 && commands[0]@ == (CommandV::Remove { container_id })
                &&& !close && close_code is None
            } else {
                &&& post == pre
                &&& frames.len() == 1 && frames[0]@ == WsOutboundV::Packet(
                    ServerPacketV::ServerError {
                        err: ServerError::InvalidContainerId,
                        message: "invalid container id"@,
                    },
                )
                &&& commands.len() == 0
                &&& !close && close_code is None
            }
        },
        ClientPacketV::ProcessControlSignal { container_id, control_signal } => {
            if pre.registry.has(container_id) {
                &&& post == pre
                &&& frames.len() == 0
                &&& commands.len() == 1
                &&& commands[0]@ == (match control_signal {
                    ProcessControlSignalV::Start => CommandV::Start { container_id },
                    ProcessControlSignalV::Exec(f) => CommandV::Exec {
                        container_id,
                        file_name: f,
                    },
                    ProcessControlSignalV::Interrupt => CommandV::Signal {
                        container_id,
                        signal: ControlSignal::Interrupt,
                    },
                    ProcessControlSignalV::Terminate => CommandV::Signal {
                        container_id,
                        signal: ControlSignal::Terminate,
                    },
                })
                &&& !close && close_code is None
            } else {
                &&& post == pre
                &&& frames.len() == 1 && frames[0]@ == WsOutboundV::Packet(
                    ServerPacketV::ServerError {
                        err: ServerError::InvalidContainerId,
                        message: "invalid container id"@,
                    },
                )
                &&& commands.len() == 0
                &&& !close && close_code is None
            }
        },
        ClientPacketV::UploadStart { container_id, path, size } => {
            if pre.upload is Some {
                // A second start before the finish leaves the first upload
                // untouched.
                &&& post == pre
                &&& frames.len() == 1 && frames[0]@ == WsOutboundV::Packet(
                    ServerPacketV::ServerError {
                        err: ServerError::UploadAlreadyInProgress,
                        message: "upload already in progress"@,
                    },
                )
                &&& commands.len() == 0
                &&& !close && close_code is None
            } else if !pre.registry.has(container_id) {
                &&& post == pre
                &&& frames.len() == 1 && frames[0]@ == WsOutboundV::Packet(
                    ServerPacketV::ServerError {
                        err: ServerError::InvalidContainerId,
                        message: "invalid container id"@,
                    },
                )
                &&& commands.len() == 0
                &&& !close && close_code is None
            } else {
                &&& post.registry == pre.registry
                &&& post.announced == pre.announced
                &&& post.upload matches Some(u) && u@ == (UploadStateV {
                    container_id,
                    container_path: "/src"@,
                    file_name: path,
                    remaining: size,
                    expected: size,
                })
                &&& frames.len() == 0
                &&& commands.len() == 1 && commands[0]@ == CommandV::OpenScratch
                &&& !close && close_code is None
            }
        },
        ClientPacketV::UploadFinish { .. } => {
            match pre.upload {
                Some(u) => {
                    &&& post.upload is None
                    &&& post.registry == pre.registry
                    &&& post.announced == pre.announced
                    &&& frames.len() == 0
                    &&& (if pre.registry.has(u.container_id@) {
                        commands.len() == 1 && commands[0]@ == (CommandV::Finalize {
                            container_id: u.container_id@,
                            file_name: u.file_name@,
                        })
                    } else {
                        commands.len() == 0
                    })
                    &&& !close && close_code is None
                },
                None => {
                    &&& post == pre
                    &&& frames.len() == 0
                    &&& commands.len() == 0
                    &&& !close && close_code is None
                },
            }
        },
    }
}

impl Connection {
    /// Handles one inbound text frame.
    ///
    /// A frame that is not the canonical encoding of any client packet is
    /// answered with `InvalidJson` and closes the connection with code 1007;
    /// every client packet is handled as the dispatch table says.
    pub fn handle_text(&mut self, text: &str) -> (step: Step)
        requires
            old(self).wf(),
        ensures
            final(self).wf(),
            (forall|v: ClientPacketV| text@ != client_json(v)) ==> {
                &&& *final(self) == *old(self)
                &&& step.frames@.len() == 1 && step.frames@[0]@ == WsOutboundV::Packet(
                    ServerPacketV::ServerError {
                        err: ServerError::InvalidJson,
                        message: "invalid json"@,
                    },
                )
                &&& step.commands@.len() == 0
                &&& step.close && step.close_code == Some(1007u16)
            },
            forall|v: ClientPacketV| text@ == #[trigger] client_json(v) ==> dispatch(
                *old(self),
                *final(self),
                v,
                step.frames@,
                step.commands@,
                step.close,
                step.close_code,
            ),
    {
        let decoded = decode_client(text);
        match decoded {
            None => {
                let mut step = Step::error(ServerError::InvalidJson, "invalid json");
                step.close = true;
                step.close_code = Some(1007);
                step
            },
            Some(packet) => self.handle_packet(packet),
        }
    }

    /// Handles one decoded client packet, as the dispatch table says.
    pub fn handle_packet(&mut self, packet: ClientPacket) -> (step: Step)
        requires
            old(self).wf(),
        ensures
            final(self).wf(),
            dispatch(
                *old(self),
                *final(self),
                packet@,
                step.frames@,
                step.commands@,
                step.close,
                step.close_code,
            ),
    {
        match packet {
            ClientPacket::ProcessOpen(_) => {
                let mut step = Step::quiet();
                step.commands.push(Command::Create);
                step
            },
            ClientPacket::ProcessClose(pkt) => {
                let removed = self.registry.remove(pkt.container_id.as_str());
                match removed {
                    Some(_) => {
                        let mut step = Step::quiet();
                        step.commands.push(Command::Remove { container_id: pkt.container_id });
                        step
                    },
                    None => Step::error(ServerError::InvalidContainerId, "invalid container id"),
                }
            },
            ClientPacket::ProcessControlSignal(pkt) => {
                if !self.registry.contains(pkt.container_id.as_str()) {
                    return Step::error(ServerError::InvalidContainerId, "invalid container id");
                }
                let mut step = Step::quiet();
                let cmd = match pkt.control_signal {
                    ProcessControlSignal::Start => Command::Start {
                        container_id: pkt.container_id,
                    },
                    ProcessControlSignal::Exec(f) => Command::Exec {
                        container_id: pkt.container_id,
                        file_name: f,
                    },
                    ProcessControlSignal::Interrupt => Command::Signal {
                        container_id: pkt.container_id,
                        signal: ControlSignal::Interrupt,
                    },
                    ProcessControlSignal::Terminate => Command::Signal {
                        container_id: pkt.container_id,
                        signal: ControlSignal::Terminate,
                    },
                };
                step.commands.push(cmd);
                step
            },
            ClientPacket::UploadStart { container_id, path, size } => {
                if self.upload.is_some() {
                    return Step::error(
                        ServerError::UploadAlreadyInProgress,
                        "upload already in progress",
                    );
                }
                if !self.registry.contains(container_id.as_str()) {
                    return Step::error(ServerError::InvalidContainerId, "invalid container id");
                }
                self.upload = Some(
                    UploadState {
                        container_id,
                        container_path: String::from_str("/src"),
                        file_name: path,
                        remaining: size,
                        expected: size,
                    },
                );
                let mut step = Step::quiet();
                step.commands.push(Command::OpenScratch);
                step
            },
            ClientPacket::UploadFinish { .. } => {
                let mut u: Option<UploadState> = None;
                core::mem::swap(&mut u, &mut self.upload);
                match u {
                    Some(u) => {
                        let mut step = Step::quiet();
                        if self.registry.contains(u.container_id.as_str()) {
                            step.commands.push(
                                Command::Finalize {
                                    container_id: u.container_id,
                                    file_name: u.file_name,
                                },
                            );
                        }
                        step
                    },
                    None => Step::quiet(),
                }
            },
        }
    }

    /// Handles one inbound binary frame: upload payload while an upload is
    /// pending, a protocol error otherwise.
    pub fn handle_binary(&mut self, bytes: Vec<u8>) -> (step: Step)
        requires
            old(self).wf(),
        ensures
            final(self).wf(),
            match old(self).upload {
                Some(u) => {
                    &&& final(self).upload matches Some(u2) && u2@ == (UploadStateV {
                        remaining: if bytes@.len() > u.remaining {
                            0
                        } else {
                            (u.remaining - bytes@.len()) as u64
                        },
                        ..u@
                    })
                    &&& final(self).registry == old(self).registry
                    &&& final(self).announced == old(self).announced
                    &&& step.frames@.len() == 0
                    &&& step.commands@.len() == 1 && step.commands@[0]@ == (
                    CommandV::AppendScratch { bytes: bytes@ })
                    &&& !step.close && step.close_code is None
                },
                None => {
                    &&& *final(self) == *old(self)
                    &&& step.frames@.len() == 1 && step.frames@[0]@ == WsOutboundV::Packet(
                        ServerPacketV::ServerError {
                            err: ServerError::UnexpectedBinaryFrame,
                            message: "binary frame without upload"@,
                        },
                    )
                    &&& step.commands@.len() == 0
                    &&& !step.close && step.close_code is None
                },
            },
    {
        match &mut self.upload {
            Some(u) => {
                let n = bytes.len() as u64;
                u.remaining = if n > u.remaining {
                    0
                } else {
                    u.remaining - n
                };
                let mut step = Step::quiet();
                step.commands.push(Command::AppendScratch { bytes });
                step
            },
            None => Step::error(ServerError::UnexpectedBinaryFrame, "binary frame without upload"),
        }
    }

    /// Handles one inbound ping: the payload goes back as a pong.
    pub fn handle_ping(&mut self, payload: Vec<u8>) -> (step: Step)
        requires
            old(self).wf(),
        ensures
            final(self).wf(),
            *final(self) == *old(self),
            step.frames@.len() == 1 && step.frames@[0]@ == WsOutboundV::Pong(payload@),
            step.commands@.len() == 0,
            !step.close && step.close_code is None,
    {
        let mut step = Step::quiet();
        step.frames.push(WsOutbound::Pong(payload));
        step
    }

    /// Tears the connection down: the upload is dropped and every remaining
    /// container is reclaimed best-effort, in registry order.
    pub fn handle_close(&mut self) -> (step: Step)
        requires
            old(self).wf(),
        ensures
            final(self).wf(),
            final(self).upload is None,
            final(self).registry.sessions@.len() == 0,
            step.frames@.len() == 0,
            step.commands@.len() == old(self).registry.sessions@.len(),
            forall|k: int|
                0 <= k < step.commands@.len() ==> step.commands@[k]@ == (CommandV::Reclaim {
                    container_id: old(self).registry.sessions@[k].container_id@,
                }),
            step.close && step.close_code is None,
    {
        self.upload = None;
        let sessions = self.registry.drain();
        let mut commands: Vec<Command> = Vec::new();
        let mut i: usize = 0;
        let n = sessions.len();
        while i < n
            invariant
                n == sessions@.len(),
                i <= n,
                commands@.len() == i,
                forall|k: int|
                    0 <= k < i ==> commands@[k]@ == (CommandV::Reclaim {
                        container_id: sessions@[k].container_id@,
                    }),
            decreases n - i,
        {
            commands.push(Command::Reclaim { container_id: sessions[i].container_id.clone() });
            i = i + 1;
        }
        Step { frames: Vec::new(), commands, close: true, close_code: None }
    }

    /// The runtime created a container: it joins the registry and its
    /// identifier is announced.  A colliding identifier (which fresh random
    /// identifiers do not produce) is not registered; the container is
    /// reclaimed instead.
    pub fn on_created(&mut self, container_id: String) -> (step: Step)
        requires
            old(self).wf(),
        ensures
            final(self).wf(),
            final(self).upload == old(self).upload,
            if old(self).registry.has(container_id@) {
                &&& final(self).registry == old(self).registry
                &&& final(self).announced == old(self).announced
                &&& step.frames@.len() == 0
                &&& step.commands@.len() == 1 && step.commands@[0]@ == (CommandV::Reclaim {
                    container_id: container_id@,
                })
            } else {
                &&& forall|x: Seq<char>|
                    final(self).registry.has(x) == (old(self).registry.has(x) || x
                        == container_id@)
                &&& final(self).announced@ == old(self).announced@.insert(container_id@)
                &&& step.frames@.len() == 1 && step.frames@[0]@ == WsOutboundV::Packet(
                    ServerPacketV::ProcessOpenResult { container_id: container_id@ },
                )
                &&& step.commands@.len() == 0
            },
            !step.close && step.close_code is None,
    {
        if self.registry.contains(container_id.as_str()) {
            let mut step = Step::quiet();
            step.commands.push(Command::Reclaim { container_id });
            return step;
        }
        proof {
            self.announced@ = self.announced@.insert(container_id@);
        }
        let session = BoaContainer::fresh(container_id.clone());
        let inserted = self.registry.insert(session);
        proof {
            assert(inserted);
        }
        let mut step = Step::quiet();
        step.frames.push(
            WsOutbound::Packet(
                ServerPacket::ProcessOpenResult(ProcessOpenResultPacket { container_id }),
            ),
        );
        step
    }

    /// The runtime could not create a container: the connection ends, as a
    /// connection-level failure.
    pub fn on_create_failed(&mut self) -> (step: Step)
        requires
            old(self).wf(),
        ensures
            final(self).wf(),
            *final(self) == *old(self),
            step.frames@.len() == 0,
            step.commands@.len() == 0,
            step.close && step.close_code is None,
    {
        let mut step = Step::quiet();
        step.close = true;
        step
    }

    /// The runtime removed (or failed to remove) a closed container: the
    /// client learns the outcome.
    pub fn on_remove_done(&mut self, success: bool) -> (step: Step)
        requires
            old(self).wf(),
        ensures
            final(self).wf(),
            *final(self) == *old(self),
            step.frames@.len() == 1 && step.frames@[0]@ == WsOutboundV::Packet(
                ServerPacketV::ProcessCloseResult { success },
            ),
            step.commands@.len() == 0,
            !step.close && step.close_code is None,
    {
        let mut step = Step::quiet();
        step.frames.push(
            WsOutbound::Packet(
                ServerPacket::ProcessCloseResult(ProcessCloseResultPacket { success }),
            ),
        );
        step
    }

    /// The runtime answered a start request.  On success the session is
    /// marked started and `Started` goes out, exactly once; on failure the
    /// reason goes out as a `ProcessStartFailed` error.  A session closed in
    /// the meantime stays silent.
    pub fn on_start_done(&mut self, container_id: &str, ok: bool, error: &str) -> (step: Step)
        requires
            old(self).wf(),
        ensures
            final(self).wf(),
            final(self).upload == old(self).upload,
            final(self).announced == old(self).announced,
            forall|x: Seq<char>| final(self).registry.has(x) == old(self).registry.has(x),
            if ok && old(self).registry.has(container_id@) {
                step.frames@.len() == 1 && step.frames@[0]@ == WsOutboundV::Packet(
                    ServerPacketV::ProcessEvent(ProcessEventPacket::Started),
                )
            } else if !ok {
                step.frames@.len() == 1 && step.frames@[0]@ == WsOutboundV::Packet(
                    ServerPacketV::ServerError {
                        err: ServerError::ProcessStartFailed,
                        message: error@,
                    },
                )
            } else {
                step.frames@.len() == 0
            },
            step.commands@.len() == 0,
            !step.close && step.close_code is None,
    {
        if !ok {
            return Step::error(ServerError::ProcessStartFailed, error);
        }
        let present = self.registry.set_started(container_id);
        if !present {
            return Step::quiet();
        }
        let mut step = Step::quiet();
        step.frames.push(WsOutbound::Packet(ServerPacket::ProcessEvent(
            ProcessEventPacket::Started,
        )));
        step
    }

    /// The runtime answered a stop request.  A failure to signal ends the
    /// connection, as a connection-level failure.
    pub fn on_signal_done(&mut self, ok: bool) -> (step: Step)
        requires
            old(self).wf(),
        ensures
            final(self).wf(),
            *final(self) == *old(self),
            step.frames@.len() == 0,
            step.commands@.len() == 0,
            step.close == !ok && step.close_code is None,
    {
        let mut step = Step::quiet();
        step.close = !ok;
        step
    }

    /// The scratch file for the pending upload could not be allocated: the
    /// upload is dropped and the client learns why.
    pub fn on_scratch_open_failed(&mut self) -> (step: Step)
        requires
            old(self).wf(),
        ensures
            final(self).wf(),
            final(self).upload is None,
            final(self).registry == old(self).registry,
            final(self).announced == old(self).announced,
            step.frames@.len() == 1 && step.frames@[0]@ == WsOutboundV::Packet(
                ServerPacketV::ServerError {
                    err: ServerError::TempFileCreationFailed,
                    message: "failed to create temp file"@,
                },
            ),
            step.commands@.len() == 0,
            !step.close && step.close_code is None,
    {
        self.upload = None;
        Step::error(ServerError::TempFileCreationFailed, "failed to create temp file")
    }

    /// A write to the scratch file failed: the upload is dropped and the
    /// client learns why.
    pub fn on_scratch_write_failed(&mut self, error: &str) -> (step: Step)
        requires
            old(self).wf(),
        ensures
            final(self).wf(),
            final(self).upload is None,
            final(self).registry == old(self).registry,
            final(self).announced == old(self).announced,
            step.frames@.len() == 1 && step.frames@[0]@ == WsOutboundV::Packet(
                ServerPacketV::ServerError { err: ServerError::UploadFailed, message: error@ },
            ),
            step.commands@.len() == 0,
            !step.close && step.close_code is None,
    {
        self.upload = None;
        Step::error(ServerError::UploadFailed, error)
    }
}

/// No step of the dispatch table emits an open-result frame: the only frame
/// that ever names a container identifier comes from `on_created`, with an
/// identifier fresh from the runtime.  Once a container is closed, later
/// packets naming it are answered only with `InvalidContainerId`, as the
/// dispatch table says, so no frame names it again.
pub proof fn lemma_dispatch_announces_nothing(
    pre: Connection,
    post: Connection,
    v: ClientPacketV,
    frames: Seq<WsOutbound>,
    commands: Seq<Command>,
    close: bool,
    close_code: Option<u16>,
    k: int,
)
    requires
        dispatch(pre, post, v, frames, commands, close, close_code),
        0 <= k < frames.len(),
    ensures
        !(frames[k]@ matches WsOutboundV::Packet(ServerPacketV::ProcessOpenResult { .. })),
{
}

/// Every session the connection holds was announced to the client first:
/// a container identifier is only ever acted on after its
/// `ProcessOpenResult` went out.
pub proof fn lemma_sessions_follow_announcement(c: Connection, id: Seq<char>)
    requires
        c.wf(),
        c.registry.has(id),
    ensures
        c.announced@.contains(id),
{
}

/// Every command a step of the dispatch table aims at a container names a
/// container that the connection held when the packet came in, and so one
/// whose identifier was announced first.
pub proof fn lemma_commands_follow_announcement(
    pre: Connection,
    post: Connection,
    v: ClientPacketV,
    frames: Seq<WsOutbound>,
    commands: Seq<Command>,
    close: bool,
    close_code: Option<u16>,
    k: int,
)
    requires
        pre.wf(),
        dispatch(pre, post, v, frames, commands, close, close_code),
        0 <= k < commands.len(),
        command_target(commands[k]@) is Some,
    ensures
        pre.registry.has(command_target(commands[k]@)->Some_0),
        pre.announced@.contains(command_target(commands[k]@)->Some_0),
{
}

} // verus!
