//! Packets sent by the server.

use vstd::prelude::*;

verus! {

/// Answer to `ProcessOpen`: the identifier of the fresh container.
#[derive(Debug, Clone, PartialEq, Eq)]
pub struct ProcessOpenResultPacket {
    pub container_id: String,
}

/// Answer to `ProcessClose`: whether the runtime removed the container.
#[derive(Debug, Clone, Copy, PartialEq, Eq, Structural)]
pub struct ProcessCloseResultPacket {
    pub success: bool,
}

/// One chunk of the running process's output, with its stream kept apart.
#[derive(Debug, Clone, PartialEq, Eq)]
pub enum ProcessOutputPacket {
    StdOut(String),
    StdErr(String),
}

/// Older output frame shape, kept for wire compatibility.
#[derive(Debug, Clone, PartialEq, Eq)]
pub enum OutputPacket {
    StdOut(String),
    StdErr(String),
}

/// Lifecycle events of the process inside a container.
#[derive(Debug, Clone, Copy, PartialEq, Eq, Structural)]
pub enum ProcessEventPacket {
    Started,
    Finished { exit_code: i64 },
    TimedOut,
}

/// The error vocabulary of the server.
#[derive(Debug, Clone, Copy, PartialEq, Eq, Structural)]
pub enum ServerError {
    InvalidJson,
    InvalidContainerId,
    ProcessStartFailed,
    TempFileCreationFailed,
    UploadAlreadyInProgress,
    UploadFailed,
    UnexpectedBinaryFrame,
}

/// An error frame: the kind of failure and a human-readable reason.
#[derive(Debug, Clone, PartialEq, Eq)]
pub struct ServerErrorPacket {
    pub err: ServerError,
    pub message: String,
}

/// Every packet the server may send.
#[derive(Debug, Clone, PartialEq, Eq)]
pub enum ServerPacket {
    ProcessOpenResult(ProcessOpenResultPacket),
    ProcessCloseResult(ProcessCloseResultPacket),
    ProcessOutput(ProcessOutputPacket),
    ProcessEvent(ProcessEventPacket),
    ServerError(ServerErrorPacket),
}

/// Mathematical value of a [`ProcessOutputPacket`].
pub enum ProcessOutputPacketV {
    StdOut(Seq<char>),
    StdErr(Seq<char>),
}

/// Mathematical value of a [`ServerPacket`]: the same shape over `Seq<char>`.
pub enum ServerPacketV {
    ProcessOpenResult { container_id: Seq<char> },
    ProcessCloseResult { success: bool },
    ProcessOutput(ProcessOutputPacketV),
    ProcessEvent(ProcessEventPacket),
    ServerError { err: ServerError, message: Seq<char> },
}

impl View for ProcessOutputPacket {
    type V = ProcessOutputPacketV;

    open spec fn view(&self) -> ProcessOutputPacketV {
        match self {
            ProcessOutputPacket::StdOut(t) => ProcessOutputPacketV::StdOut(t@),
            ProcessOutputPacket::StdErr(t) => ProcessOutputPacketV::StdErr(t@),
        }
    }
}

impl View for ServerPacket {
    type V = ServerPacketV;

    open spec fn view(&self) -> ServerPacketV {
        match self {
            ServerPacket::ProcessOpenResult(p) => ServerPacketV::ProcessOpenResult {
                container_id: p.container_id@,
            },
            ServerPacket::ProcessCloseResult(p) => ServerPacketV::ProcessCloseResult {
                success: p.success,
            },
            ServerPacket::ProcessOutput(p) => ServerPacketV::ProcessOutput(p@),
            ServerPacket::ProcessEvent(e) => ServerPacketV::ProcessEvent(*e),
            ServerPacket::ServerError(p) => ServerPacketV::ServerError {
                err: p.err,
                message: p.message@,
            },
        }
    }
}

} // verus!
