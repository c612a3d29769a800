//! Packets sent by the client.

use vstd::prelude::*;

verus! {

/// Request to provision a fresh container sandbox.  Carries no data.
#[derive(Debug, Clone, PartialEq, Eq)]
pub struct ProcessOpenPacket {}

/// Request to tear a container down.
#[derive(Debug, Clone, PartialEq, Eq)]
pub struct ProcessClosePacket {
    pub container_id: String,
}

/// A control action aimed at a container's process.
#[derive(Debug, Clone, PartialEq, Eq)]
pub enum ProcessControlSignal {
    /// Start the container.
    Start,
    /// Run the named file inside the container.
    Exec(String),
    /// Send a SIGINT to the container.
    Interrupt,
    /// Send a SIGTERM to the container.
    Terminate,
}

/// A control action together with the container it aims at.
#[derive(Debug, Clone, PartialEq, Eq)]
pub struct ProcessControlSignalPacket {
    pub container_id: String,
    pub control_signal: ProcessControlSignal,
}

/// Every packet a client may send.
#[derive(Debug, Clone, PartialEq, Eq)]
pub enum ClientPacket {
    ProcessOpen(ProcessOpenPacket),
    ProcessClose(ProcessClosePacket),
    ProcessControlSignal(ProcessControlSignalPacket),
    UploadStart { container_id: String, path: String, size: u64 },
    UploadFinish { container_id: String },
}

/// Older close frame shape, kept for wire compatibility.
#[derive(Debug, Clone, PartialEq, Eq)]
pub struct ClosePacket {
    pub container_id: String,
}

/// Older control vocabulary, kept for wire compatibility.
#[derive(Debug, Clone, PartialEq, Eq)]
pub enum ControlSignal {
    /// Send a SIGINT to the container.
    Interrupt,
    /// Send a SIGTERM to the container.
    Terminate,
}

/// Older control frame shape, kept for wire compatibility.
#[derive(Debug, Clone, PartialEq, Eq)]
pub struct ControlSignalPacket {
    pub container_id: String,
    pub control_signal: ControlSignal,
}

impl ControlSignal {
    /// The POSIX signal sent to the container's first process.
    pub fn signal_name(&self) -> (r: &'static str)
        ensures
            r@ == (match self {
                ControlSignal::Interrupt => "SIGINT"@,
                ControlSignal::Terminate => "SIGTERM"@,
            }),
    {
        match self {
            ControlSignal::Interrupt => "SIGINT",
            ControlSignal::Terminate => "SIGTERM",
        }
    }
}

/// Mathematical value of a [`ProcessControlSignal`].
pub enum ProcessControlSignalV {
    Start,
    Exec(Seq<char>),
    Interrupt,
    Terminate,
}

/// Mathematical value of a [`ClientPacket`]: the same shape over `Seq<char>`.
pub enum ClientPacketV {
    ProcessOpen,
    ProcessClose { container_id: Seq<char> },
    ProcessControlSignal { container_id: Seq<char>, control_signal: ProcessControlSignalV },
    UploadStart { container_id: Seq<char>, path: Seq<char>, size: u64 },
    UploadFinish { container_id: Seq<char> },
}

impl View for ProcessControlSignal {
    type V = ProcessControlSignalV;

    open spec fn view(&self) -> ProcessControlSignalV {
        match self {
            ProcessControlSignal::Start => ProcessControlSignalV::Start,
            ProcessControlSignal::Exec(f) => ProcessControlSignalV::Exec(f@),
            ProcessControlSignal::Interrupt => ProcessControlSignalV::Interrupt,
            ProcessControlSignal::Terminate => ProcessControlSignalV::Terminate,
        }
    }
}

impl View for ClientPacket {
    type V = ClientPacketV;

    open spec fn view(&self) -> ClientPacketV {
        match self {
            ClientPacket::ProcessOpen(_) => ClientPacketV::ProcessOpen,
            ClientPacket::ProcessClose(p) => ClientPacketV::ProcessClose {
                container_id: p.container_id@,
            },
            ClientPacket::ProcessControlSignal(p) => ClientPacketV::ProcessControlSignal {
                container_id: p.container_id@,
                control_signal: p.control_signal@,
            },
            ClientPacket::UploadStart { container_id, path, size } => ClientPacketV::UploadStart {
                container_id: container_id@,
                path: path@,
                size: *size,
            },
            ClientPacket::UploadFinish { container_id } => ClientPacketV::UploadFinish {
                container_id: container_id@,
            },
        }
    }
}

} // verus!
