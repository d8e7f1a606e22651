//! The typed half of the system-call interface: status and request codes
//! with their register encodings, and the message values that cross the
//! call boundary.  The register transport itself lives outside the library;
//! everything that decides what a register value means is here.

use vstd::prelude::*;

verus! {

/// Outcome code a system call hands back in a register.
#[derive(Debug, Clone, Copy, PartialEq, Eq, Structural)]
pub enum SystemCallStatus {
    Success,
    InvalidRequest,
    MalformedData,
    UnknownRequest,
    NotFound,
}

impl SystemCallStatus {
    /// The register encoding of each status.
    pub open spec fn spec_as_raw(self) -> u64 {
        match self {
            SystemCallStatus::Success => 0,
            SystemCallStatus::InvalidRequest => 1,
            SystemCallStatus::MalformedData => 2,
            SystemCallStatus::UnknownRequest => 3,
            SystemCallStatus::NotFound => 4,
        }
    }

    /// The status a register value encodes, if any.
    pub open spec fn spec_from_raw(v: u64) -> Option<SystemCallStatus> {
        if v == 0 {
            Some(SystemCallStatus::Success)
        } else if v == 1 {
            Some(SystemCallStatus::InvalidRequest)
        } else if v == 2 {
            Some(SystemCallStatus::MalformedData)
        } else if v == 3 {
            Some(SystemCallStatus::UnknownRequest)
        } else if v == 4 {
            Some(SystemCallStatus::NotFound)
        } else {
            None
        }
    }

    /// Encodes the status for the register transport.
    pub fn as_raw(self) -> (r: u64)
        ensures
            r == self.spec_as_raw(),
            Self::spec_from_raw(r) == Some(self),
    {
        match self {
            SystemCallStatus::Success => 0,
            SystemCallStatus::InvalidRequest => 1,
            SystemCallStatus::MalformedData => 2,
            SystemCallStatus::UnknownRequest => 3,
            SystemCallStatus::NotFound => 4,
        }
    }

    /// Decodes a register value; `None` exactly on values no status encodes.
    pub fn from_raw(v: u64) -> (r: Option<SystemCallStatus>)
        ensures
            r == Self::spec_from_raw(v),
    {
        if v == 0 {
            Some(SystemCallStatus::Success)
        } else if v == 1 {
            Some(SystemCallStatus::InvalidRequest)
        } else if v == 2 {
            Some(SystemCallStatus::MalformedData)
        } else if v == 3 {
            Some(SystemCallStatus::UnknownRequest)
        } else if v == 4 {
            Some(SystemCallStatus::NotFound)
        } else {
            None
        }
    }

    /// `Ok` exactly on success; any other status comes back as the error.
    pub fn as_result(self) -> (r: Result<(), SystemCallStatus>)
        ensures
            self == SystemCallStatus::Success ==> r == Ok::<(), SystemCallStatus>(()),
            self != SystemCallStatus::Success ==> r == Err::<(), SystemCallStatus>(self),
    {
        match self {
            SystemCallStatus::Success => Ok(()),
            _ => Err(self),
        }
    }
}

/// An inter-process message: the kernel-assigned identifier, the peer
/// process, and a borrowed payload living for the program's whole run.
#[derive(Debug, Clone, Copy)]
pub struct Message {
    pub id: u64,
    pub proc_id: u64,
    pub data: &'static [u8],
}

impl Message {
    /// Builds a message value field by field.
    pub fn new(id: u64, proc_id: u64, data: &'static [u8]) -> (r: Message)
        ensures
            r.id == id,
            r.proc_id == proc_id,
            r.data@ == data@,
    {
        Message { id, proc_id, data }
    }
}

/// Request code of each system call, in register-encoding order.
#[derive(Debug, Clone, Copy, PartialEq, Eq, Structural)]
pub enum SystemCall {
    KPrint,
    ReceiveMessage,
    SendMessage,
    Exit,
    Skip,
    RegisterProvider,
    GetProvidingProcess,
    PortIn,
    PortOut,
    RegisterIRQHandler,
    Allocate,
    Free,
    Ack,
    GetRegistryEntryInfo,
}

impl SystemCall {
    /// The register encoding of each request.
    pub open spec fn spec_as_raw(self) -> u64 {
        match self {
            SystemCall::KPrint => 0,
            SystemCall::ReceiveMessage => 1,
            SystemCall::SendMessage => 2,
            SystemCall::Exit => 3,
            SystemCall::Skip => 4,
            SystemCall::RegisterProvider => 5,
            SystemCall::GetProvidingProcess => 6,
            SystemCall::PortIn => 7,
            SystemCall::PortOut => 8,
            SystemCall::RegisterIRQHandler => 9,
            SystemCall::Allocate => 10,
            SystemCall::Free => 11,
            SystemCall::Ack => 12,
            SystemCall::GetRegistryEntryInfo => 13,
        }
    }

    /// The request a register value encodes, if any.
    pub open spec fn spec_from_raw(v: u64) -> Option<SystemCall> {
        if v == 0 {
            Some(SystemCall::KPrint)
        } else if v == 1 {
            Some(SystemCall::ReceiveMessage)
        } else if v == 2 {
            Some(SystemCall::SendMessage)
        } else if v == 3 {
            Some(SystemCall::Exit)
        } else if v == 4 {
            Some(SystemCall::Skip)
        } else if v == 5 {
            Some(SystemCall::RegisterProvider)
        } else if v == 6 {
            Some(SystemCall::GetProvidingProcess)
        } else if v == 7 {
            Some(SystemCall::PortIn)
        } else if v == 8 {
            Some(SystemCall::PortOut)
        } else if v == 9 {
            Some(SystemCall::RegisterIRQHandler)
        } else if v == 10 {
            Some(SystemCall::Allocate)
        } else if v == 11 {
            Some(SystemCall::Free)
        } else if v == 12 {
            Some(SystemCall::Ack)
        } else if v == 13 {
            Some(SystemCall::GetRegistryEntryInfo)
        } else {
            None
        }
    }

    /// Encodes the request for the register transport.
    pub fn as_raw(self) -> (r: u64)
        ensures
            r == self.spec_as_raw(),
            Self::spec_from_raw(r) == Some(self),
    {
        match self {
            SystemCall::KPrint => 0,
            SystemCall::ReceiveMessage => 1,
            SystemCall::SendMessage => 2,
            SystemCall::Exit => 3,
            SystemCall::Skip => 4,
            SystemCall::RegisterProvider => 5,
            SystemCall::GetProvidingProcess => 6,
            SystemCall::PortIn => 7,
            SystemCall::PortOut => 8,
            SystemCall::RegisterIRQHandler => 9,
            SystemCall::Allocate => 10,
            SystemCall::Free => 11,
            SystemCall::Ack => 12,
            SystemCall::GetRegistryEntryInfo => 13,
        }
    }

    /// Decodes a register value; `None` exactly on values no request encodes.
    pub fn from_raw(v: u64) -> (r: Option<SystemCall>)
        ensures
            r == Self::spec_from_raw(v),
    {
        if v == 0 {
            Some(SystemCall::KPrint)
        } else if v == 1 {
            Some(SystemCall::ReceiveMessage)
        } else if v == 2 {
            Some(SystemCall::SendMessage)
        } else if v == 3 {
            Some(SystemCall::Exit)
        } else if v == 4 {
            Some(SystemCall::Skip)
        } else if v == 5 {
            Some(SystemCall::RegisterProvider)
        } else if v == 6 {
            Some(SystemCall::GetProvidingProcess)
        } else if v == 7 {
            Some(SystemCall::PortIn)
        } else if v == 8 {
            Some(SystemCall::PortOut)
        } else if v == 9 {
            Some(SystemCall::RegisterIRQHandler)
        } else if v == 10 {
            Some(SystemCall::Allocate)
        } else if v == 11 {
            Some(SystemCall::Free)
        } else if v == 12 {
            Some(SystemCall::Ack)
        } else if v == 13 {
            Some(SystemCall::GetRegistryEntryInfo)
        } else {
            None
        }
    }
}

/// Width of one port-mapped I/O access.
#[derive(Debug, Clone, Copy, PartialEq, Eq, Structural)]
pub enum AccessSize {
    Byte,
    Word,
    DWord,
}

impl AccessSize {
    /// The register encoding of each access width.
    pub open spec fn spec_as_raw(self) -> u64 {
        match self {
            AccessSize::Byte => 0,
            AccessSize::Word => 1,
            AccessSize::DWord => 2,
        }
    }

    /// The access width a register value encodes, if any.
    pub open spec fn spec_from_raw(v: u64) -> Option<AccessSize> {
        if v == 0 {
            Some(AccessSize::Byte)
        } else if v == 1 {
            Some(AccessSize::Word)
        } else if v == 2 {
            Some(AccessSize::DWord)
        } else {
            None
        }
    }

    /// Encodes the access width for the register transport.
    pub fn as_raw(self) -> (r: u64)
        ensures
            r == self.spec_as_raw(),
            Self::spec_from_raw(r) == Some(self),
    {
        match self {
            AccessSize::Byte => 0,
            AccessSize::Word => 1,
            AccessSize::DWord => 2,
        }
    }

    /// Decodes a register value; `None` exactly on values no width encodes.
    pub fn from_raw(v: u64) -> (r: Option<AccessSize>)
        ensures
            r == Self::spec_from_raw(v),
    {
        if v == 0 {
            Some(AccessSize::Byte)
        } else if v == 1 {
            Some(AccessSize::Word)
        } else if v == 2 {
            Some(AccessSize::DWord)
        } else {
            None
        }
    }
}

/// What a registry-entry query asks for.
#[derive(Debug, Clone, Copy, PartialEq, Eq, Structural)]
pub enum BCRegistryEntryInfoType {
    Parent,
    PropertyNamed,
}

impl BCRegistryEntryInfoType {
    /// The register encoding of each query kind.
    pub open spec fn spec_as_raw(self) -> u64 {
        match self {
            BCRegistryEntryInfoType::Parent => 0,
            BCRegistryEntryInfoType::PropertyNamed => 1,
        }
    }

    /// The query kind a register value encodes, if any.
    pub open spec fn spec_from_raw(v: u64) -> Option<BCRegistryEntryInfoType> {
        if v == 0 {
            Some(BCRegistryEntryInfoType::Parent)
        } else if v == 1 {
            Some(BCRegistryEntryInfoType::PropertyNamed)
        } else {
            None
        }
    }

    /// Encodes the query kind for the register transport.
    pub fn as_raw(self) -> (r: u64)
        ensures
            r == self.spec_as_raw(),
            Self::spec_from_raw(r) == Some(self),
    {
        match self {
            BCRegistryEntryInfoType::Parent => 0,
            BCRegistryEntryInfoType::PropertyNamed => 1,
        }
    }

    /// Decodes a register value; `None` exactly on values no kind encodes.
    pub fn from_raw(v: u64) -> (r: Option<BCRegistryEntryInfoType>)
        ensures
            r == Self::spec_from_raw(v),
    {
        if v == 0 {
            Some(BCRegistryEntryInfoType::Parent)
        } else if v == 1 {
            Some(BCRegistryEntryInfoType::PropertyNamed)
        } else {
            None
        }
    }
}

/// A message the kernel itself sends a driver process.
#[derive(Debug, Clone, Copy, PartialEq, Eq, Structural)]
pub enum KernelMessage {
    IRQFired(u8),
}

} // verus!
