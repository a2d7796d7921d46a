//! The vocabulary spoken with the device: buffer-set types, memory kinds,
//! requests, replies and errors.
use vstd::prelude::*;

verus! {

/// Error code the device reports once it has been removed.
pub const ENODEV: i32 = 19;

/// Error code for an argument the device or this library cannot accept.
pub const EINVAL: i32 = 22;

/// Error code for a wait that a signal interrupted.
pub const EINTR: i32 = 4;

/// Largest number of planes one buffer may have.
pub const MAX_PLANES: u32 = 8;

/// Direction and planarity of a set of buffers.
#[derive(Clone, Copy, Debug, PartialEq, Eq, Structural)]
pub enum BufType {
    VideoCapture,
    VideoOutput,
    VideoCaptureMplane,
    VideoOutputMplane,
}

pub open spec fn buf_type_code(t: BufType) -> u32 {
    match t {
        BufType::VideoCapture => 1,
        BufType::VideoOutput => 2,
        BufType::VideoCaptureMplane => 9,
        BufType::VideoOutputMplane => 10,
    }
}

impl BufType {
    pub open spec fn spec_is_multiplanar(self) -> bool {
        self is VideoCaptureMplane || self is VideoOutputMplane
    }

    /// Number the device uses for this buffer-set type.
    pub fn code(&self) -> (r: u32)
        ensures
            r == buf_type_code(*self),
    {
        match self {
            BufType::VideoCapture => 1,
            BufType::VideoOutput => 2,
            BufType::VideoCaptureMplane => 9,
            BufType::VideoOutputMplane => 10,
        }
    }

    /// Whether buffers of this type consist of several planes.
    pub fn is_multiplanar(&self) -> (r: bool)
        ensures
            r == self.spec_is_multiplanar(),
    {
        match self {
            BufType::VideoCaptureMplane | BufType::VideoOutputMplane => true,
            _ => false,
        }
    }
}

/// How buffer memory reaches the process.
#[derive(Clone, Copy, Debug, PartialEq, Eq, Structural)]
pub enum Memory {
    /// Pages mapped directly into the process.
    Mmap,
    /// Kernel-backed shareable handles.
    DmaBuf,
}

pub open spec fn memory_code(m: Memory) -> u32 {
    match m {
        Memory::Mmap => 1,
        Memory::DmaBuf => 4,
    }
}

impl Memory {
    /// Number the device uses for this memory kind.
    pub fn code(&self) -> (r: u32)
        ensures
            r == memory_code(*self),
    {
        match self {
            Memory::Mmap => 1,
            Memory::DmaBuf => 4,
        }
    }
}

/// Failure of a device control, with the OS error code where there is one.
#[derive(Clone, Copy, Debug, PartialEq, Eq, Structural)]
pub struct OsError {
    pub code: Option<i32>,
}

/// Flags a buffer is exported with: the handle may be read and written.
pub open spec fn export_flags() -> u32 {
    2
}

/// Relies on libc::O_RDWR, the open flag for read and write access
/// (2 on Linux, `src/unix/linux_like/mod.rs`).
#[verifier::external_body]
pub(crate) fn read_write_flag() -> (r: u32)
    ensures
        r == export_flags(),
{
    libc::O_RDWR as u32
}

/// A control request the device is to perform.
#[derive(Clone, Copy, Debug, PartialEq, Eq, Structural)]
pub enum Request {
    /// Query the negotiated format of a buffer-set type.
    GetFormat { buf_type: BufType },
    /// Reserve `count` buffers (zero frees the reservation).
    RequestBuffers { count: u32, buf_type: BufType, memory: Memory },
    /// Export one plane of one buffer as a shareable handle.
    ExportBuffer { index: u32, plane: u32, buf_type: BufType, flags: u32 },
}

/// The device's answer to a request.
#[derive(Clone, Copy, Debug, PartialEq, Eq, Structural)]
pub enum Reply {
    /// Answer to a format query: the number of planes of the format.
    Format { planes: u32 },
    /// Answer to a reservation: the number of buffers granted.
    Granted { count: u32 },
    /// Answer to an export: the new handle.
    Exported { fd: i32 },
    /// The request failed.
    Failed { error: OsError },
}

} // verus!
