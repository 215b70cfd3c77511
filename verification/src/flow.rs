//! The conversation between a programming workflow and the code that drives
//! the hardware: the workflow asks for one action at a time and is told what
//! came of it.

use vstd::prelude::*;
use crate::firmware::FirmwareFormat;
use crate::options::Protocol;
use crate::probes::ProbeEntry;

verus! {

/// An action the driver is asked to perform.
#[derive(Debug)]
pub enum Request {
    /// Take the lock that serialises hardware access; answer `Done`, or
    /// `Failed` when the lock is unusable.
    AcquireHardware,
    /// Check that a firmware file exists; answer with `FileExists`.
    CheckFile(String),
    /// Enumerate the connected probes; answer with `ProbesFound`.
    ListProbes,
    /// Open the probe at this position of the last enumeration.
    OpenProbe(usize),
    SelectProtocol(Protocol),
    /// Set the clock in kHz; answer with `SpeedSet` and the clock obtained.
    SetSpeed(u32),
    /// Attach to the named target, or detect it when none is named; answer
    /// with `Attached`.
    Attach { target: Option<String>, connect_under_reset: bool },
    /// Program the firmware file.
    Download { path: String, format: FirmwareFormat, verify: bool, chip_erase: bool },
    /// Reset the target's first core.
    ResetCore,
}

/// What came of the last action.
#[derive(Debug)]
pub enum Reply {
    /// The action succeeded.
    Done,
    /// The action failed; the text describes why.
    Failed(String),
    FileExists(bool),
    ProbesFound(Vec<ProbeEntry>),
    SpeedSet(u32),
    Attached { name: String, architecture: String },
}

/// The content of a [`Request`].
pub enum RequestView {
    AcquireHardware,
    CheckFile(Seq<char>),
    ListProbes,
    OpenProbe(usize),
    SelectProtocol(Protocol),
    SetSpeed(u32),
    Attach { target: Option<Seq<char>>, connect_under_reset: bool },
    Download { path: Seq<char>, format: FirmwareFormat, verify: bool, chip_erase: bool },
    ResetCore,
}

/// The content of a [`Reply`].
pub enum ReplyView {
    Done,
    Failed(Seq<char>),
    FileExists(bool),
    ProbesFound(Seq<ProbeEntry>),
    SpeedSet(u32),
    Attached { name: Seq<char>, architecture: Seq<char> },
}

/// An optional string seen as an optional character sequence.
pub open spec fn opt_chars(s: Option<String>) -> Option<Seq<char>> {
    match s {
        Some(v) => Some(v@),
        None => None,
    }
}

impl View for Request {
    type V = RequestView;

    open spec fn view(&self) -> RequestView {
        match self {
            Request::AcquireHardware => RequestView::AcquireHardware,
            Request::CheckFile(p) => RequestView::CheckFile(p@),
            Request::ListProbes => RequestView::ListProbes,
            Request::OpenProbe(i) => RequestView::OpenProbe(*i),
            Request::SelectProtocol(p) => RequestView::SelectProtocol(*p),
            Request::SetSpeed(s) => RequestView::SetSpeed(*s),
            Request::Attach { target, connect_under_reset } => RequestView::Attach {
                target: opt_chars(*target),
                connect_under_reset: *connect_under_reset,
            },
            Request::Download { path, format, verify, chip_erase } => RequestView::Download {
                path: path@,
                format: *format,
                verify: *verify,
                chip_erase: *chip_erase,
            },
            Request::ResetCore => RequestView::ResetCore,
        }
    }
}

impl View for Reply {
    type V = ReplyView;

    open spec fn view(&self) -> ReplyView {
        match self {
            Reply::Done => ReplyView::Done,
            Reply::Failed(e) => ReplyView::Failed(e@),
            Reply::FileExists(b) => ReplyView::FileExists(*b),
            Reply::ProbesFound(ps) => ReplyView::ProbesFound(ps@),
            Reply::SpeedSet(s) => ReplyView::SpeedSet(*s),
            Reply::Attached { name, architecture } => ReplyView::Attached { name: name@, architecture: architecture@ },
        }
    }
}

} // verus!
