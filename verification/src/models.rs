//! The records exchanged with the user interface, and the application error.

use vstd::prelude::*;

verus! {

/// A debug probe as presented to the user.
#[derive(Debug, Clone)]
pub struct ProbeInfo {
    pub id: String,
    pub name: String,
    pub vendor_id: u16,
    pub product_id: u16,
    pub serial_number: Option<String>,
    pub interface: Option<u8>,
    pub is_hid_interface: bool,
}

/// The abstract content of a [`ProbeInfo`].
pub struct ProbeInfoView {
    pub id: Seq<char>,
    pub name: Seq<char>,
    pub vendor_id: u16,
    pub product_id: u16,
    pub serial_number: Option<Seq<char>>,
    pub interface: Option<u8>,
    pub is_hid_interface: bool,
}

/// An optional string seen as an optional character sequence.
pub open spec fn opt_string_view(s: Option<String>) -> Option<Seq<char>> {
    match s {
        Some(v) => Some(v@),
        None => None,
    }
}

/// A list of strings seen as a list of character sequences.
pub open spec fn strings_view(v: Seq<String>) -> Seq<Seq<char>> {
    v.map_values(|s: String| s@)
}

impl View for ProbeInfo {
    type V = ProbeInfoView;

    open spec fn view(&self) -> ProbeInfoView {
        ProbeInfoView {
            id: self.id@,
            name: self.name@,
            vendor_id: self.vendor_id,
            product_id: self.product_id,
            serial_number: opt_string_view(self.serial_number),
            interface: self.interface,
            is_hid_interface: self.is_hid_interface,
        }
    }
}

/// A target chip as presented to the user.
#[derive(Debug, Clone)]
pub struct TargetInfo {
    pub name: String,
    pub family: String,
    pub architecture: String,
    pub aliases: Vec<String>,
}

/// The abstract content of a [`TargetInfo`].
pub struct TargetInfoView {
    pub name: Seq<char>,
    pub family: Seq<char>,
    pub architecture: Seq<char>,
    pub aliases: Seq<Seq<char>>,
}

impl View for TargetInfo {
    type V = TargetInfoView;

    open spec fn view(&self) -> TargetInfoView {
        TargetInfoView {
            name: self.name@,
            family: self.family@,
            architecture: self.architecture@,
            aliases: strings_view(self.aliases@),
        }
    }
}

/// A request to identify the chip behind a probe.
#[derive(Debug)]
pub struct DetectRequest {
    pub probe_id: String,
    pub protocol: String,
    pub speed_khz: u32,
    pub connect_under_reset: bool,
}

/// The chip that was identified, and the clock the probe settled on.
#[derive(Debug)]
pub struct DetectResult {
    pub target: TargetInfo,
    pub actual_speed_khz: u32,
}

/// A request to program a firmware image.
#[derive(Debug)]
pub struct FlashRequest {
    pub probe_id: String,
    pub target_name: String,
    pub firmware_path: String,
    pub protocol: String,
    pub speed_khz: u32,
    pub connect_under_reset: bool,
    pub base_address: Option<u64>,
    pub verify: bool,
    pub chip_erase: bool,
    pub reset_after: bool,
}

/// A progress report sent to the user interface while programming.
#[derive(Debug, Clone)]
pub struct FlashEvent {
    pub stage: &'static str,
    pub completed: u64,
    pub total: Option<u64>,
    pub message: Option<String>,
}

/// The abstract content of a [`FlashEvent`].
pub struct FlashEventView {
    pub stage: Seq<char>,
    pub completed: u64,
    pub total: Option<u64>,
    pub message: Option<Seq<char>>,
}

impl View for FlashEvent {
    type V = FlashEventView;

    open spec fn view(&self) -> FlashEventView {
        FlashEventView {
            stage: self.stage@,
            completed: self.completed,
            total: self.total,
            message: opt_string_view(self.message),
        }
    }
}

/// The outcome of a successful programming run.
#[derive(Debug)]
pub struct FlashResult {
    pub target_name: String,
    pub elapsed_ms: u128,
}

/// An error reported to the user interface: a stable code, a message for the
/// user, and optionally the underlying cause.
#[derive(Debug)]
pub struct AppError {
    pub code: String,
    pub message: String,
    pub detail: Option<String>,
}

/// The abstract content of an [`AppError`].
pub struct AppErrorView {
    pub code: Seq<char>,
    pub message: Seq<char>,
    pub detail: Option<Seq<char>>,
}

impl View for AppError {
    type V = AppErrorView;

    open spec fn view(&self) -> AppErrorView {
        AppErrorView {
            code: self.code@,
            message: self.message@,
            detail: opt_string_view(self.detail),
        }
    }
}

/// The view of an error with the given code and message and no detail.
pub open spec fn app_error(code: Seq<char>, message: Seq<char>) -> AppErrorView {
    AppErrorView { code, message, detail: None }
}

/// The view of an error with the given code, message and detail.
pub open spec fn app_error_with(code: Seq<char>, message: Seq<char>, detail: Seq<char>) -> AppErrorView {
    AppErrorView { code, message, detail: Some(detail) }
}

impl AppError {
    /// An error with a code and a user-facing message.
    pub fn new(code: &str, message: &str) -> (r: AppError)
        ensures
            r@ == app_error(code@, message@),
    {
        AppError { code: code.to_owned(), message: message.to_owned(), detail: None }
    }

    /// The same error with its underlying cause attached.
    pub fn with_detail(self, detail: String) -> (r: AppError)
        ensures
            r@ == app_error_with(self.code@, self.message@, detail@),
    {
        AppError { code: self.code, message: self.message, detail: Some(detail) }
    }
}

} // verus!
