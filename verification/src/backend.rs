//! The programmer service behind the graphical interface: listing probes and
//! targets, detecting the target behind a probe, and programming firmware.
//!
//! Detecting and programming talk to hardware, so they are workflows that ask
//! the hardware driver for one action at a time (see [`crate::flow`]).  Every
//! failure is reported as an [`AppError`] with a stable code.

use vstd::prelude::*;
use crate::firmware::{
    FirmwareFormat, FormatChoice, classify, classify_extension, opt_view, path_extension, possible_extension,
};
use crate::flow::{Reply, ReplyView, Request, RequestView, opt_chars};
use crate::models::{
    AppError, AppErrorView, DetectRequest, DetectResult, FlashEvent, FlashEventView, FlashRequest, FlashResult,
    ProbeInfo, TargetInfo, TargetInfoView, app_error, app_error_with, opt_string_view,
};
use crate::options::Protocol;
use crate::progress::{ProgressTracker, ProgressUpdate, fresh_tracker, opt_event_view};
use crate::probes::{ProbeEntry, entry_info, entry_key, find_probe_by_key, probe_infos};
use crate::targets::{builtin_families, ends_with_generic_families, lemma_generic_families_listed, target_list, targets_from_families};
use crate::text::{lower_seq, str_eq, to_ascii_lowercase};

verus! {

/// The programmer service.
pub struct ProbeRsBackend;

// ---------------------------------------------------------------------------
// Errors
// ---------------------------------------------------------------------------

/// The error of a failed action: the code and message, with the driver's
/// description of the failure as detail.
pub open spec fn failure(code: Seq<char>, message: Seq<char>, detail: Seq<char>) -> AppErrorView {
    app_error_with(code, message, detail)
}

fn error(code: &str, message: &str) -> (r: AppError)
    ensures
        r@ == app_error(code@, message@),
{
    AppError::new(code, message)
}

fn error_with(code: &str, message: &str, detail: String) -> (r: AppError)
    ensures
        r@ == app_error_with(code@, message@, detail@),
{
    AppError::new(code, message).with_detail(detail)
}

// ---------------------------------------------------------------------------
// Listings
// ---------------------------------------------------------------------------

/// An optional target list seen through its views.
pub open spec fn targets_view(v: Vec<TargetInfo>) -> Seq<TargetInfoView> {
    v@.map_values(|t: TargetInfo| t@)
}

impl ProbeRsBackend {
    /// The records of the probes found by a USB enumeration, in order.
    pub fn list_probes(found: Vec<ProbeEntry>) -> (r: Result<Vec<ProbeInfo>, AppError>)
        ensures
            r matches Ok(v) && v.len() == found.len() && forall|i: int|
                0 <= i < found.len() ==> #[trigger] v@[i]@ == entry_info(found@[i]),
    {
        Ok(probe_infos(found))
    }

    /// The target list of the builtin chip database (see
    /// [`crate::targets::target_list`]): sorted by ASCII-lowercase name, one
    /// entry per name ignoring ASCII case.  The database ends with probe-rs's
    /// generic families, so the list is never empty.
    pub fn list_targets() -> (r: Result<Vec<TargetInfo>, AppError>)
        ensures
            r matches Ok(v) && v.len() > 0 && exists|fams: Seq<crate::targets::ChipFamilyEntry>|
                ends_with_generic_families(fams) && targets_view(v) == target_list(fams),
    {
        let families = builtin_families();
        let ghost fams = families@;
        let v = targets_from_families(families);
        assert(targets_view(v) == target_list(fams));
        proof {
            lemma_generic_families_listed(fams, Seq::empty());
        }
        Ok(v)
    }
}

/// The decision of the graphical interface for a firmware file: it must
/// exist; then the format follows from the extension decision `choice`.
pub open spec fn loader_decision(path_is_file: bool, choice: FormatChoice) -> Result<FirmwareFormat, AppErrorView> {
    if !path_is_file {
        Err(app_error("FIRMWARE_NOT_FOUND"@, "固件文件不存在或无法访问"@))
    } else {
        match choice {
            FormatChoice::Format(f) => Ok(f),
            FormatChoice::NeedsBaseAddress => Err(app_error("BASE_ADDRESS_REQUIRED"@, "BIN 文件必须指定烧录基地址"@)),
            FormatChoice::Unsupported => Err(
                app_error("FIRMWARE_FORMAT_UNSUPPORTED"@, "固件格式不受支持，请选择 ELF、HEX、BIN 或 UF2 文件"@),
            ),
        }
    }
}

/// An error result seen through the error's view.
pub open spec fn app_result_view<T>(r: Result<T, AppError>) -> Result<T, AppErrorView> {
    match r {
        Ok(v) => Ok(v),
        Err(e) => Err(e@),
    }
}

/// The format to program, or the error for the file.
pub fn decide_loader(path_is_file: bool, choice: FormatChoice) -> (r: Result<FirmwareFormat, AppError>)
    ensures
        app_result_view(r) == loader_decision(path_is_file, choice),
{
    if !path_is_file {
        return Err(error("FIRMWARE_NOT_FOUND", "固件文件不存在或无法访问"));
    }
    match choice {
        FormatChoice::Format(f) => Ok(f),
        FormatChoice::NeedsBaseAddress => Err(error("BASE_ADDRESS_REQUIRED", "BIN 文件必须指定烧录基地址")),
        FormatChoice::Unsupported => Err(
            error("FIRMWARE_FORMAT_UNSUPPORTED", "固件格式不受支持，请选择 ELF、HEX、BIN 或 UF2 文件"),
        ),
    }
}

/// The format for the firmware file at `path` (whose existence the caller
/// checked), or the error.
pub fn firmware_loader(path: &str, base_address: Option<u64>, path_is_file: bool) -> (r: Result<FirmwareFormat, AppError>)
    ensures
        exists|e: Option<Seq<char>>| possible_extension(path@, e) && app_result_view(r) == loader_decision(
            path_is_file,
            classify(e, base_address),
        ),
{
    let ext = path_extension(path);
    let choice = match &ext {
        Some(x) => classify_extension(Some(x.as_str()), base_address),
        None => classify_extension(None, base_address),
    };
    let r = decide_loader(path_is_file, choice);
    assert(possible_extension(path@, opt_view(ext)));
    r
}

/// The protocol named by `value`, ignoring ASCII case (no trimming).
pub open spec fn gui_protocol_of(value: Seq<char>) -> Option<Protocol> {
    if lower_seq(value) == "swd"@ {
        Some(Protocol::Swd)
    } else if lower_seq(value) == "jtag"@ {
        Some(Protocol::Jtag)
    } else {
        None
    }
}

fn gui_protocol(value: &str) -> (r: Option<Protocol>)
    ensures
        r == gui_protocol_of(value@),
{
    let v = to_ascii_lowercase(value);
    if str_eq(v.as_str(), "swd") {
        Some(Protocol::Swd)
    } else if str_eq(v.as_str(), "jtag") {
        Some(Protocol::Jtag)
    } else {
        None
    }
}

/// The position of the first probe whose key is `id`, if any.
pub open spec fn first_match(probes: Seq<ProbeEntry>, id: Seq<char>) -> Option<usize> {
    if exists|i: int| 0 <= i < probes.len() && entry_key(#[trigger] probes[i]) == id {
        Some(
            (choose|i: int|
                0 <= i < probes.len() && entry_key(#[trigger] probes[i]) == id && forall|j: int|
                    0 <= j < i ==> entry_key(#[trigger] probes[j]) != id) as usize,
        )
    } else {
        None
    }
}

proof fn lemma_first_match(probes: Seq<ProbeEntry>, id: Seq<char>, i: int)
    requires
        0 <= i < probes.len() <= usize::MAX,
        entry_key(probes[i]) == id,
        forall|j: int| 0 <= j < i ==> entry_key(#[trigger] probes[j]) != id,
    ensures
        first_match(probes, id) == Some(i as usize),
{
    let k = choose|k: int|
        0 <= k < probes.len() && entry_key(#[trigger] probes[k]) == id && forall|j: int|
            0 <= j < k ==> entry_key(#[trigger] probes[j]) != id;
    assert(entry_key(probes[i]) == id);
    if k < i {
        assert(entry_key(probes[k]) != id);
    } else if k > i {
        assert(entry_key(probes[i]) != id);
    }
}

/// Some probe at or before position `k` is the first with `k`'s key.
proof fn lemma_first_exists(probes: Seq<ProbeEntry>, id: Seq<char>, k: int)
    requires
        0 <= k < probes.len(),
        entry_key(probes[k]) == id,
    ensures
        exists|i: int|
            0 <= i <= k && entry_key(#[trigger] probes[i]) == id && forall|j: int|
                0 <= j < i ==> entry_key(#[trigger] probes[j]) != id,
    decreases k,
{
    if exists|j: int| 0 <= j < k && entry_key(#[trigger] probes[j]) == id {
        let j = choose|j: int| 0 <= j < k && entry_key(#[trigger] probes[j]) == id;
        lemma_first_exists(probes, id, j);
    } else {
        assert(forall|j: int| 0 <= j < k ==> entry_key(#[trigger] probes[j]) != id);
    }
}

/// A probe that was listed is found again by its id: the lookup gives the
/// first probe with that key, which is the listed one or one before it with
/// the same key.
pub proof fn lemma_listed_probe_is_found(probes: Seq<ProbeEntry>, k: int)
    requires
        0 <= k < probes.len() <= usize::MAX,
    ensures
        first_match(probes, entry_info(probes[k]).id) matches Some(i) && i <= k && entry_key(probes[i as int])
            == entry_key(probes[k]),
{
    let id = entry_key(probes[k]);
    lemma_first_exists(probes, id, k);
    let i = choose|i: int|
        0 <= i <= k && entry_key(#[trigger] probes[i]) == id && forall|j: int|
            0 <= j < i ==> entry_key(#[trigger] probes[j]) != id;
    lemma_first_match(probes, id, i);
}

// ---------------------------------------------------------------------------
// Detection and programming
// ---------------------------------------------------------------------------

/// Where a detection or programming run stands.
#[derive(Clone, Copy, Debug)]
pub enum GuiStage {
    Locking,
    Listing,
    /// Opening the probe at this position of the enumeration.
    Opening(usize),
    Selecting(Protocol),
    Speeding,
    Attaching,
    CheckingFile,
    Downloading(FirmwareFormat),
    Resetting,
    Finished,
}

/// The firmware part of a programming run.
pub struct GuiPlan {
    pub target_name: String,
    pub firmware_path: String,
    pub verify: bool,
    pub chip_erase: bool,
    pub reset_after: bool,
    /// The format implied by the file name and base address.
    pub choice: FormatChoice,
}

/// The content of a [`GuiPlan`].
pub struct GuiPlanView {
    pub target_name: Seq<char>,
    pub firmware_path: Seq<char>,
    pub verify: bool,
    pub chip_erase: bool,
    pub reset_after: bool,
    pub choice: FormatChoice,
}

/// A detection (no plan) or programming (a plan) run in progress.
pub struct GuiFlow {
    probe_id: String,
    protocol: String,
    speed_khz: u32,
    connect_under_reset: bool,
    plan: Option<GuiPlan>,
    stage: GuiStage,
    actual_speed_khz: u32,
    progress: ProgressTracker,
}

/// The content of a [`GuiFlow`].
pub struct GuiFlowView {
    pub probe_id: Seq<char>,
    pub protocol: Seq<char>,
    pub speed_khz: u32,
    pub connect_under_reset: bool,
    pub plan: Option<GuiPlanView>,
    pub stage: GuiStage,
    pub actual_speed_khz: u32,
    /// The counters of the programming progress reported so far.
    pub progress: ProgressTracker,
}

impl View for GuiPlan {
    type V = GuiPlanView;

    open spec fn view(&self) -> GuiPlanView {
        GuiPlanView {
            target_name: self.target_name@,
            firmware_path: self.firmware_path@,
            verify: self.verify,
            chip_erase: self.chip_erase,
            reset_after: self.reset_after,
            choice: self.choice,
        }
    }
}

impl View for GuiFlow {
    type V = GuiFlowView;

    closed spec fn view(&self) -> GuiFlowView {
        GuiFlowView {
            probe_id: self.probe_id@,
            protocol: self.protocol@,
            speed_khz: self.speed_khz,
            connect_under_reset: self.connect_under_reset,
            plan: match self.plan {
                Some(p) => Some(p@),
                None => None,
            },
            stage: self.stage,
            actual_speed_khz: self.actual_speed_khz,
            progress: self.progress,
        }
    }
}

/// What the run asks for next.
#[derive(Debug)]
pub enum GuiStep {
    /// Send the progress report (if any) to the interface, then perform the
    /// request.
    Ask { emit: Option<FlashEvent>, request: Request },
    /// The run failed.
    Fail(AppError),
    /// Detection identified the target.
    Detected(DetectResult),
    /// Programming succeeded: send the final report and answer with the
    /// target's name.
    Flashed { emit: FlashEvent, target_name: String },
    /// The run has already finished.
    Idle,
}

/// The content of a [`DetectResult`].
pub struct DetectResultView {
    pub target: TargetInfoView,
    pub actual_speed_khz: u32,
}

/// The content of a [`GuiStep`].
pub enum GuiStepView {
    Ask { emit: Option<FlashEventView>, request: RequestView },
    Fail(AppErrorView),
    Detected(DetectResultView),
    Flashed { emit: FlashEventView, target_name: Seq<char> },
    Idle,
}

impl View for DetectResult {
    type V = DetectResultView;

    open spec fn view(&self) -> DetectResultView {
        DetectResultView { target: self.target@, actual_speed_khz: self.actual_speed_khz }
    }
}

impl View for GuiStep {
    type V = GuiStepView;

    open spec fn view(&self) -> GuiStepView {
        match self {
            GuiStep::Ask { emit, request } => GuiStepView::Ask {
                emit: match emit {
                    Some(e) => Some(e@),
                    None => None,
                },
                request: request@,
            },
            GuiStep::Fail(e) => GuiStepView::Fail(e@),
            GuiStep::Detected(d) => GuiStepView::Detected(d@),
            GuiStep::Flashed { emit, target_name } => GuiStepView::Flashed { emit: emit@, target_name: target_name@ },
            GuiStep::Idle => GuiStepView::Idle,
        }
    }
}

/// A progress report of a stage without counts.
pub open spec fn stage_event(stage: Seq<char>) -> FlashEventView {
    FlashEventView { stage, completed: 0, total: None, message: None }
}

/// The final report of a programming run.
pub open spec fn completed_event() -> FlashEventView {
    FlashEventView { stage: "completed"@, completed: 1, total: Some(1), message: None }
}

/// The clock for a requested speed: at least 1 kHz.
pub open spec fn gui_clock(speed_khz: u32) -> u32 {
    if speed_khz < 1 { 1 } else { speed_khz }
}

/// The request outstanding at the run's stage, if any.
pub open spec fn gui_request(f: GuiFlowView) -> Option<RequestView> {
    match f.stage {
        GuiStage::Locking => Some(RequestView::AcquireHardware),
        GuiStage::Listing => Some(RequestView::ListProbes),
        GuiStage::Opening(i) => Some(RequestView::OpenProbe(i)),
        GuiStage::Selecting(p) => Some(RequestView::SelectProtocol(p)),
        GuiStage::Speeding => Some(RequestView::SetSpeed(gui_clock(f.speed_khz))),
        GuiStage::Attaching => Some(RequestView::Attach {
            target: match f.plan {
                Some(p) => Some(p.target_name),
                None => None,
            },
            connect_under_reset: f.connect_under_reset,
        }),
        GuiStage::CheckingFile => Some(RequestView::CheckFile(
            match f.plan {
                Some(p) => p.firmware_path,
                None => Seq::empty(),
            },
        )),
        GuiStage::Downloading(format) => Some(
            match f.plan {
                Some(p) => RequestView::Download {
                    path: p.firmware_path,
                    format,
                    verify: p.verify,
                    chip_erase: p.chip_erase,
                },
                None => RequestView::Download { path: Seq::empty(), format, verify: false, chip_erase: false },
            },
        ),
        GuiStage::Resetting => Some(RequestView::ResetCore),
        GuiStage::Finished => None,
    }
}

/// The step that repeats the outstanding request.
pub open spec fn gui_repeat(f: GuiFlowView) -> GuiStepView {
    match gui_request(f) {
        Some(r) => GuiStepView::Ask { emit: None, request: r },
        None => GuiStepView::Idle,
    }
}

/// The run at another stage.
pub open spec fn gui_at(f: GuiFlowView, stage: GuiStage) -> GuiFlowView {
    GuiFlowView { stage, ..f }
}

/// The run after `reply`, and what it asks for next.
pub open spec fn gui_next(f: GuiFlowView, reply: ReplyView) -> (GuiFlowView, GuiStepView) {
    let fin = gui_at(f, GuiStage::Finished);
    match f.stage {
        GuiStage::Locking => match reply {
            ReplyView::Done => (
                gui_at(f, GuiStage::Listing),
                GuiStepView::Ask {
                    emit: if f.plan is Some { Some(stage_event("connecting"@)) } else { None },
                    request: RequestView::ListProbes,
                },
            ),
            ReplyView::Failed(_) => (fin, GuiStepView::Fail(app_error("HARDWARE_BUSY"@, "硬件服务状态异常，请重新启动应用"@))),
            _ => (f, gui_repeat(f)),
        },
        GuiStage::Listing => match reply {
            ReplyView::ProbesFound(probes) => match first_match(probes, f.probe_id) {
                Some(i) => (
                    gui_at(f, GuiStage::Opening(i)),
                    GuiStepView::Ask { emit: None, request: RequestView::OpenProbe(i) },
                ),
                None => (fin, GuiStepView::Fail(app_error("PROBE_NOT_FOUND"@, "所选调试器已断开，请重新扫描"@))),
            },
            _ => (f, gui_repeat(f)),
        },
        GuiStage::Opening(_) => match reply {
            ReplyView::Done => match gui_protocol_of(f.protocol) {
                Some(p) => (
                    gui_at(f, GuiStage::Selecting(p)),
                    GuiStepView::Ask { emit: None, request: RequestView::SelectProtocol(p) },
                ),
                None => (fin, GuiStepView::Fail(app_error("INVALID_PROTOCOL"@, "仅支持 SWD 或 JTAG 协议"@))),
            },
            ReplyView::Failed(e) => (
                fin,
                GuiStepView::Fail(failure("PROBE_OPEN_FAILED"@, "无法打开调试器，设备可能正被其他程序占用"@, e)),
            ),
            _ => (f, gui_repeat(f)),
        },
        GuiStage::Selecting(_) => match reply {
            ReplyView::Done => (
                gui_at(f, GuiStage::Speeding),
                GuiStepView::Ask { emit: None, request: RequestView::SetSpeed(gui_clock(f.speed_khz)) },
            ),
            ReplyView::Failed(e) => (fin, GuiStepView::Fail(failure("PROTOCOL_FAILED"@, "调试器不支持所选协议"@, e))),
            _ => (f, gui_repeat(f)),
        },
        GuiStage::Speeding => match reply {
            ReplyView::SpeedSet(actual) => {
                let g = GuiFlowView { stage: GuiStage::Attaching, actual_speed_khz: actual, ..f };
                (g, GuiStepView::Ask { emit: None, request: gui_request(g)->0 })
            },
            ReplyView::Failed(e) => (fin, GuiStepView::Fail(failure("SPEED_FAILED"@, "无法设置调试时钟"@, e))),
            _ => (f, gui_repeat(f)),
        },
        GuiStage::Attaching => match reply {
            ReplyView::Attached { name, architecture } => match f.plan {
                None => (
                    fin,
                    GuiStepView::Detected(
                        DetectResultView {
                            target: TargetInfoView { name, family: name, architecture, aliases: Seq::empty() },
                            actual_speed_khz: f.actual_speed_khz,
                        },
                    ),
                ),
                Some(p) => (
                    gui_at(f, GuiStage::CheckingFile),
                    GuiStepView::Ask { emit: None, request: RequestView::CheckFile(p.firmware_path) },
                ),
            },
            ReplyView::Failed(e) => if f.plan is None {
                (
                    fin,
                    GuiStepView::Fail(
                        failure("TARGET_AUTODETECT_FAILED"@, "无法自动识别目标芯片，请检查连接或手动选择型号"@, e),
                    ),
                )
            } else {
                (fin, GuiStepView::Fail(failure("TARGET_ATTACH_FAILED"@, "无法连接所选目标芯片"@, e)))
            },
            _ => (f, gui_repeat(f)),
        },
        GuiStage::CheckingFile => match (reply, f.plan) {
            (ReplyView::FileExists(exists), Some(p)) => match loader_decision(exists, p.choice) {
                Ok(format) => {
                    let g = gui_at(f, GuiStage::Downloading(format));
                    (g, GuiStepView::Ask { emit: None, request: gui_request(g)->0 })
                },
                Err(e) => (fin, GuiStepView::Fail(e)),
            },
            _ => (f, gui_repeat(f)),
        },
        GuiStage::Downloading(_) => match (reply, f.plan) {
            (ReplyView::Done, Some(p)) => if p.reset_after {
                (
                    gui_at(f, GuiStage::Resetting),
                    GuiStepView::Ask { emit: Some(stage_event("resetting"@)), request: RequestView::ResetCore },
                )
            } else {
                (fin, GuiStepView::Flashed { emit: completed_event(), target_name: p.target_name })
            },
            (ReplyView::Failed(e), _) => (fin, GuiStepView::Fail(failure("FLASH_FAILED"@, "固件烧录失败"@, e))),
            _ => (f, gui_repeat(f)),
        },
        GuiStage::Resetting => match (reply, f.plan) {
            (ReplyView::Done, Some(p)) => (fin, GuiStepView::Flashed { emit: completed_event(), target_name: p.target_name }),
            (ReplyView::Failed(e), _) => (fin, GuiStepView::Fail(failure("RESET_FAILED"@, "固件已写入，但目标复位失败"@, e))),
            _ => (f, gui_repeat(f)),
        },
        GuiStage::Finished => (f, GuiStepView::Idle),
    }
}

/// An optional request seen through its content.
pub open spec fn opt_request(r: Option<Request>) -> Option<RequestView> {
    match r {
        Some(q) => Some(q@),
        None => None,
    }
}

fn event(stage: &'static str) -> (r: FlashEvent)
    ensures
        r@ == stage_event(stage@),
{
    FlashEvent { stage, completed: 0, total: None, message: None }
}

/// The view of a run that has just started.
pub open spec fn gui_start(
    probe_id: Seq<char>,
    protocol: Seq<char>,
    speed_khz: u32,
    connect_under_reset: bool,
    plan: Option<GuiPlanView>,
) -> GuiFlowView {
    GuiFlowView {
        probe_id,
        protocol,
        speed_khz,
        connect_under_reset,
        plan,
        stage: GuiStage::Locking,
        actual_speed_khz: 0,
        progress: fresh_tracker(),
    }
}

impl ProbeRsBackend {
    /// Starts detecting the target behind the requested probe: the hardware
    /// lock is taken first.
    pub fn detect_target(request: DetectRequest) -> (r: (GuiFlow, GuiStep))
        ensures
            r.0@ == gui_start(request.probe_id@, request.protocol@, request.speed_khz, request.connect_under_reset, None),
            r.1@ == (GuiStepView::Ask { emit: None, request: RequestView::AcquireHardware }),
    {
        let f = GuiFlow {
            probe_id: request.probe_id,
            protocol: request.protocol,
            speed_khz: request.speed_khz,
            connect_under_reset: request.connect_under_reset,
            plan: None,
            stage: GuiStage::Locking,
            actual_speed_khz: 0,
            progress: ProgressTracker::new(),
        };
        (f, GuiStep::Ask { emit: None, request: Request::AcquireHardware })
    }

    /// Starts programming as requested, for a firmware file whose extension
    /// is `ext`: the hardware lock is taken first.
    pub fn flash_with_extension(request: FlashRequest, ext: Option<&str>) -> (r: (GuiFlow, GuiStep))
        ensures
            r.0@ == gui_start(
                request.probe_id@,
                request.protocol@,
                request.speed_khz,
                request.connect_under_reset,
                Some(GuiPlanView {
                    target_name: request.target_name@,
                    firmware_path: request.firmware_path@,
                    verify: request.verify,
                    chip_erase: request.chip_erase,
                    reset_after: request.reset_after,
                    choice: classify(match ext { Some(x) => Some(x@), None => None }, request.base_address),
                }),
            ),
            r.1@ == (GuiStepView::Ask { emit: None, request: RequestView::AcquireHardware }),
    {
        let choice = classify_extension(ext, request.base_address);
        let plan = GuiPlan {
            target_name: request.target_name,
            firmware_path: request.firmware_path,
            verify: request.verify,
            chip_erase: request.chip_erase,
            reset_after: request.reset_after,
            choice,
        };
        let f = GuiFlow {
            probe_id: request.probe_id,
            protocol: request.protocol,
            speed_khz: request.speed_khz,
            connect_under_reset: request.connect_under_reset,
            plan: Some(plan),
            stage: GuiStage::Locking,
            actual_speed_khz: 0,
            progress: ProgressTracker::new(),
        };
        (f, GuiStep::Ask { emit: None, request: Request::AcquireHardware })
    }

    /// Starts programming as requested; the image format follows from the
    /// extension that `Path::extension` gives for the firmware path.
    pub fn flash(request: FlashRequest) -> (r: (GuiFlow, GuiStep))
        ensures
            exists|e: Option<Seq<char>>| {
                &&& possible_extension(request.firmware_path@, e)
                &&& r.0@ == gui_start(
                    request.probe_id@,
                    request.protocol@,
                    request.speed_khz,
                    request.connect_under_reset,
                    Some(GuiPlanView {
                        target_name: request.target_name@,
                        firmware_path: request.firmware_path@,
                        verify: request.verify,
                        chip_erase: request.chip_erase,
                        reset_after: request.reset_after,
                        choice: classify(e, request.base_address),
                    }),
                )
            },
            r.1@ == (GuiStepView::Ask { emit: None, request: RequestView::AcquireHardware }),
    {
        let ext = path_extension(request.firmware_path.as_str());
        let ghost e = opt_view(ext);
        let ghost path = request.firmware_path@;
        let r = match &ext {
            Some(x) => ProbeRsBackend::flash_with_extension(request, Some(x.as_str())),
            None => ProbeRsBackend::flash_with_extension(request, None),
        };
        assert(possible_extension(path, e));
        r
    }
}

/// The outcome of a successful programming run.
pub fn flash_result(target_name: String, elapsed_ms: u128) -> (r: FlashResult)
    ensures
        r.target_name@ == target_name@,
        r.elapsed_ms == elapsed_ms,
{
    FlashResult { target_name, elapsed_ms }
}

impl GuiFlow {
    /// Whether the programming progress `event` can be counted.
    pub fn can_count(&self, event: &ProgressUpdate) -> (r: bool)
        ensures
            r == self@.progress.accepts(*event),
    {
        self.progress.can_count(event)
    }

    /// Counts a notification of the programming progress and gives the
    /// report to send to the interface, if any; the run's stage is unchanged.
    pub fn on_progress(&mut self, event: ProgressUpdate) -> (r: Option<FlashEvent>)
        requires
            old(self)@.progress.accepts(event),
        ensures
            final(self)@ == (GuiFlowView { progress: old(self)@.progress.counted(event), ..old(self)@ }),
            opt_event_view(r) == old(self)@.progress.report(event),
    {
        self.progress.report_progress(event)
    }

    /// The request outstanding at the current stage.
    pub fn request(&self) -> (r: Option<Request>)
        ensures
            opt_request(r) == gui_request(self@),
    {
        match self.stage {
            GuiStage::Locking => Some(Request::AcquireHardware),
            GuiStage::Listing => Some(Request::ListProbes),
            GuiStage::Opening(i) => Some(Request::OpenProbe(i)),
            GuiStage::Selecting(p) => Some(Request::SelectProtocol(p)),
            GuiStage::Speeding => {
                let s = self.speed_khz;
                Some(Request::SetSpeed(if s < 1 { 1 } else { s }))
            },
            GuiStage::Attaching => Some(Request::Attach {
                target: match &self.plan {
                    Some(p) => Some(p.target_name.clone()),
                    None => None,
                },
                connect_under_reset: self.connect_under_reset,
            }),
            GuiStage::CheckingFile => Some(Request::CheckFile(
                match &self.plan {
                    Some(p) => p.firmware_path.clone(),
                    None => String::new(),
                },
            )),
            GuiStage::Downloading(format) => Some(
                match &self.plan {
                    Some(p) => Request::Download {
                        path: p.firmware_path.clone(),
                        format,
                        verify: p.verify,
                        chip_erase: p.chip_erase,
                    },
                    None => Request::Download { path: String::new(), format, verify: false, chip_erase: false },
                },
            ),
            GuiStage::Resetting => Some(Request::ResetCore),
            GuiStage::Finished => None,
        }
    }

    fn repeat(&self) -> (r: GuiStep)
        ensures
            r@ == gui_repeat(self@),
    {
        match self.request() {
            Some(q) => GuiStep::Ask { emit: None, request: q },
            None => GuiStep::Idle,
        }
    }

    fn fail(&mut self, e: AppError) -> (r: GuiStep)
        ensures
            final(self)@ == gui_at(old(self)@, GuiStage::Finished),
            r@ == GuiStepView::Fail(e@),
    {
        self.stage = GuiStage::Finished;
        GuiStep::Fail(e)
    }

    fn ask_current(&self) -> (r: GuiStep)
        requires
            gui_request(self@) is Some,
        ensures
            r@ == (GuiStepView::Ask { emit: None, request: gui_request(self@)->0 }),
    {
        match self.request() {
            Some(q) => GuiStep::Ask { emit: None, request: q },
            None => GuiStep::Idle,
        }
    }

    fn finish_flashed(&mut self) -> (r: GuiStep)
        requires
            old(self)@.plan is Some,
        ensures
            final(self)@ == gui_at(old(self)@, GuiStage::Finished),
            r@ == (GuiStepView::Flashed { emit: completed_event(), target_name: old(self)@.plan->0.target_name }),
    {
        self.stage = GuiStage::Finished;
        let name = match &self.plan {
            Some(p) => p.target_name.clone(),
            None => String::new(),
        };
        GuiStep::Flashed { emit: FlashEvent { stage: "completed", completed: 1, total: Some(1), message: None }, target_name: name }
    }

    /// Takes the outcome of the last request and gives the next step.
    pub fn on_reply(&mut self, reply: Reply) -> (r: GuiStep)
        ensures
            (final(self)@, r@) == gui_next(old(self)@, reply@),
    {
        match self.stage {
            GuiStage::Locking => match reply {
                Reply::Done => {
                    self.stage = GuiStage::Listing;
                    let emit = if self.plan.is_some() { Some(event("connecting")) } else { None };
                    GuiStep::Ask { emit, request: Request::ListProbes }
                },
                Reply::Failed(_) => self.fail(error("HARDWARE_BUSY", "硬件服务状态异常，请重新启动应用")),
                _ => self.repeat(),
            },
            GuiStage::Listing => match reply {
                Reply::ProbesFound(probes) => match find_probe_by_key(&probes, self.probe_id.as_str()) {
                    Some(i) => {
                        proof {
                            lemma_first_match(probes@, self.probe_id@, i as int);
                        }
                        self.stage = GuiStage::Opening(i);
                        GuiStep::Ask { emit: None, request: Request::OpenProbe(i) }
                    },
                    None => {
                        assert(first_match(probes@, self.probe_id@) is None);
                        self.fail(error("PROBE_NOT_FOUND", "所选调试器已断开，请重新扫描"))
                    },
                },
                _ => self.repeat(),
            },
            GuiStage::Opening(_) => match reply {
                Reply::Done => match gui_protocol(self.protocol.as_str()) {
                    Some(p) => {
                        self.stage = GuiStage::Selecting(p);
                        GuiStep::Ask { emit: None, request: Request::SelectProtocol(p) }
                    },
                    None => self.fail(error("INVALID_PROTOCOL", "仅支持 SWD 或 JTAG 协议")),
                },
                Reply::Failed(e) => self.fail(
                    error_with("PROBE_OPEN_FAILED", "无法打开调试器，设备可能正被其他程序占用", e),
                ),
                _ => self.repeat(),
            },
            GuiStage::Selecting(_) => match reply {
                Reply::Done => {
                    self.stage = GuiStage::Speeding;
                    let s = self.speed_khz;
                    GuiStep::Ask { emit: None, request: Request::SetSpeed(if s < 1 { 1 } else { s }) }
                },
                Reply::Failed(e) => self.fail(error_with("PROTOCOL_FAILED", "调试器不支持所选协议", e)),
                _ => self.repeat(),
            },
            GuiStage::Speeding => match reply {
                Reply::SpeedSet(actual) => {
                    self.stage = GuiStage::Attaching;
                    self.actual_speed_khz = actual;
                    self.ask_current()
                },
                Reply::Failed(e) => self.fail(error_with("SPEED_FAILED", "无法设置调试时钟", e)),
                _ => self.repeat(),
            },
            GuiStage::Attaching => match reply {
                Reply::Attached { name, architecture } => {
                    if self.plan.is_none() {
                        self.stage = GuiStage::Finished;
                        let family = name.clone();
                        let aliases: Vec<String> = Vec::new();
                        let result = DetectResult {
                            target: TargetInfo { name, family, architecture, aliases },
                            actual_speed_khz: self.actual_speed_khz,
                        };
                        assert(result@.target.aliases =~= Seq::<Seq<char>>::empty());
                        GuiStep::Detected(result)
                    } else {
                        self.stage = GuiStage::CheckingFile;
                        self.ask_current()
                    }
                },
                Reply::Failed(e) => if self.plan.is_none() {
                    self.fail(error_with("TARGET_AUTODETECT_FAILED", "无法自动识别目标芯片，请检查连接或手动选择型号", e))
                } else {
                    self.fail(error_with("TARGET_ATTACH_FAILED", "无法连接所选目标芯片", e))
                },
                _ => self.repeat(),
            },
            GuiStage::CheckingFile => {
                let exists = match reply {
                    Reply::FileExists(b) => b,
                    _ => {
                        return self.repeat();
                    },
                };
                let choice = match &self.plan {
                    Some(p) => p.choice,
                    None => {
                        return self.repeat();
                    },
                };
                match decide_loader(exists, choice) {
                    Ok(format) => {
                        self.stage = GuiStage::Downloading(format);
                        self.ask_current()
                    },
                    Err(e) => self.fail(e),
                }
            },
            GuiStage::Downloading(_) => match reply {
                Reply::Done => {
                    let reset = match &self.plan {
                        Some(p) => p.reset_after,
                        None => {
                            return self.repeat();
                        },
                    };
                    if reset {
                        self.stage = GuiStage::Resetting;
                        GuiStep::Ask { emit: Some(event("resetting")), request: Request::ResetCore }
                    } else {
                        self.finish_flashed()
                    }
                },
                Reply::Failed(e) => self.fail(error_with("FLASH_FAILED", "固件烧录失败", e)),
                _ => self.repeat(),
            },
            GuiStage::Resetting => match reply {
                Reply::Done => {
                    if self.plan.is_none() {
                        return self.repeat();
                    }
                    self.finish_flashed()
                },
                Reply::Failed(e) => self.fail(error_with("RESET_FAILED", "固件已写入，但目标复位失败", e)),
                _ => self.repeat(),
            },
            GuiStage::Finished => GuiStep::Idle,
        }
    }
}

/// After the image is written, the target is reset exactly when the request
/// asked for it; either way the run then reports completion.
pub proof fn lemma_gui_reset_only_when_asked(f: GuiFlowView, format: FirmwareFormat)
    requires
        f.stage == GuiStage::Downloading(format),
        f.plan is Some,
    ensures
        f.plan->0.reset_after ==> gui_next(f, ReplyView::Done).1 == (GuiStepView::Ask {
            emit: Some(stage_event("resetting"@)),
            request: RequestView::ResetCore,
        }),
        !f.plan->0.reset_after ==> gui_next(f, ReplyView::Done).1 == (GuiStepView::Flashed {
            emit: completed_event(),
            target_name: f.plan->0.target_name,
        }),
        gui_next(gui_next(f, ReplyView::Done).0, ReplyView::Done).1 is Flashed || !f.plan->0.reset_after,
{
}

/// A detection that fails to identify the target reports the autodetect
/// error with the driver's explanation.
pub proof fn lemma_gui_detect_failure(f: GuiFlowView, why: Seq<char>)
    requires
        f.stage == GuiStage::Attaching,
        f.plan is None,
    ensures
        gui_next(f, ReplyView::Failed(why)).1 == GuiStepView::Fail(
            failure("TARGET_AUTODETECT_FAILED"@, "无法自动识别目标芯片，请检查连接或手动选择型号"@, why),
        ),
{
}


/// What a run keeps at every stage: only a programming run checks a file,
/// programs or resets; the format it programs is the one that the file name
/// and base address imply; and it resets only when the request asked for it.
pub open spec fn gui_consistent(f: GuiFlowView) -> bool {
    match f.stage {
        GuiStage::CheckingFile => f.plan is Some,
        GuiStage::Downloading(format) => f.plan matches Some(p) && p.choice == FormatChoice::Format(format),
        GuiStage::Resetting => f.plan matches Some(p) && p.reset_after,
        _ => true,
    }
}

/// A run starts consistent, and every reply keeps it so.
pub proof fn lemma_gui_consistent(f: GuiFlowView, reply: ReplyView)
    ensures
        f.stage == GuiStage::Locking ==> gui_consistent(f),
        gui_consistent(f) ==> gui_consistent(gui_next(f, reply).0),
{
}

/// Programming writes only the requested file, in the format that its name
/// and base address imply, and the first time only after the file was found.
pub proof fn lemma_gui_writes_checked_image(f: GuiFlowView, reply: ReplyView)
    requires
        gui_consistent(f),
        gui_next(f, reply).1 matches GuiStepView::Ask { request: RequestView::Download { .. }, .. },
    ensures
        gui_next(f, reply).1 matches GuiStepView::Ask { request: RequestView::Download { path, format, verify, chip_erase }, .. }
            && f.plan matches Some(p) && path == p.firmware_path && p.choice == FormatChoice::Format(format)
            && verify == p.verify && chip_erase == p.chip_erase,
        f.stage == GuiStage::CheckingFile ==> reply == ReplyView::FileExists(true),
{
}

/// A reset is asked for only in a run whose request asked for it.
pub proof fn lemma_gui_resets_only_when_asked(f: GuiFlowView, reply: ReplyView)
    requires
        gui_consistent(f),
        gui_next(f, reply).1 matches GuiStepView::Ask { request: RequestView::ResetCore, .. },
    ensures
        f.plan matches Some(p) && p.reset_after,
{
}

/// The hardware requests carry the request's connection settings: the
/// clock is the requested speed (0 raised to 1 kHz), and attaching is under
/// reset exactly when the request asked for it; detection names no target,
/// programming names the requested target.
pub proof fn lemma_gui_requests_follow_request(f: GuiFlowView, reply: ReplyView)
    ensures
        gui_next(f, reply).1 matches GuiStepView::Ask { request: RequestView::Attach { target, connect_under_reset }, .. }
            ==> connect_under_reset == f.connect_under_reset && target == match f.plan {
            Some(p) => Some(p.target_name),
            None => None,
        },
        gui_next(f, reply).1 matches GuiStepView::Ask { request: RequestView::SetSpeed(s), .. } ==> s == if f.speed_khz
            == 0 {
            1
        } else {
            f.speed_khz
        },
{
}

/// The interface names the protocol `swd` or `jtag` in any ASCII case
/// (without trimming); any other text is refused.
pub proof fn lemma_gui_protocol_words(value: Seq<char>)
    ensures
        lower_seq(value) == "swd"@ ==> gui_protocol_of(value) == Some(Protocol::Swd),
        lower_seq(value) == "jtag"@ ==> gui_protocol_of(value) == Some(Protocol::Jtag),
        lower_seq(value) != "swd"@ && lower_seq(value) != "jtag"@ ==> gui_protocol_of(value) is None,
{
    reveal_strlit("swd");
    reveal_strlit("jtag");
    assert("swd"@.len() != "jtag"@.len());
}

} // verus!
