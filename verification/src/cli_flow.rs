//! The `detect` and `flash` commands of the command-line programmer, as a
//! workflow that asks the hardware driver for one action at a time.
//!
//! `detect`: enumerate the probes, open the chosen one, select the protocol,
//! set the clock, and attach with automatic target detection.
//! `flash`: check the firmware file and the base address of a raw binary,
//! detect the target when none was named, connect to the target, program
//! the image, and reset the target when asked to.

use vstd::prelude::*;
use crate::firmware::{FirmwareFormat, FormatChoice, classify, classify_extension, is_bin_ext, is_bin_extension, opt_view, path_extension, possible_extension};
use crate::flow::{Reply, ReplyView, Request, RequestView, opt_chars};
use crate::options::{ConnectionOptions, FlashOptions, Protocol};
use crate::text::{decimal, push_decimal, push_str};

verus! {

/// Where a workflow stands.
#[derive(Clone, Copy, Debug)]
pub enum Stage {
    CheckingFile,
    Listing,
    Opening,
    Selecting,
    Speeding,
    Attaching,
    Downloading(FirmwareFormat),
    Resetting,
    Finished,
}

/// Whether the probe is being opened to detect the target or to connect to
/// the named one.
#[derive(Clone, Copy, Debug)]
pub enum Phase {
    Detect,
    Connect,
}

/// The firmware part of a `flash` command, with the decisions that its
/// file name implies.
pub struct FlashPlan {
    pub firmware: String,
    pub base_address: Option<u64>,
    pub verify: bool,
    pub chip_erase: bool,
    pub reset_after: bool,
    /// The file has the extension `bin`.
    pub bin: bool,
    /// The image format, or why there is none.
    pub choice: FormatChoice,
}

/// The content of a [`FlashPlan`].
pub struct PlanView {
    pub firmware: Seq<char>,
    pub base_address: Option<u64>,
    pub verify: bool,
    pub chip_erase: bool,
    pub reset_after: bool,
    pub bin: bool,
    pub choice: FormatChoice,
}

/// A `detect` or `flash` command in progress.
pub struct CliFlow {
    connection: ConnectionOptions,
    plan: Option<FlashPlan>,
    stage: Stage,
    phase: Phase,
    target: Option<String>,
    speed_khz: u32,
}

/// The content of a [`CliFlow`].
pub struct CliFlowView {
    pub connection: ConnectionOptions,
    pub plan: Option<PlanView>,
    pub stage: Stage,
    pub phase: Phase,
    pub target: Option<Seq<char>>,
    pub speed_khz: u32,
}

impl View for FlashPlan {
    type V = PlanView;

    open spec fn view(&self) -> PlanView {
        PlanView {
            firmware: self.firmware@,
            base_address: self.base_address,
            verify: self.verify,
            chip_erase: self.chip_erase,
            reset_after: self.reset_after,
            bin: self.bin,
            choice: self.choice,
        }
    }
}

impl View for CliFlow {
    type V = CliFlowView;

    closed spec fn view(&self) -> CliFlowView {
        CliFlowView {
            connection: self.connection,
            plan: match self.plan {
                Some(p) => Some(p@),
                None => None,
            },
            stage: self.stage,
            phase: self.phase,
            target: opt_chars(self.target),
            speed_khz: self.speed_khz,
        }
    }
}

/// What the workflow asks for next.
#[derive(Debug)]
pub enum CliStep {
    /// Print the lines, then perform the request.
    Ask { say: Vec<String>, request: Request },
    /// The command failed with this message.
    Fail(String),
    /// `detect` identified the target; the clock obtained.
    Detected { target: String, speed_khz: u32 },
    /// `flash` programmed the image (and reset the target if asked to).
    Flashed,
    /// The workflow has already finished.
    Idle,
}

/// The content of a [`CliStep`].
pub enum CliStepView {
    Ask { say: Seq<Seq<char>>, request: RequestView },
    Fail(Seq<char>),
    Detected { target: Seq<char>, speed_khz: u32 },
    Flashed,
    Idle,
}

impl View for CliStep {
    type V = CliStepView;

    open spec fn view(&self) -> CliStepView {
        match self {
            CliStep::Ask { say, request } => CliStepView::Ask {
                say: say@.map_values(|s: String| s@),
                request: request@,
            },
            CliStep::Fail(m) => CliStepView::Fail(m@),
            CliStep::Detected { target, speed_khz } => CliStepView::Detected { target: target@, speed_khz: *speed_khz },
            CliStep::Flashed => CliStepView::Flashed,
            CliStep::Idle => CliStepView::Idle,
        }
    }
}

// ---------------------------------------------------------------------------
// Messages
// ---------------------------------------------------------------------------

/// No probe is connected.
pub open spec fn no_probe_message() -> Seq<char> {
    "未发现 CMSIS-DAP 调试器，请检查 USB 连接和驱动"@
}

/// The probe number is not one of the probes found.
pub open spec fn bad_probe_number_message(number: usize, count: nat) -> Seq<char> {
    "调试器序号 "@ + decimal(number as nat) + " 无效，当前共发现 "@ + decimal(count) + " 个"@
}

/// The clock for a requested speed: at least 1 kHz.
pub open spec fn clock_for(speed_khz: u32) -> u32 {
    if speed_khz < 1 { 1 } else { speed_khz }
}

/// The position in the enumeration of the probe numbered `n` (from 1).
pub open spec fn probe_position(n: usize) -> usize {
    if n == 0 { 0 } else { (n - 1) as usize }
}

// ---------------------------------------------------------------------------
// Transitions
// ---------------------------------------------------------------------------

/// The request outstanding at the workflow's stage, if any.
pub open spec fn cli_request(f: CliFlowView) -> Option<RequestView> {
    match f.stage {
        Stage::CheckingFile => Some(RequestView::CheckFile(
            match f.plan {
                Some(p) => p.firmware,
                None => Seq::empty(),
            },
        )),
        Stage::Listing => Some(RequestView::ListProbes),
        Stage::Opening => Some(RequestView::OpenProbe(probe_position(f.connection.probe_number))),
        Stage::Selecting => Some(RequestView::SelectProtocol(f.connection.protocol)),
        Stage::Speeding => Some(RequestView::SetSpeed(clock_for(f.connection.speed_khz))),
        Stage::Attaching => Some(RequestView::Attach {
            target: if f.phase == Phase::Detect { None } else { f.target },
            connect_under_reset: f.connection.connect_under_reset,
        }),
        Stage::Downloading(format) => Some(
            match f.plan {
                Some(p) => RequestView::Download {
                    path: p.firmware,
                    format,
                    verify: p.verify,
                    chip_erase: p.chip_erase,
                },
                None => RequestView::Download { path: Seq::empty(), format, verify: false, chip_erase: false },
            },
        ),
        Stage::Resetting => Some(RequestView::ResetCore),
        Stage::Finished => None,
    }
}

/// The step that repeats the outstanding request (for a reply that does not
/// answer it).
pub open spec fn cli_repeat(f: CliFlowView) -> CliStepView {
    match cli_request(f) {
        Some(r) => CliStepView::Ask { say: Seq::empty(), request: r },
        None => CliStepView::Idle,
    }
}

/// The workflow at another stage.
pub open spec fn at(f: CliFlowView, stage: Stage) -> CliFlowView {
    CliFlowView { stage, ..f }
}

/// The workflow after `reply`, and what it asks for next.
pub open spec fn cli_next(f: CliFlowView, reply: ReplyView) -> (CliFlowView, CliStepView) {
    let fin = at(f, Stage::Finished);
    match f.stage {
        Stage::CheckingFile => match (reply, f.plan) {
            (ReplyView::FileExists(exists), Some(p)) => if !exists {
                (fin, CliStepView::Fail("固件文件不存在："@ + p.firmware))
            } else if p.bin && p.base_address is None {
                (fin, CliStepView::Fail("BIN 文件必须通过 --base-address 指定烧录地址"@))
            } else {
                match f.target {
                    Some(t) => (
                        CliFlowView { stage: Stage::Listing, phase: Phase::Connect, ..f },
                        CliStepView::Ask { say: seq!["正在连接 "@ + t + "……"@], request: RequestView::ListProbes },
                    ),
                    None => (
                        CliFlowView { stage: Stage::Listing, phase: Phase::Detect, ..f },
                        CliStepView::Ask { say: seq!["正在自动识别目标……"@], request: RequestView::ListProbes },
                    ),
                }
            },
            _ => (f, cli_repeat(f)),
        },
        Stage::Listing => match reply {
            ReplyView::ProbesFound(probes) => {
                let n = f.connection.probe_number;
                if probes.len() == 0 {
                    (fin, CliStepView::Fail(no_probe_message()))
                } else if n == 0 || n > probes.len() {
                    (fin, CliStepView::Fail(bad_probe_number_message(n, probes.len())))
                } else {
                    (
                        at(f, Stage::Opening),
                        CliStepView::Ask { say: Seq::empty(), request: RequestView::OpenProbe(probe_position(n)) },
                    )
                }
            },
            _ => (f, cli_repeat(f)),
        },
        Stage::Opening => match reply {
            ReplyView::Done => (
                at(f, Stage::Selecting),
                CliStepView::Ask { say: Seq::empty(), request: RequestView::SelectProtocol(f.connection.protocol) },
            ),
            ReplyView::Failed(e) => (fin, CliStepView::Fail("无法打开调试器："@ + e)),
            _ => (f, cli_repeat(f)),
        },
        Stage::Selecting => match reply {
            ReplyView::Done => (
                at(f, Stage::Speeding),
                CliStepView::Ask { say: Seq::empty(), request: RequestView::SetSpeed(clock_for(f.connection.speed_khz)) },
            ),
            ReplyView::Failed(e) => (fin, CliStepView::Fail("无法选择调试协议："@ + e)),
            _ => (f, cli_repeat(f)),
        },
        Stage::Speeding => match reply {
            ReplyView::SpeedSet(actual) => {
                let g = CliFlowView { stage: Stage::Attaching, speed_khz: actual, ..f };
                (g, CliStepView::Ask { say: Seq::empty(), request: cli_request(g)->0 })
            },
            ReplyView::Failed(e) => (fin, CliStepView::Fail("无法设置调试时钟："@ + e)),
            _ => (f, cli_repeat(f)),
        },
        Stage::Attaching => match reply {
            ReplyView::Attached { name, architecture } => if f.phase == Phase::Detect {
                match f.plan {
                    None => (fin, CliStepView::Detected { target: name, speed_khz: f.speed_khz }),
                    Some(p) => (
                        CliFlowView { stage: Stage::Listing, phase: Phase::Connect, target: Some(name), ..f },
                        CliStepView::Ask {
                            say: seq![
                                "识别成功："@ + name + "（"@ + decimal(f.speed_khz as nat) + " kHz）"@,
                                "正在连接 "@ + name + "……"@,
                            ],
                            request: RequestView::ListProbes,
                        },
                    ),
                }
            } else {
                match f.plan {
                    Some(p) => match p.choice {
                        FormatChoice::Format(format) => {
                            let g = at(f, Stage::Downloading(format));
                            (g, CliStepView::Ask { say: Seq::empty(), request: cli_request(g)->0 })
                        },
                        FormatChoice::NeedsBaseAddress => (fin, CliStepView::Fail("BIN 文件必须指定烧录基地址"@)),
                        FormatChoice::Unsupported => (
                            fin,
                            CliStepView::Fail("不支持的固件格式，仅支持 ELF、AXF、HEX、BIN 和 UF2"@),
                        ),
                    },
                    None => (fin, CliStepView::Detected { target: name, speed_khz: f.speed_khz }),
                }
            },
            ReplyView::Failed(e) => if f.phase == Phase::Detect {
                (fin, CliStepView::Fail("无法自动识别目标芯片："@ + e))
            } else {
                (
                    fin,
                    CliStepView::Fail(
                        "无法连接目标芯片 "@ + match f.target {
                            Some(t) => t,
                            None => Seq::empty(),
                        } + "："@ + e,
                    ),
                )
            },
            _ => (f, cli_repeat(f)),
        },
        Stage::Downloading(_) => match reply {
            ReplyView::Done => if f.plan matches Some(p) && p.reset_after {
                (
                    at(f, Stage::Resetting),
                    CliStepView::Ask { say: seq!["正在复位目标……"@], request: RequestView::ResetCore },
                )
            } else {
                (fin, CliStepView::Flashed)
            },
            ReplyView::Failed(e) => (fin, CliStepView::Fail("固件烧录失败："@ + e)),
            _ => (f, cli_repeat(f)),
        },
        Stage::Resetting => match reply {
            ReplyView::Done => (fin, CliStepView::Flashed),
            ReplyView::Failed(e) => (fin, CliStepView::Fail("固件已写入，但目标复位失败："@ + e)),
            _ => (f, cli_repeat(f)),
        },
        Stage::Finished => (f, CliStepView::Idle),
    }
}

// ---------------------------------------------------------------------------
// Execution
// ---------------------------------------------------------------------------

/// An optional request seen through its content.
pub open spec fn opt_request_view(r: Option<Request>) -> Option<RequestView> {
    match r {
        Some(q) => Some(q@),
        None => None,
    }
}

fn message(prefix: &str, text: &str) -> (r: String)
    ensures
        r@ == prefix@ + text@,
{
    let mut s = String::new();
    push_str(&mut s, prefix);
    push_str(&mut s, text);
    s
}

fn one_line(line: String) -> (r: Vec<String>)
    ensures
        r@.map_values(|s: String| s@) == seq![line@],
{
    let mut v = Vec::new();
    v.push(line);
    assert(v@.map_values(|s: String| s@) =~= seq![line@]);
    v
}

fn ask_only(request: Request) -> (r: CliStep)
    ensures
        r@ == (CliStepView::Ask { say: Seq::empty(), request: request@ }),
{
    let v: Vec<String> = Vec::new();
    assert(v@.map_values(|s: String| s@) =~= Seq::<Seq<char>>::empty());
    CliStep::Ask { say: v, request }
}

impl CliFlow {
    /// Starts the `detect` command: the probes are enumerated first.
    pub fn detect(connection: ConnectionOptions) -> (r: (CliFlow, CliStep))
        ensures
            r.0@ == (CliFlowView {
                connection,
                plan: None,
                stage: Stage::Listing,
                phase: Phase::Detect,
                target: None,
                speed_khz: 0,
            }),
            r.1@ == (CliStepView::Ask { say: Seq::empty(), request: RequestView::ListProbes }),
    {
        let f = CliFlow { connection, plan: None, stage: Stage::Listing, phase: Phase::Detect, target: None, speed_khz: 0 };
        (f, ask_only(Request::ListProbes))
    }

    /// Starts the `flash` command for a firmware file whose extension is
    /// `ext`: the file is checked first.
    pub fn flash_with_extension(options: FlashOptions, ext: Option<&str>) -> (r: (CliFlow, CliStep))
        ensures
            r.0@ == (CliFlowView {
                connection: options.connection,
                plan: Some(PlanView {
                    firmware: options.firmware@,
                    base_address: options.base_address,
                    verify: options.verify,
                    chip_erase: options.chip_erase,
                    reset_after: options.reset_after,
                    bin: is_bin_extension(match ext { Some(x) => Some(x@), None => None }),
                    choice: classify(match ext { Some(x) => Some(x@), None => None }, options.base_address),
                }),
                stage: Stage::CheckingFile,
                phase: Phase::Detect,
                target: opt_chars(options.target),
                speed_khz: 0,
            }),
            r.1@ == (CliStepView::Ask { say: Seq::empty(), request: RequestView::CheckFile(options.firmware@) }),
    {
        let bin = is_bin_ext(ext);
        let choice = classify_extension(ext, options.base_address);
        let path = options.firmware.clone();
        let plan = FlashPlan {
            firmware: options.firmware,
            base_address: options.base_address,
            verify: options.verify,
            chip_erase: options.chip_erase,
            reset_after: options.reset_after,
            bin,
            choice,
        };
        let f = CliFlow {
            connection: options.connection,
            plan: Some(plan),
            stage: Stage::CheckingFile,
            phase: Phase::Detect,
            target: options.target,
            speed_khz: 0,
        };
        (f, ask_only(Request::CheckFile(path)))
    }

    /// Starts the `flash` command; the image format follows from the
    /// extension that `Path::extension` gives for the firmware path.
    pub fn flash(options: FlashOptions) -> (r: (CliFlow, CliStep))
        ensures
            exists|e: Option<Seq<char>>| {
                &&& possible_extension(options.firmware@, e)
                &&& r.0@ == (CliFlowView {
                    connection: options.connection,
                    plan: Some(PlanView {
                        firmware: options.firmware@,
                        base_address: options.base_address,
                        verify: options.verify,
                        chip_erase: options.chip_erase,
                        reset_after: options.reset_after,
                        bin: is_bin_extension(e),
                        choice: classify(e, options.base_address),
                    }),
                    stage: Stage::CheckingFile,
                    phase: Phase::Detect,
                    target: opt_chars(options.target),
                    speed_khz: 0,
                })
            },
            r.1@ == (CliStepView::Ask { say: Seq::empty(), request: RequestView::CheckFile(options.firmware@) }),
    {
        let ext = path_extension(options.firmware.as_str());
        let ghost e = opt_view(ext);
        let r = match &ext {
            Some(x) => CliFlow::flash_with_extension(options, Some(x.as_str())),
            None => CliFlow::flash_with_extension(options, None),
        };
        assert(possible_extension(options.firmware@, e));
        r
    }

    /// The request outstanding at the current stage.
    pub fn request(&self) -> (r: Option<Request>)
        ensures
            opt_request_view(r) == cli_request(self@),
    {
        match self.stage {
            Stage::CheckingFile => Some(Request::CheckFile(
                match &self.plan {
                    Some(p) => p.firmware.clone(),
                    None => String::new(),
                },
            )),
            Stage::Listing => Some(Request::ListProbes),
            Stage::Opening => {
                let n = self.connection.probe_number;
                Some(Request::OpenProbe(if n == 0 { 0 } else { n - 1 }))
            },
            Stage::Selecting => Some(Request::SelectProtocol(self.connection.protocol)),
            Stage::Speeding => {
                let s = self.connection.speed_khz;
                Some(Request::SetSpeed(if s < 1 { 1 } else { s }))
            },
            Stage::Attaching => Some(Request::Attach {
                target: match self.phase {
                    Phase::Detect => None,
                    Phase::Connect => match &self.target {
                        Some(t) => Some(t.clone()),
                        None => None,
                    },
                },
                connect_under_reset: self.connection.connect_under_reset,
            }),
            Stage::Downloading(format) => Some(
                match &self.plan {
                    Some(p) => Request::Download {
                        path: p.firmware.clone(),
                        format,
                        verify: p.verify,
                        chip_erase: p.chip_erase,
                    },
                    None => Request::Download { path: String::new(), format, verify: false, chip_erase: false },
                },
            ),
            Stage::Resetting => Some(Request::ResetCore),
            Stage::Finished => None,
        }
    }

    fn repeat(&self) -> (r: CliStep)
        ensures
            r@ == cli_repeat(self@),
    {
        match self.request() {
            Some(q) => ask_only(q),
            None => CliStep::Idle,
        }
    }

    fn ask(&self, request: Request) -> (r: CliStep)
        ensures
            r@ == (CliStepView::Ask { say: Seq::empty(), request: request@ }),
    {
        ask_only(request)
    }

    fn fail(&mut self, text: String) -> (r: CliStep)
        ensures
            final(self)@ == at(old(self)@, Stage::Finished),
            r@ == CliStepView::Fail(text@),
    {
        self.stage = Stage::Finished;
        CliStep::Fail(text)
    }

    /// Takes the outcome of the last request and gives the next step.
    pub fn on_reply(&mut self, reply: Reply) -> (r: CliStep)
        ensures
            (final(self)@, r@) == cli_next(old(self)@, reply@),
    {
        match self.stage {
            Stage::CheckingFile => {
                let exists = match reply {
                    Reply::FileExists(b) => b,
                    _ => {
                        return self.repeat();
                    },
                };
                let (missing, bin_without_base) = match &self.plan {
                    Some(p) => (
                        if !exists { Some(message("固件文件不存在：", p.firmware.as_str())) } else { None },
                        p.bin && p.base_address.is_none(),
                    ),
                    None => {
                        return self.repeat();
                    },
                };
                if let Some(m) = missing {
                    return self.fail(m);
                }
                if bin_without_base {
                    return self.fail("BIN 文件必须通过 --base-address 指定烧录地址".to_owned());
                }
                let line = match &self.target {
                    Some(t) => {
                        let mut m = message("正在连接 ", t.as_str());
                        push_str(&mut m, "……");
                        self.phase = Phase::Connect;
                        m
                    },
                    None => {
                        self.phase = Phase::Detect;
                        "正在自动识别目标……".to_owned()
                    },
                };
                self.stage = Stage::Listing;
                CliStep::Ask { say: one_line(line), request: Request::ListProbes }
            },
            Stage::Listing => {
                let probes = match reply {
                    Reply::ProbesFound(p) => p,
                    _ => {
                        return self.repeat();
                    },
                };
                let n = self.connection.probe_number;
                if probes.len() == 0 {
                    return self.fail("未发现 CMSIS-DAP 调试器，请检查 USB 连接和驱动".to_owned());
                }
                if n == 0 || n > probes.len() {
                    let mut m = String::new();
                    push_str(&mut m, "调试器序号 ");
                    push_decimal(&mut m, n as u64);
                    push_str(&mut m, " 无效，当前共发现 ");
                    push_decimal(&mut m, probes.len() as u64);
                    push_str(&mut m, " 个");
                    return self.fail(m);
                }
                self.stage = Stage::Opening;
                self.ask(Request::OpenProbe(n - 1))
            },
            Stage::Opening => match reply {
                Reply::Done => {
                    self.stage = Stage::Selecting;
                    self.ask(Request::SelectProtocol(self.connection.protocol))
                },
                Reply::Failed(e) => self.fail(message("无法打开调试器：", e.as_str())),
                _ => self.repeat(),
            },
            Stage::Selecting => match reply {
                Reply::Done => {
                    self.stage = Stage::Speeding;
                    let s = self.connection.speed_khz;
                    self.ask(Request::SetSpeed(if s < 1 { 1 } else { s }))
                },
                Reply::Failed(e) => self.fail(message("无法选择调试协议：", e.as_str())),
                _ => self.repeat(),
            },
            Stage::Speeding => match reply {
                Reply::SpeedSet(actual) => {
                    self.stage = Stage::Attaching;
                    self.speed_khz = actual;
                    let q = self.request();
                    match q {
                        Some(q) => self.ask(q),
                        None => CliStep::Idle,
                    }
                },
                Reply::Failed(e) => self.fail(message("无法设置调试时钟：", e.as_str())),
                _ => self.repeat(),
            },
            Stage::Attaching => match reply {
                Reply::Attached { name, architecture } => {
                    match self.phase {
                        Phase::Detect => {
                            if self.plan.is_none() {
                                self.stage = Stage::Finished;
                                return CliStep::Detected { target: name, speed_khz: self.speed_khz };
                            }
                            let mut l1 = message("识别成功：", name.as_str());
                            push_str(&mut l1, "（");
                            push_decimal(&mut l1, self.speed_khz as u64);
                            push_str(&mut l1, " kHz）");
                            let mut l2 = message("正在连接 ", name.as_str());
                            push_str(&mut l2, "……");
                            let mut say = Vec::new();
                            say.push(l1);
                            say.push(l2);
                            let ghost (v1, v2) = (say@[0]@, say@[1]@);
                            assert(say@.map_values(|s: String| s@) =~= seq![v1, v2]);
                            self.stage = Stage::Listing;
                            self.phase = Phase::Connect;
                            self.target = Some(name);
                            CliStep::Ask { say, request: Request::ListProbes }
                        },
                        Phase::Connect => {
                            let choice = match &self.plan {
                                Some(p) => p.choice,
                                None => {
                                    self.stage = Stage::Finished;
                                    return CliStep::Detected { target: name, speed_khz: self.speed_khz };
                                },
                            };
                            match choice {
                                FormatChoice::Format(format) => {
                                    self.stage = Stage::Downloading(format);
                                    let q = self.request();
                                    match q {
                                        Some(q) => self.ask(q),
                                        None => CliStep::Idle,
                                    }
                                },
                                FormatChoice::NeedsBaseAddress => self.fail("BIN 文件必须指定烧录基地址".to_owned()),
                                FormatChoice::Unsupported => self.fail(
                                    "不支持的固件格式，仅支持 ELF、AXF、HEX、BIN 和 UF2".to_owned(),
                                ),
                            }
                        },
                    }
                },
                Reply::Failed(e) => match self.phase {
                    Phase::Detect => self.fail(message("无法自动识别目标芯片：", e.as_str())),
                    Phase::Connect => {
                        let mut m = "无法连接目标芯片 ".to_owned();
                        if let Some(t) = &self.target {
                            push_str(&mut m, t.as_str());
                        }
                        push_str(&mut m, "：");
                        push_str(&mut m, e.as_str());
                        self.fail(m)
                    },
                },
                _ => self.repeat(),
            },
            Stage::Downloading(_) => match reply {
                Reply::Done => {
                    let reset = match &self.plan {
                        Some(p) => p.reset_after,
                        None => false,
                    };
                    if reset {
                        self.stage = Stage::Resetting;
                        CliStep::Ask { say: one_line("正在复位目标……".to_owned()), request: Request::ResetCore }
                    } else {
                        self.stage = Stage::Finished;
                        CliStep::Flashed
                    }
                },
                Reply::Failed(e) => self.fail(message("固件烧录失败：", e.as_str())),
                _ => self.repeat(),
            },
            Stage::Resetting => match reply {
                Reply::Done => {
                    self.stage = Stage::Finished;
                    CliStep::Flashed
                },
                Reply::Failed(e) => self.fail(message("固件已写入，但目标复位失败：", e.as_str())),
                _ => self.repeat(),
            },
            Stage::Finished => CliStep::Idle,
        }
    }
}


// ---------------------------------------------------------------------------
// Laws
// ---------------------------------------------------------------------------

/// What a workflow keeps at every stage: connecting to a named target
/// happens only in a `flash` command that knows the target; the image is
/// programmed only after connecting, in the format that the file name and
/// base address imply; and the target is reset only when asked for.
pub open spec fn cli_consistent(f: CliFlowView) -> bool {
    &&& f.phase == Phase::Connect ==> f.target is Some && f.plan is Some
    &&& match f.stage {
        Stage::CheckingFile => f.plan is Some,
        Stage::Downloading(format) => f.phase == Phase::Connect && (f.plan matches Some(p) && p.choice
            == FormatChoice::Format(format)),
        Stage::Resetting => f.plan matches Some(p) && p.reset_after,
        _ => true,
    }
}

/// Both commands start consistent, and every reply keeps a workflow so.
pub proof fn lemma_cli_consistent(f: CliFlowView, reply: ReplyView)
    ensures
        f.phase == Phase::Detect && (f.stage == Stage::Listing || (f.stage == Stage::CheckingFile && f.plan is Some))
            ==> cli_consistent(f),
        cli_consistent(f) ==> cli_consistent(cli_next(f, reply).0),
{
}

/// `flash` programs only the requested file, in the format that its name
/// and base address imply, and only once connected to the target it named
/// or detected.
pub proof fn lemma_cli_writes_checked_image(f: CliFlowView, reply: ReplyView)
    requires
        cli_consistent(f),
        cli_next(f, reply).1 matches CliStepView::Ask { request: RequestView::Download { .. }, .. },
    ensures
        cli_next(f, reply).1 matches CliStepView::Ask { request: RequestView::Download { path, format, verify, chip_erase }, .. }
            && f.plan matches Some(p) && path == p.firmware && p.choice == FormatChoice::Format(format)
            && verify == p.verify && chip_erase == p.chip_erase,
        f.phase == Phase::Connect && f.target is Some,
        f.stage == Stage::Attaching ==> reply is Attached,
{
}

/// The target is reset only when the command asked for it.
pub proof fn lemma_cli_resets_only_when_asked(f: CliFlowView, reply: ReplyView)
    requires
        cli_consistent(f),
        cli_next(f, reply).1 matches CliStepView::Ask { request: RequestView::ResetCore, .. },
    ensures
        f.plan matches Some(p) && p.reset_after,
{
}

/// The hardware requests carry the command's connection options: the probe
/// is the one numbered (from 1) on the command line, the protocol the one
/// chosen, the clock the requested speed (0 raised to 1 kHz), and attaching
/// is under reset exactly when `--connect-under-reset` was given, both when
/// detecting and when connecting to a named target; detecting names no
/// target, connecting names the target.
pub proof fn lemma_cli_requests_follow_options(f: CliFlowView, reply: ReplyView)
    ensures
        cli_next(f, reply).1 matches CliStepView::Ask { request: RequestView::Attach { target, connect_under_reset }, .. }
            ==> connect_under_reset == f.connection.connect_under_reset && target == if cli_next(f, reply).0.phase
            == Phase::Detect {
            None
        } else {
            cli_next(f, reply).0.target
        },
        cli_next(f, reply).1 matches CliStepView::Ask { request: RequestView::SetSpeed(s), .. } ==> s == if f.connection.speed_khz
            == 0 {
            1
        } else {
            f.connection.speed_khz
        },
        cli_next(f, reply).1 matches CliStepView::Ask { request: RequestView::SelectProtocol(p), .. } ==> p
            == f.connection.protocol,
{
}

/// After the probes are listed, the probe opened is the one numbered (from
/// 1) on the command line, which must be among those found.
pub proof fn lemma_cli_opens_numbered_probe(f: CliFlowView, probes: Seq<crate::probes::ProbeEntry>)
    requires
        f.stage == Stage::Listing,
    ensures
        cli_next(f, ReplyView::ProbesFound(probes)).1 matches CliStepView::Ask { request: RequestView::OpenProbe(i), .. }
            ==> i + 1 == f.connection.probe_number && f.connection.probe_number <= probes.len(),
{
}

} // verus!
