//! The interactive mode of the command-line programmer: a dialogue that
//! picks the probe, protocol, clock and reset mode, identifies the target
//! (or lets the user search for it), asks for the firmware and the
//! programming options, and ends with the `flash` options once confirmed.

use vstd::prelude::*;
use crate::cli::{probe_heading, probe_line, probe_list_lines};
use crate::firmware::{is_bin_ext, is_bin_extension, opt_view, path_extension, possible_extension};
use crate::flow::opt_chars;
use crate::options::{
    ConnectionOptions, FlashOptions, FlashOptionsView, Protocol, address_of, parse_address, parse_protocol,
    protocol_of, unquoted, strip_path_quotes,
};
use crate::probes::ProbeEntry;
use crate::prompts::{
    clock_answer, clock_answer_of, default_label, number_answer, number_of, number_retry, number_retry_text,
    yes_no_answer, yes_no_label, yes_no_of, yes_no_retry,
};
use crate::text::{decimal, lower_seq, push_decimal, push_str, trim, trim_ws};

verus! {

/// The questions of the dialogue.
#[derive(Clone, Copy, Debug)]
pub enum Question {
    /// Which of `count` probes (asked only when there is more than one).
    ProbeNumber(usize),
    Protocol,
    Clock,
    ConnectUnderReset,
    /// A keyword to search the chip database with.
    Keyword,
    /// Which of the listed chips.
    TargetChoice,
    Firmware,
    BaseAddress,
    Verify,
    ChipErase,
    ResetAfter,
    Confirm,
}

/// The label of a question and, for yes/no questions, its default.
pub open spec fn question_label(q: Question) -> Seq<char> {
    match q {
        Question::ProbeNumber(_) => default_label("请选择调试器"@, "1"@),
        Question::Protocol => default_label("接口协议 SWD/JTAG"@, "SWD"@),
        Question::Clock => default_label("调试时钟 (kHz)"@, "4000"@),
        Question::ConnectUnderReset => yes_no_label("是否复位下连接"@, false),
        Question::Keyword => "请输入目标型号关键字"@,
        Question::TargetChoice => default_label("请选择目标"@, "1"@),
        Question::Firmware => "请输入固件路径"@,
        Question::BaseAddress => default_label("BIN 烧录基地址"@, "0x08000000"@),
        Question::Verify => yes_no_label("烧录后校验"@, true),
        Question::ChipErase => yes_no_label("执行全片擦除"@, false),
        Question::ResetAfter => yes_no_label("烧录后复位运行"@, true),
        Question::Confirm => yes_no_label("确认开始"@, true),
    }
}

/// Where the dialogue stands.
#[derive(Clone, Copy, Debug)]
pub enum DialogueStage {
    Listing,
    Asking(Question),
    Detecting,
    Searching,
    CheckingFile,
    Finished,
}

/// What the dialogue needs from the console or the hardware.
#[derive(Debug)]
pub enum DialogueRequest {
    /// Enumerate the probes; answer with `Probes`.
    ListProbes,
    /// Print the label and a colon, read a line; answer with `Line`.
    Prompt(String),
    /// Run the `detect` workflow; answer with `Detection`.
    Detect(ConnectionOptions),
    /// Search the chip database; answer with `Targets`.
    SearchTargets(String),
    /// Check that the file exists; answer with `FileExists`.
    CheckFile(String),
}

/// The answer to a [`DialogueRequest`].
#[derive(Debug)]
pub enum DialogueReply {
    Probes(Vec<ProbeEntry>),
    Line(String),
    /// The target and clock found, or the error text.
    Detection(Result<(String, u32), String>),
    Targets(Vec<String>),
    FileExists(bool),
}

/// What the dialogue asks for next.
#[derive(Debug)]
pub enum DialogueStep {
    /// Print the lines, then perform the request.
    Ask { say: Vec<String>, request: DialogueRequest },
    /// The dialogue ends with this error.
    Fail(String),
    /// The user declined to start; print the lines.
    Cancelled(Vec<String>),
    /// Program with these options.
    Flash(FlashOptions),
    /// The dialogue has already ended.
    Idle,
}

/// The content of a [`DialogueRequest`].
pub enum DialogueRequestView {
    ListProbes,
    Prompt(Seq<char>),
    Detect(ConnectionOptions),
    SearchTargets(Seq<char>),
    CheckFile(Seq<char>),
}

/// The content of a [`DialogueReply`].
pub enum DialogueReplyView {
    Probes(Seq<ProbeEntry>),
    Line(Seq<char>),
    Detection(Result<(Seq<char>, u32), Seq<char>>),
    Targets(Seq<Seq<char>>),
    FileExists(bool),
}

/// The content of a [`DialogueStep`].
pub enum DialogueStepView {
    Ask { say: Seq<Seq<char>>, request: DialogueRequestView },
    Fail(Seq<char>),
    Cancelled(Seq<Seq<char>>),
    Flash(FlashOptionsView),
    Idle,
}

/// A list of strings seen as character sequences.
pub open spec fn lines_view(v: Vec<String>) -> Seq<Seq<char>> {
    v@.map_values(|s: String| s@)
}

impl View for DialogueRequest {
    type V = DialogueRequestView;

    open spec fn view(&self) -> DialogueRequestView {
        match self {
            DialogueRequest::ListProbes => DialogueRequestView::ListProbes,
            DialogueRequest::Prompt(l) => DialogueRequestView::Prompt(l@),
            DialogueRequest::Detect(c) => DialogueRequestView::Detect(*c),
            DialogueRequest::SearchTargets(q) => DialogueRequestView::SearchTargets(q@),
            DialogueRequest::CheckFile(p) => DialogueRequestView::CheckFile(p@),
        }
    }
}

impl View for DialogueReply {
    type V = DialogueReplyView;

    open spec fn view(&self) -> DialogueReplyView {
        match self {
            DialogueReply::Probes(p) => DialogueReplyView::Probes(p@),
            DialogueReply::Line(l) => DialogueReplyView::Line(l@),
            DialogueReply::Detection(r) => DialogueReplyView::Detection(
                match r {
                    Ok((t, s)) => Ok((t@, *s)),
                    Err(e) => Err(e@),
                },
            ),
            DialogueReply::Targets(v) => DialogueReplyView::Targets(lines_view(*v)),
            DialogueReply::FileExists(b) => DialogueReplyView::FileExists(*b),
        }
    }
}

impl View for DialogueStep {
    type V = DialogueStepView;

    open spec fn view(&self) -> DialogueStepView {
        match self {
            DialogueStep::Ask { say, request } => DialogueStepView::Ask { say: lines_view(*say), request: request@ },
            DialogueStep::Fail(e) => DialogueStepView::Fail(e@),
            DialogueStep::Cancelled(say) => DialogueStepView::Cancelled(lines_view(*say)),
            DialogueStep::Flash(o) => DialogueStepView::Flash(o@),
            DialogueStep::Idle => DialogueStepView::Idle,
        }
    }
}

/// The dialogue in progress.
pub struct Dialogue {
    stage: DialogueStage,
    connection: ConnectionOptions,
    query: String,
    choices: Vec<String>,
    target: String,
    firmware: String,
    base_address: Option<u64>,
    verify: bool,
    chip_erase: bool,
    reset_after: bool,
}

/// The content of a [`Dialogue`].
pub struct DialogueView {
    pub stage: DialogueStage,
    pub connection: ConnectionOptions,
    pub query: Seq<char>,
    pub choices: Seq<Seq<char>>,
    pub target: Seq<char>,
    pub firmware: Seq<char>,
    pub base_address: Option<u64>,
    pub verify: bool,
    pub chip_erase: bool,
    pub reset_after: bool,
}

impl View for Dialogue {
    type V = DialogueView;

    closed spec fn view(&self) -> DialogueView {
        DialogueView {
            stage: self.stage,
            connection: self.connection,
            query: self.query@,
            choices: lines_view(self.choices),
            target: self.target@,
            firmware: self.firmware@,
            base_address: self.base_address,
            verify: self.verify,
            chip_erase: self.chip_erase,
            reset_after: self.reset_after,
        }
    }
}

// ---------------------------------------------------------------------------
// Transitions
// ---------------------------------------------------------------------------

/// The most chips offered for choice at once.
pub open spec fn max_choices() -> nat {
    50
}

/// The request outstanding at the dialogue's stage.
pub open spec fn dialogue_request(d: DialogueView) -> Option<DialogueRequestView> {
    match d.stage {
        DialogueStage::Listing => Some(DialogueRequestView::ListProbes),
        DialogueStage::Asking(q) => Some(DialogueRequestView::Prompt(question_label(q))),
        DialogueStage::Detecting => Some(DialogueRequestView::Detect(d.connection)),
        DialogueStage::Searching => Some(DialogueRequestView::SearchTargets(d.query)),
        DialogueStage::CheckingFile => Some(DialogueRequestView::CheckFile(d.firmware)),
        DialogueStage::Finished => None,
    }
}

/// Asks question `q` after printing `say`.
pub open spec fn ask(d: DialogueView, q: Question, say: Seq<Seq<char>>) -> (DialogueView, DialogueStepView) {
    (
        DialogueView { stage: DialogueStage::Asking(q), ..d },
        DialogueStepView::Ask { say, request: DialogueRequestView::Prompt(question_label(q)) },
    )
}

/// Ends the dialogue with an error.
pub open spec fn fail(d: DialogueView, e: Seq<char>) -> (DialogueView, DialogueStepView) {
    (DialogueView { stage: DialogueStage::Finished, ..d }, DialogueStepView::Fail(e))
}

/// Repeats the outstanding request.
pub open spec fn dialogue_repeat(d: DialogueView) -> (DialogueView, DialogueStepView) {
    (
        d,
        match dialogue_request(d) {
            Some(r) => DialogueStepView::Ask { say: Seq::empty(), request: r },
            None => DialogueStepView::Idle,
        },
    )
}

/// The text of an empty answer to a question that needs one.
pub open spec fn required_retry() -> Seq<char> {
    "该项不能为空。 "@
}

/// The heading of the chip choices.
pub open spec fn choices_heading(truncated: bool) -> Seq<char> {
    "匹配结果"@ + if truncated { "（仅显示前 50 个）"@ } else { Seq::empty() } + "："@
}

/// The line offering chip `name` as choice `number`.
pub open spec fn choice_line(number: nat, name: Seq<char>) -> Seq<char> {
    "  "@ + decimal(number) + ". "@ + name
}

/// The lines offering the chips.
pub open spec fn choice_lines(names: Seq<Seq<char>>) -> Seq<Seq<char>> {
    Seq::new(names.len(), |i: int| choice_line((i + 1) as nat, names[i]))
}

/// The lines listing the probes.
pub open spec fn probe_lines(probes: Seq<ProbeEntry>) -> Seq<Seq<char>> {
    seq![probe_heading(probes.len())] + Seq::new(probes.len(), |i: int| probe_line((i + 1) as nat, probes[i]))
}

/// The lines summing up what will be programmed.
pub open spec fn summary_lines(target: Seq<char>, firmware: Seq<char>) -> Seq<Seq<char>> {
    seq!["\n即将烧录："@, "  目标："@ + target, "  文件："@ + firmware]
}

/// The options the dialogue ends with.
pub open spec fn chosen_options(d: DialogueView) -> FlashOptionsView {
    FlashOptionsView {
        connection: d.connection,
        firmware: d.firmware,
        target: Some(d.target),
        base_address: d.base_address,
        verify: d.verify,
        chip_erase: d.chip_erase,
        reset_after: d.reset_after,
    }
}

/// The answer to question `q` (`a` is the trimmed input line).
pub open spec fn answered(d: DialogueView, q: Question, a: Seq<char>) -> (DialogueView, DialogueStepView) {
    let c = d.connection;
    match q {
        Question::ProbeNumber(count) => match number_of(a, 1, count) {
            Some(n) => ask(DialogueView { connection: ConnectionOptions { probe_number: n, ..c }, ..d }, Question::Protocol, Seq::empty()),
            None => ask(d, q, seq![number_retry(1, count)]),
        },
        Question::Protocol => match protocol_of(if a.len() == 0 { "SWD"@ } else { a }) {
            Ok(p) => ask(DialogueView { connection: ConnectionOptions { protocol: p, ..c }, ..d }, Question::Clock, Seq::empty()),
            Err(e) => fail(d, e),
        },
        Question::Clock => match clock_answer_of(if a.len() == 0 { "4000"@ } else { a }) {
            Ok(s) => ask(
                DialogueView { connection: ConnectionOptions { speed_khz: s, ..c }, ..d },
                Question::ConnectUnderReset,
                Seq::empty(),
            ),
            Err(e) => fail(d, e),
        },
        Question::ConnectUnderReset => match yes_no_of(a, false) {
            Some(b) => {
                let g = DialogueView { stage: DialogueStage::Detecting, connection: ConnectionOptions { connect_under_reset: b, ..c }, ..d };
                (g, DialogueStepView::Ask { say: seq!["\n正在自动识别目标……"@], request: DialogueRequestView::Detect(g.connection) })
            },
            None => ask(d, q, seq![yes_no_retry()]),
        },
        Question::Keyword => if a.len() == 0 {
            ask(d, q, seq![required_retry()])
        } else {
            (
                DialogueView { stage: DialogueStage::Searching, query: a, ..d },
                DialogueStepView::Ask { say: Seq::empty(), request: DialogueRequestView::SearchTargets(a) },
            )
        },
        Question::TargetChoice => match number_of(a, 1, d.choices.len() as usize) {
            Some(k) => ask(DialogueView { target: d.choices[k - 1], ..d }, Question::Firmware, Seq::empty()),
            None => ask(d, q, seq![number_retry(1, d.choices.len() as usize)]),
        },
        Question::Firmware => if a.len() == 0 {
            ask(d, q, seq![required_retry()])
        } else {
            let fw = unquoted(a);
            (
                DialogueView { stage: DialogueStage::CheckingFile, firmware: fw, ..d },
                DialogueStepView::Ask { say: Seq::empty(), request: DialogueRequestView::CheckFile(fw) },
            )
        },
        Question::BaseAddress => match address_of(if a.len() == 0 { "0x08000000"@ } else { a }) {
            Ok(addr) => ask(DialogueView { base_address: Some(addr), ..d }, Question::Verify, Seq::empty()),
            Err(e) => fail(d, e),
        },
        Question::Verify => match yes_no_of(a, true) {
            Some(b) => ask(DialogueView { verify: b, ..d }, Question::ChipErase, Seq::empty()),
            None => ask(d, q, seq![yes_no_retry()]),
        },
        Question::ChipErase => match yes_no_of(a, false) {
            Some(b) => ask(DialogueView { chip_erase: b, ..d }, Question::ResetAfter, Seq::empty()),
            None => ask(d, q, seq![yes_no_retry()]),
        },
        Question::ResetAfter => match yes_no_of(a, true) {
            Some(b) => ask(DialogueView { reset_after: b, ..d }, Question::Confirm, summary_lines(d.target, d.firmware)),
            None => ask(d, q, seq![yes_no_retry()]),
        },
        Question::Confirm => match yes_no_of(a, true) {
            Some(true) => (DialogueView { stage: DialogueStage::Finished, ..d }, DialogueStepView::Flash(chosen_options(d))),
            Some(false) => (DialogueView { stage: DialogueStage::Finished, ..d }, DialogueStepView::Cancelled(seq!["已取消。 "@])),
            None => ask(d, q, seq![yes_no_retry()]),
        },
    }
}

/// The dialogue after `reply`, and what it asks for next; `ext` is the
/// extension of the firmware path when the reply says the file exists.
pub open spec fn dialogue_next(d: DialogueView, reply: DialogueReplyView, ext: Option<Seq<char>>) -> (
    DialogueView,
    DialogueStepView,
) {
    match (d.stage, reply) {
        (DialogueStage::Listing, DialogueReplyView::Probes(probes)) => if probes.len() == 0 {
            fail(d, "未发现 CMSIS-DAP 调试器，请检查 USB 连接和驱动"@)
        } else if probes.len() == 1 {
            ask(
                DialogueView { connection: ConnectionOptions { probe_number: 1, ..d.connection }, ..d },
                Question::Protocol,
                probe_lines(probes).push("自动选择调试器 1。\n"@),
            )
        } else {
            ask(d, Question::ProbeNumber(probes.len() as usize), probe_lines(probes))
        },
        (DialogueStage::Asking(q), DialogueReplyView::Line(line)) => answered(d, q, trim_ws(line)),
        (DialogueStage::Detecting, DialogueReplyView::Detection(Ok((t, s)))) => ask(
            DialogueView { target: t, ..d },
            Question::Firmware,
            seq!["识别成功："@ + t + "（"@ + decimal(s as nat) + " kHz）"@],
        ),
        (DialogueStage::Detecting, DialogueReplyView::Detection(Err(e))) => ask(d, Question::Keyword, seq!["自动识别失败："@ + e]),
        (DialogueStage::Searching, DialogueReplyView::Targets(names)) => if names.len() == 0 {
            ask(d, Question::Keyword, seq!["没有匹配结果，请换一个关键字。 "@])
        } else {
            let shown = if names.len() > max_choices() { max_choices() } else { names.len() };
            let offered = names.take(shown as int);
            ask(
                DialogueView { choices: offered, ..d },
                Question::TargetChoice,
                seq![choices_heading(names.len() > shown)] + choice_lines(offered),
            )
        },
        (DialogueStage::CheckingFile, DialogueReplyView::FileExists(exists)) => if !exists {
            fail(d, "固件文件不存在："@ + d.firmware)
        } else if is_bin_extension(ext) {
            ask(d, Question::BaseAddress, Seq::empty())
        } else {
            ask(DialogueView { base_address: None, ..d }, Question::Verify, Seq::empty())
        },
        _ => dialogue_repeat(d),
    }
}

/// When automatic detection fails, the dialogue shows why and lets the user
/// search the builtin chip database instead.
pub proof fn lemma_detection_failure_offers_search(d: DialogueView, why: Seq<char>, e: Option<Seq<char>>)
    requires
        d.stage == DialogueStage::Detecting,
    ensures
        dialogue_next(d, DialogueReplyView::Detection(Err(why)), e).1 == (DialogueStepView::Ask {
            say: seq!["自动识别失败："@ + why],
            request: DialogueRequestView::Prompt(question_label(Question::Keyword)),
        }),
        dialogue_next(d, DialogueReplyView::Detection(Err(why)), e).0.stage == DialogueStage::Asking(Question::Keyword),
{
}

/// The chip chosen from a search is one of the chips offered, and at most
/// fifty are offered.
pub proof fn lemma_search_offers_at_most_fifty(d: DialogueView, names: Seq<Seq<char>>, e: Option<Seq<char>>)
    requires
        d.stage == DialogueStage::Searching,
        names.len() > 0,
    ensures
        ({
            let g = dialogue_next(d, DialogueReplyView::Targets(names), e).0;
            &&& g.choices.len() <= 50
            &&& g.choices.len() > 0
            &&& g.choices == names.take(g.choices.len() as int)
        }),
{
}

/// The dialogue hands over options to program only when the user confirmed
/// (an empty answer confirms), and then exactly the options it gathered.
pub proof fn lemma_flash_only_when_confirmed(d: DialogueView, reply: DialogueReplyView, e: Option<Seq<char>>)
    requires
        dialogue_next(d, reply, e).1 is Flash,
    ensures
        d.stage == DialogueStage::Asking(Question::Confirm),
        reply matches DialogueReplyView::Line(line) && yes_no_of(trim_ws(line), true) == Some(true),
        dialogue_next(d, reply, e).1 == DialogueStepView::Flash(chosen_options(d)),
{
}

/// The chip chosen from a list is one of the chips offered.
pub proof fn lemma_chosen_target_was_offered(d: DialogueView, line: Seq<char>, e: Option<Seq<char>>)
    requires
        d.stage == DialogueStage::Asking(Question::TargetChoice),
        d.choices.len() <= usize::MAX,
    ensures
        ({
            let g = dialogue_next(d, DialogueReplyView::Line(line), e).0;
            g.stage == DialogueStage::Asking(Question::Firmware) ==> d.choices.contains(g.target)
        }),
{
    let a = trim_ws(line);
    if let Some(k) = number_of(a, 1, d.choices.len() as usize) {
        assert(d.choices[k - 1] == d.choices[(k - 1) as int]);
    }
}

/// The yes/no questions show their default in their label (the capital
/// letter): connect under reset `[y/N]`, verify `[Y/n]`, chip erase
/// `[y/N]`, reset afterwards `[Y/n]`, confirm `[Y/n]`; and a blank answer
/// takes exactly that default and moves on: no connect under reset (then
/// detection), verifying, no full chip erase, resetting, and starting.
pub proof fn lemma_yes_no_defaults(d: DialogueView, line: Seq<char>, e: Option<Seq<char>>)
    requires
        trim_ws(line).len() == 0,
    ensures
        question_label(Question::ConnectUnderReset) == "是否复位下连接"@ + " [y/N]"@,
        question_label(Question::Verify) == "烧录后校验"@ + " [Y/n]"@,
        question_label(Question::ChipErase) == "执行全片擦除"@ + " [y/N]"@,
        question_label(Question::ResetAfter) == "烧录后复位运行"@ + " [Y/n]"@,
        question_label(Question::Confirm) == "确认开始"@ + " [Y/n]"@,
        ({
            let (g, step) = dialogue_next(d, DialogueReplyView::Line(line), e);
            &&& d.stage == DialogueStage::Asking(Question::ConnectUnderReset) ==> !g.connection.connect_under_reset
                && g.stage == DialogueStage::Detecting && g.connection == ConnectionOptions { connect_under_reset: false, ..d.connection }
            &&& d.stage == DialogueStage::Asking(Question::Verify) ==> g.verify && g.stage == DialogueStage::Asking(
                Question::ChipErase,
            ) && g == DialogueView { verify: true, stage: g.stage, ..d }
            &&& d.stage == DialogueStage::Asking(Question::ChipErase) ==> !g.chip_erase && g.stage == DialogueStage::Asking(
                Question::ResetAfter,
            ) && g == DialogueView { chip_erase: false, stage: g.stage, ..d }
            &&& d.stage == DialogueStage::Asking(Question::ResetAfter) ==> g.reset_after && g.stage == DialogueStage::Asking(
                Question::Confirm,
            ) && g == DialogueView { reset_after: true, stage: g.stage, ..d }
            &&& d.stage == DialogueStage::Asking(Question::Confirm) ==> step == DialogueStepView::Flash(chosen_options(d))
        }),
{
    let a = trim_ws(line);
    assert(a =~= Seq::<char>::empty());
    assert(lower_seq(a).len() == 0);
}

/// A yes/no question answered `y`, `yes` or `是` (in any ASCII case, with
/// spaces around) is answered yes, and `n`, `no` or `否` no, whatever the
/// default: for connecting under reset, verifying, the full chip erase and
/// resetting afterwards.
pub proof fn lemma_yes_no_answers(d: DialogueView, line: Seq<char>, e: Option<Seq<char>>)
    requires
        ({
            let a = lower_seq(trim_ws(line));
            a == "y"@ || a == "yes"@ || a == "是"@ || a == "n"@ || a == "no"@ || a == "否"@
        }),
    ensures
        ({
            let a = lower_seq(trim_ws(line));
            let yes = a == "y"@ || a == "yes"@ || a == "是"@;
            let g = dialogue_next(d, DialogueReplyView::Line(line), e).0;
            &&& d.stage == DialogueStage::Asking(Question::ConnectUnderReset) ==> g.connection.connect_under_reset == yes
            &&& d.stage == DialogueStage::Asking(Question::Verify) ==> g.verify == yes
            &&& d.stage == DialogueStage::Asking(Question::ChipErase) ==> g.chip_erase == yes
            &&& d.stage == DialogueStage::Asking(Question::ResetAfter) ==> g.reset_after == yes
        }),
{
    reveal_strlit("y");
    reveal_strlit("yes");
    reveal_strlit("是");
    reveal_strlit("n");
    reveal_strlit("no");
    reveal_strlit("否");
    let a = lower_seq(trim_ws(line));
    assert(a.len() > 0);
    let (y1, y2, y3, n1, n2, n3) = ("y"@, "yes"@, "是"@, "n"@, "no"@, "否"@);
    assert(y1 != n1 && y1 != n3 && y3 != n1 && y3 != n3) by {
        assert(y1[0] != n1[0] && y1[0] != n3[0] && y3[0] != n1[0] && y3[0] != n3[0]);
    }
    assert(y2 != n2) by {
        assert(y2.len() != n2.len());
    }
}

/// The questions with a value show their default in their label, and a
/// blank answer takes it: SWD, 4000 kHz, the BIN base address 0x08000000,
/// the first probe and the first chip offered.
pub proof fn lemma_value_defaults(d: DialogueView, line: Seq<char>, e: Option<Seq<char>>)
    requires
        trim_ws(line).len() == 0,
    ensures
        question_label(Question::Protocol) == "接口协议 SWD/JTAG"@ + " ["@ + "SWD"@ + "]"@,
        question_label(Question::Clock) == "调试时钟 (kHz)"@ + " ["@ + "4000"@ + "]"@,
        question_label(Question::BaseAddress) == "BIN 烧录基地址"@ + " ["@ + "0x08000000"@ + "]"@,
        ({
            let g = dialogue_next(d, DialogueReplyView::Line(line), e).0;
            &&& d.stage == DialogueStage::Asking(Question::Protocol) ==> g.connection.protocol == Protocol::Swd
                && g.stage == DialogueStage::Asking(Question::Clock)
            &&& d.stage == DialogueStage::Asking(Question::Clock) ==> g.connection.speed_khz == 4000 && g.stage
                == DialogueStage::Asking(Question::ConnectUnderReset)
            &&& d.stage == DialogueStage::Asking(Question::BaseAddress) ==> g.base_address == Some(0x0800_0000u64)
                && g.stage == DialogueStage::Asking(Question::Verify)
            &&& (d.stage matches DialogueStage::Asking(Question::ProbeNumber(count)) && count >= 1) ==> g.connection.probe_number
                == 1 && g.stage == DialogueStage::Asking(Question::Protocol)
            &&& d.stage == DialogueStage::Asking(Question::TargetChoice) && 1 <= d.choices.len() <= usize::MAX ==> g.target
                == d.choices[0] && g.stage == DialogueStage::Asking(Question::Firmware)
        }),
{
    let a = trim_ws(line);
    assert(a =~= Seq::<char>::empty());
    reveal_strlit("SWD");
    reveal_strlit("swd");
    reveal_strlit("4000");
    reveal_strlit("0x08000000");
    reveal_strlit("0x");
    reveal_strlit("0X");
    let swd = "SWD"@;
    crate::text::lemma_trim_plain(swd);
    assert(lower_seq(swd) =~= "swd"@) by {
        assert(lower_seq(swd)[0] == 's' && lower_seq(swd)[1] == 'w' && lower_seq(swd)[2] == 'd');
    }
    let d4 = "4000"@;
    assert(d4 =~= seq!['4'].push('0').push('0').push('0'));
    lemma_digits_push(seq!['4'], '0', 10);
    lemma_digits_push(seq!['4'].push('0'), '0', 10);
    lemma_digits_push(seq!['4'].push('0').push('0'), '0', 10);
    lemma_digits_push(Seq::empty(), '4', 10);
    assert(Seq::<char>::empty().push('4') =~= seq!['4']);
    assert(crate::text::all_digits(d4, 10));
    let hx = "0x08000000"@;
    crate::text::lemma_trim_plain(hx);
    assert(hx.take(2) =~= "0x"@);
    let h = hx.skip(2);
    let h1 = Seq::<char>::empty().push('0');
    let h2 = h1.push('8');
    let h3 = h2.push('0');
    let h4 = h3.push('0');
    let h5 = h4.push('0');
    let h6 = h5.push('0');
    let h7 = h6.push('0');
    let h8 = h7.push('0');
    assert(h =~= h8);
    lemma_digits_push(Seq::empty(), '0', 16);
    lemma_digits_push(h1, '8', 16);
    lemma_digits_push(h2, '0', 16);
    lemma_digits_push(h3, '0', 16);
    lemma_digits_push(h4, '0', 16);
    lemma_digits_push(h5, '0', 16);
    lemma_digits_push(h6, '0', 16);
    lemma_digits_push(h7, '0', 16);
    assert(crate::text::all_digits(h, 16));
    let one = decimal(1);
    assert(one =~= Seq::<char>::empty().push('1'));
    lemma_digits_push(Seq::empty(), '1', 10);
    assert(crate::text::all_digits(one, 10));
}

/// Appending a digit multiplies by the radix and adds the digit.
proof fn lemma_digits_push(s: Seq<char>, c: char, radix: nat)
    ensures
        crate::text::digits_value(s.push(c), radix) == crate::text::digits_value(s, radix) * radix
            + crate::text::digit_value(c, radix),
        s.len() == 0 ==> crate::text::digits_value(s, radix) == 0,
{
    assert(s.push(c).drop_last() =~= s);
}

// ---------------------------------------------------------------------------
// Execution
// ---------------------------------------------------------------------------

fn labelled(label: &str, default: &str) -> (r: String)
    ensures
        r@ == default_label(label@, default@),
{
    crate::prompts::default_prompt_label(label, default)
}

/// The label of question `q`.
pub fn question_text(q: Question) -> (r: String)
    ensures
        r@ == question_label(q),
{
    match q {
        Question::ProbeNumber(_) => labelled("请选择调试器", "1"),
        Question::Protocol => labelled("接口协议 SWD/JTAG", "SWD"),
        Question::Clock => labelled("调试时钟 (kHz)", "4000"),
        Question::ConnectUnderReset => crate::prompts::yes_no_prompt_label("是否复位下连接", false),
        Question::Keyword => "请输入目标型号关键字".to_owned(),
        Question::TargetChoice => labelled("请选择目标", "1"),
        Question::Firmware => "请输入固件路径".to_owned(),
        Question::BaseAddress => labelled("BIN 烧录基地址", "0x08000000"),
        Question::Verify => crate::prompts::yes_no_prompt_label("烧录后校验", true),
        Question::ChipErase => crate::prompts::yes_no_prompt_label("执行全片擦除", false),
        Question::ResetAfter => crate::prompts::yes_no_prompt_label("烧录后复位运行", true),
        Question::Confirm => crate::prompts::yes_no_prompt_label("确认开始", true),
    }
}

fn no_lines() -> (r: Vec<String>)
    ensures
        lines_view(r) == Seq::<Seq<char>>::empty(),
{
    let v: Vec<String> = Vec::new();
    assert(lines_view(v) =~= Seq::<Seq<char>>::empty());
    v
}

fn single(line: String) -> (r: Vec<String>)
    ensures
        lines_view(r) == seq![line@],
{
    let mut v: Vec<String> = Vec::new();
    v.push(line);
    assert(lines_view(v) =~= seq![line@]);
    v
}

fn text_of(prefix: &str, text: &str) -> (r: String)
    ensures
        r@ == prefix@ + text@,
{
    let mut s = String::new();
    push_str(&mut s, prefix);
    push_str(&mut s, text);
    s
}

fn retry_yes_no() -> (r: Vec<String>)
    ensures
        lines_view(r) == seq![yes_no_retry()],
{
    single("请输入 y 或 n。 ".to_owned())
}

impl Dialogue {
    /// Starts the dialogue: the probes are enumerated first.
    pub fn new() -> (r: (Dialogue, DialogueStep))
        ensures
            r.0@.stage == DialogueStage::Listing,
            r.0@.connection == crate::options::default_connection(),
            r.0@.base_address is None,
            r.1@ == (DialogueStepView::Ask { say: Seq::empty(), request: DialogueRequestView::ListProbes }),
    {
        let d = Dialogue {
            stage: DialogueStage::Listing,
            connection: ConnectionOptions::default(),
            query: String::new(),
            choices: Vec::new(),
            target: String::new(),
            firmware: String::new(),
            base_address: None,
            verify: true,
            chip_erase: false,
            reset_after: true,
        };
        (d, DialogueStep::Ask { say: no_lines(), request: DialogueRequest::ListProbes })
    }

    fn ask_question(&mut self, q: Question, say: Vec<String>) -> (r: DialogueStep)
        ensures
            (final(self)@, r@) == ask(old(self)@, q, lines_view(say)),
    {
        self.stage = DialogueStage::Asking(q);
        DialogueStep::Ask { say, request: DialogueRequest::Prompt(question_text(q)) }
    }

    fn fail_with(&mut self, e: String) -> (r: DialogueStep)
        ensures
            (final(self)@, r@) == fail(old(self)@, e@),
    {
        self.stage = DialogueStage::Finished;
        DialogueStep::Fail(e)
    }

    /// The request outstanding at the current stage.
    fn request(&self) -> (r: Option<DialogueRequest>)
        ensures
            match r {
                Some(q) => dialogue_request(self@) == Some(q@),
                None => dialogue_request(self@) is None,
            },
    {
        match self.stage {
            DialogueStage::Listing => Some(DialogueRequest::ListProbes),
            DialogueStage::Asking(q) => Some(DialogueRequest::Prompt(question_text(q))),
            DialogueStage::Detecting => Some(DialogueRequest::Detect(self.connection)),
            DialogueStage::Searching => Some(DialogueRequest::SearchTargets(self.query.clone())),
            DialogueStage::CheckingFile => Some(DialogueRequest::CheckFile(self.firmware.clone())),
            DialogueStage::Finished => None,
        }
    }

    fn repeat(&self) -> (r: DialogueStep)
        ensures
            r@ == dialogue_repeat(self@).1,
    {
        match self.request() {
            Some(q) => DialogueStep::Ask { say: no_lines(), request: q },
            None => DialogueStep::Idle,
        }
    }

    fn answer(&mut self, q: Question, a: String) -> (r: DialogueStep)
        ensures
            (final(self)@, r@) == answered(old(self)@, q, a@),
    {
        match q {
            Question::ProbeNumber(count) => match number_answer(a, 1, count) {
                Some(n) => {
                    self.connection.probe_number = n;
                    self.ask_question(Question::Protocol, no_lines())
                },
                None => self.ask_question(q, single(number_retry_text(1, count))),
            },
            Question::Protocol => {
                let v = crate::prompts::prompt_default(a, "SWD");
                match parse_protocol(v.as_str()) {
                    Ok(p) => {
                        self.connection.protocol = p;
                        self.ask_question(Question::Clock, no_lines())
                    },
                    Err(e) => self.fail_with(e),
                }
            },
            Question::Clock => {
                let v = crate::prompts::prompt_default(a, "4000");
                match clock_answer(v.as_str()) {
                    Ok(s) => {
                        self.connection.speed_khz = s;
                        self.ask_question(Question::ConnectUnderReset, no_lines())
                    },
                    Err(e) => self.fail_with(e),
                }
            },
            Question::ConnectUnderReset => match yes_no_answer(a.as_str(), false) {
                Some(b) => {
                    self.connection.connect_under_reset = b;
                    self.stage = DialogueStage::Detecting;
                    DialogueStep::Ask {
                        say: single("\n正在自动识别目标……".to_owned()),
                        request: DialogueRequest::Detect(self.connection),
                    }
                },
                None => self.ask_question(q, retry_yes_no()),
            },
            Question::Keyword => if a.as_str().is_empty() {
                self.ask_question(q, single("该项不能为空。 ".to_owned()))
            } else {
                self.stage = DialogueStage::Searching;
                let query = a.clone();
                self.query = a;
                DialogueStep::Ask { say: no_lines(), request: DialogueRequest::SearchTargets(query) }
            },
            Question::TargetChoice => match number_answer(a, 1, self.choices.len()) {
                Some(k) => {
                    self.target = self.choices[k - 1].clone();
                    self.ask_question(Question::Firmware, no_lines())
                },
                None => {
                    let n = self.choices.len();
                    self.ask_question(q, single(number_retry_text(1, n)))
                },
            },
            Question::Firmware => if a.as_str().is_empty() {
                self.ask_question(q, single("该项不能为空。 ".to_owned()))
            } else {
                let fw = strip_path_quotes(a.as_str());
                self.stage = DialogueStage::CheckingFile;
                let path = fw.clone();
                self.firmware = fw;
                DialogueStep::Ask { say: no_lines(), request: DialogueRequest::CheckFile(path) }
            },
            Question::BaseAddress => {
                let v = crate::prompts::prompt_default(a, "0x08000000");
                match parse_address(v.as_str()) {
                    Ok(addr) => {
                        self.base_address = Some(addr);
                        self.ask_question(Question::Verify, no_lines())
                    },
                    Err(e) => self.fail_with(e),
                }
            },
            Question::Verify => match yes_no_answer(a.as_str(), true) {
                Some(b) => {
                    self.verify = b;
                    self.ask_question(Question::ChipErase, no_lines())
                },
                None => self.ask_question(q, retry_yes_no()),
            },
            Question::ChipErase => match yes_no_answer(a.as_str(), false) {
                Some(b) => {
                    self.chip_erase = b;
                    self.ask_question(Question::ResetAfter, no_lines())
                },
                None => self.ask_question(q, retry_yes_no()),
            },
            Question::ResetAfter => match yes_no_answer(a.as_str(), true) {
                Some(b) => {
                    self.reset_after = b;
                    let mut say: Vec<String> = Vec::new();
                    say.push("\n即将烧录：".to_owned());
                    say.push(text_of("  目标：", self.target.as_str()));
                    say.push(text_of("  文件：", self.firmware.as_str()));
                    assert(lines_view(say) =~= summary_lines(self.target@, self.firmware@));
                    self.ask_question(Question::Confirm, say)
                },
                None => self.ask_question(q, retry_yes_no()),
            },
            Question::Confirm => match yes_no_answer(a.as_str(), true) {
                Some(true) => {
                    self.stage = DialogueStage::Finished;
                    DialogueStep::Flash(FlashOptions {
                        connection: self.connection,
                        firmware: self.firmware.clone(),
                        target: Some(self.target.clone()),
                        base_address: self.base_address,
                        verify: self.verify,
                        chip_erase: self.chip_erase,
                        reset_after: self.reset_after,
                    })
                },
                Some(false) => {
                    self.stage = DialogueStage::Finished;
                    DialogueStep::Cancelled(single("已取消。 ".to_owned()))
                },
                None => self.ask_question(q, retry_yes_no()),
            },
        }
    }

    /// Takes the answer to the last request and gives the next step; the
    /// firmware's extension is the one `Path::extension` gives.
    pub fn on_reply(&mut self, reply: DialogueReply) -> (r: DialogueStep)
        ensures
            exists|e: Option<Seq<char>>|
                #![trigger dialogue_next(old(self)@, reply@, e)]
                {
                    &&& (old(self)@.stage == DialogueStage::CheckingFile ==> possible_extension(old(self)@.firmware, e))
                    &&& (final(self)@, r@) == dialogue_next(old(self)@, reply@, e)
                },
    {
        let ext = match self.stage {
            DialogueStage::CheckingFile => path_extension(self.firmware.as_str()),
            _ => None,
        };
        let ghost e = opt_view(ext);
        let bin = match &ext {
            Some(x) => is_bin_ext(Some(x.as_str())),
            None => is_bin_ext(None),
        };
        assert(is_bin_extension(e) == bin);
        let ghost before = self@;
        let ghost rv = reply@;
        let r = self.step(reply, bin);
        assert((self@, r@) == dialogue_next(before, rv, e));
        assert(before.stage == DialogueStage::CheckingFile ==> possible_extension(before.firmware, e));
        assert((final(self)@, r@) == dialogue_next(old(self)@, reply@, e));
        r
    }

    /// Takes the answer to the last request, with whether the firmware path
    /// has the extension `bin`, and gives the next step.
    pub fn step(&mut self, reply: DialogueReply, bin: bool) -> (r: DialogueStep)
        ensures
            forall|e: Option<Seq<char>>| is_bin_extension(e) == bin ==> (final(self)@, r@) == dialogue_next(old(self)@, reply@, e),
    {
        match self.stage {
            DialogueStage::Listing => match reply {
                DialogueReply::Probes(probes) => {
                    if probes.len() == 0 {
                        return self.fail_with("未发现 CMSIS-DAP 调试器，请检查 USB 连接和驱动".to_owned());
                    }
                    let mut say = probe_list_lines(&probes);
                    assert(lines_view(say) =~= probe_lines(probes@));
                    if probes.len() == 1 {
                        self.connection.probe_number = 1;
                        say.push("自动选择调试器 1。\n".to_owned());
                        assert(lines_view(say) =~= probe_lines(probes@).push("自动选择调试器 1。\n"@));
                        self.ask_question(Question::Protocol, say)
                    } else {
                        self.ask_question(Question::ProbeNumber(probes.len()), say)
                    }
                },
                _ => self.repeat(),
            },
            DialogueStage::Asking(q) => match reply {
                DialogueReply::Line(line) => {
                    let a = trim(line.as_str()).to_owned();
                    self.answer(q, a)
                },
                _ => self.repeat(),
            },
            DialogueStage::Detecting => match reply {
                DialogueReply::Detection(Ok((t, s))) => {
                    let mut line = text_of("识别成功：", t.as_str());
                    push_str(&mut line, "（");
                    push_decimal(&mut line, s as u64);
                    push_str(&mut line, " kHz）");
                    self.target = t;
                    self.ask_question(Question::Firmware, single(line))
                },
                DialogueReply::Detection(Err(e)) => {
                    let line = text_of("自动识别失败：", e.as_str());
                    self.ask_question(Question::Keyword, single(line))
                },
                _ => self.repeat(),
            },
            DialogueStage::Searching => match reply {
                DialogueReply::Targets(names) => {
                    if names.len() == 0 {
                        return self.ask_question(Question::Keyword, single("没有匹配结果，请换一个关键字。 ".to_owned()));
                    }
                    let total = names.len();
                    let shown = if total > 50 { 50 } else { total };
                    let ghost all = lines_view(names);
                    let mut offered: Vec<String> = Vec::new();
                    let mut say: Vec<String> = Vec::new();
                    let mut heading = "匹配结果".to_owned();
                    if total > shown {
                        push_str(&mut heading, "（仅显示前 50 个）");
                    }
                    push_str(&mut heading, "：");
                    say.push(heading);
                    let mut i: usize = 0;
                    while i < shown
                        invariant
                            i <= shown <= total,
                            total == names.len(),
                            all == lines_view(names),
                            lines_view(offered) == all.take(i as int),
                            say.len() == i + 1,
                            say@[0]@ == choices_heading(total > shown),
                            forall|k: int| 0 <= k < i ==> #[trigger] say@[k + 1]@ == choice_line((k + 1) as nat, all[k]),
                        decreases shown - i,
                    {
                        let name = names[i].clone();
                        assert(name@ == all[i as int]);
                        let mut line = "  ".to_owned();
                        push_decimal(&mut line, (i + 1) as u64);
                        push_str(&mut line, ". ");
                        push_str(&mut line, name.as_str());
                        say.push(line);
                        let ghost prev = lines_view(offered);
                        offered.push(name);
                        assert(lines_view(offered) =~= prev.push(all[i as int]));
                        assert(all.take(i + 1) =~= all.take(i as int).push(all[i as int]));
                        i = i + 1;
                    }
                    assert(lines_view(say) =~= seq![choices_heading(total > shown)] + choice_lines(all.take(shown as int)));
                    self.choices = offered;
                    self.ask_question(Question::TargetChoice, say)
                },
                _ => self.repeat(),
            },
            DialogueStage::CheckingFile => match reply {
                DialogueReply::FileExists(exists) => {
                    if !exists {
                        let m = text_of("固件文件不存在：", self.firmware.as_str());
                        return self.fail_with(m);
                    }
                    if bin {
                        self.ask_question(Question::BaseAddress, no_lines())
                    } else {
                        self.base_address = None;
                        self.ask_question(Question::Verify, no_lines())
                    }
                },
                _ => self.repeat(),
            },
            DialogueStage::Finished => DialogueStep::Idle,
        }
    }
}

} // verus!
