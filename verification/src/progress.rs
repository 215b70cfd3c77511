//! Programming progress: the per-operation counters that turn probe-rs's
//! progress notifications into progress reports for the user interface and
//! into console lines, and the bounded percentage shown to the user.

use vstd::prelude::*;
use crate::models::{FlashEvent, FlashEventView, opt_string_view};
use crate::text::{chars_of, decimal, decimal_string, push_char, push_decimal, push_str};

verus! {

/// The operations that make up programming a chip.
#[derive(Clone, Copy, PartialEq, Eq, Debug)]
pub enum Operation {
    /// Reading back flash contents that must survive an erase.
    Fill,
    Erase,
    Program,
    Verify,
}

/// A progress notification from the flashing engine.
#[derive(Debug)]
pub enum ProgressUpdate {
    /// A progress bar for `operation` appears, with its size if known.
    AddProgressBar { operation: Operation, total: Option<u64> },
    Started(Operation),
    /// `size` more bytes of `operation` are done.
    Progress { operation: Operation, size: u64 },
    DiagnosticMessage { message: String },
    Finished(Operation),
    Failed(Operation),
    /// The flash layout is known (nothing to report).
    FlashLayoutReady,
}

/// The stage name reported to the user interface for an operation.
pub open spec fn stage_name(op: Operation) -> Seq<char> {
    match op {
        Operation::Erase => "erasing"@,
        Operation::Fill => "filling"@,
        Operation::Program => "programming"@,
        Operation::Verify => "verifying"@,
    }
}

/// The stage name reported to the user interface for an operation.
pub fn operation_stage(operation: Operation) -> (r: &'static str)
    ensures
        r@ == stage_name(operation),
{
    match operation {
        Operation::Erase => "erasing",
        Operation::Fill => "filling",
        Operation::Program => "programming",
        Operation::Verify => "verifying",
    }
}

/// The stage name printed on the console for an operation.
pub open spec fn console_stage_name(op: Operation) -> Seq<char> {
    match op {
        Operation::Erase => "擦除"@,
        Operation::Fill => "准备"@,
        Operation::Program => "写入"@,
        Operation::Verify => "校验"@,
    }
}

/// The stage name printed on the console for an operation.
pub fn console_stage(operation: Operation) -> (r: &'static str)
    ensures
        r@ == console_stage_name(operation),
{
    match operation {
        Operation::Erase => "擦除",
        Operation::Fill => "准备",
        Operation::Program => "写入",
        Operation::Verify => "校验",
    }
}

// ---------------------------------------------------------------------------
// Percentages
// ---------------------------------------------------------------------------

/// `completed` out of `total` in percent: `completed * 100` (saturating at
/// `u64::MAX`) divided by `total`, capped at 100; nothing without a positive
/// total.
pub open spec fn percent_of(completed: u64, total: Option<u64>) -> Option<u64> {
    match total {
        Some(t) if t > 0 => {
            let scaled = if completed * 100 > u64::MAX { u64::MAX as int } else { completed * 100 };
            let q = scaled / (t as int);
            Some((if q > 100 { 100 } else { q }) as u64)
        },
        _ => None,
    }
}

/// The percentage of `completed` out of `total`, bounded to 100.
pub fn progress_percent(completed: u64, total: Option<u64>) -> (r: Option<u64>)
    ensures
        r == percent_of(completed, total),
{
    match total {
        Some(t) => {
            if t > 0 {
                let scaled = match completed.checked_mul(100) {
                    Some(v) => v,
                    None => u64::MAX,
                };
                let q = scaled / t;
                Some(if q > 100 { 100 } else { q })
            } else {
                None
            }
        },
        None => None,
    }
}

/// A percentage never exceeds 100, and exists exactly when the total is
/// known and positive.
pub proof fn lemma_percent_bounded(completed: u64, total: Option<u64>)
    ensures
        percent_of(completed, total) matches Some(p) ==> p <= 100,
        percent_of(completed, total) is Some <==> (total matches Some(t) && t > 0),
{
}

/// More work done never shows a lower percentage.
pub proof fn lemma_percent_monotone(a: u64, b: u64, total: u64)
    requires
        a <= b,
        total > 0,
    ensures
        percent_of(a, Some(total))->0 <= percent_of(b, Some(total))->0,
{
    let sa: int = if a * 100 > u64::MAX { u64::MAX as int } else { a * 100 };
    let sb: int = if b * 100 > u64::MAX { u64::MAX as int } else { b * 100 };
    assert(sa <= sb) by (nonlinear_arith)
        requires
            a <= b,
            sa == (if a * 100 > u64::MAX { u64::MAX as int } else { a * 100 }),
            sb == (if b * 100 > u64::MAX { u64::MAX as int } else { b * 100 }),
    ;
    assert(sa / (total as int) <= sb / (total as int)) by (nonlinear_arith)
        requires
            sa <= sb,
            total > 0,
            sa >= 0,
    ;
}

/// Once the work done reaches the total, the percentage is 100 (for totals
/// whose hundredfold fits in 64 bits; the saturation below makes, e.g., a
/// completed total of `u64::MAX` show 1 percent).
pub proof fn lemma_percent_complete(completed: u64, total: u64)
    requires
        0 < total <= completed,
        total * 100 <= u64::MAX,
    ensures
        percent_of(completed, Some(total)) == Some(100u64),
{
    let s: int = if completed * 100 > u64::MAX { u64::MAX as int } else { completed * 100 };
    assert(s / (total as int) >= 100) by (nonlinear_arith)
        requires
            0 < total <= completed,
            completed <= u64::MAX,
            total * 100 <= u64::MAX,
            s == (if completed * 100 > u64::MAX { u64::MAX as int } else { completed * 100 }),
    ;
}

// ---------------------------------------------------------------------------
// Counters per operation
// ---------------------------------------------------------------------------

/// What is known of one operation: its size (if announced), the bytes done,
/// and the percentage last printed on the console (if any).
#[derive(Clone, Copy, Debug)]
pub struct StageCounters {
    pub total: Option<u64>,
    pub completed: u64,
    pub shown: Option<u64>,
}

/// The counters of all four operations.
#[derive(Clone, Copy, Debug)]
pub struct ProgressTracker {
    pub fill: StageCounters,
    pub erase: StageCounters,
    pub program: StageCounters,
    pub verify: StageCounters,
}

/// Counters before anything is known.
pub open spec fn fresh_counters() -> StageCounters {
    StageCounters { total: None, completed: 0, shown: None }
}

/// A tracker that knows nothing yet.
pub open spec fn fresh_tracker() -> ProgressTracker {
    ProgressTracker { fill: fresh_counters(), erase: fresh_counters(), program: fresh_counters(), verify: fresh_counters() }
}

impl ProgressTracker {
    /// The counters of `op`.
    pub open spec fn counters(self, op: Operation) -> StageCounters {
        match op {
            Operation::Fill => self.fill,
            Operation::Erase => self.erase,
            Operation::Program => self.program,
            Operation::Verify => self.verify,
        }
    }

    /// The tracker with the counters of `op` replaced.
    pub open spec fn updated(self, op: Operation, c: StageCounters) -> ProgressTracker {
        match op {
            Operation::Fill => ProgressTracker { fill: c, erase: self.erase, program: self.program, verify: self.verify },
            Operation::Erase => ProgressTracker { fill: self.fill, erase: c, program: self.program, verify: self.verify },
            Operation::Program => ProgressTracker { fill: self.fill, erase: self.erase, program: c, verify: self.verify },
            Operation::Verify => ProgressTracker { fill: self.fill, erase: self.erase, program: self.program, verify: c },
        }
    }

    /// A tracker that knows nothing yet.
    pub fn new() -> (r: ProgressTracker)
        ensures
            r == fresh_tracker(),
            forall|op: Operation| #[trigger] r.counters(op) == fresh_counters(),
    {
        let c = StageCounters { total: None, completed: 0, shown: None };
        ProgressTracker { fill: c, erase: c, program: c, verify: c }
    }

    /// The counters of `op`.
    pub fn counters_of(&self, op: Operation) -> (r: StageCounters)
        ensures
            r == self.counters(op),
    {
        match op {
            Operation::Fill => self.fill,
            Operation::Erase => self.erase,
            Operation::Program => self.program,
            Operation::Verify => self.verify,
        }
    }

    fn set_counters(&mut self, op: Operation, c: StageCounters)
        ensures
            *final(self) == old(self).updated(op, c),
    {
        match op {
            Operation::Fill => self.fill = c,
            Operation::Erase => self.erase = c,
            Operation::Program => self.program = c,
            Operation::Verify => self.verify = c,
        }
    }

    /// Whether `event` can be counted: the bytes done of an operation must
    /// stay within 64 bits (an overflow is a fault of the flashing engine).
    pub open spec fn accepts(self, event: ProgressUpdate) -> bool {
        match event {
            ProgressUpdate::Progress { operation, size } => self.counters(operation).completed + size <= u64::MAX,
            _ => true,
        }
    }

    /// Whether `event` can be counted.
    pub fn can_count(&self, event: &ProgressUpdate) -> (r: bool)
        ensures
            r == self.accepts(*event),
    {
        match event {
            ProgressUpdate::Progress { operation, size } => self.counters_of(*operation).completed.checked_add(*size).is_some(),
            _ => true,
        }
    }

    /// The counters after `event`: a new progress bar resets the bytes done
    /// (and records the size when announced), progress adds to them.
    pub open spec fn counted(self, event: ProgressUpdate) -> ProgressTracker {
        match event {
            ProgressUpdate::AddProgressBar { operation, total } => {
                let c = self.counters(operation);
                self.updated(
                    operation,
                    StageCounters {
                        total: if total is Some { total } else { c.total },
                        completed: 0,
                        shown: c.shown,
                    },
                )
            },
            ProgressUpdate::Progress { operation, size } => {
                let c = self.counters(operation);
                self.updated(
                    operation,
                    StageCounters { total: c.total, completed: (c.completed + size) as u64, shown: c.shown },
                )
            },
            _ => self,
        }
    }

    /// The report sent to the user interface for `event`.
    pub open spec fn report(self, event: ProgressUpdate) -> Option<FlashEventView> {
        match event {
            ProgressUpdate::AddProgressBar { operation, total } => Some(
                FlashEventView { stage: stage_name(operation), completed: 0, total, message: None },
            ),
            ProgressUpdate::Started(operation) => Some(
                FlashEventView {
                    stage: stage_name(operation),
                    completed: self.counters(operation).completed,
                    total: self.counters(operation).total,
                    message: None,
                },
            ),
            ProgressUpdate::Progress { operation, size } => Some(
                FlashEventView {
                    stage: stage_name(operation),
                    completed: (self.counters(operation).completed + size) as u64,
                    total: self.counters(operation).total,
                    message: None,
                },
            ),
            ProgressUpdate::DiagnosticMessage { message } => Some(
                FlashEventView { stage: "message"@, completed: 0, total: None, message: Some(message@) },
            ),
            ProgressUpdate::Finished(operation) => {
                let c = self.counters(operation);
                Some(
                    FlashEventView {
                        stage: stage_name(operation),
                        completed: match c.total {
                            Some(t) => t,
                            None => c.completed,
                        },
                        total: c.total,
                        message: None,
                    },
                )
            },
            _ => None,
        }
    }

    fn count(&mut self, event: &ProgressUpdate)
        requires
            old(self).accepts(*event),
        ensures
            *final(self) == old(self).counted(*event),
    {
        match event {
            ProgressUpdate::AddProgressBar { operation, total } => {
                let c = self.counters_of(*operation);
                let t = if total.is_some() { *total } else { c.total };
                self.set_counters(*operation, StageCounters { total: t, completed: 0, shown: c.shown });
            },
            ProgressUpdate::Progress { operation, size } => {
                let c = self.counters_of(*operation);
                self.set_counters(
                    *operation,
                    StageCounters { total: c.total, completed: c.completed + *size, shown: c.shown },
                );
            },
            _ => {},
        }
    }

    /// Counts `event` and gives the report for the user interface.
    pub fn report_progress(&mut self, event: ProgressUpdate) -> (r: Option<FlashEvent>)
        requires
            old(self).accepts(event),
        ensures
            *final(self) == old(self).counted(event),
            opt_event_view(r) == old(self).report(event),
    {
        let before = *self;
        self.count(&event);
        match event {
            ProgressUpdate::AddProgressBar { operation, total } => Some(
                FlashEvent { stage: operation_stage(operation), completed: 0, total, message: None },
            ),
            ProgressUpdate::Started(operation) => {
                let c = before.counters_of(operation);
                Some(FlashEvent { stage: operation_stage(operation), completed: c.completed, total: c.total, message: None })
            },
            ProgressUpdate::Progress { operation, size } => {
                let c = self.counters_of(operation);
                Some(FlashEvent { stage: operation_stage(operation), completed: c.completed, total: c.total, message: None })
            },
            ProgressUpdate::DiagnosticMessage { message } => Some(
                FlashEvent { stage: "message", completed: 0, total: None, message: Some(message) },
            ),
            ProgressUpdate::Finished(operation) => {
                let c = before.counters_of(operation);
                let done = match c.total {
                    Some(t) => t,
                    None => c.completed,
                };
                Some(FlashEvent { stage: operation_stage(operation), completed: done, total: c.total, message: None })
            },
            _ => None,
        }
    }
}

/// An optional report seen through its view.
pub open spec fn opt_event_view(r: Option<FlashEvent>) -> Option<FlashEventView> {
    match r {
        Some(e) => Some(e@),
        None => None,
    }
}

// ---------------------------------------------------------------------------
// Console output
// ---------------------------------------------------------------------------

/// `n` spaces.
pub open spec fn spaces(n: nat) -> Seq<char> {
    Seq::new(n, |i: int| ' ')
}

/// `s` padded with spaces on the right to `width` characters (`{:<width}`).
pub open spec fn pad_right(s: Seq<char>, width: nat) -> Seq<char> {
    if s.len() < width {
        s + spaces((width - s.len()) as nat)
    } else {
        s
    }
}

/// `s` padded with spaces on the left to `width` characters (`{:>width}`).
pub open spec fn pad_left(s: Seq<char>, width: nat) -> Seq<char> {
    if s.len() < width {
        spaces((width - s.len()) as nat) + s
    } else {
        s
    }
}

/// The console line for a stage: `stage  pct%` when a percentage is known,
/// otherwise `stage……`.
pub open spec fn progress_text(stage: Seq<char>, completed: u64, total: Option<u64>) -> Seq<char> {
    match percent_of(completed, total) {
        Some(p) => pad_right(stage, 4) + seq![' '] + pad_left(decimal(p as nat), 3) + seq!['%'],
        None => stage + "……"@,
    }
}

fn push_spaces(out: &mut String, n: usize)
    ensures
        final(out)@ == old(out)@ + spaces(n as nat),
{
    let mut i: usize = 0;
    while i < n
        invariant
            i <= n,
            out@ == old(out)@ + spaces(i as nat),
        decreases n - i,
    {
        push_char(out, ' ');
        i = i + 1;
        assert(out@ =~= old(out)@ + spaces(i as nat));
    }
}

/// The console line for a stage's progress.
pub fn progress_line(stage: &str, completed: u64, total: Option<u64>) -> (r: String)
    ensures
        r@ == progress_text(stage@, completed, total),
{
    let mut out = String::new();
    match progress_percent(completed, total) {
        Some(p) => {
            push_str(&mut out, stage);
            let width = chars_of(stage).len();
            if width < 4 {
                push_spaces(&mut out, 4 - width);
            }
            push_char(&mut out, ' ');
            let digits = decimal_string(p);
            let dwidth = chars_of(digits.as_str()).len();
            if dwidth < 3 {
                push_spaces(&mut out, 3 - dwidth);
            }
            push_str(&mut out, digits.as_str());
            push_char(&mut out, '%');
            assert(out@ =~= progress_text(stage@, completed, total));
        },
        None => {
            push_str(&mut out, stage);
            push_str(&mut out, "……");
        },
    }
    out
}

/// A line for the console: standard output or standard error.
#[derive(Debug)]
pub enum ConsoleLine {
    Stdout(String),
    Stderr(String),
}

/// The content of a [`ConsoleLine`].
pub enum ConsoleLineView {
    Stdout(Seq<char>),
    Stderr(Seq<char>),
}

/// An optional console line seen through its content.
pub open spec fn opt_line_view(r: Option<ConsoleLine>) -> Option<ConsoleLineView> {
    match r {
        Some(ConsoleLine::Stdout(s)) => Some(ConsoleLineView::Stdout(s@)),
        Some(ConsoleLine::Stderr(s)) => Some(ConsoleLineView::Stderr(s@)),
        None => None,
    }
}

impl ProgressTracker {
    /// The counters after `event` on the console, which also remembers the
    /// percentage printed last: a new bar shows 0, progress records a new
    /// percentage when it is printed, and a finished operation shows 100.
    pub open spec fn console_counted(self, event: ProgressUpdate) -> ProgressTracker {
        let t = self.counted(event);
        match event {
            ProgressUpdate::AddProgressBar { operation, total } => {
                let c = t.counters(operation);
                t.updated(operation, StageCounters { total: c.total, completed: c.completed, shown: Some(0) })
            },
            ProgressUpdate::Progress { operation, size } => {
                let c = t.counters(operation);
                let p = percent_of(c.completed, c.total);
                if c.shown != p && p is Some {
                    t.updated(operation, StageCounters { total: c.total, completed: c.completed, shown: p })
                } else {
                    t
                }
            },
            ProgressUpdate::Finished(operation) => {
                let c = t.counters(operation);
                if c.shown != Some(100u64) {
                    t.updated(operation, StageCounters { total: c.total, completed: c.completed, shown: Some(100u64) })
                } else {
                    t
                }
            },
            _ => t,
        }
    }

    /// The console line for `event`: progress is printed only when its
    /// percentage differs from the one printed last, a finished operation
    /// only when 100 was not printed yet, a failure on standard error.
    pub open spec fn console_report(self, event: ProgressUpdate) -> Option<ConsoleLineView> {
        match event {
            ProgressUpdate::AddProgressBar { operation, total } => Some(
                ConsoleLineView::Stdout(progress_text(console_stage_name(operation), 0, total)),
            ),
            ProgressUpdate::Started(operation) => {
                let c = self.counters(operation);
                Some(ConsoleLineView::Stdout(progress_text(console_stage_name(operation), c.completed, c.total)))
            },
            ProgressUpdate::Progress { operation, size } => {
                let c = self.counters(operation);
                let v = (c.completed + size) as u64;
                if c.shown != percent_of(v, c.total) {
                    Some(ConsoleLineView::Stdout(progress_text(console_stage_name(operation), v, c.total)))
                } else {
                    None
                }
            },
            ProgressUpdate::DiagnosticMessage { message } => Some(ConsoleLineView::Stdout("  "@ + message@)),
            ProgressUpdate::Finished(operation) => {
                let c = self.counters(operation);
                let v = match c.total {
                    Some(t) => t,
                    None => c.completed,
                };
                if c.shown != Some(100u64) {
                    Some(ConsoleLineView::Stdout(progress_text(console_stage_name(operation), v, c.total)))
                } else {
                    None
                }
            },
            ProgressUpdate::Failed(operation) => Some(ConsoleLineView::Stderr(console_stage_name(operation) + "失败"@)),
            ProgressUpdate::FlashLayoutReady => None,
        }
    }

    /// Counts `event` and gives the console line to print, if any.
    pub fn console_progress(&mut self, event: ProgressUpdate) -> (r: Option<ConsoleLine>)
        requires
            old(self).accepts(event),
        ensures
            *final(self) == old(self).console_counted(event),
            opt_line_view(r) == old(self).console_report(event),
    {
        let before = *self;
        self.count(&event);
        match event {
            ProgressUpdate::AddProgressBar { operation, total } => {
                let c = self.counters_of(operation);
                self.set_counters(operation, StageCounters { total: c.total, completed: c.completed, shown: Some(0) });
                Some(ConsoleLine::Stdout(progress_line(console_stage(operation), 0, total)))
            },
            ProgressUpdate::Started(operation) => {
                let c = before.counters_of(operation);
                Some(ConsoleLine::Stdout(progress_line(console_stage(operation), c.completed, c.total)))
            },
            ProgressUpdate::Progress { operation, size } => {
                let c = self.counters_of(operation);
                let p = progress_percent(c.completed, c.total);
                if c.shown != p {
                    let line = progress_line(console_stage(operation), c.completed, c.total);
                    if p.is_some() {
                        self.set_counters(operation, StageCounters { total: c.total, completed: c.completed, shown: p });
                    }
                    Some(ConsoleLine::Stdout(line))
                } else {
                    None
                }
            },
            ProgressUpdate::DiagnosticMessage { message } => {
                let mut line = String::new();
                push_str(&mut line, "  ");
                push_str(&mut line, message.as_str());
                Some(ConsoleLine::Stdout(line))
            },
            ProgressUpdate::Finished(operation) => {
                let c = self.counters_of(operation);
                let v = match c.total {
                    Some(t) => t,
                    None => c.completed,
                };
                if c.shown != Some(100u64) {
                    self.set_counters(operation, StageCounters { total: c.total, completed: c.completed, shown: Some(100) });
                    Some(ConsoleLine::Stdout(progress_line(console_stage(operation), v, c.total)))
                } else {
                    None
                }
            },
            ProgressUpdate::Failed(operation) => {
                let mut line = String::new();
                push_str(&mut line, console_stage(operation));
                push_str(&mut line, "失败");
                Some(ConsoleLine::Stderr(line))
            },
            ProgressUpdate::FlashLayoutReady => None,
        }
    }
}


/// The operation an event is about, if any.
pub open spec fn event_operation(event: ProgressUpdate) -> Option<Operation> {
    match event {
        ProgressUpdate::AddProgressBar { operation, .. } => Some(operation),
        ProgressUpdate::Started(operation) => Some(operation),
        ProgressUpdate::Progress { operation, .. } => Some(operation),
        ProgressUpdate::Finished(operation) => Some(operation),
        ProgressUpdate::Failed(operation) => Some(operation),
        _ => None,
    }
}

/// Each operation is counted on its own: an event leaves the counters of
/// every other operation as they were, for the interface and the console.
pub proof fn lemma_operations_counted_apart(t: ProgressTracker, event: ProgressUpdate, op: Operation)
    requires
        event_operation(event) != Some(op),
    ensures
        t.counted(event).counters(op) == t.counters(op),
        t.console_counted(event).counters(op) == t.counters(op),
{
}

/// Progress adds exactly the reported bytes to its operation, and a new
/// progress bar starts its operation from zero.
pub proof fn lemma_progress_accumulates(t: ProgressTracker, op: Operation, size: u64, total: Option<u64>)
    requires
        t.counters(op).completed + size <= u64::MAX,
    ensures
        t.counted(ProgressUpdate::Progress { operation: op, size }).counters(op).completed == t.counters(op).completed
            + size,
        t.counted(ProgressUpdate::AddProgressBar { operation: op, total }).counters(op).completed == 0,
{
}


/// The tracker after counting `events` in order.
pub open spec fn counted_all(t: ProgressTracker, events: Seq<ProgressUpdate>) -> ProgressTracker
    decreases events.len(),
{
    if events.len() == 0 {
        t
    } else {
        counted_all(t, events.drop_last()).counted(events.last())
    }
}

/// The bytes that the `Progress` events of `events` report for `op`.
pub open spec fn progress_sum(events: Seq<ProgressUpdate>, op: Operation) -> int
    decreases events.len(),
{
    if events.len() == 0 {
        0
    } else {
        progress_sum(events.drop_last(), op) + match events.last() {
            ProgressUpdate::Progress { operation, size } => if operation == op { size as int } else { 0 },
            _ => 0,
        }
    }
}

proof fn lemma_progress_sum_nonneg(events: Seq<ProgressUpdate>, op: Operation)
    ensures
        progress_sum(events, op) >= 0,
    decreases events.len(),
{
    if events.len() > 0 {
        lemma_progress_sum_nonneg(events.drop_last(), op);
    }
}

/// `event` reports progress of `op`, or is not about `op` at all.
pub open spec fn progress_or_other(event: ProgressUpdate, op: Operation) -> bool {
    (event matches ProgressUpdate::Progress { operation, .. } && operation == op) || event_operation(event) != Some(op)
}

/// Over a run of progress events (other operations' events in between),
/// the interface is told the running total of the bytes done of `op`, with
/// its announced size and no message; and once `op` finishes, it is told the
/// announced size as done (or the bytes counted, when no size was announced).
pub proof fn lemma_reports_accumulate(t: ProgressTracker, op: Operation, events: Seq<ProgressUpdate>)
    requires
        forall|k: int| 0 <= k < events.len() ==> progress_or_other(#[trigger] events[k], op),
        t.counters(op).completed + progress_sum(events, op) <= u64::MAX,
    ensures
        counted_all(t, events).counters(op) == (StageCounters {
            total: t.counters(op).total,
            completed: (t.counters(op).completed + progress_sum(events, op)) as u64,
            shown: t.counters(op).shown,
        }),
        forall|k: int|
            0 <= k < events.len() && (#[trigger] events[k] matches ProgressUpdate::Progress { operation, .. }
                && operation == op) ==> counted_all(t, events.take(k)).report(events[k]) == Some(
                FlashEventView {
                    stage: stage_name(op),
                    completed: (t.counters(op).completed + progress_sum(events.take(k + 1), op)) as u64,
                    total: t.counters(op).total,
                    message: None,
                },
            ),
        counted_all(t, events).report(ProgressUpdate::Finished(op)) == Some(
            FlashEventView {
                stage: stage_name(op),
                completed: match t.counters(op).total {
                    Some(total) => total,
                    None => (t.counters(op).completed + progress_sum(events, op)) as u64,
                },
                total: t.counters(op).total,
                message: None,
            },
        ),
    decreases events.len(),
{
    if events.len() > 0 {
        let init = events.drop_last();
        let e = events.last();
        lemma_progress_sum_nonneg(init, op);
        assert(progress_sum(init, op) <= progress_sum(events, op));
        assert forall|k: int| 0 <= k < init.len() implies progress_or_other(#[trigger] init[k], op) by {
            assert(init[k] == events[k]);
        }
        lemma_reports_accumulate(t, op, init);
        assert(progress_or_other(events[events.len() - 1], op));
        let before = counted_all(t, init);
        let c0 = t.counters(op);
        assert(counted_all(t, events) == before.counted(e));
        match e {
            ProgressUpdate::Progress { operation, size } => {
                if operation == op {
                    assert(progress_sum(events, op) == progress_sum(init, op) + size);
                } else {
                    lemma_operations_counted_apart(before, e, op);
                    assert(progress_sum(events, op) == progress_sum(init, op));
                }
            },
            _ => {
                lemma_operations_counted_apart(before, e, op);
                assert(progress_sum(events, op) == progress_sum(init, op));
            },
        }
        assert forall|k: int|
            0 <= k < events.len() && (#[trigger] events[k] matches ProgressUpdate::Progress { operation, .. }
                && operation == op) implies counted_all(t, events.take(k)).report(events[k]) == Some(
                FlashEventView {
                    stage: stage_name(op),
                    completed: (t.counters(op).completed + progress_sum(events.take(k + 1), op)) as u64,
                    total: t.counters(op).total,
                    message: None,
                },
            ) by {
            if k < init.len() {
                assert(events.take(k) =~= init.take(k));
                assert(events.take(k + 1) =~= init.take(k + 1));
                assert(init[k] == events[k]);
            } else {
                assert(events.take(k) =~= init);
                assert(events.take(k + 1) =~= events);
                assert(events[k] == e);
            }
        }
    }
}


/// The tracker after `events` on the console, in order.
pub open spec fn console_counted_all(t: ProgressTracker, events: Seq<ProgressUpdate>) -> ProgressTracker
    decreases events.len(),
{
    if events.len() == 0 {
        t
    } else {
        console_counted_all(t, events.drop_last()).console_counted(events.last())
    }
}

/// `event` is the end of `op`.
pub open spec fn is_finish(event: ProgressUpdate, op: Operation) -> bool {
    event matches ProgressUpdate::Finished(o) && o == op
}

/// The percentage that the console prints for `op` on a progress or finish
/// event of `op`, if it prints one.
pub open spec fn printed_percent(t: ProgressTracker, event: ProgressUpdate, op: Operation) -> Option<u64> {
    let c = t.counters(op);
    match event {
        ProgressUpdate::Progress { operation, size } => if operation == op {
            let v = (c.completed + size) as u64;
            if c.shown != percent_of(v, c.total) {
                percent_of(v, c.total)
            } else {
                None
            }
        } else {
            None
        },
        ProgressUpdate::Finished(o) => if o == op && c.shown != Some(100u64) {
            percent_of(
                match c.total {
                    Some(total) => total,
                    None => c.completed,
                },
                c.total,
            )
        } else {
            None
        },
        _ => None,
    }
}

/// The percentages printed for `op` over `events`, in order.
pub open spec fn printed_percents(t: ProgressTracker, events: Seq<ProgressUpdate>, op: Operation) -> Seq<u64>
    decreases events.len(),
{
    if events.len() == 0 {
        Seq::empty()
    } else {
        let init = events.drop_last();
        printed_percents(t, init, op) + match printed_percent(console_counted_all(t, init), events.last(), op) {
            Some(p) => seq![p],
            None => Seq::empty(),
        }
    }
}

/// On the console the percentages of one operation only rise: from a bar of
/// known size (whose hundredfold fits in 64 bits) whose shown percentage is
/// the current one (as right after the bar appears), progress events of the
/// operation, other operations' events in between, and at most a final end
/// of the operation print strictly increasing percentages above the one
/// shown, none above 100, so 100 is printed at most once.
pub proof fn lemma_console_percentages_rise(t: ProgressTracker, op: Operation, events: Seq<ProgressUpdate>)
    requires
        t.counters(op).total matches Some(total) && 0 < total && total * 100 <= u64::MAX,
        t.counters(op).shown == percent_of(t.counters(op).completed, t.counters(op).total),
        forall|k: int|
            0 <= k < events.len() ==> progress_or_other(#[trigger] events[k], op) || (is_finish(events[k], op) && k
                == events.len() - 1),
        t.counters(op).completed + progress_sum(events, op) <= u64::MAX,
    ensures
        ({
            let ps = printed_percents(t, events, op);
            &&& forall|i: int, j: int| 0 <= i < j < ps.len() ==> ps[i] < ps[j]
            &&& forall|i: int| 0 <= i < ps.len() ==> t.counters(op).shown->0 < #[trigger] ps[i] <= 100
        }),
        ({
            let c = console_counted_all(t, events).counters(op);
            let ps = printed_percents(t, events, op);
            &&& c.total == t.counters(op).total
            &&& c.completed == t.counters(op).completed + progress_sum(events, op)
            &&& c.shown matches Some(sh) && sh <= 100 && t.counters(op).shown->0 <= sh
            &&& forall|i: int| 0 <= i < ps.len() ==> #[trigger] ps[i] <= c.shown->0
            &&& (events.len() == 0 || !is_finish(events.last(), op)) ==> c.shown == percent_of(c.completed, c.total)
        }),
    decreases events.len(),
{
    let c0 = t.counters(op);
    let total = c0.total->0;
    lemma_percent_bounded(c0.completed, c0.total);
    if events.len() > 0 {
        let init = events.drop_last();
        let e = events.last();
        lemma_progress_sum_nonneg(init, op);
        assert forall|k: int| 0 <= k < init.len() implies progress_or_other(#[trigger] init[k], op) by {
            assert(init[k] == events[k]);
            assert(progress_or_other(events[k], op) || (is_finish(events[k], op) && k == events.len() - 1));
        }
        assert(progress_or_other(events[events.len() - 1], op) || is_finish(events[events.len() - 1], op));
        assert(progress_sum(init, op) <= progress_sum(events, op)) by {
            match e {
                ProgressUpdate::Progress { operation, size } => {},
                _ => {},
            }
        }
        lemma_console_percentages_rise(t, op, init);
        let before = console_counted_all(t, init);
        let c = before.counters(op);
        let ps0 = printed_percents(t, init, op);
        assert(init.len() == 0 || !is_finish(init.last(), op)) by {
            if init.len() > 0 {
                assert(init.last() == events[init.len() - 1]);
                assert(progress_or_other(events[init.len() - 1], op) || (is_finish(events[init.len() - 1], op) && init.len() - 1 == events.len() - 1));
            }
        }
        assert(c.shown == percent_of(c.completed, c.total));
        lemma_percent_bounded(c.completed, c.total);
        assert(console_counted_all(t, events) == before.console_counted(e));
        match e {
            ProgressUpdate::Progress { operation, size } => {
                if operation == op {
                    assert(progress_sum(events, op) == progress_sum(init, op) + size);
                    let v = (c.completed + size) as u64;
                    lemma_percent_monotone(c.completed, v, total);
                    lemma_percent_bounded(v, c.total);
                } else {
                    lemma_operations_counted_apart(before, e, op);
                    assert(progress_sum(events, op) == progress_sum(init, op));
                }
            },
            ProgressUpdate::Finished(o) => {
                if o == op {
                    lemma_percent_complete(total, total);
                } else {
                    lemma_operations_counted_apart(before, e, op);
                }
                assert(progress_sum(events, op) == progress_sum(init, op));
            },
            _ => {
                lemma_operations_counted_apart(before, e, op);
                assert(progress_sum(events, op) == progress_sum(init, op));
            },
        }
        let ps = printed_percents(t, events, op);
        assert forall|i: int| 0 <= i < ps0.len() implies ps[i] == #[trigger] ps0[i] by {}
    }
}


/// For an operation of known size, the console prints a line on a progress
/// or finish event of it exactly when `printed_percent` gives a percentage,
/// and the line shows that percentage.
pub proof fn lemma_printed_percent_is_printed(t: ProgressTracker, event: ProgressUpdate, op: Operation)
    requires
        t.counters(op).total matches Some(total) && 0 < total,
        event matches ProgressUpdate::Progress { operation, .. } && operation == op || is_finish(event, op),
    ensures
        t.console_report(event) is Some <==> printed_percent(t, event, op) is Some,
        printed_percent(t, event, op) matches Some(p) ==> t.console_report(event) == Some(
            ConsoleLineView::Stdout(
                pad_right(console_stage_name(op), 4) + seq![' '] + pad_left(decimal(p as nat), 3) + seq!['%'],
            ),
        ),
{
}


/// After a progress bar of known size appears for `op`, the interface is
/// told the bar (nothing done yet, the size), then on each progress of `op`
/// the bytes done so far and the size, and on its end the size as done;
/// none of these reports carries a message.  Other operations' events may
/// come in between.
pub proof fn lemma_bar_reports_accumulate(
    t: ProgressTracker,
    op: Operation,
    total: u64,
    events: Seq<ProgressUpdate>,
)
    requires
        forall|k: int| 0 <= k < events.len() ==> progress_or_other(#[trigger] events[k], op),
        progress_sum(events, op) <= u64::MAX,
    ensures
        t.report(ProgressUpdate::AddProgressBar { operation: op, total: Some(total) }) == Some(
            FlashEventView { stage: stage_name(op), completed: 0, total: Some(total), message: None },
        ),
        ({
            let b = t.counted(ProgressUpdate::AddProgressBar { operation: op, total: Some(total) });
            &&& forall|k: int|
                0 <= k < events.len() && (#[trigger] events[k] matches ProgressUpdate::Progress { operation, .. }
                    && operation == op) ==> counted_all(b, events.take(k)).report(events[k]) == Some(
                    FlashEventView {
                        stage: stage_name(op),
                        completed: progress_sum(events.take(k + 1), op) as u64,
                        total: Some(total),
                        message: None,
                    },
                )
            &&& counted_all(b, events).report(ProgressUpdate::Finished(op)) == Some(
                FlashEventView { stage: stage_name(op), completed: total, total: Some(total), message: None },
            )
        }),
{
    let b = t.counted(ProgressUpdate::AddProgressBar { operation: op, total: Some(total) });
    assert(b.counters(op).completed == 0 && b.counters(op).total == Some(total));
    lemma_reports_accumulate(b, op, events);
}


/// The percentage is the whole part of the share done: when the work done
/// is within the total (and its hundredfold fits in 64 bits), `p` percent
/// means `p * total <= completed * 100 < (p + 1) * total`.
pub proof fn lemma_percent_exact(completed: u64, total: u64)
    requires
        0 < total,
        completed <= total,
        total * 100 <= u64::MAX,
    ensures
        percent_of(completed, Some(total)) matches Some(p) && p * total <= completed * 100 < (p + 1) * total,
{
    let c100: int = completed * 100;
    assert(c100 <= total * 100) by (nonlinear_arith)
        requires
            completed <= total,
            c100 == completed * 100,
    ;
    let q = c100 / (total as int);
    assert(q * total <= c100 < (q + 1) * total) by (nonlinear_arith)
        requires
            total > 0,
            q == c100 / (total as int),
            c100 >= 0,
    ;
    assert(q <= 100) by (nonlinear_arith)
        requires
            total > 0,
            q * total <= c100,
            c100 <= total * 100,
    ;
}

} // verus!
