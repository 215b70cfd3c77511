use udap::progress::{
    console_stage, operation_stage, progress_line, progress_percent, ConsoleLine, Operation, ProgressTracker,
    ProgressUpdate,
};
use udap::prompts::{
    answer_text, clock_answer, default_prompt_label, number_answer, number_retry_text, prompt_default,
    required_answer, yes_no_answer, yes_no_prompt_label,
};

fn report(t: &mut ProgressTracker, u: ProgressUpdate) -> Option<(String, u64, Option<u64>, Option<String>)> {
    t.report_progress(u).map(|e| (e.stage.to_string(), e.completed, e.total, e.message))
}

fn console(t: &mut ProgressTracker, u: ProgressUpdate) -> Option<String> {
    match t.console_progress(u) {
        Some(ConsoleLine::Stdout(s)) => Some(s),
        Some(ConsoleLine::Stderr(s)) => Some(format!("stderr:{s}")),
        None => None,
    }
}

#[test]
fn percentages_are_bounded() {
    assert_eq!(progress_percent(0, Some(0)), None);
    assert_eq!(progress_percent(7, Some(3)), Some(100));
    assert_eq!(progress_percent(1, Some(3)), Some(33));
    assert_eq!(progress_percent(u64::MAX, Some(u64::MAX)), Some(1));
    assert_eq!(progress_percent(u64::MAX, Some(1000)), Some(100));
    for c in 0..50u64 {
        assert!(progress_percent(c, Some(37)).unwrap() <= 100);
        assert!(progress_percent(c, Some(37)) <= progress_percent(c + 1, Some(37)));
    }
}

#[test]
fn stage_names() {
    assert_eq!(operation_stage(Operation::Erase), "erasing");
    assert_eq!(operation_stage(Operation::Fill), "filling");
    assert_eq!(operation_stage(Operation::Program), "programming");
    assert_eq!(operation_stage(Operation::Verify), "verifying");
    assert_eq!(console_stage(Operation::Erase), "擦除");
    assert_eq!(console_stage(Operation::Fill), "准备");
    assert_eq!(console_stage(Operation::Program), "写入");
    assert_eq!(console_stage(Operation::Verify), "校验");
}

#[test]
fn progress_lines_are_padded() {
    assert_eq!(progress_line("写入", 5, Some(10)), format!("{:<4} {:>3}%", "写入", 50));
    assert_eq!(progress_line("写入", 10, Some(10)), "写入   100%");
    assert_eq!(progress_line("programming", 1, Some(10)), "programming  10%");
    assert_eq!(progress_line("校验", 3, None), "校验……");
}

#[test]
fn interface_reports_follow_the_counters() {
    let mut t = ProgressTracker::new();
    assert_eq!(
        report(&mut t, ProgressUpdate::AddProgressBar { operation: Operation::Program, total: Some(100) }),
        Some(("programming".into(), 0, Some(100), None))
    );
    assert_eq!(report(&mut t, ProgressUpdate::Started(Operation::Program)), Some(("programming".into(), 0, Some(100), None)));
    assert_eq!(
        report(&mut t, ProgressUpdate::Progress { operation: Operation::Program, size: 40 }),
        Some(("programming".into(), 40, Some(100), None))
    );
    assert_eq!(
        report(&mut t, ProgressUpdate::Progress { operation: Operation::Program, size: 2 }),
        Some(("programming".into(), 42, Some(100), None))
    );
    assert_eq!(
        report(&mut t, ProgressUpdate::DiagnosticMessage { message: "hello".into() }),
        Some(("message".into(), 0, None, Some("hello".into())))
    );
    assert_eq!(report(&mut t, ProgressUpdate::Finished(Operation::Program)), Some(("programming".into(), 100, Some(100), None)));
    assert_eq!(report(&mut t, ProgressUpdate::Failed(Operation::Program)), None);
    assert_eq!(report(&mut t, ProgressUpdate::FlashLayoutReady), None);
    // A bar without a size keeps the size known before and restarts the count.
    assert_eq!(
        report(&mut t, ProgressUpdate::AddProgressBar { operation: Operation::Program, total: None }),
        Some(("programming".into(), 0, None, None))
    );
    assert_eq!(t.counters_of(Operation::Program).total, Some(100));
    assert_eq!(t.counters_of(Operation::Program).completed, 0);
    // Without a size, finishing reports the bytes done.
    assert_eq!(
        report(&mut t, ProgressUpdate::Progress { operation: Operation::Verify, size: 7 }),
        Some(("verifying".into(), 7, None, None))
    );
    assert_eq!(report(&mut t, ProgressUpdate::Finished(Operation::Verify)), Some(("verifying".into(), 7, None, None)));
}

#[test]
fn counting_refuses_overflow() {
    let mut t = ProgressTracker::new();
    let big = ProgressUpdate::Progress { operation: Operation::Erase, size: u64::MAX };
    assert!(t.can_count(&big));
    report(&mut t, big);
    assert!(!t.can_count(&ProgressUpdate::Progress { operation: Operation::Erase, size: 1 }));
    assert!(t.can_count(&ProgressUpdate::Progress { operation: Operation::Fill, size: 1 }));
}

#[test]
fn operations_are_counted_apart() {
    let mut t = ProgressTracker::new();
    report(&mut t, ProgressUpdate::AddProgressBar { operation: Operation::Program, total: Some(100) });
    report(&mut t, ProgressUpdate::Progress { operation: Operation::Program, size: 40 });
    report(&mut t, ProgressUpdate::Progress { operation: Operation::Verify, size: 5 });
    report(&mut t, ProgressUpdate::AddProgressBar { operation: Operation::Erase, total: Some(7) });
    assert_eq!(report(&mut t, ProgressUpdate::Started(Operation::Program)), Some(("programming".into(), 40, Some(100), None)));
    assert_eq!(report(&mut t, ProgressUpdate::Started(Operation::Verify)), Some(("verifying".into(), 5, None, None)));
    // A new bar starts its operation from zero and keeps an earlier total
    // when none is announced.
    report(&mut t, ProgressUpdate::AddProgressBar { operation: Operation::Program, total: None });
    assert_eq!(report(&mut t, ProgressUpdate::Started(Operation::Program)), Some(("programming".into(), 0, Some(100), None)));
}

#[test]
fn console_percentages_only_rise() {
    let mut t = ProgressTracker::new();
    console(&mut t, ProgressUpdate::AddProgressBar { operation: Operation::Program, total: Some(1000) });
    let mut printed = vec![];
    for size in [1u64, 3, 6, 10, 0, 90, 400, 7, 300, 183] {
        console(&mut t, ProgressUpdate::Progress { operation: Operation::Verify, size: 5 });
        if let Some(line) = console(&mut t, ProgressUpdate::Progress { operation: Operation::Program, size }) {
            printed.push(line);
        }
    }
    if let Some(line) = console(&mut t, ProgressUpdate::Finished(Operation::Program)) {
        printed.push(line);
    }
    let percents: Vec<u64> = printed.iter().map(|l| l.trim_end_matches('%').split_whitespace().last().unwrap().parse().unwrap()).collect();
    assert!(percents.windows(2).all(|w| w[0] < w[1]), "{percents:?}");
    assert_eq!(percents.last(), Some(&100));
    assert_eq!(percents.iter().filter(|p| **p == 100).count(), 1);
}

#[test]
fn console_prints_only_changes() {
    let mut t = ProgressTracker::new();
    assert_eq!(
        console(&mut t, ProgressUpdate::AddProgressBar { operation: Operation::Erase, total: Some(10) }).unwrap(),
        format!("{:<4} {:>3}%", "擦除", 0)
    );
    assert_eq!(console(&mut t, ProgressUpdate::Started(Operation::Erase)).unwrap(), format!("{:<4} {:>3}%", "擦除", 0));
    assert_eq!(
        console(&mut t, ProgressUpdate::Progress { operation: Operation::Erase, size: 5 }).unwrap(),
        format!("{:<4} {:>3}%", "擦除", 50)
    );
    assert_eq!(console(&mut t, ProgressUpdate::Progress { operation: Operation::Erase, size: 0 }), None);
    assert_eq!(
        console(&mut t, ProgressUpdate::Progress { operation: Operation::Erase, size: 5 }).unwrap(),
        format!("{:<4} {:>3}%", "擦除", 100)
    );
    assert_eq!(console(&mut t, ProgressUpdate::Finished(Operation::Erase)), None);
    assert_eq!(console(&mut t, ProgressUpdate::Failed(Operation::Program)).unwrap(), "stderr:写入失败");
    assert_eq!(console(&mut t, ProgressUpdate::DiagnosticMessage { message: "hi".into() }).unwrap(), "  hi");
    assert_eq!(console(&mut t, ProgressUpdate::FlashLayoutReady), None);
    // Progress without any bar: no percentage, and none was printed either.
    assert_eq!(console(&mut t, ProgressUpdate::Progress { operation: Operation::Fill, size: 3 }), None);
    assert_eq!(console(&mut t, ProgressUpdate::Finished(Operation::Fill)).unwrap(), "准备……");
}

#[test]
fn prompt_answers() {
    assert_eq!(answer_text("  abc \r\n"), "abc");
    assert_eq!(default_prompt_label("接口协议 SWD/JTAG", "SWD"), "接口协议 SWD/JTAG [SWD]");
    assert_eq!(yes_no_prompt_label("确认开始", true), "确认开始 [Y/n]");
    assert_eq!(yes_no_prompt_label("是否复位下连接", false), "是否复位下连接 [y/N]");
    assert_eq!(prompt_default(String::new(), "SWD"), "SWD");
    assert_eq!(prompt_default("jtag".into(), "SWD"), "jtag");
    assert_eq!(required_answer(String::new()), None);
    assert_eq!(required_answer("x".into()), Some("x".to_string()));
    assert_eq!(yes_no_answer("", true), Some(true));
    assert_eq!(yes_no_answer("", false), Some(false));
    assert_eq!(yes_no_answer("YES", false), Some(true));
    assert_eq!(yes_no_answer("是", false), Some(true));
    assert_eq!(yes_no_answer("N", true), Some(false));
    assert_eq!(yes_no_answer("否", true), Some(false));
    assert_eq!(yes_no_answer("maybe", true), None);
    assert_eq!(number_answer(String::new(), 1, 3), Some(1));
    assert_eq!(number_answer("3".into(), 1, 3), Some(3));
    assert_eq!(number_answer("4".into(), 1, 3), None);
    assert_eq!(number_answer("0".into(), 1, 3), None);
    assert_eq!(number_answer("x".into(), 1, 3), None);
    assert_eq!(number_retry_text(1, 3), "请输入 1 到 3 之间的数字。 ");
    assert_eq!(clock_answer("0").unwrap(), 1);
    assert_eq!(clock_answer("x").unwrap_err(), "调试时钟必须是正整数");
}
