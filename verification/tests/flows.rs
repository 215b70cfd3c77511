use udap::progress::{Operation, ProgressUpdate};
use udap::backend::{GuiStep, ProbeRsBackend};
use udap::cli_flow::{CliFlow, CliStep};
use udap::firmware::FirmwareFormat;
use udap::flow::{Reply, Request};
use udap::interactive::{Dialogue, DialogueReply, DialogueRequest, DialogueStep};
use udap::models::{DetectRequest, FlashRequest};
use udap::options::{ConnectionOptions, FlashOptions, Protocol};
use udap::probes::{probe_key, ProbeEntry};

fn probe(serial: &str) -> ProbeEntry {
    ProbeEntry {
        identifier: "DAPLink".into(),
        vendor_id: 0x0d28,
        product_id: 0x0204,
        serial_number: Some(serial.into()),
        interface: None,
        is_hid_interface: false,
    }
}

fn conn(probe_number: usize) -> ConnectionOptions {
    ConnectionOptions { probe_number, protocol: Protocol::Swd, speed_khz: 0, connect_under_reset: true }
}

fn cli_ask(step: CliStep) -> (Vec<String>, Request) {
    match step {
        CliStep::Ask { say, request } => (say, request),
        other => panic!("expected a request, got {other:?}"),
    }
}

fn gui_ask(step: GuiStep) -> (Option<String>, Request) {
    match step {
        GuiStep::Ask { emit, request } => (emit.map(|e| e.stage.to_string()), request),
        other => panic!("expected a request, got {other:?}"),
    }
}

fn attached(name: &str) -> Reply {
    Reply::Attached { name: name.into(), architecture: "Arm".into() }
}

#[test]
fn cli_detect_runs_to_the_target() {
    let (mut f, step) = CliFlow::detect(conn(2));
    assert!(matches!(cli_ask(step).1, Request::ListProbes));
    assert!(matches!(cli_ask(f.on_reply(Reply::ProbesFound(vec![probe("A"), probe("B")]))).1, Request::OpenProbe(1)));
    assert!(matches!(cli_ask(f.on_reply(Reply::Done)).1, Request::SelectProtocol(Protocol::Swd)));
    assert!(matches!(cli_ask(f.on_reply(Reply::Done)).1, Request::SetSpeed(1)));
    match cli_ask(f.on_reply(Reply::SpeedSet(1000))).1 {
        Request::Attach { target, connect_under_reset } => assert!(target.is_none() && connect_under_reset),
        other => panic!("{other:?}"),
    }
    match f.on_reply(attached("STM32F103C8")) {
        CliStep::Detected { target, speed_khz } => assert_eq!((target.as_str(), speed_khz), ("STM32F103C8", 1000)),
        other => panic!("{other:?}"),
    }
    assert!(matches!(f.on_reply(Reply::Done), CliStep::Idle));
}

#[test]
fn cli_detect_errors() {
    let (mut f, _) = CliFlow::detect(conn(1));
    match f.on_reply(Reply::ProbesFound(vec![])) {
        CliStep::Fail(e) => assert_eq!(e, "未发现 CMSIS-DAP 调试器，请检查 USB 连接和驱动"),
        other => panic!("{other:?}"),
    }
    let (mut f, _) = CliFlow::detect(conn(3));
    match f.on_reply(Reply::ProbesFound(vec![probe("A"), probe("B")])) {
        CliStep::Fail(e) => assert_eq!(e, "调试器序号 3 无效，当前共发现 2 个"),
        other => panic!("{other:?}"),
    }
    let (mut f, _) = CliFlow::detect(conn(0));
    match f.on_reply(Reply::ProbesFound(vec![probe("A")])) {
        CliStep::Fail(e) => assert_eq!(e, "调试器序号 0 无效，当前共发现 1 个"),
        other => panic!("{other:?}"),
    }
    let (mut f, _) = CliFlow::detect(conn(1));
    // A reply that does not answer the request repeats it.
    assert!(matches!(cli_ask(f.on_reply(Reply::Done)).1, Request::ListProbes));
    f.on_reply(Reply::ProbesFound(vec![probe("A")]));
    match f.on_reply(Reply::Failed("busy".into())) {
        CliStep::Fail(e) => assert_eq!(e, "无法打开调试器：busy"),
        other => panic!("{other:?}"),
    }
    let (mut f, _) = CliFlow::detect(conn(1));
    f.on_reply(Reply::ProbesFound(vec![probe("A")]));
    f.on_reply(Reply::Done);
    f.on_reply(Reply::Done);
    f.on_reply(Reply::SpeedSet(10));
    match f.on_reply(Reply::Failed("no target".into())) {
        CliStep::Fail(e) => assert_eq!(e, "无法自动识别目标芯片：no target"),
        other => panic!("{other:?}"),
    }
}

fn flash_options(firmware: &str, target: Option<&str>, base: Option<u64>, reset_after: bool) -> FlashOptions {
    FlashOptions {
        connection: conn(1),
        firmware: firmware.into(),
        target: target.map(|t| t.into()),
        base_address: base,
        verify: true,
        chip_erase: false,
        reset_after,
    }
}

fn link(f: &mut CliFlow) -> CliStep {
    f.on_reply(Reply::ProbesFound(vec![probe("A")]));
    f.on_reply(Reply::Done);
    f.on_reply(Reply::Done);
    f.on_reply(Reply::SpeedSet(4000))
}

#[test]
fn cli_flash_with_a_named_target() {
    let (mut f, step) = CliFlow::flash(flash_options("app.bin", Some("STM32F103C8"), Some(0x0800_0000), true));
    match cli_ask(step).1 {
        Request::CheckFile(p) => assert_eq!(p, "app.bin"),
        other => panic!("{other:?}"),
    }
    let (say, request) = cli_ask(f.on_reply(Reply::FileExists(true)));
    assert_eq!(say, vec!["正在连接 STM32F103C8……"]);
    assert!(matches!(request, Request::ListProbes));
    match cli_ask(link(&mut f)).1 {
        Request::Attach { target, .. } => assert_eq!(target.as_deref(), Some("STM32F103C8")),
        other => panic!("{other:?}"),
    }
    match cli_ask(f.on_reply(attached("STM32F103C8"))).1 {
        Request::Download { path, format, verify, chip_erase } => {
            assert_eq!(path, "app.bin");
            assert!(matches!(format, FirmwareFormat::Bin { base_address: 0x0800_0000 }));
            assert!(verify && !chip_erase);
        }
        other => panic!("{other:?}"),
    }
    let (say, request) = cli_ask(f.on_reply(Reply::Done));
    assert_eq!(say, vec!["正在复位目标……"]);
    assert!(matches!(request, Request::ResetCore));
    assert!(matches!(f.on_reply(Reply::Done), CliStep::Flashed));
}

#[test]
fn cli_flash_detects_the_target_first() {
    let (mut f, _) = CliFlow::flash(flash_options("app.hex", None, None, false));
    let (say, _) = cli_ask(f.on_reply(Reply::FileExists(true)));
    assert_eq!(say, vec!["正在自动识别目标……"]);
    match cli_ask(link(&mut f)).1 {
        Request::Attach { target, .. } => assert!(target.is_none()),
        other => panic!("{other:?}"),
    }
    let (say, request) = cli_ask(f.on_reply(attached("nRF52840_xxAA")));
    assert_eq!(say, vec!["识别成功：nRF52840_xxAA（4000 kHz）", "正在连接 nRF52840_xxAA……"]);
    assert!(matches!(request, Request::ListProbes));
    match cli_ask(link(&mut f)).1 {
        Request::Attach { target, .. } => assert_eq!(target.as_deref(), Some("nRF52840_xxAA")),
        other => panic!("{other:?}"),
    }
    assert!(matches!(cli_ask(f.on_reply(attached("nRF52840_xxAA"))).1, Request::Download { format: FirmwareFormat::Hex, .. }));
    assert!(matches!(f.on_reply(Reply::Done), CliStep::Flashed));
}

#[test]
fn cli_flash_errors() {
    let (mut f, _) = CliFlow::flash(flash_options("app.bin", Some("X"), None, true));
    match f.on_reply(Reply::FileExists(false)) {
        CliStep::Fail(e) => assert_eq!(e, "固件文件不存在：app.bin"),
        other => panic!("{other:?}"),
    }
    let (mut f, _) = CliFlow::flash(flash_options("app.bin", Some("X"), None, true));
    match f.on_reply(Reply::FileExists(true)) {
        CliStep::Fail(e) => assert_eq!(e, "BIN 文件必须通过 --base-address 指定烧录地址"),
        other => panic!("{other:?}"),
    }
    let (mut f, _) = CliFlow::flash(flash_options("app.srec", Some("X"), None, true));
    f.on_reply(Reply::FileExists(true));
    link(&mut f);
    match f.on_reply(attached("X")) {
        CliStep::Fail(e) => assert_eq!(e, "不支持的固件格式，仅支持 ELF、AXF、HEX、BIN 和 UF2"),
        other => panic!("{other:?}"),
    }
    let (mut f, _) = CliFlow::flash(flash_options("app.elf", Some("X"), None, true));
    f.on_reply(Reply::FileExists(true));
    link(&mut f);
    match f.on_reply(Reply::Failed("timeout".into())) {
        CliStep::Fail(e) => assert_eq!(e, "无法连接目标芯片 X：timeout"),
        other => panic!("{other:?}"),
    }
    let (mut f, _) = CliFlow::flash(flash_options("app.elf", Some("X"), None, true));
    f.on_reply(Reply::FileExists(true));
    link(&mut f);
    f.on_reply(attached("X"));
    match f.on_reply(Reply::Failed("erase".into())) {
        CliStep::Fail(e) => assert_eq!(e, "固件烧录失败：erase"),
        other => panic!("{other:?}"),
    }
    let (mut f, _) = CliFlow::flash(flash_options("app.elf", Some("X"), None, true));
    f.on_reply(Reply::FileExists(true));
    link(&mut f);
    f.on_reply(attached("X"));
    f.on_reply(Reply::Done);
    match f.on_reply(Reply::Failed("halt".into())) {
        CliStep::Fail(e) => assert_eq!(e, "固件已写入，但目标复位失败：halt"),
        other => panic!("{other:?}"),
    }
}

fn detect_request(probe_id: String, protocol: &str) -> DetectRequest {
    DetectRequest { probe_id, protocol: protocol.into(), speed_khz: 0, connect_under_reset: false }
}

#[test]
fn gui_detect_runs_to_the_target() {
    let probes = vec![probe("A"), probe("B")];
    let id = probe_key(&probes[1]);
    let (mut f, step) = ProbeRsBackend::detect_target(detect_request(id, "swd"));
    assert!(matches!(gui_ask(step), (None, Request::AcquireHardware)));
    assert!(matches!(gui_ask(f.on_reply(Reply::Done)), (None, Request::ListProbes)));
    assert!(matches!(gui_ask(f.on_reply(Reply::ProbesFound(probes))).1, Request::OpenProbe(1)));
    assert!(matches!(gui_ask(f.on_reply(Reply::Done)).1, Request::SelectProtocol(Protocol::Swd)));
    assert!(matches!(gui_ask(f.on_reply(Reply::Done)).1, Request::SetSpeed(1)));
    assert!(matches!(gui_ask(f.on_reply(Reply::SpeedSet(500))).1, Request::Attach { target: None, connect_under_reset: false }));
    match f.on_reply(attached("RP2040")) {
        GuiStep::Detected(r) => {
            assert_eq!(r.target.name, "RP2040");
            assert_eq!(r.target.family, "RP2040");
            assert_eq!(r.target.architecture, "Arm");
            assert!(r.target.aliases.is_empty());
            assert_eq!(r.actual_speed_khz, 500);
        }
        other => panic!("{other:?}"),
    }
}

fn gui_error(step: GuiStep) -> (String, String, Option<String>) {
    match step {
        GuiStep::Fail(e) => (e.code, e.message, e.detail),
        other => panic!("{other:?}"),
    }
}

#[test]
fn gui_detect_errors() {
    let (mut f, _) = ProbeRsBackend::detect_target(detect_request("x".into(), "swd"));
    assert_eq!(gui_error(f.on_reply(Reply::Failed(String::new()))).0, "HARDWARE_BUSY");
    let (mut f, _) = ProbeRsBackend::detect_target(detect_request("x".into(), "swd"));
    f.on_reply(Reply::Done);
    let e = gui_error(f.on_reply(Reply::ProbesFound(vec![probe("A")])));
    assert_eq!((e.0.as_str(), e.1.as_str()), ("PROBE_NOT_FOUND", "所选调试器已断开，请重新扫描"));
    let id = probe_key(&probe("A"));
    let (mut f, _) = ProbeRsBackend::detect_target(detect_request(id.clone(), " swd"));
    f.on_reply(Reply::Done);
    f.on_reply(Reply::ProbesFound(vec![probe("A")]));
    assert_eq!(gui_error(f.on_reply(Reply::Done)).0, "INVALID_PROTOCOL");
    let (mut f, _) = ProbeRsBackend::detect_target(detect_request(id.clone(), "JTAG"));
    f.on_reply(Reply::Done);
    f.on_reply(Reply::ProbesFound(vec![probe("A")]));
    let e = gui_error(f.on_reply(Reply::Failed("in use".into())));
    assert_eq!((e.0.as_str(), e.2.as_deref()), ("PROBE_OPEN_FAILED", Some("in use")));
    let (mut f, _) = ProbeRsBackend::detect_target(detect_request(id, "JTAG"));
    f.on_reply(Reply::Done);
    f.on_reply(Reply::ProbesFound(vec![probe("A")]));
    assert!(matches!(gui_ask(f.on_reply(Reply::Done)).1, Request::SelectProtocol(Protocol::Jtag)));
    assert_eq!(gui_error(f.on_reply(Reply::Failed("no".into()))).0, "PROTOCOL_FAILED");
}

fn flash_request(probe_id: String, firmware: &str, base: Option<u64>, reset_after: bool) -> FlashRequest {
    FlashRequest {
        probe_id,
        target_name: "STM32F407VG".into(),
        firmware_path: firmware.into(),
        protocol: "swd".into(),
        speed_khz: 1800,
        connect_under_reset: true,
        base_address: base,
        verify: false,
        chip_erase: true,
        reset_after,
    }
}

fn gui_link(f: &mut GuiFlow) -> GuiStep {
    f.on_reply(Reply::Done);
    f.on_reply(Reply::ProbesFound(vec![probe("A")]));
    f.on_reply(Reply::Done);
    f.on_reply(Reply::Done);
    f.on_reply(Reply::SpeedSet(1800))
}

use udap::backend::GuiFlow;

#[test]
fn gui_flash_runs_to_completion() {
    let id = probe_key(&probe("A"));
    let (mut f, _) = ProbeRsBackend::flash(flash_request(id, "fw.uf2", None, true));
    assert!(matches!(gui_ask(f.on_reply(Reply::Done)), (Some(ref s), Request::ListProbes) if s == "connecting"));
    f.on_reply(Reply::ProbesFound(vec![probe("A")]));
    f.on_reply(Reply::Done);
    assert!(matches!(gui_ask(f.on_reply(Reply::Done)).1, Request::SetSpeed(1800)));
    match gui_ask(f.on_reply(Reply::SpeedSet(1800))).1 {
        Request::Attach { target, connect_under_reset } => {
            assert_eq!(target.as_deref(), Some("STM32F407VG"));
            assert!(connect_under_reset);
        }
        other => panic!("{other:?}"),
    }
    assert!(matches!(gui_ask(f.on_reply(attached("STM32F407VG"))).1, Request::CheckFile(ref p) if p == "fw.uf2"));
    assert!(matches!(
        gui_ask(f.on_reply(Reply::FileExists(true))).1,
        Request::Download { format: FirmwareFormat::Uf2, verify: false, chip_erase: true, .. }
    ));
    assert!(matches!(gui_ask(f.on_reply(Reply::Done)), (Some(ref s), Request::ResetCore) if s == "resetting"));
    match f.on_reply(Reply::Done) {
        GuiStep::Flashed { emit, target_name } => {
            assert_eq!((emit.stage, emit.completed, emit.total), ("completed", 1, Some(1)));
            assert_eq!(target_name, "STM32F407VG");
        }
        other => panic!("{other:?}"),
    }
}

#[test]
fn gui_flash_errors() {
    let id = probe_key(&probe("A"));
    let (mut f, _) = ProbeRsBackend::flash(flash_request(id.clone(), "fw.bin", None, false));
    gui_link(&mut f);
    assert_eq!(gui_error(f.on_reply(Reply::Failed("x".into()))).0, "TARGET_ATTACH_FAILED");
    let (mut f, _) = ProbeRsBackend::flash(flash_request(id.clone(), "fw.bin", None, false));
    gui_link(&mut f);
    f.on_reply(attached("T"));
    assert_eq!(gui_error(f.on_reply(Reply::FileExists(false))).0, "FIRMWARE_NOT_FOUND");
    let (mut f, _) = ProbeRsBackend::flash(flash_request(id.clone(), "fw.bin", None, false));
    gui_link(&mut f);
    f.on_reply(attached("T"));
    assert_eq!(gui_error(f.on_reply(Reply::FileExists(true))).0, "BASE_ADDRESS_REQUIRED");
    let (mut f, _) = ProbeRsBackend::flash(flash_request(id.clone(), "fw.bin", Some(0x1000), false));
    gui_link(&mut f);
    f.on_reply(attached("T"));
    f.on_reply(Reply::FileExists(true));
    match f.on_reply(Reply::Done) {
        GuiStep::Flashed { target_name, .. } => assert_eq!(target_name, "STM32F407VG"),
        other => panic!("{other:?}"),
    }
    let (mut f, _) = ProbeRsBackend::flash(flash_request(id.clone(), "fw.elf", None, true));
    gui_link(&mut f);
    f.on_reply(attached("T"));
    f.on_reply(Reply::FileExists(true));
    let e = gui_error(f.on_reply(Reply::Failed("verify".into())));
    assert_eq!((e.0.as_str(), e.1.as_str(), e.2.as_deref()), ("FLASH_FAILED", "固件烧录失败", Some("verify")));
    let (mut f, _) = ProbeRsBackend::flash(flash_request(id, "fw.elf", None, true));
    gui_link(&mut f);
    f.on_reply(attached("T"));
    f.on_reply(Reply::FileExists(true));
    f.on_reply(Reply::Done);
    assert_eq!(gui_error(f.on_reply(Reply::Failed("r".into()))).0, "RESET_FAILED");
}

#[test]
fn gui_download_is_the_checked_image() {
    let id = probe_key(&probe("A"));
    let (mut f, _) = ProbeRsBackend::flash(flash_request(id, "FW.BIN", Some(0x2000), false));
    gui_link(&mut f);
    f.on_reply(attached("T"));
    let first = gui_ask(f.on_reply(Reply::FileExists(true))).1;
    assert!(matches!(
        first,
        Request::Download { ref path, format: FirmwareFormat::Bin { base_address: 0x2000 }, verify: false, chip_erase: true }
            if path == "FW.BIN"
    ));
    // A reply that does not answer the download asks for the same download.
    let again = gui_ask(f.on_reply(Reply::FileExists(true))).1;
    assert!(matches!(again, Request::Download { format: FirmwareFormat::Bin { base_address: 0x2000 }, .. }));
    assert!(matches!(f.on_reply(Reply::Done), GuiStep::Flashed { .. }));
}

fn prompt_of(step: DialogueStep) -> (Vec<String>, String) {
    match step {
        DialogueStep::Ask { say, request: DialogueRequest::Prompt(label) } => (say, label),
        other => panic!("expected a question, got {other:?}"),
    }
}

fn line(d: &mut Dialogue, text: &str) -> DialogueStep {
    d.on_reply(DialogueReply::Line(text.into()))
}

#[test]
fn dialogue_with_search_and_retries() {
    let (mut d, step) = Dialogue::new();
    assert!(matches!(step, DialogueStep::Ask { request: DialogueRequest::ListProbes, .. }));
    let (say, label) = prompt_of(d.on_reply(DialogueReply::Probes(vec![probe("S")])));
    assert_eq!(say, vec!["发现 1 个调试器：", "  1. DAPLink [0d28:0204] SN=S", "自动选择调试器 1。\n"]);
    assert_eq!(label, "接口协议 SWD/JTAG [SWD]");
    assert_eq!(prompt_of(line(&mut d, " \n")).1, "调试时钟 (kHz) [4000]");
    assert_eq!(prompt_of(line(&mut d, "")).1, "是否复位下连接 [y/N]");
    assert_eq!(prompt_of(line(&mut d, "maybe")).0, vec!["请输入 y 或 n。 "]);
    match line(&mut d, "n") {
        DialogueStep::Ask { say, request: DialogueRequest::Detect(c) } => {
            assert_eq!(say, vec!["\n正在自动识别目标……"]);
            assert_eq!((c.probe_number, c.protocol, c.speed_khz, c.connect_under_reset), (1, Protocol::Swd, 4000, false));
        }
        other => panic!("{other:?}"),
    }
    let (say, label) = prompt_of(d.on_reply(DialogueReply::Detection(Err("no chip".into()))));
    assert_eq!((say, label.as_str()), (vec!["自动识别失败：no chip".to_string()], "请输入目标型号关键字"));
    assert_eq!(prompt_of(line(&mut d, "  ")).0, vec!["该项不能为空。 "]);
    match line(&mut d, "stm") {
        DialogueStep::Ask { request: DialogueRequest::SearchTargets(q), .. } => assert_eq!(q, "stm"),
        other => panic!("{other:?}"),
    }
    assert_eq!(
        prompt_of(d.on_reply(DialogueReply::Targets(vec![]))).0,
        vec!["没有匹配结果，请换一个关键字。 "]
    );
    line(&mut d, "stm");
    let names: Vec<String> = (0..60).map(|i| format!("CHIP{i:02}")).collect();
    let (say, label) = prompt_of(d.on_reply(DialogueReply::Targets(names)));
    assert_eq!(say.len(), 51);
    assert_eq!(say[0], "匹配结果（仅显示前 50 个）：");
    assert_eq!(say[50], "  50. CHIP49");
    assert_eq!(label, "请选择目标 [1]");
    assert_eq!(prompt_of(line(&mut d, "51")).0, vec!["请输入 1 到 50 之间的数字。 "]);
    assert_eq!(prompt_of(line(&mut d, "2")).1, "请输入固件路径");
    match line(&mut d, " 'fw.bin' ") {
        DialogueStep::Ask { request: DialogueRequest::CheckFile(p), .. } => assert_eq!(p, "fw.bin"),
        other => panic!("{other:?}"),
    }
    assert_eq!(prompt_of(d.on_reply(DialogueReply::FileExists(true))).1, "BIN 烧录基地址 [0x08000000]");
    assert_eq!(prompt_of(line(&mut d, "")).1, "烧录后校验 [Y/n]");
    assert_eq!(prompt_of(line(&mut d, "")).1, "执行全片擦除 [y/N]");
    assert_eq!(prompt_of(line(&mut d, "y")).1, "烧录后复位运行 [Y/n]");
    let (say, label) = prompt_of(line(&mut d, "n"));
    assert_eq!(say, vec!["\n即将烧录：", "  目标：CHIP01", "  文件：fw.bin"]);
    assert_eq!(label, "确认开始 [Y/n]");
    match line(&mut d, "") {
        DialogueStep::Flash(o) => {
            assert_eq!(o.target.as_deref(), Some("CHIP01"));
            assert_eq!(o.firmware, "fw.bin");
            assert_eq!(o.base_address, Some(0x0800_0000));
            assert_eq!((o.verify, o.chip_erase, o.reset_after), (true, true, false));
        }
        other => panic!("{other:?}"),
    }
}

#[test]
fn dialogue_detection_and_cancel() {
    let (mut d, _) = Dialogue::new();
    let (_, label) = prompt_of(d.on_reply(DialogueReply::Probes(vec![probe("A"), probe("B")])));
    assert_eq!(label, "请选择调试器 [1]");
    line(&mut d, "2");
    line(&mut d, "jtag");
    line(&mut d, "100");
    line(&mut d, "y");
    let (say, label) = prompt_of(d.on_reply(DialogueReply::Detection(Ok(("STM32F103C8".into(), 100)))));
    assert_eq!((say, label.as_str()), (vec!["识别成功：STM32F103C8（100 kHz）".to_string()], "请输入固件路径"));
    line(&mut d, "fw.hex");
    assert_eq!(prompt_of(d.on_reply(DialogueReply::FileExists(true))).1, "烧录后校验 [Y/n]");
    line(&mut d, "");
    line(&mut d, "");
    line(&mut d, "");
    match line(&mut d, "否") {
        DialogueStep::Cancelled(say) => assert_eq!(say, vec!["已取消。 "]),
        other => panic!("{other:?}"),
    }
    let (mut d, _) = Dialogue::new();
    match d.on_reply(DialogueReply::Probes(vec![])) {
        DialogueStep::Fail(e) => assert_eq!(e, "未发现 CMSIS-DAP 调试器，请检查 USB 连接和驱动"),
        other => panic!("{other:?}"),
    }
    let (mut d, _) = Dialogue::new();
    d.on_reply(DialogueReply::Probes(vec![probe("A")]));
    match line(&mut d, "spi") {
        DialogueStep::Fail(e) => assert_eq!(e, "协议仅支持 SWD 或 JTAG"),
        other => panic!("{other:?}"),
    }
    let (mut d, _) = Dialogue::new();
    d.on_reply(DialogueReply::Probes(vec![probe("A")]));
    line(&mut d, "");
    match line(&mut d, "fast") {
        DialogueStep::Fail(e) => assert_eq!(e, "调试时钟必须是正整数"),
        other => panic!("{other:?}"),
    }
    let (mut d, _) = Dialogue::new();
    d.on_reply(DialogueReply::Probes(vec![probe("A")]));
    line(&mut d, "");
    line(&mut d, "");
    line(&mut d, "");
    d.on_reply(DialogueReply::Detection(Ok(("T".into(), 1))));
    line(&mut d, "missing.bin");
    match d.on_reply(DialogueReply::FileExists(false)) {
        DialogueStep::Fail(e) => assert_eq!(e, "固件文件不存在：missing.bin"),
        other => panic!("{other:?}"),
    }
}

#[test]
fn gui_flash_reports_running_totals() {
    let id = probe_key(&probe("A"));
    let (mut f, _) = ProbeRsBackend::flash(flash_request(id, "fw.hex", None, false));
    let mut sent = vec![];
    let events = vec![
        ProgressUpdate::AddProgressBar { operation: Operation::Program, total: Some(100) },
        ProgressUpdate::Progress { operation: Operation::Program, size: 30 },
        ProgressUpdate::Progress { operation: Operation::Erase, size: 7 },
        ProgressUpdate::Progress { operation: Operation::Program, size: 25 },
        ProgressUpdate::Finished(Operation::Program),
    ];
    for e in events {
        assert!(f.can_count(&e));
        if let Some(r) = f.on_progress(e) {
            sent.push((r.stage, r.completed, r.total, r.message));
        }
    }
    assert_eq!(sent[0], ("programming", 0, Some(100), None));
    assert_eq!(sent[1], ("programming", 30, Some(100), None));
    assert_eq!(sent[2], ("erasing", 7, None, None));
    assert_eq!(sent[3], ("programming", 55, Some(100), None));
    assert_eq!(sent[4], ("programming", 100, Some(100), None));
}
