use udap::cli::{parse_command, Command};
use udap::options::{
    next_value, parse_address, parse_connection_options, parse_flash_options, parse_probe_number,
    parse_protocol, parse_speed, strip_path_quotes, Protocol,
};
use udap::text::decimal_string;

fn args(items: &[&str]) -> Vec<String> {
    items.iter().map(|s| s.to_string()).collect()
}

#[test]
fn protocol_names_ignore_case_and_spaces() {
    assert_eq!(parse_protocol(" SWD ").unwrap(), Protocol::Swd);
    assert_eq!(parse_protocol("Jtag").unwrap(), Protocol::Jtag);
    assert_eq!(parse_protocol("spi").unwrap_err(), "协议仅支持 SWD 或 JTAG");
}

#[test]
fn addresses_in_both_forms() {
    assert_eq!(parse_address(" 0X10 ").unwrap(), 16);
    assert_eq!(parse_address("0xff").unwrap(), 255);
    assert_eq!(parse_address("+5").unwrap(), 5);
    assert_eq!(parse_address("0x+10").unwrap(), 16);
    assert_eq!(parse_address("18446744073709551615").unwrap(), u64::MAX);
    assert_eq!(parse_address("18446744073709551616").unwrap_err(), "无效地址：18446744073709551616");
    assert_eq!(parse_address("0x").unwrap_err(), "无效地址：0x");
    assert_eq!(parse_address("  ").unwrap_err(), "无效地址：");
    assert_eq!(parse_address("12 34").unwrap_err(), "无效地址：12 34");
}

#[test]
fn decimal_and_hex_forms_agree() {
    for n in [0u64, 1, 9, 10, 255, 0x0800_0000, 123456789, u64::MAX] {
        assert_eq!(parse_address(&decimal_string(n)).unwrap(), n);
        assert_eq!(parse_address(&format!("0x{n:x}")).unwrap(), n);
        assert_eq!(parse_address(&format!("0X{n:x}")).unwrap(), n);
    }
}

#[test]
fn speeds_are_at_least_one_khz() {
    assert_eq!(parse_speed("0").unwrap(), 1);
    assert_eq!(parse_speed("4000").unwrap(), 4000);
    assert_eq!(parse_speed("-1").unwrap_err(), "--speed 必须是正整数");
    assert_eq!(parse_speed("4294967296").unwrap_err(), "--speed 必须是正整数");
}

#[test]
fn probe_numbers() {
    assert_eq!(parse_probe_number("2").unwrap(), 2);
    assert_eq!(parse_probe_number("two").unwrap_err(), "--probe 必须是数字");
}

#[test]
fn path_quotes_are_removed() {
    assert_eq!(strip_path_quotes("  \"C:\\fw\\app.bin\"  "), "C:\\fw\\app.bin");
    assert_eq!(strip_path_quotes("'app.hex'"), "app.hex");
    assert_eq!(strip_path_quotes("\"'a'\""), "a");
    assert_eq!(strip_path_quotes("plain"), "plain");
}

#[test]
fn next_value_steps_over_the_option() {
    let a = args(&["--speed", "100"]);
    let mut index = 0;
    assert_eq!(next_value(&a, &mut index, "--speed").unwrap(), "100");
    assert_eq!(index, 1);
    let mut index = 1;
    assert_eq!(next_value(&a, &mut index, "--speed").unwrap_err(), "--speed 缺少参数");
    assert_eq!(index, 2);
}

#[test]
fn connection_options_defaults_and_flags() {
    let c = parse_connection_options(&args(&[])).unwrap();
    assert_eq!((c.probe_number, c.protocol, c.speed_khz, c.connect_under_reset), (1, Protocol::Swd, 4000, false));
    let c = parse_connection_options(&args(&[
        "--probe", "3", "--protocol", "jtag", "--speed", "0", "--connect-under-reset",
    ]))
    .unwrap();
    assert_eq!((c.probe_number, c.protocol, c.speed_khz, c.connect_under_reset), (3, Protocol::Jtag, 1, true));
}

#[test]
fn connection_option_errors() {
    assert_eq!(parse_connection_options(&args(&["--probe"])).unwrap_err(), "--probe 缺少参数");
    assert_eq!(parse_connection_options(&args(&["--probe", "x"])).unwrap_err(), "--probe 必须是数字");
    assert_eq!(parse_connection_options(&args(&["--protocol", "spi"])).unwrap_err(), "协议仅支持 SWD 或 JTAG");
    assert_eq!(parse_connection_options(&args(&["--target", "X"])).unwrap_err(), "未知选项：--target");
    assert_eq!(parse_connection_options(&args(&["--speed", "1", "extra"])).unwrap_err(), "未知选项：extra");
}

#[test]
fn flash_options_defaults_and_flags() {
    let f = parse_flash_options(&args(&["\"fw.bin\""])).unwrap();
    assert_eq!(f.firmware, "fw.bin");
    assert_eq!((f.target.clone(), f.base_address, f.verify, f.chip_erase, f.reset_after), (None, None, true, false, true));
    let f = parse_flash_options(&args(&[
        "fw.bin", "--target", "STM32F103C8", "--base-address", "0x08000000", "--chip-erase", "--no-verify",
        "--no-reset", "--probe", "2",
    ]))
    .unwrap();
    assert_eq!(f.target.as_deref(), Some("STM32F103C8"));
    assert_eq!(f.base_address, Some(0x0800_0000));
    assert_eq!((f.verify, f.chip_erase, f.reset_after, f.connection.probe_number), (false, true, false, 2));
}

#[test]
fn flash_option_errors() {
    assert_eq!(parse_flash_options(&args(&[])).unwrap_err(), "flash 命令需要固件文件路径");
    assert_eq!(parse_flash_options(&args(&["--target", "X"])).unwrap_err(), "flash 命令需要固件文件路径");
    assert_eq!(parse_flash_options(&args(&["fw.bin", "--base-address", "xyz"])).unwrap_err(), "无效地址：xyz");
    assert_eq!(parse_flash_options(&args(&["fw.bin", "--target"])).unwrap_err(), "--target 缺少参数");
}

#[test]
fn command_words() {
    assert!(matches!(parse_command(&args(&[])).unwrap(), Command::Interactive));
    for w in ["-h", "--help", "help"] {
        assert!(matches!(parse_command(&args(&[w])).unwrap(), Command::Help));
    }
    for w in ["-V", "--version", "version"] {
        assert!(matches!(parse_command(&args(&[w])).unwrap(), Command::Version));
    }
    assert!(matches!(parse_command(&args(&["probes"])).unwrap(), Command::Probes));
    match parse_command(&args(&["targets", "stm32"])).unwrap() {
        Command::Targets(q) => assert_eq!(q.as_deref(), Some("stm32")),
        _ => panic!("expected targets"),
    }
    assert!(matches!(parse_command(&args(&["targets"])).unwrap(), Command::Targets(None)));
    match parse_command(&args(&["detect", "--speed", "100"])).unwrap() {
        Command::Detect(c) => assert_eq!(c.speed_khz, 100),
        _ => panic!("expected detect"),
    }
    match parse_command(&args(&["flash", "app.hex"])).unwrap() {
        Command::Flash(f) => assert_eq!(f.firmware, "app.hex"),
        _ => panic!("expected flash"),
    }
    assert_eq!(parse_command(&args(&["erase"])).err().unwrap(), "未知命令：erase。请使用 --help 查看帮助。");
    assert_eq!(parse_command(&args(&["detect", "--x"])).err().unwrap(), "未知选项：--x");
}

#[test]
fn upper_case_and_padded_addresses() {
    for n in [0u64, 10, 0xabcdef, 0x0800_0000, u64::MAX] {
        assert_eq!(parse_address(&format!("0X{n:X}")).unwrap(), n);
        assert_eq!(parse_address(&format!("0x{n:X}")).unwrap(), n);
        assert_eq!(parse_address(&format!(" {n} ")).unwrap(), n);
        assert_eq!(parse_address(&format!(" {n:#x} ")).unwrap(), n);
    }
    assert_eq!(parse_address("  0x10000000000000000 ").unwrap_err(), "无效地址：0x10000000000000000");
    assert_eq!(parse_address("").unwrap_err(), "无效地址：");
}

#[test]
fn quote_stripping_keeps_the_inside() {
    assert_eq!(strip_path_quotes("dir/\"odd\" name.bin"), "dir/\"odd\" name.bin");
    assert_eq!(strip_path_quotes(" ''fw.bin'' "), "fw.bin");
    assert_eq!(strip_path_quotes("'\"fw.bin\"'"), "\"fw.bin\"");
    let s = strip_path_quotes("  \"'a'b'\"  ");
    assert_eq!(s, "a'b");
    assert!(!s.starts_with('\'') && !s.ends_with('\''));
}

#[test]
fn last_repeated_option_wins() {
    let f = parse_flash_options(&args(&[
        "fw.bin", "--speed", "100", "--target", "A", "--speed", "0", "--target", "B", "--probe", "3", "--probe", "2",
    ]))
    .unwrap();
    assert_eq!(f.connection.speed_khz, 1);
    assert_eq!(f.target.as_deref(), Some("B"));
    assert_eq!(f.connection.probe_number, 2);
}

#[test]
fn unknown_options_are_refused_where_they_stand() {
    assert_eq!(
        parse_flash_options(&args(&["fw.bin", "--speed", "5", "--bogus", "--target", "x"])).unwrap_err(),
        "未知选项：--bogus"
    );
    assert_eq!(parse_connection_options(&args(&["--probe", "1", "--target", "x"])).unwrap_err(), "未知选项：--target");
}
