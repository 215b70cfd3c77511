use udap::backend::{firmware_loader as gui_loader, ProbeRsBackend};
use udap::cli::{available_probes, detect_report, firmware_loader, list_probes, list_targets, target_lines};
use udap::firmware::{classify_extension, firmware_kind, is_bin, is_bin_ext, FirmwareFormat, FormatChoice};
use udap::probes::{find_probe_by_key, probe_info, probe_key, ProbeEntry};
use udap::targets::{names_matching, targets_from_families, ChipFamilyEntry, ChipVariant};

fn chip(name: &str, cores: &[&str]) -> ChipVariant {
    ChipVariant {
        name: name.to_string(),
        core_types: cores.iter().map(|s| s.to_string()).collect(),
        package_variants: vec![format!("{name}Tx")],
    }
}

fn families() -> Vec<ChipFamilyEntry> {
    vec![
        ChipFamilyEntry { name: "Zeta".into(), variants: vec![chip("nRF52", &["Armv7em"]), chip("ABC", &[])] },
        ChipFamilyEntry { name: "Alpha".into(), variants: vec![chip("abc", &["Riscv"]), chip("Mid", &["Armv6m", "Armv7m"])] },
    ]
}

fn probe(serial: Option<&str>, interface: Option<u8>) -> ProbeEntry {
    ProbeEntry {
        identifier: "CMSIS-DAP".into(),
        vendor_id: 0x0d28,
        product_id: 0x204,
        serial_number: serial.map(|s| s.to_string()),
        interface,
        is_hid_interface: true,
    }
}

#[test]
fn targets_are_sorted_case_insensitively_and_deduplicated() {
    let t = targets_from_families(families());
    let names: Vec<_> = t.iter().map(|t| t.name.as_str()).collect();
    assert_eq!(names, vec!["ABC", "Mid", "nRF52"]);
    assert_eq!(t[0].family, "Zeta");
    assert_eq!(t[0].architecture, "Unknown");
    assert_eq!(t[1].architecture, "Armv6m");
    assert_eq!(t[2].aliases, vec!["nRF52Tx".to_string()]);
}

#[test]
fn builtin_targets_are_strictly_ordered() {
    let t = ProbeRsBackend::list_targets().unwrap();
    assert!(t.windows(2).all(|p| p[0].name.to_ascii_lowercase() < p[1].name.to_ascii_lowercase()));
}

#[test]
fn name_search_trims_and_ignores_case() {
    let f = families();
    assert_eq!(names_matching(&f, "  AB "), vec!["ABC".to_string()]);
    assert_eq!(names_matching(&f, ""), vec!["ABC".to_string(), "Mid".to_string(), "nRF52".to_string()]);
    assert_eq!(names_matching(&f, "rf5"), vec!["nRF52".to_string()]);
    assert!(names_matching(&f, "xyz").is_empty());
    assert_eq!(names_matching(&f, "RF5"), names_matching(&f, " rf5 "));
    // A narrower keyword finds what a wider one finds and also matches it.
    let wide = names_matching(&f, "b");
    let narrowed: Vec<String> = wide.iter().filter(|n| n.to_ascii_lowercase().contains("abc")).cloned().collect();
    assert_eq!(names_matching(&f, "ABC"), narrowed);
    let all = names_matching(&f, "");
    let with_m: Vec<String> = all.iter().filter(|n| n.to_ascii_lowercase().contains('m')).cloned().collect();
    assert_eq!(names_matching(&f, " M"), with_m);
}

#[test]
fn target_listing_lines() {
    assert_eq!(target_lines(vec![]).unwrap_err(), "没有找到匹配的目标芯片");
    assert_eq!(target_lines(vec!["A".into(), "B".into()]).unwrap(), vec!["A", "B", "\n共 2 个目标"]);
    let lines = list_targets(Some("STM32F103C8")).unwrap();
    assert!(lines.last().unwrap().starts_with("\n共 "));
    assert_eq!(list_targets(Some("no-such-chip-anywhere")).unwrap_err(), "没有找到匹配的目标芯片");
}

#[test]
fn probe_keys() {
    assert_eq!(probe_key(&probe(Some("ABC"), Some(3))), "0d28:0204:ABC:3");
    assert_eq!(probe_key(&probe(None, None)), "0d28:0204::");
    let info = probe_info(probe(Some("X1"), Some(0)));
    assert_eq!(info.id, "0d28:0204:X1:0");
    assert_eq!(info.name, "CMSIS-DAP");
    assert_eq!(info.serial_number.as_deref(), Some("X1"));
}

#[test]
fn listed_probes_are_found_by_their_id() {
    let probes = vec![probe(Some("A"), None), probe(Some("B"), Some(1)), probe(Some("B"), Some(1))];
    let listed = ProbeRsBackend::list_probes(probes).unwrap();
    let probes = vec![probe(Some("A"), None), probe(Some("B"), Some(1)), probe(Some("B"), Some(1))];
    assert_eq!(find_probe_by_key(&probes, &listed[0].id), Some(0));
    assert_eq!(find_probe_by_key(&probes, &listed[2].id), Some(1));
    assert_eq!(find_probe_by_key(&probes, "0d28:0204:C:"), None);
}

#[test]
fn probe_listing() {
    assert_eq!(available_probes(vec![]).unwrap_err(), "未发现 CMSIS-DAP 调试器，请检查 USB 连接和驱动");
    assert_eq!(list_probes(vec![]).unwrap_err(), "未发现 CMSIS-DAP 调试器，请检查 USB 连接和驱动");
    let lines = list_probes(vec![probe(Some("S1"), None), probe(None, None)]).unwrap();
    assert_eq!(lines, vec!["发现 2 个调试器：", "  1. CMSIS-DAP [0d28:0204] SN=S1", "  2. CMSIS-DAP [0d28:0204]"]);
}

#[test]
fn detect_report_lines() {
    assert_eq!(detect_report("STM32F103C8", 4000), vec!["目标芯片：STM32F103C8", "实际时钟：4000 kHz"]);
}

#[test]
fn firmware_formats_by_extension() {
    assert!(is_bin("fw.bin"));
    assert!(is_bin("FW.BIN"));
    assert!(!is_bin("fw.hex"));
    assert!(!is_bin("firmware"));
    assert!(is_bin_ext(Some("Bin")));
    assert!(matches!(classify_extension(Some("ELF"), None), FormatChoice::Format(FirmwareFormat::Elf)));
    assert!(matches!(classify_extension(Some("axf"), None), FormatChoice::Format(FirmwareFormat::Elf)));
    assert!(matches!(classify_extension(Some("IHex"), None), FormatChoice::Format(FirmwareFormat::Hex)));
    assert!(matches!(classify_extension(Some("uf2"), None), FormatChoice::Format(FirmwareFormat::Uf2)));
    assert!(matches!(classify_extension(Some("bin"), None), FormatChoice::NeedsBaseAddress));
    assert!(matches!(
        classify_extension(Some("bin"), Some(8)),
        FormatChoice::Format(FirmwareFormat::Bin { base_address: 8 })
    ));
    assert!(matches!(classify_extension(Some("txt"), Some(8)), FormatChoice::Unsupported));
    assert!(matches!(classify_extension(None, None), FormatChoice::Unsupported));
    assert!(matches!(firmware_kind("dir.v2/app.HEX", None), FormatChoice::Format(FirmwareFormat::Hex)));
}

#[test]
fn firmware_in_directories_uses_the_file_name() {
    assert!(is_bin("build/fw.bin"));
    assert!(is_bin("/home/user/out/FW.Bin"));
    assert!(!is_bin(".bin"));
    assert!(!is_bin("fw.bin.hex"));
    assert!(!is_bin("out.bin/firmware"));
    assert!(matches!(firmware_kind("/tmp/a.b/fw.bin.hex", None), FormatChoice::Format(FirmwareFormat::Hex)));
    assert!(matches!(firmware_kind("/tmp/build/app.elf", None), FormatChoice::Format(FirmwareFormat::Elf)));
    assert!(matches!(firmware_loader("/srv/fw/app.uf2", None), Ok(FirmwareFormat::Uf2)));
    assert!(is_bin("固件.bin"));
    assert!(is_bin("/home/用户/my fw (1).BIN"));
    assert!(matches!(firmware_kind("下载/固件 v2.hex", None), FormatChoice::Format(FirmwareFormat::Hex)));
    assert!(matches!(firmware_loader("my fw.elf", None), Ok(FirmwareFormat::Elf)));
    assert!(!is_bin("固件"));
}

#[test]
fn builtin_database_ends_with_the_generic_chips() {
    let t = ProbeRsBackend::list_targets().unwrap();
    for name in ["Cortex-M0", "Cortex-M0+", "Cortex-M4", "Cortex-M55", "riscv", "riscv64"] {
        assert!(t.iter().any(|x| x.name.eq_ignore_ascii_case(name)), "{name}");
    }
    let all = udap::cli::matching_targets("");
    assert!(all.len() > 100);
    assert_eq!(udap::cli::matching_targets("  "), all);
    assert!(udap::cli::matching_targets("riscv64").contains(&"riscv64".to_string()));
}

#[test]
fn firmware_loader_errors() {
    assert_eq!(firmware_loader("a.bin", None).err().unwrap(), "BIN 文件必须指定烧录基地址");
    assert_eq!(firmware_loader("a.txt", None).err().unwrap(), "不支持的固件格式，仅支持 ELF、AXF、HEX、BIN 和 UF2");
    assert!(matches!(firmware_loader("a.elf", None), Ok(FirmwareFormat::Elf)));
    let e = gui_loader("a.hex", None, false).unwrap_err();
    assert_eq!((e.code.as_str(), e.message.as_str()), ("FIRMWARE_NOT_FOUND", "固件文件不存在或无法访问"));
    assert_eq!(gui_loader("a.bin", None, true).unwrap_err().code, "BASE_ADDRESS_REQUIRED");
    let e = gui_loader("a.srec", None, true).unwrap_err();
    assert_eq!(e.code, "FIRMWARE_FORMAT_UNSUPPORTED");
    assert_eq!(e.message, "固件格式不受支持，请选择 ELF、HEX、BIN 或 UF2 文件");
    assert!(matches!(gui_loader("a.uf2", None, true), Ok(FirmwareFormat::Uf2)));
}
