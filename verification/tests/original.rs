use udap::backend::ProbeRsBackend;
use udap::cli::matching_targets;
use udap::options::parse_address;
use udap::progress::progress_percent;

#[test]
fn builtin_target_list_is_available_and_sorted() {
    let targets = ProbeRsBackend::list_targets().unwrap();
    assert!(targets.len() > 100);
    assert!(
        targets
            .windows(2)
            .all(|pair| pair[0].name.to_ascii_lowercase() <= pair[1].name.to_ascii_lowercase())
    );
}

#[test]
fn parses_hex_and_decimal_addresses() {
    assert_eq!(parse_address("0x08000000").unwrap(), 0x0800_0000);
    assert_eq!(parse_address("134217728").unwrap(), 0x0800_0000);
    assert!(parse_address("0xXYZ").is_err());
}

#[test]
fn target_search_is_available_and_sorted() {
    let targets = matching_targets("STM32F103");
    assert!(!targets.is_empty());
    assert!(targets.windows(2).all(|pair| pair[0] <= pair[1]));
}

#[test]
fn calculates_bounded_progress() {
    assert_eq!(progress_percent(5, Some(10)), Some(50));
    assert_eq!(progress_percent(20, Some(10)), Some(100));
    assert_eq!(progress_percent(1, None), None);
}
