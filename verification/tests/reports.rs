use sc4_setup::ram_check::{check_ram_report, RamVerdict};
use sc4_setup::report::SystemReport;
use sc4_setup::windows_check::{check_windows_report, windows_report_faults, WindowsVerdict};

#[test]
fn report_entries_split_at_first_tab() {
    let r = SystemReport::parse("Device name\tPC\r\nNo tab here\nProduct ID\ta\tb\n");
    assert_eq!(r.get("Device name"), Some("PC".to_string()));
    assert_eq!(r.get("Product ID"), Some("a\tb".to_string()));
    assert_eq!(r.get("No tab here"), None);
    assert_eq!(r.get("Missing"), None);
}

#[test]
fn later_line_overrides_earlier() {
    let r = SystemReport::parse("Edition\tWindows 10\nEdition\tWindows 11 Pro");
    assert_eq!(r.get("Edition"), Some("Windows 11 Pro".to_string()));
}

#[test]
fn bare_carriage_return_on_last_line_is_kept() {
    let r = SystemReport::parse("Key\tvalue\r");
    assert_eq!(r.get("Key"), Some("value\r".to_string()));
    let r = SystemReport::parse("Key\tvalue\r\n");
    assert_eq!(r.get("Key"), Some("value".to_string()));
}

#[test]
fn windows_11_recent_version_is_accepted() {
    let text = "Edition\tWindows 11 Pro\r\nVersion\t23H2\r\nInstalled on\t1/1/2024\r\n";
    assert!(!windows_report_faults(text));
    assert_eq!(check_windows_report(text), WindowsVerdict::Accepted);
}

#[test]
fn windows_10_is_rejected() {
    let text = "Edition\tWindows 10 Pro\nVersion\t22H2";
    assert_eq!(check_windows_report(text), WindowsVerdict::WrongEdition("Windows 10 Pro".to_string()));
}

#[test]
fn old_version_is_rejected() {
    let text = "Edition\tWindows 11 Home\nVersion\t20H2";
    assert_eq!(check_windows_report(text), WindowsVerdict::OutdatedVersion(20));
    assert_eq!(check_windows_report("Version\t+5"), WindowsVerdict::OutdatedVersion(5));
    assert_eq!(check_windows_report("Version\t21H1"), WindowsVerdict::Accepted);
}

#[test]
fn unreadable_version_passes() {
    assert_eq!(check_windows_report("Version\tabc"), WindowsVerdict::Accepted);
    assert_eq!(check_windows_report("Version\t-1"), WindowsVerdict::Accepted);
    assert!(!windows_report_faults("Version\tä1"));
    assert_eq!(check_windows_report("Version\tä1"), WindowsVerdict::Accepted);
    assert_eq!(check_windows_report(""), WindowsVerdict::Accepted);
}

#[test]
fn short_or_split_version_faults() {
    assert!(windows_report_faults("Version\t2"));
    assert!(windows_report_faults("Version\t"));
    assert!(windows_report_faults("Version\t€1"));
    assert!(windows_report_faults("Version\t2é"));
    // The edition is judged first.
    assert!(!windows_report_faults("Edition\tWindows 10\nVersion\t2"));
    assert_eq!(
        check_windows_report("Edition\tWindows 10\nVersion\t2"),
        WindowsVerdict::WrongEdition("Windows 10".to_string())
    );
}

#[test]
fn ram_digits_are_read_without_the_decimal_point() {
    let text = "Processor\tIntel\r\nInstalled RAM\t16.0 GB (15.7 GB usable)\r\n";
    assert_eq!(check_ram_report(text), RamVerdict::Sufficient("160157".to_string()));
}

#[test]
fn too_little_ram_is_reported() {
    assert_eq!(check_ram_report("Installed RAM\t4 GB"), RamVerdict::Insufficient("4".to_string()));
    assert_eq!(check_ram_report("Installed RAM\t0007"), RamVerdict::Insufficient("0007".to_string()));
    assert_eq!(check_ram_report("Installed RAM\t08 GB"), RamVerdict::Sufficient("08".to_string()));
    assert_eq!(check_ram_report("Installed RAM\t8"), RamVerdict::Sufficient("8".to_string()));
}

#[test]
fn unreadable_ram_is_skipped() {
    assert_eq!(check_ram_report("Installed RAM\tplenty"), RamVerdict::Unreadable);
    assert_eq!(check_ram_report("Installed RAM\t16 ½ GB"), RamVerdict::Unreadable);
    assert_eq!(check_ram_report("Processor\tIntel"), RamVerdict::Unreadable);
}
