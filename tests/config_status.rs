use spoolease::app_config::AppConfig;

#[test]
fn readiness_follows_reports() {
    let mut c = AppConfig::new();
    assert_eq!(c.tag_scan_timeout, 10);
    assert!(c.missing_configs());
    c.set_printer_config(Some([192, 168, 1, 20]), "SERIAL".to_string(), "".to_string());
    assert!(c.missing_configs());
    assert_eq!(c.printer_access_code, None);
    c.set_printer_config(None, "SERIAL".to_string(), "CODE".to_string());
    assert!(!c.missing_configs());
    c.config_loaded();
    assert!(!c.initialization_ok(true));
    c.report_pn532(true);
    assert!(c.initialization_ok(true));
    assert!(!c.initialization_ok(false));
    assert!(!c.boot_completed(true, true));
    c.report_printer_connectivity(true);
    assert!(c.boot_completed(true, true));
    c.set_tag_config(30);
    assert_eq!(c.tag_scan_timeout, 30);
}

#[test]
fn resync_only_after_printer_was_up() {
    let mut link = spoolease::connectivity::PrinterLink::new();
    assert!(!link.on_keepalive_timeout());
    link.on_message();
    assert!(link.on_keepalive_timeout());
    assert!(!link.on_keepalive_timeout());
}
