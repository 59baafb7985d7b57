use spoolease::api::{Filament as CaliEntry, PrintAms, PrintAmsData, PrintData, PrintTray};
use spoolease::model::{Filament, TrayState};
use spoolease::printer::BambuPrinter;

fn data(command: &str) -> PrintData {
    PrintData {
        ams: None,
        vt_tray: None,
        command: Some(command.to_string()),
        sequence_id: None,
        nozzle_temp_max: None,
        nozzle_temp_min: None,
        tray_color: None,
        tray_id: None,
        ams_id: None,
        cali_idx: None,
        tray_info_idx: None,
        tray_type: None,
        reason: None,
        result: None,
        nozzle_diameter: None,
        filament_id: None,
        filaments: None,
    }
}

fn tray(id: u32, tray_type: &str, idx: &str, color: &str) -> PrintTray {
    PrintTray {
        id,
        k: None,
        cali_idx: None,
        tray_info_idx: Some(idx.to_string()),
        tray_type: Some(tray_type.to_string()),
        tray_color: Some(color.to_string()),
        nozzle_temp_max: None,
        nozzle_temp_min: None,
    }
}

fn ams(exist: Option<&str>, done: Option<&str>, reading: Option<&str>, trays: Vec<PrintTray>) -> PrintAms {
    PrintAms {
        ams: Some(vec![PrintAmsData { id: "0".to_string(), humidity: "5".to_string(), tray: trays }]),
        ams_exist_bits: Some("1".to_string()),
        tray_exist_bits: exist.map(|s| s.to_string()),
        tray_is_bbl_bits: None,
        tray_read_done_bits: done.map(|s| s.to_string()),
        tray_reading_bits: reading.map(|s| s.to_string()),
    }
}

fn push_status(a: PrintAms) -> PrintData {
    let mut d = data("push_status");
    d.nozzle_diameter = Some("0.4".to_string());
    d.ams = Some(a);
    d
}

fn cali_entry(idx: i32, filament_id: &str, k: &str, name: &str) -> CaliEntry {
    CaliEntry {
        filament_id: filament_id.to_string(),
        name: name.to_string(),
        k_value: k.to_string(),
        n_coef: "1.4".to_string(),
        setting_id: "SET1".to_string(),
        cali_idx: idx,
    }
}

fn cali_get(nozzle: &str, filament_id: &str, entries: Vec<CaliEntry>) -> PrintData {
    let mut d = data("extrusion_cali_get");
    d.nozzle_diameter = Some(nozzle.to_string());
    d.filament_id = Some(filament_id.to_string());
    d.filaments = Some(entries);
    d
}

#[test]
fn ams_slot_ready_after_first_report() {
    let mut p = BambuPrinter::new();
    let msg = push_status(ams(Some("0001"), Some("0001"), None, vec![tray(0, "PLA", "GFA00", "FF0000FF")]));
    assert!(p.process_print_message(&msg));
    let t = &p.ams_trays[0];
    assert_eq!(t.state, TrayState::Ready);
    match &t.filament {
        Filament::Known(f) => {
            assert_eq!(f.tray_type, "PLA");
            assert_eq!(f.tray_info_idx, "GFA00");
            assert_eq!(f.tray_color, "FF0000FF");
            assert_eq!(f.nozzle_temp_min, 190);
            assert_eq!(f.nozzle_temp_max, 250);
        }
        Filament::Unknown => panic!("filament should be known"),
    }
    assert_eq!(p.ams_trays[1].state, TrayState::Empty);
    assert_eq!(p.tray_exist_bits, Some(1));
    assert_eq!(p.nozzle_diameter.as_deref(), Some("0.4"));
}

#[test]
fn same_report_twice_changes_nothing() {
    let mut p = BambuPrinter::new();
    let msg = push_status(ams(Some("0003"), Some("0001"), Some("0002"), vec![tray(0, "PLA", "GFA00", "FF0000FF")]));
    assert!(p.process_print_message(&msg));
    assert!(!p.process_print_message(&msg));
    assert_eq!(p.ams_trays[1].state, TrayState::Reading);
}

#[test]
fn unknown_without_exist_bits() {
    let mut p = BambuPrinter::new();
    let msg = push_status(ams(None, Some("0001"), None, vec![tray(0, "PLA", "GFA00", "FF0000FF")]));
    p.process_print_message(&msg);
    for i in 0..16 {
        assert_eq!(p.ams_trays[i].state, TrayState::Unknown);
        assert!(matches!(p.ams_trays[i].filament, Filament::Unknown));
    }
}

#[test]
fn removed_spool_keeps_filament() {
    let mut p = BambuPrinter::new();
    p.process_print_message(&push_status(ams(Some("1"), Some("1"), None, vec![tray(0, "PETG", "GFG99", "00FF00FF")])));
    assert_eq!(p.ams_trays[0].state, TrayState::Ready);
    p.process_print_message(&push_status(ams(Some("0"), Some("0"), None, vec![tray(0, "", "", "")])));
    assert_eq!(p.ams_trays[0].state, TrayState::Empty);
    match &p.ams_trays[0].filament {
        Filament::Known(f) => assert_eq!(f.tray_type, "PETG"),
        Filament::Unknown => panic!("filament should be remembered"),
    }
}

#[test]
fn junk_color_is_ignored() {
    let mut p = BambuPrinter::new();
    let mut good = tray(0, "PLA", "GFA00", "FF0000FF");
    good.k = Some("0.025".to_string());
    good.cali_idx = Some(3);
    p.process_print_message(&push_status(ams(Some("1"), Some("1"), None, vec![good])));
    let before_k = p.ams_trays[0].k.clone();
    assert_eq!(before_k.as_deref(), Some("(0.025)"));
    p.process_print_message(&push_status(ams(Some("1"), Some("1"), None, vec![tray(0, "PLA", "GFA00", "00000000")])));
    assert_eq!(p.ams_trays[0].k, before_k);
    assert_eq!(p.ams_trays[0].cali_idx, Some(3));
    match &p.ams_trays[0].filament {
        Filament::Known(f) => assert_eq!(f.tray_color, "FF0000FF"),
        Filament::Unknown => panic!("filament should be kept"),
    }
}

#[test]
fn junk_external_tray_is_ignored() {
    let mut p = BambuPrinter::new();
    let mut d = data("push_status");
    d.vt_tray = Some(tray(254, "PLA", "GFL99", "FFFFFFFF"));
    assert!(p.process_print_message(&d));
    assert_eq!(p.virt_tray.state, TrayState::Ready);
    let mut d2 = data("push_status");
    d2.vt_tray = Some(tray(254, "00", "00", "00"));
    assert!(!p.process_print_message(&d2));
    assert_eq!(p.virt_tray.state, TrayState::Ready);
}

#[test]
fn external_tray_with_empty_type_is_empty() {
    let mut p = BambuPrinter::new();
    let mut d = data("push_status");
    d.vt_tray = Some(tray(254, "", "", "FFFFFFFF"));
    p.process_print_message(&d);
    assert_eq!(p.virt_tray.state, TrayState::Empty);
}

#[test]
fn calibration_table_rederives_k() {
    let mut p = BambuPrinter::new();
    let mut t0 = tray(0, "PLA", "GFA00", "FF0000FF");
    t0.k = Some("0.030".to_string());
    t0.cali_idx = Some(7);
    let mut t1 = tray(1, "PLA", "GFA00", "FF0000FF");
    t1.k = Some("0.040".to_string());
    t1.cali_idx = Some(9);
    p.process_print_message(&push_status(ams(Some("3"), Some("3"), None, vec![t0, t1])));
    assert_eq!(p.ams_trays[0].k.as_deref(), Some("(0.030)"));
    let msg = cali_get("0.4", "", vec![cali_entry(7, "GFA00", "0.021", "Red PLA")]);
    assert!(p.process_print_message(&msg));
    assert_eq!(p.ams_trays[0].k.as_deref(), Some("0.021"));
    assert_eq!(p.ams_trays[1].k.as_deref(), Some("(0.040)"));
    match &p.ams_trays[0].filament {
        Filament::Known(f) => {
            assert_eq!(f.nozzles(), vec!["0.4".to_string()]);
            assert_eq!(f.calibration_for(&"0.4".to_string()).map(|c| c.cali_idx), Some(7));
        }
        Filament::Unknown => panic!("filament should be known"),
    }
}

#[test]
fn calibration_list_for_one_filament_keeps_only_its_entries() {
    let mut p = BambuPrinter::new();
    let n = "0.4".to_string();
    p.process_print_message(&cali_get("0.4", "", vec![cali_entry(1, "GFA00", "0.02", "a"), cali_entry(2, "GFB00", "0.03", "b")]));
    assert!(p.get_calibration(&n, 1).is_some());
    assert!(p.get_calibration(&n, 2).is_some());
    p.process_print_message(&cali_get("0.4", "GFA00", vec![cali_entry(3, "GFA00", "0.04", "c")]));
    assert!(p.get_calibration(&n, 1).is_some());
    assert!(p.get_calibration(&n, 2).is_none());
    assert_eq!(p.get_calibration(&n, 3).map(|c| c.k_value), Some("0.04".to_string()));
    let none = cali_get("0.4", "", vec![]);
    p.process_print_message(&none);
    assert!(p.get_calibration(&n, 1).is_none());
    assert!(p.get_calibration(&n, 3).is_none());
}

#[test]
fn cali_get_without_list_is_ignored() {
    let mut p = BambuPrinter::new();
    let mut d = data("extrusion_cali_get");
    d.nozzle_diameter = Some("0.4".to_string());
    d.filament_id = Some("".to_string());
    assert!(!p.process_print_message(&d));
    assert!(p.get_calibration(&"0.4".to_string(), 0).is_none());
}

#[test]
fn cali_sel_minus_one_clears_calibration() {
    let mut p = BambuPrinter::new();
    let mut t0 = tray(0, "PLA", "GFA00", "FF0000FF");
    t0.cali_idx = Some(4);
    p.process_print_message(&push_status(ams(Some("1"), Some("1"), None, vec![t0])));
    let mut d = data("extrusion_cali_sel");
    d.nozzle_diameter = Some("0.4".to_string());
    d.tray_id = Some(0);
    d.cali_idx = Some(-1);
    assert!(p.process_print_message(&d));
    assert_eq!(p.ams_trays[0].cali_idx, None);
    assert_eq!(p.ams_trays[0].k.as_deref(), Some("(0.020)"));
}

#[test]
fn cali_sel_uses_table_k() {
    let mut p = BambuPrinter::new();
    p.process_print_message(&cali_get("0.4", "", vec![cali_entry(5, "GFL99", "0.018", "x")]));
    let mut d = data("extrusion_cali_sel");
    d.nozzle_diameter = Some("0.4".to_string());
    d.tray_id = Some(254);
    d.cali_idx = Some(5);
    assert!(p.process_print_message(&d));
    assert_eq!(p.virt_tray.cali_idx, Some(5));
    assert_eq!(p.virt_tray.k.as_deref(), Some("0.018"));
    let mut bad = data("extrusion_cali_sel");
    bad.nozzle_diameter = Some("0.4".to_string());
    bad.tray_id = Some(40);
    bad.cali_idx = Some(5);
    assert!(!p.process_print_message(&bad));
}

#[test]
fn filament_setting_sets_only_filament() {
    let mut p = BambuPrinter::new();
    let mut d = data("ams_filament_setting");
    d.ams_id = Some(1);
    d.tray_id = Some(2);
    d.tray_info_idx = Some("GFL99".to_string());
    d.tray_type = Some("PLA".to_string());
    d.tray_color = Some("FF0000FF".to_string());
    assert!(p.process_print_message(&d));
    assert_eq!(p.ams_trays[6].state, TrayState::Unknown);
    assert!(matches!(p.ams_trays[6].filament, Filament::Known(_)));
    let mut ext = data("ams_filament_setting");
    ext.tray_id = Some(254);
    ext.tray_info_idx = Some("".to_string());
    assert!(p.process_print_message(&ext));
    assert_eq!(p.virt_tray.state, TrayState::Unknown);
    assert!(matches!(p.virt_tray.filament, Filament::Unknown));
    let mut out_of_range = data("ams_filament_setting");
    out_of_range.ams_id = Some(5);
    out_of_range.tray_id = Some(1);
    assert!(!p.process_print_message(&out_of_range));
}

#[test]
fn cali_set_requests_table() {
    let mut p = BambuPrinter::new();
    let mut d = data("extrusion_cali_set");
    d.nozzle_diameter = Some("0.6".to_string());
    assert!(p.process_print_message(&d));
    assert_eq!(p.outgoing.len(), 1);
    assert_eq!(p.outgoing[0].print.nozzle_diameter, "0.6");
    assert_eq!(p.outgoing[0].print.command, "extrusion_cali_get");
    assert!(!p.process_print_message(&data("unknown_command")));
}

#[test]
fn hex_bits_parse() {
    let mut p = BambuPrinter::new();
    let msg = push_status(ams(Some("1F"), Some("+10"), Some("zz"), vec![]));
    p.process_print_message(&msg);
    assert_eq!(p.tray_exist_bits, Some(31));
    assert_eq!(p.tray_read_done_bits, Some(16));
    assert_eq!(p.tray_reading_bits, None);
    assert_eq!(p.ams_trays[4].state, TrayState::Ready);
    assert_eq!(p.ams_trays[0].state, TrayState::Spool);
    assert_eq!(p.ams_trays[5].state, TrayState::Empty);
}

#[test]
fn ams_and_tray_ids() {
    assert_eq!(BambuPrinter::get_ams_and_tray_id(6), (1, 2));
    assert_eq!(BambuPrinter::get_ams_and_tray_id(254), (254, 254));
}

#[test]
fn set_tray_filament_commands() {
    let mut p = BambuPrinter::new();
    p.process_print_message(&cali_get("0.4", "", vec![cali_entry(5, "GFL99", "0.018", "x")]));
    let mut d = data("push_status");
    d.nozzle_diameter = Some("0.4".to_string());
    p.process_print_message(&d);
    let mut f = spoolease::model::FilamentInfo::new();
    f.tray_info_idx = "GFL99".to_string();
    f.tray_type = "PLA".to_string();
    f.tray_color = "FF0000FF".to_string();
    f.nozzle_temp_max = 230;
    f.nozzle_temp_min = 200;
    f.set_calibration("0.4".to_string(), spoolease::model::Calibration::new_minimal("0.018", "GFL99", "SET1", "x", 5));
    assert_eq!(p.get_filament_k_for_current_nozzle(&f), "0.018");
    let (setting, sel) = p.set_tray_filament(6, &f);
    assert_eq!(setting.print.ams_id, 1);
    assert_eq!(setting.print.tray_id, 2);
    assert_eq!(setting.print.setting_id.as_deref(), Some("SET1"));
    assert_eq!(sel.print.cali_idx, 5);
    assert_eq!(sel.print.tray_id, 6);
    let (setting, sel) = p.set_tray_filament(254, &spoolease::model::FilamentInfo::new());
    assert_eq!(setting.print.ams_id, 255);
    assert_eq!(setting.print.tray_id, 254);
    assert_eq!(sel.print.cali_idx, -1);
}

#[test]
fn filament_setting_keeps_state_and_k() {
    let mut p = BambuPrinter::new();
    let mut d = data("push_status");
    let mut v = tray(254, "PLA", "GFL99", "FFFFFFFF");
    v.k = Some("0.030".to_string());
    d.vt_tray = Some(v);
    p.process_print_message(&d);
    assert_eq!(p.virt_tray.state, TrayState::Ready);
    let mut s = data("ams_filament_setting");
    s.tray_id = Some(254);
    s.tray_info_idx = Some("GFG99".to_string());
    s.tray_type = Some("PETG".to_string());
    assert!(p.process_print_message(&s));
    assert_eq!(p.virt_tray.state, TrayState::Ready);
    assert_eq!(p.virt_tray.k.as_deref(), Some("(0.030)"));
    match &p.virt_tray.filament {
        Filament::Known(f) => assert_eq!(f.tray_type, "PETG"),
        Filament::Unknown => panic!("filament should be set"),
    }
}

#[test]
fn cali_get_without_filament_id_replaces_table() {
    let mut p = BambuPrinter::new();
    let n = "0.4".to_string();
    p.process_print_message(&cali_get("0.4", "", vec![cali_entry(1, "GFA00", "0.02", "a")]));
    let mut d = data("extrusion_cali_get");
    d.nozzle_diameter = Some("0.4".to_string());
    d.filaments = Some(vec![cali_entry(2, "GFB00", "0.03", "b")]);
    assert!(p.process_print_message(&d));
    assert!(p.get_calibration(&n, 1).is_none());
    assert_eq!(p.get_calibration(&n, 2).map(|c| c.k_value), Some("0.03".to_string()));
}
