use spoolease::api::{AmsFilamentSettingCommand, ExtrusionCaliGetCommand, ExtrusionCaliSelCommand, Print, PrintAms, PrintAmsData, PrintData, PrintTray, PushAllCommand};
use spoolease::staging::FilamentStaging;
use spoolease::model::Filament;

#[test]
fn push_all_command() {
    assert_eq!(PushAllCommand::new().pushing.command, "pushall");
}

#[test]
fn filament_setting_command() {
    let c = AmsFilamentSettingCommand::new(0, 2, "GFL99", Some("S1"), "PLA", "FF0000FF", 190, 250);
    assert_eq!(c.print.command, "ams_filament_setting");
    assert_eq!(c.print.tray_id, 2);
    assert_eq!(c.print.setting_id.as_deref(), Some("S1"));
    assert_eq!(c.print.sequence_id, "1");
    assert_eq!(c.print.nozzle_temp_max, 250);
}

#[test]
fn cali_get_command() {
    let c = ExtrusionCaliGetCommand::new("0.4");
    assert_eq!(c.print.command, "extrusion_cali_get");
    assert_eq!(c.print.filament_id, "");
    assert_eq!(c.print.nozzle_diameter, "0.4");
}

#[test]
fn cali_sel_command() {
    let c = ExtrusionCaliSelCommand::new("0.4", 254, "GFL03", None);
    assert_eq!(c.print.cali_idx, -1);
    assert_eq!(c.print.tray_id, 254);
    let c = ExtrusionCaliSelCommand::new("0.4", 1, "GFL03", Some(7));
    assert_eq!(c.print.cali_idx, 7);
}

fn tray(id: u32) -> PrintTray {
    PrintTray { id, k: None, cali_idx: None, tray_info_idx: None, tray_type: Some(format!("T{id}")), tray_color: None, nozzle_temp_max: None, nozzle_temp_min: None }
}

#[test]
fn find_tray_over_units() {
    let print = Print {
        print: PrintData {
            ams: Some(PrintAms {
                ams: Some(vec![
                    PrintAmsData { id: "0".to_string(), humidity: "1".to_string(), tray: vec![tray(0), tray(1)] },
                    PrintAmsData { id: "1".to_string(), humidity: "1".to_string(), tray: vec![tray(2)] },
                ]),
                ams_exist_bits: None,
                tray_exist_bits: None,
                tray_is_bbl_bits: None,
                tray_read_done_bits: None,
                tray_reading_bits: None,
            }),
            vt_tray: None, command: None, sequence_id: None, nozzle_temp_max: None, nozzle_temp_min: None,
            tray_color: None, tray_id: None, ams_id: None, cali_idx: None, tray_info_idx: None, tray_type: None,
            reason: None, result: None, nozzle_diameter: None, filament_id: None, filaments: None,
        },
    };
    assert_eq!(print.find_print_tray_by_id(2).and_then(|t| t.tray_type.clone()).as_deref(), Some("T2"));
    assert!(print.find_print_tray_by_id(5).is_none());
}

#[test]
fn staging_clear() {
    let mut s = FilamentStaging::new();
    s.filament_info = Filament::Known(spoolease::model::FilamentInfo::new());
    s.clear();
    assert!(matches!(s.filament_info, Filament::Unknown));
}
