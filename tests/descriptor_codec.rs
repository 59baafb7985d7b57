use spoolease::api::{Filament as CaliEntry, PrintData};
use spoolease::descriptor::{Error, TAG_PLACEHOLDER};
use spoolease::model::{Calibration, FilamentInfo};
use spoolease::printer::BambuPrinter;
use spoolease::tag::tag_text_with_id;
use spoolease::text::{efficient_decode, efficient_encode};

const PLAIN: &str = "https://info.filament3d.org/V1?ID=$tag-id$&M=PLA&C=FF0000FF&NN=190&NX=250&FI=GFA00";

fn printer_with_table() -> BambuPrinter {
    let mut p = BambuPrinter::new();
    let d = PrintData {
        ams: None,
        vt_tray: None,
        command: Some("extrusion_cali_get".to_string()),
        sequence_id: None,
        nozzle_temp_max: None,
        nozzle_temp_min: None,
        tray_color: None,
        tray_id: None,
        ams_id: None,
        cali_idx: None,
        tray_info_idx: None,
        tray_type: None,
        reason: None,
        result: None,
        nozzle_diameter: Some("0.4".to_string()),
        filament_id: Some("".to_string()),
        filaments: Some(vec![
            CaliEntry {
                filament_id: "GFA00".to_string(),
                name: "Red (fast)".to_string(),
                k_value: "0.020".to_string(),
                n_coef: "1.4".to_string(),
                setting_id: "S1".to_string(),
                cali_idx: 3,
            },
            CaliEntry {
                filament_id: "GFA00".to_string(),
                name: "Blue".to_string(),
                k_value: "0.050".to_string(),
                n_coef: "1.4".to_string(),
                setting_id: "S1".to_string(),
                cali_idx: 4,
            },
        ]),
    };
    p.process_print_message(&d);
    p
}

#[test]
fn plain_descriptor_decodes() {
    let p = BambuPrinter::new();
    let f = match FilamentInfo::from_descriptor(PLAIN, &p) {
        Ok(f) => f,
        Err(_) => panic!("descriptor should decode"),
    };
    assert_eq!(f.tray_type, "PLA");
    assert_eq!(f.tray_color, "FF0000FF");
    assert_eq!(f.tray_info_idx, "GFA00");
    assert_eq!(f.nozzle_temp_min, 190);
    assert_eq!(f.nozzle_temp_max, 250);
    assert!(f.nozzles().is_empty());
    let again = f.to_descriptor(&None);
    assert_eq!(again, PLAIN);
    let written = tag_text_with_id(&again, "BAHC3w==");
    assert_eq!(written, "https://info.filament3d.org/V1?ID=BAHC3w&M=PLA&C=FF0000FF&NN=190&NX=250&FI=GFA00");
    let g = match FilamentInfo::from_descriptor(&written, &p) {
        Ok(g) => g,
        Err(_) => panic!("written descriptor should decode"),
    };
    assert!(g == f);
}

#[test]
fn wrong_prefix_is_parse_error() {
    let p = BambuPrinter::new();
    let r = FilamentInfo::from_descriptor("http://example.com/V1?ID=x&M=PLA&C=1&NN=1&NX=2&FI=a", &p);
    assert!(matches!(r, Err(Error::ParseError)));
}

#[test]
fn bad_temperature_is_parse_error() {
    let p = BambuPrinter::new();
    let r = FilamentInfo::from_descriptor("https://info.filament3d.org/V1?ID=x&M=PLA&C=1&NN=hot&NX=2&FI=a", &p);
    assert!(matches!(r, Err(Error::ParseError)));
}

#[test]
fn short_calibration_is_parse_error() {
    let p = BambuPrinter::new();
    let r = FilamentInfo::from_descriptor("https://info.filament3d.org/V1?ID=x&M=PLA&C=1&NN=1&NX=2&K4=0.02~S1&FI=a", &p);
    assert!(matches!(r, Err(Error::ParseError)));
}

#[test]
fn missing_field_is_missing_fields() {
    let p = BambuPrinter::new();
    let r = FilamentInfo::from_descriptor("https://info.filament3d.org/V1?ID=x&M=PLA&NN=1&NX=2&FI=a", &p);
    assert!(matches!(r, Err(Error::MissingFields)));
    let r = FilamentInfo::from_descriptor("https://info.filament3d.org/?ID=x&M=PLA&C=1&NN=1&NX=2&FI=a", &p);
    assert!(matches!(r, Err(Error::MissingFields)));
}

#[test]
fn unknown_tokens_are_ignored() {
    let p = BambuPrinter::new();
    let r = FilamentInfo::from_descriptor("https://info.filament3d.org/V1?ID=x&Z=9&M=PLA&C=1&NN=1&NX=+2&FI=a&junk", &p);
    match r {
        Ok(f) => assert_eq!(f.nozzle_temp_max, 2),
        Err(_) => panic!("unknown tokens are not errors"),
    }
}

#[test]
fn calibration_round_trip_against_table() {
    let p = printer_with_table();
    let mut f = FilamentInfo::new();
    f.tray_info_idx = "GFA00".to_string();
    f.tray_type = "PLA".to_string();
    f.tray_color = "FF0000FF".to_string();
    f.nozzle_temp_max = 250;
    f.nozzle_temp_min = 190;
    f.set_calibration("0.4".to_string(), Calibration::new_minimal("0.02", "GFA00", "S1", "Red (fast)", 3));
    let text = f.to_descriptor(&Some("My X1 & co".to_string()));
    assert_eq!(
        text,
        "https://info.filament3d.org/V1?ID=$tag-id$&M=PLA&C=FF0000FF&NN=190&NX=250&My%20X1%20%26%20co(K4=0.02~S1~Red%20%28fast%29)&FI=GFA00"
    );
    let g = match FilamentInfo::from_descriptor(&text, &p) {
        Ok(g) => g,
        Err(_) => panic!("should decode"),
    };
    assert!(g == f);
}

#[test]
fn calibration_found_by_name_when_k_differs() {
    let p = printer_with_table();
    let text = "https://info.filament3d.org/V1?ID=x&M=PLA&C=FF0000FF&NN=190&NX=250&P(K4=0.09~S1~%20Blue)&FI=GFA00";
    let g = match FilamentInfo::from_descriptor(text, &p) {
        Ok(g) => g,
        Err(_) => panic!("should decode"),
    };
    assert_eq!(g.nozzles().len(), 1);
    let c = g.calibration_for(&"0.4".to_string()).expect("calibration");
    assert_eq!(c.cali_idx, 4);
    assert_eq!(c.k_value, "0.050");
}

#[test]
fn unmatched_calibration_is_dropped() {
    let p = printer_with_table();
    let text = "https://info.filament3d.org/V1?ID=x&M=PLA&C=FF0000FF&NN=190&NX=250&K4=0.07~S9~zzz&FI=GFA00";
    let g = match FilamentInfo::from_descriptor(text, &p) {
        Ok(g) => g,
        Err(_) => panic!("should decode"),
    };
    assert!(g.nozzles().is_empty());
}

#[test]
fn escape_round_trip() {
    let s = "a%b/c&d?e f(g)h~i é";
    let e = efficient_encode(s);
    assert_eq!(e, "a%25b%2Fc%26d%3Fe%20f%28g%29h%7Ei%20é");
    assert_eq!(efficient_decode(&e), s);
    assert_eq!(efficient_decode("%2"), "%2");
    assert_eq!(efficient_decode("%41"), "%41");
}

#[test]
fn placeholder_text() {
    assert_eq!(TAG_PLACEHOLDER, "$tag-id$");
}

#[test]
fn two_calibrations_round_trip_in_any_order() {
    let mut p = printer_with_table();
    let mut d = PrintData {
        ams: None,
        vt_tray: None,
        command: Some("extrusion_cali_get".to_string()),
        sequence_id: None,
        nozzle_temp_max: None,
        nozzle_temp_min: None,
        tray_color: None,
        tray_id: None,
        ams_id: None,
        cali_idx: None,
        tray_info_idx: None,
        tray_type: None,
        reason: None,
        result: None,
        nozzle_diameter: Some("0.6".to_string()),
        filament_id: Some("".to_string()),
        filaments: None,
    };
    d.filaments = Some(vec![CaliEntry {
        filament_id: "GFA00".to_string(),
        name: "Wide".to_string(),
        k_value: "0.01".to_string(),
        n_coef: "1.4".to_string(),
        setting_id: "S6".to_string(),
        cali_idx: 8,
    }]);
    p.process_print_message(&d);
    let mut f = FilamentInfo::new();
    f.tray_info_idx = "GFA00".to_string();
    f.tray_type = "PLA".to_string();
    f.tray_color = "FF0000FF".to_string();
    f.nozzle_temp_max = 250;
    f.nozzle_temp_min = 190;
    f.set_calibration("0.4".to_string(), Calibration::new_minimal("0.02", "GFA00", "S1", "Red (fast)", 3));
    f.set_calibration("0.6".to_string(), Calibration::new_minimal("0.01", "GFA00", "S6", "Wide", 8));
    let text = f.to_descriptor(&None);
    assert!(text.contains("&(K4=0.02~S1~Red%20%28fast%29)"));
    assert!(text.contains("&(K6=0.01~S6~Wide)"));
    let g = FilamentInfo::from_descriptor(&text, &p).ok().expect("should decode");
    assert!(g == f);
    let reversed = f.descriptor_in_order(&None, &vec!["0.6".to_string(), "0.4".to_string()]);
    let h = FilamentInfo::from_descriptor(&reversed, &p).ok().expect("should decode");
    assert!(h == f);
}

#[test]
fn round_trip_trims_trailing_zeros_of_k() {
    let p = printer_with_table();
    let mut f = FilamentInfo::new();
    f.tray_info_idx = "GFA00".to_string();
    f.tray_type = "PLA".to_string();
    f.tray_color = "FF0000FF".to_string();
    f.nozzle_temp_max = 250;
    f.nozzle_temp_min = 190;
    let mut c = Calibration::new_minimal("0.0200", "GFA00", "S1", "Red (fast)", 3);
    c.n_coef = "1.4".to_string();
    f.set_calibration("0.4".to_string(), c);
    let text = tag_text_with_id(&f.to_descriptor(&None), "BAHC3w==");
    let g = FilamentInfo::from_descriptor(&text, &p).ok().expect("should decode");
    let back = g.calibration_for(&"0.4".to_string()).expect("calibration");
    assert_eq!(back.k_value, "0.02");
    assert_eq!(back.n_coef, "");
    assert_eq!(back.cali_idx, 3);
    assert_eq!(g.tray_type, f.tray_type);
}
