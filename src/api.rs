use vstd::prelude::*;

verus! {

/// One calibration entry of an `extrusion_cali_get` response.
#[derive(Debug)]
pub struct Filament {
    pub filament_id: String,
    pub name: String,
    pub k_value: String,
    pub n_coef: String,
    pub setting_id: String,
    pub cali_idx: i32,
}

/// One tray fragment of a printer report. `k` is the raw pressure-advance
/// factor as decimal text with three places.
#[derive(Debug)]
pub struct PrintTray {
    pub id: u32,
    pub k: Option<String>,
    pub cali_idx: Option<i32>,
    pub tray_info_idx: Option<String>,
    pub tray_type: Option<String>,
    pub tray_color: Option<String>,
    pub nozzle_temp_max: Option<u32>,
    pub nozzle_temp_min: Option<u32>,
}

/// One AMS unit of a printer report.
#[derive(Debug)]
pub struct PrintAmsData {
    pub id: String,
    pub humidity: String,
    pub tray: Vec<PrintTray>,
}

/// The AMS block of a `push_status` report.
#[derive(Debug)]
pub struct PrintAms {
    pub ams: Option<Vec<PrintAmsData>>,
    pub ams_exist_bits: Option<String>,
    pub tray_exist_bits: Option<String>,
    pub tray_is_bbl_bits: Option<String>,
    pub tray_read_done_bits: Option<String>,
    pub tray_reading_bits: Option<String>,
}

/// The body of an inbound printer message.
#[derive(Debug)]
pub struct PrintData {
    pub ams: Option<PrintAms>,
    pub vt_tray: Option<PrintTray>,
    pub command: Option<String>,
    pub sequence_id: Option<String>,
    pub nozzle_temp_max: Option<u32>,
    pub nozzle_temp_min: Option<u32>,
    pub tray_color: Option<String>,
    pub tray_id: Option<i32>,
    pub ams_id: Option<i32>,
    pub cali_idx: Option<i32>,
    pub tray_info_idx: Option<String>,
    pub tray_type: Option<String>,
    pub reason: Option<String>,
    pub result: Option<String>,
    pub nozzle_diameter: Option<String>,
    pub filament_id: Option<String>,
    pub filaments: Option<Vec<Filament>>,
}

/// An inbound printer message.
#[derive(Debug)]
pub struct Print {
    pub print: PrintData,
}

/// Index of the first tray with id `target` in the concatenation of `units`' tray lists.
pub open spec fn first_tray_with_id(units: Seq<PrintAmsData>, target: u32) -> Option<(int, int)>
    decreases units.len(),
{
    if units.len() == 0 {
        None
    } else {
        match first_index_with_id(units[0].tray@, target) {
            Some(j) => Some((0, j)),
            None => match first_tray_with_id(units.drop_first(), target) {
                Some(p) => Some((p.0 + 1, p.1)),
                None => None,
            },
        }
    }
}

/// Index of the first tray of `trays` whose id is `target`.
pub open spec fn first_index_with_id(trays: Seq<PrintTray>, target: u32) -> Option<int>
    decreases trays.len(),
{
    if trays.len() == 0 {
        None
    } else if trays[0].id == target {
        Some(0)
    } else {
        match first_index_with_id(trays.drop_first(), target) {
            Some(j) => Some(j + 1),
            None => None,
        }
    }
}

pub fn find_index_with_id(trays: &Vec<PrintTray>, target: u32) -> (r: Option<usize>)
    ensures
        r matches Some(j) ==> j < trays.len() && first_index_with_id(trays@, target) == Some(
            j as int,
        ),
        r is None ==> first_index_with_id(trays@, target) is None,
{
    let mut i: usize = 0;
    assert(trays@.skip(0) =~= trays@);
    while i < trays.len()
        invariant
            0 <= i <= trays.len(),
            first_index_with_id(trays@, target) == match first_index_with_id(
                trays@.skip(i as int),
                target,
            ) {
                Some(j) => Some(j + i),
                None => None,
            },
        decreases trays.len() - i,
    {
        assert(trays@.skip(i as int).drop_first() =~= trays@.skip(i + 1));
        if trays[i].id == target {
            return Some(i);
        }
        i = i + 1;
    }
    None
}

/// The AMS units a message lists, in order; none when it has no AMS block.
pub open spec fn ams_units(p: &Print) -> Seq<PrintAmsData> {
    match p.print.ams {
        Some(a) => match a.ams {
            Some(u) => u@,
            None => Seq::empty(),
        },
        None => Seq::empty(),
    }
}

impl Print {
    /// The first tray, over all AMS units in order, whose id is `target_id`.
    pub fn find_print_tray_by_id(&self, target_id: u32) -> (r: Option<&PrintTray>)
        ensures
            r matches Some(t) ==> (first_tray_with_id(ams_units(self), target_id) matches Some(p)
                && *t == ams_units(self)[p.0].tray@[p.1]),
            r is None <==> first_tray_with_id(ams_units(self), target_id) is None,
    {
        let ams = match &self.print.ams {
            Some(a) => a,
            None => return None,
        };
        let units = match &ams.ams {
            Some(u) => u,
            None => return None,
        };
        let mut i: usize = 0;
        assert(units@.skip(0) =~= units@);
        while i < units.len()
            invariant
                0 <= i <= units.len(),
                ams_units(self) == units@,
                first_tray_with_id(units@, target_id) == match first_tray_with_id(
                    units@.skip(i as int),
                    target_id,
                ) {
                    Some(p) => Some((p.0 + i, p.1)),
                    None => None,
                },
            decreases units.len() - i,
        {
            assert(units@.skip(i as int).drop_first() =~= units@.skip(i + 1));
            assert(units@.skip(i as int)[0] == units@[i as int]);
            match find_index_with_id(&units[i].tray, target_id) {
                Some(j) => {
                    assert(first_tray_with_id(units@.skip(i as int), target_id) == Some(
                        (0int, j as int),
                    ));

                    return Some(&units[i].tray[j]);
                },
                None => {},
            }
            i = i + 1;
        }
        None
    }
}

/// Request for a full state report.
#[derive(Debug)]
pub struct PushAllCommand {
    pub pushing: PushAll,
}

#[derive(Debug)]
pub struct PushAll {
    pub command: String,
}

impl PushAllCommand {
    pub fn new() -> (r: Self)
        ensures
            r.pushing.command@ == "pushall"@,
    {
        PushAllCommand { pushing: PushAll { command: String::from_str("pushall") } }
    }
}

/// Assigns a filament identity to a tray.
#[derive(Debug)]
pub struct AmsFilamentSettingCommand {
    pub print: AmsFilamentSetting,
}

#[derive(Debug)]
pub struct AmsFilamentSetting {
    pub command: String,
    pub ams_id: u32,
    pub tray_id: i32,
    pub tray_info_idx: String,
    pub setting_id: Option<String>,
    pub tray_color: String,
    pub nozzle_temp_min: u32,
    pub nozzle_temp_max: u32,
    pub tray_type: String,
    pub sequence_id: String,
}

/// The model of an optional borrowed text.
pub open spec fn opt_str_view(s: Option<&str>) -> Option<Seq<char>> {
    match s {
        Some(t) => Some(t@),
        None => None,
    }
}

impl AmsFilamentSettingCommand {
    pub fn new(
        ams_id: u32,
        tray_id: i32,
        tray_info_idx: &str,
        setting_id: Option<&str>,
        tray_type: &str,
        tray_color: &str,
        nozzle_temp_min: u32,
        nozzle_temp_max: u32,
    ) -> (r: Self)
        ensures
            r.print.command@ == "ams_filament_setting"@,
            r.print.ams_id == ams_id,
            r.print.tray_id == tray_id,
            r.print.tray_info_idx@ == tray_info_idx@,
            crate::model::opt_view(r.print.setting_id) == opt_str_view(setting_id),
            r.print.tray_type@ == tray_type@,
            r.print.tray_color@ == tray_color@,
            r.print.nozzle_temp_min == nozzle_temp_min,
            r.print.nozzle_temp_max == nozzle_temp_max,
            r.print.sequence_id@ == "1"@,
    {
        let setting_id = match setting_id {
            Some(v) => Some(String::from_str(v)),
            None => None,
        };
        AmsFilamentSettingCommand {
            print: AmsFilamentSetting {
                command: String::from_str("ams_filament_setting"),
                ams_id,
                tray_id,
                tray_info_idx: String::from_str(tray_info_idx),
                setting_id,
                tray_color: String::from_str(tray_color),
                nozzle_temp_min,
                nozzle_temp_max,
                tray_type: String::from_str(tray_type),
                sequence_id: String::from_str("1"),
            },
        }
    }
}

/// Requests the calibration table of one nozzle diameter.
#[derive(Debug)]
pub struct ExtrusionCaliGetCommand {
    pub print: ExtrusionCaliGet,
}

#[derive(Debug)]
pub struct ExtrusionCaliGet {
    pub command: String,
    pub filament_id: String,
    pub nozzle_diameter: String,
    pub sequence_id: String,
}

impl ExtrusionCaliGetCommand {
    /// A request for every filament's calibration (empty `filament_id`).
    pub fn new(nozzle_diameter: &str) -> (r: Self)
        ensures
            r.print.command@ == "extrusion_cali_get"@,
            r.print.filament_id@ == Seq::<char>::empty(),
            r.print.nozzle_diameter@ == nozzle_diameter@,
            r.print.sequence_id@ == "1"@,
    {
        ExtrusionCaliGetCommand {
            print: ExtrusionCaliGet {
                command: String::from_str("extrusion_cali_get"),
                filament_id: String::new(),
                nozzle_diameter: String::from_str(nozzle_diameter),
                sequence_id: String::from_str("1"),
            },
        }
    }
}

/// Selects, or clears with index -1, the calibration of a tray.
#[derive(Debug)]
pub struct ExtrusionCaliSelCommand {
    pub print: ExtrusionCaliSel,
}

#[derive(Debug)]
pub struct ExtrusionCaliSel {
    pub command: String,
    pub cali_idx: i32,
    pub filament_id: String,
    pub nozzle_diameter: String,
    pub tray_id: i32,
    pub sequence_id: String,
}

impl ExtrusionCaliSelCommand {
    pub fn new(nozzle_diameter: &str, tray_id: i32, filament_id: &str, cali_idx: Option<i32>) -> (r: Self)
        ensures
            r.print.command@ == "extrusion_cali_sel"@,
            r.print.cali_idx == match cali_idx {
                Some(i) => i as int,
                None => -1,
            },
            r.print.filament_id@ == filament_id@,
            r.print.nozzle_diameter@ == nozzle_diameter@,
            r.print.tray_id == tray_id,
            r.print.sequence_id@ == "1"@,
    {
        let cali_idx = match cali_idx {
            Some(i) => i,
            None => -1,
        };
        ExtrusionCaliSelCommand {
            print: ExtrusionCaliSel {
                command: String::from_str("extrusion_cali_sel"),
                cali_idx,
                filament_id: String::from_str(filament_id),
                nozzle_diameter: String::from_str(nozzle_diameter),
                tray_id,
                sequence_id: String::from_str("1"),
            },
        }
    }
}

} // verus!
