use vstd::prelude::*;
use crate::cali_table::{nozzle_entries, NozzleCalibrations};

verus! {

/// Physical state of one filament slot.
#[derive(Clone, Copy, Debug, PartialEq, Eq, Structural)]
pub enum TrayState {
    Unknown,
    Empty,
    Spool,
    Reading,
    Ready,
    Loading,
    Unloading,
    Loaded,
}

/// One pressure-advance profile of the printer, for one nozzle diameter.
/// `n_coef` is kept as the text the printer sent.
#[derive(Debug)]
pub struct Calibration {
    pub filament_id: String,
    pub k_value: String,
    pub n_coef: String,
    pub setting_id: String,
    pub name: String,
    pub cali_idx: i32,
}

pub struct CalibrationModel {
    pub filament_id: Seq<char>,
    pub k_value: Seq<char>,
    pub n_coef: Seq<char>,
    pub setting_id: Seq<char>,
    pub name: Seq<char>,
    pub cali_idx: i32,
}

impl View for Calibration {
    type V = CalibrationModel;

    open spec fn view(&self) -> CalibrationModel {
        CalibrationModel {
            filament_id: self.filament_id@,
            k_value: self.k_value@,
            n_coef: self.n_coef@,
            setting_id: self.setting_id@,
            name: self.name@,
            cali_idx: self.cali_idx,
        }
    }
}

impl Clone for Calibration {
    fn clone(&self) -> (r: Self)
        ensures
            r == *self,
    {
        Calibration {
            filament_id: self.filament_id.clone(),
            k_value: self.k_value.clone(),
            n_coef: self.n_coef.clone(),
            setting_id: self.setting_id.clone(),
            name: self.name.clone(),
            cali_idx: self.cali_idx,
        }
    }
}

impl PartialEq for Calibration {
    fn eq(&self, o: &Calibration) -> (r: bool) {
        self.filament_id == o.filament_id && self.k_value == o.k_value && self.n_coef == o.n_coef
            && self.setting_id == o.setting_id && self.name == o.name && self.cali_idx
            == o.cali_idx
    }
}

impl vstd::std_specs::cmp::PartialEqSpecImpl for Calibration {
    open spec fn obeys_eq_spec() -> bool {
        true
    }

    open spec fn eq_spec(&self, o: &Calibration) -> bool {
        self@ == o@
    }
}

/// Identity of a filament spool.
#[derive(Debug)]
pub struct FilamentInfo {
    pub tray_info_idx: String,
    pub tray_type: String,
    pub tray_color: String,
    pub nozzle_temp_max: u32,
    pub nozzle_temp_min: u32,
    /// Calibrations keyed by nozzle diameter.
    pub calibrations: NozzleCalibrations,
}

pub struct FilamentInfoModel {
    pub tray_info_idx: Seq<char>,
    pub tray_type: Seq<char>,
    pub tray_color: Seq<char>,
    pub nozzle_temp_max: u32,
    pub nozzle_temp_min: u32,
    pub calibrations: Map<Seq<char>, CalibrationModel>,
}

impl View for FilamentInfo {
    type V = FilamentInfoModel;

    open spec fn view(&self) -> FilamentInfoModel {
        FilamentInfoModel {
            tray_info_idx: self.tray_info_idx@,
            tray_type: self.tray_type@,
            tray_color: self.tray_color@,
            nozzle_temp_max: self.nozzle_temp_max,
            nozzle_temp_min: self.nozzle_temp_min,
            calibrations: nozzle_entries(self.calibrations),
        }
    }
}

impl Clone for FilamentInfo {
    fn clone(&self) -> (r: Self)
        ensures
            r@ == self@,
    {
        let calibrations = self.calibrations.duplicate();
        FilamentInfo {
            tray_info_idx: self.tray_info_idx.clone(),
            tray_type: self.tray_type.clone(),
            tray_color: self.tray_color.clone(),
            nozzle_temp_max: self.nozzle_temp_max,
            nozzle_temp_min: self.nozzle_temp_min,
            calibrations,
        }
    }
}

impl PartialEq for FilamentInfo {
    fn eq(&self, o: &FilamentInfo) -> (r: bool) {
        self.tray_info_idx == o.tray_info_idx && self.tray_type == o.tray_type && self.tray_color
            == o.tray_color && self.nozzle_temp_max == o.nozzle_temp_max && self.nozzle_temp_min
            == o.nozzle_temp_min && self.calibrations.same(&o.calibrations)
    }
}

impl vstd::std_specs::cmp::PartialEqSpecImpl for FilamentInfo {
    open spec fn obeys_eq_spec() -> bool {
        true
    }

    open spec fn eq_spec(&self, o: &FilamentInfo) -> bool {
        self@ == o@
    }
}

/// What is known of the filament in a slot.
#[derive(Debug)]
pub enum Filament {
    Unknown,
    Known(FilamentInfo),
}

pub enum FilamentModel {
    Unknown,
    Known(FilamentInfoModel),
}

impl View for Filament {
    type V = FilamentModel;

    open spec fn view(&self) -> FilamentModel {
        match self {
            Filament::Unknown => FilamentModel::Unknown,
            Filament::Known(f) => FilamentModel::Known(f@),
        }
    }
}

impl Clone for Filament {
    fn clone(&self) -> (r: Self)
        ensures
            r@ == self@,
    {
        match self {
            Filament::Unknown => Filament::Unknown,
            Filament::Known(f) => Filament::Known(f.clone()),
        }
    }
}

impl PartialEq for Filament {
    fn eq(&self, o: &Filament) -> (r: bool) {
        match (self, o) {
            (Filament::Unknown, Filament::Unknown) => true,
            (Filament::Known(a), Filament::Known(b)) => a == b,
            _ => false,
        }
    }
}

impl vstd::std_specs::cmp::PartialEqSpecImpl for Filament {
    open spec fn obeys_eq_spec() -> bool {
        true
    }

    open spec fn eq_spec(&self, o: &Filament) -> bool {
        self@ == o@
    }
}

/// The model of an optional text.
pub open spec fn opt_view(s: Option<String>) -> Option<Seq<char>> {
    match s {
        Some(t) => Some(t@),
        None => None,
    }
}

pub fn same_opt_text(a: &Option<String>, b: &Option<String>) -> (r: bool)
    ensures
        r == (opt_view(*a) == opt_view(*b)),
{
    match a {
        Some(x) => match b {
            Some(y) => *x == *y,
            None => false,
        },
        None => b.is_none(),
    }
}

pub fn clone_opt_text(a: &Option<String>) -> (r: Option<String>)
    ensures
        r == *a,
{
    match a {
        Some(x) => Some(x.clone()),
        None => None,
    }
}

/// One physical filament slot.
#[derive(Debug)]
pub struct Tray {
    pub state: TrayState,
    pub filament: Filament,
    /// Pressure-advance factor: a bare decimal when it comes from a calibration,
    /// in parentheses when it is the raw value the printer reported.
    pub k: Option<String>,
    pub cali_idx: Option<i32>,
}

pub struct TrayModel {
    pub state: TrayState,
    pub filament: FilamentModel,
    pub k: Option<Seq<char>>,
    pub cali_idx: Option<i32>,
}

impl View for Tray {
    type V = TrayModel;

    open spec fn view(&self) -> TrayModel {
        TrayModel {
            state: self.state,
            filament: self.filament@,
            k: opt_view(self.k),
            cali_idx: self.cali_idx,
        }
    }
}

impl Clone for Tray {
    fn clone(&self) -> (r: Self)
        ensures
            r@ == self@,
    {
        Tray {
            state: self.state,
            filament: self.filament.clone(),
            k: clone_opt_text(&self.k),
            cali_idx: self.cali_idx,
        }
    }
}

impl PartialEq for Tray {
    fn eq(&self, o: &Tray) -> (r: bool) {
        self.state == o.state && self.filament == o.filament && same_opt_text(&self.k, &o.k)
            && self.cali_idx == o.cali_idx
    }
}

impl vstd::std_specs::cmp::PartialEqSpecImpl for Tray {
    open spec fn obeys_eq_spec() -> bool {
        true
    }

    open spec fn eq_spec(&self, o: &Tray) -> bool {
        self@ == o@
    }
}

/// A tray model with nothing known but its state.
pub open spec fn blank_tray(state: TrayState) -> TrayModel {
    TrayModel { state, filament: FilamentModel::Unknown, k: None, cali_idx: None }
}

impl Tray {
    pub fn empty() -> (r: Self)
        ensures
            r@ == blank_tray(TrayState::Empty),
    {
        Tray { state: TrayState::Empty, filament: Filament::Unknown, k: None, cali_idx: None }
    }

    pub fn unknown() -> (r: Self)
        ensures
            r@ == blank_tray(TrayState::Unknown),
    {
        Tray { state: TrayState::Unknown, filament: Filament::Unknown, k: None, cali_idx: None }
    }
}

impl Calibration {
    /// A calibration built from its identifying fields, with no coefficient text.
    pub fn new_minimal(k_value: &str, filament_id: &str, setting_id: &str, name: &str, cali_idx: i32) -> (r: Self)
        ensures
            r@ == minimal_calibration(k_value@, filament_id@, setting_id@, name@, cali_idx),
    {
        Calibration {
            k_value: String::from_str(k_value),
            filament_id: String::from_str(filament_id),
            n_coef: String::new(),
            setting_id: String::from_str(setting_id),
            name: String::from_str(name),
            cali_idx,
        }
    }
}

pub open spec fn minimal_calibration(
    k_value: Seq<char>,
    filament_id: Seq<char>,
    setting_id: Seq<char>,
    name: Seq<char>,
    cali_idx: i32,
) -> CalibrationModel {
    CalibrationModel { filament_id, k_value, n_coef: Seq::empty(), setting_id, name, cali_idx }
}

impl FilamentInfo {
    pub fn new() -> (r: Self)
        ensures
            r@ == (FilamentInfoModel {
                tray_info_idx: Seq::empty(),
                tray_type: Seq::empty(),
                tray_color: Seq::empty(),
                nozzle_temp_max: 0,
                nozzle_temp_min: 0,
                calibrations: Map::empty(),
            }),
    {
        let r = FilamentInfo {
            tray_info_idx: String::new(),
            tray_type: String::new(),
            tray_color: String::new(),
            nozzle_temp_max: 0,
            nozzle_temp_min: 0,
            calibrations: NozzleCalibrations::new(),
        };
        assert(nozzle_entries(r.calibrations) =~= Map::empty());
        r
    }

    /// Sets the calibration the filament carries for `nozzle_diameter`.
    pub fn set_calibration(&mut self, nozzle_diameter: String, calibration: Calibration)
        ensures
            final(self)@ == (FilamentInfoModel {
                calibrations: old(self)@.calibrations.insert(nozzle_diameter@, calibration@),
                ..old(self)@
            }),
    {
        self.calibrations.insert(nozzle_diameter, calibration);
    }

    /// The calibration the filament carries for `nozzle_diameter`, if any.
    pub fn calibration_for(&self, nozzle_diameter: &String) -> (r: Option<Calibration>)
        ensures
            r matches Some(c) ==> self@.calibrations.contains_key(nozzle_diameter@) && c@
                == self@.calibrations[nozzle_diameter@],
            r is None ==> !self@.calibrations.contains_key(nozzle_diameter@),
    {
        self.calibrations.get(nozzle_diameter)
    }

    /// The nozzle diameters the filament carries calibrations for, each once.
    pub fn nozzles(&self) -> (r: Vec<String>)
        ensures
            forall|i: int, j: int| 0 <= i < j < r@.len() ==> r@[i]@ != r@[j]@,
            forall|k: Seq<char>|
                self@.calibrations.contains_key(k) <==> exists|i: int| 0 <= i < r@.len() && r@[i]@ == k,
    {
        self.calibrations.keys()
    }
}

} // verus!
