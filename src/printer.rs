use vstd::prelude::*;
use crate::api;
use crate::api::{
    AmsFilamentSettingCommand, ExtrusionCaliGetCommand, ExtrusionCaliSelCommand, PrintAms, PrintAmsData,
    PrintData, PrintTray,
};
use crate::model::{
    blank_tray,
    opt_view, clone_opt_text, same_opt_text, Calibration, CalibrationModel, Filament,
    FilamentInfo, FilamentInfoModel, FilamentModel, Tray, TrayModel, TrayState,
};
use crate::cali_table::{
    nozzle_entries, table_entries, tables_entries, CaliTable, CalibrationTables, NozzleCalibrations,
};
use crate::text::{
    ends_with, starts_with, parse_uint, decimal, ends_with_00, starts_with_00, is_empty_text,
    parse_u32_radix, u32_text,
};

verus! {

/// The calibration the tables hold under `(nozzle, idx)`.
pub open spec fn lookup(
    tables: Map<Seq<char>, Map<i32, CalibrationModel>>,
    nozzle: Seq<char>,
    idx: i32,
) -> Option<CalibrationModel> {
    if tables.contains_key(nozzle) && tables[nozzle].contains_key(idx) {
        Some(tables[nozzle][idx])
    } else {
        None
    }
}

/// The state the printer model holds.
pub struct PrinterModel {
    pub nozzle_diameter: Option<Seq<char>>,
    pub ams_trays: Seq<TrayModel>,
    pub virt_tray: TrayModel,
    pub calibrations: Map<Seq<char>, Map<i32, CalibrationModel>>,
    pub tray_exist_bits: Option<u32>,
    pub tray_read_done_bits: Option<u32>,
    pub tray_reading_bits: Option<u32>,
    pub ams_exist_bits: Option<u32>,
    /// Nozzle diameters whose calibration tables were requested, oldest first.
    pub requests: Seq<Seq<char>>,
}

/// What the update of one tray depends on.
pub struct TrayContext {
    pub nozzle_diameter: Option<Seq<char>>,
    pub calibrations: Map<Seq<char>, Map<i32, CalibrationModel>>,
    pub tray_exist_bits: Option<u32>,
    pub tray_read_done_bits: Option<u32>,
    pub tray_reading_bits: Option<u32>,
}

pub open spec fn context(m: PrinterModel) -> TrayContext {
    TrayContext {
        nozzle_diameter: m.nozzle_diameter,
        calibrations: m.calibrations,
        tray_exist_bits: m.tray_exist_bits,
        tray_read_done_bits: m.tray_read_done_bits,
        tray_reading_bits: m.tray_reading_bits,
    }
}

/// The state of one printer session: trays, bit flags and calibration tables.
#[derive(Debug)]
pub struct BambuPrinter {
    pub nozzle_diameter: Option<String>,
    pub ams_trays: [Tray; 16],
    pub virt_tray: Tray,
    pub calibrations: CalibrationTables,
    pub tray_exist_bits: Option<u32>,
    pub tray_read_done_bits: Option<u32>,
    pub tray_reading_bits: Option<u32>,
    pub ams_exist_bits: Option<u32>,
    /// Outgoing calibration-table requests, to be published by the caller.
    pub outgoing: Vec<ExtrusionCaliGetCommand>,
}

pub open spec fn trays_view(v: Seq<Tray>) -> Seq<TrayModel> {
    v.map_values(|t: Tray| t@)
}

impl View for BambuPrinter {
    type V = PrinterModel;

    open spec fn view(&self) -> PrinterModel {
        PrinterModel {
            nozzle_diameter: opt_view(self.nozzle_diameter),
            ams_trays: trays_view(self.ams_trays@),
            virt_tray: self.virt_tray@,
            calibrations: tables_entries(self.calibrations),
            tray_exist_bits: self.tray_exist_bits,
            tray_read_done_bits: self.tray_read_done_bits,
            tray_reading_bits: self.tray_reading_bits,
            ams_exist_bits: self.ams_exist_bits,
            requests: self.outgoing@.map_values(
                |c: ExtrusionCaliGetCommand| c.print.nozzle_diameter@,
            ),
        }
    }
}

/// The calibration k of `(nozzle, idx)`.
pub open spec fn cali_k(
    tables: Map<Seq<char>, Map<i32, CalibrationModel>>,
    nozzle: Seq<char>,
    idx: i32,
) -> Option<Seq<char>> {
    match lookup(tables, nozzle, idx) {
        Some(c) => Some(c.k_value),
        None => None,
    }
}

/// The k a tray shows: its calibration's under the current nozzle, else its own.
pub open spec fn tray_k(m: TrayContext, t: TrayModel) -> Option<Seq<char>> {
    match (t.cali_idx, m.nozzle_diameter) {
        (Some(i), Some(n)) => match cali_k(m.calibrations, n, i) {
            Some(k) => Some(k),
            None => t.k,
        },
        _ => t.k,
    }
}

/// `f` with a copy of the calibration `(current nozzle, cali_idx)` when the tables hold one.
pub open spec fn attach_calibration(
    m: TrayContext,
    f: FilamentModel,
    cali_idx: Option<i32>,
) -> FilamentModel {
    match (m.nozzle_diameter, cali_idx, f) {
        (Some(n), Some(i), FilamentModel::Known(info)) => match lookup(m.calibrations, n, i) {
            Some(c) => FilamentModel::Known(
                FilamentInfoModel { calibrations: info.calibrations.insert(n, c), ..info },
            ),
            None => f,
        },
        _ => f,
    }
}

/// A tray whose k and calibration copy are derived anew from the tables.
pub open spec fn rederived(m: TrayContext, t: TrayModel) -> TrayModel {
    TrayModel {
        k: tray_k(m, t),
        filament: attach_calibration(m, t.filament, t.cali_idx),
        ..t
    }
}

pub open spec fn text_or_empty(o: Option<String>) -> Seq<char> {
    match o {
        Some(s) => s@,
        None => Seq::empty(),
    }
}

/// `k` in parentheses: a raw, uncalibrated factor.
pub open spec fn paren(k: Seq<char>) -> Seq<char> {
    seq!['('] + k + seq![')']
}

/// The filament identity a tray fragment gives, with temperature defaults 190 / 250.
pub open spec fn fragment_info(u: PrintTray) -> FilamentInfoModel {
    FilamentInfoModel {
        tray_info_idx: text_or_empty(u.tray_info_idx),
        tray_type: text_or_empty(u.tray_type),
        tray_color: text_or_empty(u.tray_color),
        nozzle_temp_max: match u.nozzle_temp_max {
            Some(t) => t,
            None => 250,
        },
        nozzle_temp_min: match u.nozzle_temp_min {
            Some(t) => t,
            None => 190,
        },
        calibrations: Map::empty(),
    }
}

/// Placeholder-like content that the printer sometimes sends.
pub open spec fn is_junk(tray_type: Seq<char>, tray_info_idx: Seq<char>, tray_color: Seq<char>) -> bool {
    ends_with(tray_type, seq!['0', '0']) || ends_with(tray_color, seq!['0', '0']) || starts_with(
        tray_info_idx,
        seq!['0', '0'],
    )
}

pub enum FragmentOutcome {
    NoData,
    Junk,
    Parsed(TrayModel),
}

/// What a tray fragment says of a tray, before any state is set.
pub open spec fn fragment_tray(m: TrayContext, u: PrintTray) -> FragmentOutcome {
    match (u.tray_type, u.tray_info_idx, u.tray_color) {
        (Some(tt), Some(ti), Some(tc)) => if is_junk(tt@, ti@, tc@) {
            FragmentOutcome::Junk
        } else {
            let filament = if tt@.len() == 0 {
                FilamentModel::Unknown
            } else {
                FilamentModel::Known(fragment_info(u))
            };
            let raw = TrayModel {
                state: TrayState::Unknown,
                filament,
                k: match u.k {
                    Some(k) => Some(paren(k@)),
                    None => None,
                },
                cali_idx: u.cali_idx,
            };
            FragmentOutcome::Parsed(rederived(m, raw))
        },
        _ => FragmentOutcome::NoData,
    }
}

pub open spec fn bit_set(bits: u32, i: int) -> bool {
    (bits >> (i as u32)) & 1u32 != 0u32
}

pub open spec fn opt_bit_set(bits: Option<u32>, i: int) -> bool {
    match bits {
        Some(b) => bit_set(b, i),
        None => false,
    }
}

pub open spec fn with_state(t: TrayModel, s: TrayState) -> TrayModel {
    TrayModel { state: s, ..t }
}

/// The state of an occupied AMS slot: spool, escalated to reading, then to ready.
pub open spec fn occupied_state(m: TrayContext, slot: int) -> TrayState {
    if opt_bit_set(m.tray_read_done_bits, slot) {
        TrayState::Ready
    } else if opt_bit_set(m.tray_reading_bits, slot) {
        TrayState::Reading
    } else {
        TrayState::Spool
    }
}

/// The tray that replaces `old`, or `None` for no change. `slot` is the AMS slot,
/// `None` for the external tray.
pub open spec fn updated_tray(
    m: TrayContext,
    old: TrayModel,
    upd: Option<PrintTray>,
    slot: Option<int>,
) -> Option<TrayModel> {
    match slot {
        Some(i) => match m.tray_exist_bits {
            None => Some(blank_tray(TrayState::Unknown)),
            Some(bits) => if !bit_set(bits, i) {
                Some(with_state(old, TrayState::Empty))
            } else {
                let base = match upd {
                    None => Some(old),
                    Some(u) => match fragment_tray(m, u) {
                        FragmentOutcome::Junk => None,
                        FragmentOutcome::NoData => Some(old),
                        FragmentOutcome::Parsed(t) => Some(t),
                    },
                };
                match base {
                    Some(b) => Some(with_state(b, occupied_state(m, i))),
                    None => None,
                }
            },
        },
        None => match upd {
            None => None,
            Some(u) => match fragment_tray(m, u) {
                FragmentOutcome::Junk => None,
                FragmentOutcome::NoData => Some(blank_tray(TrayState::Unknown)),
                FragmentOutcome::Parsed(t) => Some(
                    with_state(
                        t,
                        if t.filament is Unknown {
                            TrayState::Empty
                        } else {
                            TrayState::Ready
                        },
                    ),
                ),
            },
        },
    }
}

/// Index of the first AMS unit whose id text is `id`.
pub open spec fn first_unit_with_id(units: Seq<PrintAmsData>, id: Seq<char>) -> Option<int>
    decreases units.len(),
{
    if units.len() == 0 {
        None
    } else if units[0].id@ == id {
        Some(0)
    } else {
        match first_unit_with_id(units.drop_first(), id) {
            Some(j) => Some(j + 1),
            None => None,
        }
    }
}

/// The fragment an AMS block carries for slot `slot`: in the first unit whose id is
/// `slot / 4`, the first tray whose id is `slot % 4`.
pub open spec fn fragment_for_slot(ams: PrintAms, slot: int) -> Option<PrintTray> {
    match ams.ams {
        Some(units) => match first_unit_with_id(units@, decimal((slot / 4) as nat)) {
            Some(u) => match api::first_index_with_id(units@[u].tray@, (slot % 4) as u32) {
                Some(j) => Some(units@[u].tray@[j]),
                None => None,
            },
            None => None,
        },
        None => None,
    }
}

/// A bit-flag field after a report: the parsed text when it parses, else unchanged.
pub open spec fn parsed_bits(old: Option<u32>, text: Option<String>, radix: nat) -> Option<u32> {
    match text {
        Some(t) => match parse_uint(t@, radix) {
            Some(v) => Some(v),
            None => old,
        },
        None => old,
    }
}

/// The model after the bit flags of an AMS block.
pub open spec fn ams_bits_applied(m: PrinterModel, ams: PrintAms) -> PrinterModel {
    PrinterModel {
        ams_exist_bits: parsed_bits(m.ams_exist_bits, ams.ams_exist_bits, 10),
        tray_exist_bits: parsed_bits(m.tray_exist_bits, ams.tray_exist_bits, 16),
        tray_read_done_bits: parsed_bits(m.tray_read_done_bits, ams.tray_read_done_bits, 16),
        tray_reading_bits: parsed_bits(m.tray_reading_bits, ams.tray_reading_bits, 16),
        ..m
    }
}

/// Slot `i` after an AMS block, given the context after its bit flags.
pub open spec fn new_ams_tray(c: TrayContext, old: Seq<TrayModel>, ams: PrintAms, i: int) -> TrayModel {
    match updated_tray(c, old[i], fragment_for_slot(ams, i), Some(i)) {
        Some(t) => t,
        None => old[i],
    }
}

/// The model after the AMS block of a `push_status` report.
pub open spec fn ams_applied(m: PrinterModel, ams: PrintAms) -> PrinterModel {
    let m1 = ams_bits_applied(m, ams);
    PrinterModel {
        ams_trays: Seq::new(16, |i: int| new_ams_tray(context(m1), m.ams_trays, ams, i)),
        ..m1
    }
}

/// The model after the external-tray block of a `push_status` report.
pub open spec fn vt_applied(m: PrinterModel, v: PrintTray) -> PrinterModel {
    match updated_tray(context(m), m.virt_tray, Some(v), None) {
        Some(t) => PrinterModel { virt_tray: t, ..m },
        None => m,
    }
}

/// The model after a `push_status` report.
pub open spec fn push_status_applied(m: PrinterModel, p: PrintData) -> PrinterModel {
    let m1 = match p.nozzle_diameter {
        Some(n) => PrinterModel { nozzle_diameter: Some(n@), ..m },
        None => m,
    };
    let m2 = match p.ams {
        Some(a) => ams_applied(m1, a),
        None => m1,
    };
    match p.vt_tray {
        Some(v) => vt_applied(m2, v),
        None => m2,
    }
}

/// The filament an `ams_filament_setting` message assigns.
pub open spec fn setting_filament(p: PrintData) -> FilamentModel {
    let idx = text_or_empty(p.tray_info_idx);
    if idx.len() == 0 {
        FilamentModel::Unknown
    } else {
        FilamentModel::Known(
            FilamentInfoModel {
                tray_info_idx: idx,
                tray_type: text_or_empty(p.tray_type),
                tray_color: text_or_empty(p.tray_color),
                nozzle_temp_max: match p.nozzle_temp_max {
                    Some(t) => t,
                    None => 250,
                },
                nozzle_temp_min: match p.nozzle_temp_min {
                    Some(t) => t,
                    None => 190,
                },
                calibrations: Map::empty(),
            },
        )
    }
}

/// The AMS slot that `(ams_id, tray_id)` addresses, when it is one of the 16.
pub open spec fn slot_of(ams_id: i32, tray_id: i32) -> Option<int> {
    if 0 <= ams_id && 0 <= tray_id && ams_id * 4 + tray_id < 16 {
        Some(ams_id * 4 + tray_id)
    } else {
        None
    }
}

/// The model and change flag after an `ams_filament_setting` message.
pub open spec fn filament_setting_applied(m: PrinterModel, p: PrintData) -> (PrinterModel, bool) {
    let f = setting_filament(p);
    match p.tray_id {
        None => (m, false),
        Some(t) => if t == 254 {
            (
                PrinterModel { virt_tray: TrayModel { filament: f, ..m.virt_tray }, ..m },
                true,
            )
        } else {
            match p.ams_id {
                None => (m, true),
                Some(a) => match slot_of(a, t) {
                    Some(i) => (
                        PrinterModel {
                            ams_trays: m.ams_trays.update(
                                i,
                                TrayModel { filament: f, ..m.ams_trays[i] },
                            ),
                            ..m
                        },
                        true,
                    ),
                    None => (m, false),
                },
            }
        },
    }
}

/// The k shown for a tray whose calibration is selected but not in the tables yet.
pub open spec fn uncalibrated_k() -> Seq<char> {
    seq!['(', '0', '.', '0', '2', '0', ')']
}

/// A tray after `extrusion_cali_sel` selected `idx` (-1 for none) under `nozzle`.
pub open spec fn selected_tray(c: TrayContext, t: TrayModel, nozzle: Seq<char>, idx: i32) -> TrayModel {
    let cali_idx = if idx == -1 {
        None
    } else {
        Some(idx)
    };
    TrayModel {
        cali_idx,
        k: match cali_k(c.calibrations, nozzle, idx) {
            Some(k) => Some(k),
            None => Some(uncalibrated_k()),
        },
        filament: attach_calibration(c, t.filament, cali_idx),
        ..t
    }
}

/// The model and change flag after an `extrusion_cali_sel` message.
pub open spec fn cali_sel_applied(m: PrinterModel, p: PrintData) -> (PrinterModel, bool) {
    match (p.nozzle_diameter, p.tray_id, p.cali_idx) {
        (Some(n), Some(t), Some(idx)) => if t == 254 {
            (PrinterModel { virt_tray: selected_tray(context(m), m.virt_tray, n@, idx), ..m }, true)
        } else if 0 <= t < 16 {
            (
                PrinterModel {
                    ams_trays: m.ams_trays.update(
                        t as int,
                        selected_tray(context(m), m.ams_trays[t as int], n@, idx),
                    ),
                    ..m
                },
                true,
            )
        } else {
            (m, false)
        },
        _ => (m, false),
    }
}

/// The calibration an `extrusion_cali_get` entry describes.
pub open spec fn filament_calibration(f: api::Filament) -> CalibrationModel {
    CalibrationModel {
        filament_id: f.filament_id@,
        k_value: f.k_value@,
        n_coef: f.n_coef@,
        setting_id: f.setting_id@,
        name: f.name@,
        cali_idx: f.cali_idx,
    }
}

/// The entries of `e` that belong to filament `fid`.
pub open spec fn keep_filament(e: Map<i32, CalibrationModel>, fid: Seq<char>) -> Map<i32, CalibrationModel> {
    Map::new(|i: i32| e.contains_key(i) && e[i].filament_id == fid, |i: i32| e[i])
}

/// `e` with every calibration of `fs` inserted in order, each overwriting its index.
pub open spec fn insert_all(e: Map<i32, CalibrationModel>, fs: Seq<api::Filament>) -> Map<i32, CalibrationModel>
    decreases fs.len(),
{
    if fs.len() == 0 {
        e
    } else {
        insert_all(e, fs.drop_last()).insert(fs.last().cali_idx, filament_calibration(fs.last()))
    }
}

/// A nozzle's table after a calibration list for filament `fid` (empty: all filaments).
pub open spec fn rebuilt_table(
    old: Option<Map<i32, CalibrationModel>>,
    fid: Seq<char>,
    fs: Seq<api::Filament>,
) -> Map<i32, CalibrationModel> {
    let kept = if fid.len() == 0 {
        Map::empty()
    } else {
        match old {
            Some(e) => keep_filament(e, fid),
            None => Map::empty(),
        }
    };
    insert_all(kept, fs)
}

/// The table the printer holds for `nozzle`, if any.
pub open spec fn table_of(tables: Map<Seq<char>, Map<i32, CalibrationModel>>, nozzle: Seq<char>) -> Option<
    Map<i32, CalibrationModel>,
> {
    if tables.contains_key(nozzle) {
        Some(tables[nozzle])
    } else {
        None
    }
}

/// The model after an `extrusion_cali_get` response for `nozzle`.
pub open spec fn cali_get_applied(
    m: PrinterModel,
    nozzle: Seq<char>,
    fid: Seq<char>,
    fs: Seq<api::Filament>,
) -> PrinterModel {
    let m1 = PrinterModel {
        calibrations: m.calibrations.insert(nozzle, rebuilt_table(table_of(m.calibrations, nozzle), fid, fs)),
        ..m
    };
    PrinterModel {
        ams_trays: Seq::new(16, |i: int| rederived(context(m1), m.ams_trays[i])),
        virt_tray: rederived(context(m1), m.virt_tray),
        ..m1
    }
}

/// The model and change flag after a message; the flag of `push_status` is
/// whether the model changed.
pub open spec fn message_applied(m: PrinterModel, p: PrintData) -> (PrinterModel, bool) {
    match p.command {
        None => (m, false),
        Some(c) => if c@ == "push_status"@ {
            let r = push_status_applied(m, p);
            (r, r != m)
        } else if c@ == "ams_filament_setting"@ {
            filament_setting_applied(m, p)
        } else if c@ == "extrusion_cali_set"@ || c@ == "extrusion_cali_del"@ {
            match p.nozzle_diameter {
                Some(n) => (PrinterModel { requests: m.requests.push(n@), ..m }, true),
                None => (m, true),
            }
        } else if c@ == "extrusion_cali_sel"@ {
            cali_sel_applied(m, p)
        } else if c@ == "extrusion_cali_get"@ {
            match (p.nozzle_diameter, p.filaments) {
                (Some(n), Some(fs)) => (cali_get_applied(m, n@, text_or_empty(p.filament_id), fs@), true),
                _ => (m, false),
            }
        } else {
            (m, false)
        }
    }
}

/// A tray fragment found to be placeholder content.
#[derive(Debug, Clone, Copy, PartialEq, Eq, Structural)]
pub enum JunkField {
    TrayType,
    TrayColor,
    TrayInfoIdx,
}

impl BambuPrinter {
    /// A session with every tray unknown and nothing received yet.
    pub fn new() -> (r: Self)
        ensures
            r@.nozzle_diameter is None,
            forall|i: int| 0 <= i < 16 ==> r@.ams_trays[i] == blank_tray(TrayState::Unknown),
            r@.ams_trays.len() == 16,
            r@.virt_tray == blank_tray(TrayState::Unknown),
            r@.calibrations.dom().is_empty(),
            r@.tray_exist_bits is None,
            r@.tray_read_done_bits is None,
            r@.tray_reading_bits is None,
            r@.ams_exist_bits is None,
            r@.requests.len() == 0,
    {
        BambuPrinter {
            nozzle_diameter: None,
            ams_trays: [
                Tray::unknown(),
                Tray::unknown(),
                Tray::unknown(),
                Tray::unknown(),
                Tray::unknown(),
                Tray::unknown(),
                Tray::unknown(),
                Tray::unknown(),
                Tray::unknown(),
                Tray::unknown(),
                Tray::unknown(),
                Tray::unknown(),
                Tray::unknown(),
                Tray::unknown(),
                Tray::unknown(),
                Tray::unknown(),
            ],
            virt_tray: Tray::unknown(),
            calibrations: CalibrationTables::new(),
            tray_exist_bits: None,
            tray_read_done_bits: None,
            tray_reading_bits: None,
            ams_exist_bits: None,
            outgoing: Vec::new(),
        }
    }

    /// The calibration the tables hold under `(nozzle_diameter, cali_idx)`.
    pub fn get_calibration(&self, nozzle_diameter: &String, cali_idx: i32) -> (r: Option<Calibration>)
        ensures
            r matches Some(c) ==> lookup(self@.calibrations, nozzle_diameter@, cali_idx) == Some(c@),
            r is None ==> lookup(self@.calibrations, nozzle_diameter@, cali_idx) is None,
    {
        match self.calibrations.get(nozzle_diameter) {
            Some(t) => t.get(cali_idx),
            None => None,
        }
    }

    fn get_cali_k_value(&self, nozzle_diameter: &String, cali_idx: i32) -> (r: Option<String>)
        ensures
            opt_view(r) == cali_k(self@.calibrations, nozzle_diameter@, cali_idx),
    {
        match self.get_calibration(nozzle_diameter, cali_idx) {
            Some(c) => Some(c.k_value),
            None => None,
        }
    }

    fn get_tray_cali_k_value(&self, tray: &Tray) -> (r: Option<String>)
        ensures
            opt_view(r) == tray_k(context(self@), tray@),
    {
        let cali_idx = match tray.cali_idx {
            Some(i) => i,
            None => return clone_opt_text(&tray.k),
        };
        let nozzle_diameter = match &self.nozzle_diameter {
            Some(n) => n,
            None => return clone_opt_text(&tray.k),
        };
        match self.get_cali_k_value(nozzle_diameter, cali_idx) {
            Some(k) => Some(k),
            None => clone_opt_text(&tray.k),
        }
    }

    /// Updates one bit-flag field from its report text; true when the field changed.
    fn update_bits(field: &mut Option<u32>, text: &Option<String>, radix: u32) -> (changed: bool)
        requires
            radix == 10 || radix == 16,
        ensures
            *final(field) == parsed_bits(*old(field), *text, radix as nat),
            changed == (*final(field) != *old(field)),
    {
        if let Some(t) = text {
            if let Some(v) = parse_u32_radix(t.as_str(), radix) {
                if *field != Some(v) {
                    *field = Some(v);
                    return true;
                }
            }
        }
        false
    }

    /// Runs the reconciliation of the 16 AMS slots against an AMS block.
    /// Returns whether the model changed.
    #[allow(non_snake_case)]
    pub fn process_print_message__push_status__ams(&mut self, ams: &PrintAms) -> (changed: bool)
        ensures
            final(self)@ == ams_applied(old(self)@, *ams),
            changed == (final(self)@ != old(self)@),
    {
        let ghost m0 = self@;
        let c1 = Self::update_bits(&mut self.ams_exist_bits, &ams.ams_exist_bits, 10);
        let c2 = Self::update_bits(&mut self.tray_exist_bits, &ams.tray_exist_bits, 16);
        let c3 = Self::update_bits(&mut self.tray_read_done_bits, &ams.tray_read_done_bits, 16);
        let c4 = Self::update_bits(&mut self.tray_reading_bits, &ams.tray_reading_bits, 16);
        let mut change_made = c1 || c2 || c3 || c4;
        let ghost m1 = self@;
        assert(m1 == ams_bits_applied(m0, *ams));
        let mut tray_id: usize = 0;
        while tray_id < 16
            invariant
                0 <= tray_id <= 16,
                m1 == ams_bits_applied(m0, *ams),
                self@.ams_trays.len() == 16,
                self@ == (PrinterModel { ams_trays: self@.ams_trays, ..m1 }),
                forall|i: int|
                    0 <= i < tray_id ==> self@.ams_trays[i] == new_ams_tray(
                        context(m1),
                        m0.ams_trays,
                        *ams,
                        i,
                    ),
                forall|i: int| tray_id <= i < 16 ==> self@.ams_trays[i] == m0.ams_trays[i],
                change_made == (c1 || c2 || c3 || c4 || exists|i: int|
                    0 <= i < tray_id && self@.ams_trays[i] != m0.ams_trays[i]),
                m1 != m0 <==> (c1 || c2 || c3 || c4),
            decreases 16 - tray_id,
        {
            let ghost prev = self.ams_trays@;
            let ghost prevm = self@.ams_trays;
            let source_tray = fragment_for_slot_exec(ams, tray_id);
            let new_tray = self.get_updated_tray(&self.ams_trays[tray_id], source_tray, Some(tray_id));
            if let Some(t) = new_tray {
                let same = t.eq(&self.ams_trays[tray_id]);
                if !same {
                    change_made = true;
                }
                self.ams_trays[tray_id] = t;
            }
            assert(forall|i: int|
                0 <= i < 16 && i != tray_id ==> self.ams_trays@[i] == prev[i]);
            assert(forall|i: int|
                0 <= i < 16 && i != tray_id ==> self@.ams_trays[i] == prevm[i]);
            assert(self@.ams_trays[tray_id as int] == new_ams_tray(
                context(m1),
                m0.ams_trays,
                *ams,
                tray_id as int,
            ));
            assert forall|i: int| 0 <= i <= tray_id implies self@.ams_trays[i] == new_ams_tray(
                context(m1),
                m0.ams_trays,
                *ams,
                i,
            ) by {
                if i < tray_id {
                    assert(prevm[i] == new_ams_tray(context(m1), m0.ams_trays, *ams, i));
                }
            }
            tray_id = tray_id + 1;
        }
        let ghost r = ams_applied(m0, *ams);
        assert(self@.ams_trays =~= r.ams_trays);
        if !change_made {
            assert(self@.ams_trays =~= m0.ams_trays);
        }
        change_made
    }

    /// Runs the external-tray update against a fragment; true when the model changed.
    #[allow(non_snake_case)]
    pub fn process_print_message__push_status__vt_tray(&mut self, v_tray: &PrintTray) -> (changed: bool)
        ensures
            final(self)@ == vt_applied(old(self)@, *v_tray),
            changed == (final(self)@ != old(self)@),
    {
        let new_tray = self.get_updated_tray(&self.virt_tray, Some(v_tray), None);
        if let Some(t) = new_tray {
            let same = t.eq(&self.virt_tray);
            self.virt_tray = t;
            return !same;
        }
        false
    }

    /// Applies an `ams_filament_setting` message: sets only the addressed tray's
    /// filament; its state, k and calibration index stay as they are.
    #[allow(non_snake_case)]
    pub fn process_print_message__ams_filament_setting(&mut self, print: &PrintData) -> (changed: bool)
        ensures
            (final(self)@, changed) == filament_setting_applied(old(self)@, *print),
    {
        let tray_id = match print.tray_id {
            Some(t) => t,
            None => return false,
        };
        let new_filament = setting_filament_exec(print);
        if tray_id == 254 {
            self.virt_tray.filament = new_filament;
            true
        } else {
            match print.ams_id {
                Some(ams_id) => {
                    if 0 <= ams_id && ams_id < 4 && 0 <= tray_id && tray_id < 16 && ams_id * 4
                        + tray_id < 16 {
                        let i = (ams_id * 4 + tray_id) as usize;
                        let ghost prev = self.ams_trays@;
                        let mut t = self.ams_trays[i].clone();
                        t.filament = new_filament;
                        self.ams_trays[i] = t;
                        assert(self@.ams_trays =~= old(self)@.ams_trays.update(
                            i as int,
                            TrayModel { filament: setting_filament(*print), ..old(self)@.ams_trays[i as int] },
                        ));
                        true
                    } else {
                        false
                    }
                },
                None => true,
            }
        }
    }

    /// The tray `tray` after selecting calibration `cali_idx` (-1 for none) under `nozzle_diameter`.
    fn selected(&self, tray: Tray, nozzle_diameter: &String, cali_idx: i32) -> (r: Tray)
        ensures
            r@ == selected_tray(context(self@), tray@, nozzle_diameter@, cali_idx),
    {
        let mut tray = tray;
        let k = self.get_cali_k_value(nozzle_diameter, cali_idx);
        tray.cali_idx = if cali_idx == -1 {
            None
        } else {
            Some(cali_idx)
        };
        tray.k = match k {
            Some(k) => Some(k),
            None => {
                let u = String::from_str("(0.020)");
                proof {
                    reveal_strlit("(0.020)");
                }
                assert(u@ =~= uncalibrated_k());
                Some(u)
            },
        };
        let new_idx = tray.cali_idx;
        self.attach_calibration(&mut tray.filament, new_idx);
        tray
    }

    /// Applies an `extrusion_cali_sel` message to the addressed tray.
    #[allow(non_snake_case)]
    pub fn process_print_message__extrusion_cali_sel(&mut self, print: &PrintData) -> (changed: bool)
        ensures
            (final(self)@, changed) == cali_sel_applied(old(self)@, *print),
    {
        if let (Some(nozzle_diameter), Some(tray_id), Some(cali_idx)) = (
            &print.nozzle_diameter,
            print.tray_id,
            print.cali_idx,
        ) {
            if tray_id == 254 {
                let t = self.virt_tray.clone();
                let t = self.selected(t, nozzle_diameter, cali_idx);
                self.virt_tray = t;
                true
            } else if 0 <= tray_id && tray_id < 16 {
                let i = tray_id as usize;
                let t = self.ams_trays[i].clone();
                let t = self.selected(t, nozzle_diameter, cali_idx);
                self.ams_trays[i] = t;
                assert(self@.ams_trays =~= old(self)@.ams_trays.update(
                    i as int,
                    selected_tray(context(old(self)@), old(self)@.ams_trays[i as int], nozzle_diameter@, cali_idx),
                ));
                true
            } else {
                false
            }
        } else {
            false
        }
    }

    /// Applies an `extrusion_cali_get` response: rebuilds the nozzle's table, then
    /// re-derives every tray's k and calibration copy.
    #[allow(non_snake_case)]
    pub fn process_print_message__extrusion_cali_get(&mut self, print: &PrintData) -> (changed: bool)
        ensures
            (final(self)@, changed) == match (print.nozzle_diameter, print.filaments) {
                (Some(n), Some(fs)) => (
                    cali_get_applied(old(self)@, n@, text_or_empty(print.filament_id), fs@),
                    true,
                ),
                _ => (old(self)@, false),
            },
    {
        let (nozzle_diameter, filaments) = match (&print.nozzle_diameter, &print.filaments) {
            (Some(n), Some(fs)) => (n, fs),
            _ => return false,
        };
        let all_filaments = String::new();
        let filament_id: &String = match &print.filament_id {
            Some(f) => f,
            None => &all_filaments,
        };
        let ghost m0 = self@;
        let mut entries: CaliTable = match self.calibrations.remove(nozzle_diameter) {
            Some(t) => t,
            None => CaliTable::new(),
        };
        if is_empty_text(filament_id) {
            entries.clear();
        } else {
            entries.retain_filament(filament_id);
        }
        let ghost m_out = self@;
        assert(table_entries(entries) =~= rebuilt_table(
            table_of(m0.calibrations, nozzle_diameter@),
            filament_id@,
            Seq::empty(),
        ));
        let mut j: usize = 0;
        while j < filaments.len()
            invariant
                0 <= j <= filaments.len(),
                self@ == m_out,
                table_entries(entries) == insert_all(
                    rebuilt_table(table_of(m0.calibrations, nozzle_diameter@), filament_id@, Seq::empty()),
                    filaments@.subrange(0, j as int),
                ),
            decreases filaments.len() - j,
        {
            assert(filaments@.subrange(0, j + 1).drop_last() =~= filaments@.subrange(0, j as int));
            entries.insert(filaments[j].cali_idx, Calibration::from_filament(&filaments[j]));
            j = j + 1;
        }
        assert(filaments@.subrange(0, filaments.len() as int) =~= filaments@);
        self.calibrations.insert(nozzle_diameter.clone(), entries);
        assert(self@.calibrations =~= m0.calibrations.insert(
            nozzle_diameter@,
            rebuilt_table(table_of(m0.calibrations, nozzle_diameter@), filament_id@, filaments@),
        ));
        let ghost m1 = self@;
        let mut i: usize = 0;
        while i < 16
            invariant
                0 <= i <= 16,
                self@ == (PrinterModel { ams_trays: self@.ams_trays, ..m1 }),
                self@.ams_trays.len() == 16,
                forall|k: int| 0 <= k < i ==> self@.ams_trays[k] == rederived(context(m1), m0.ams_trays[k]),
                forall|k: int| i <= k < 16 ==> self@.ams_trays[k] == m0.ams_trays[k],
            decreases 16 - i,
        {
            let ghost prevm = self@.ams_trays;
            let mut t = self.ams_trays[i].clone();
            self.rederive_tray(&mut t);
            self.ams_trays[i] = t;
            assert forall|k: int| 0 <= k < 16 && k != i implies self@.ams_trays[k] == prevm[k] by {
            }
            assert forall|k: int| 0 <= k <= i implies self@.ams_trays[k] == rederived(context(m1), m0.ams_trays[k]) by {
                if k < i {
                    assert(prevm[k] == rederived(context(m1), m0.ams_trays[k]));
                }
            }
            i = i + 1;
        }
        let mut v = self.virt_tray.clone();
        self.rederive_tray(&mut v);
        self.virt_tray = v;
        assert(self@.ams_trays =~= cali_get_applied(m0, nozzle_diameter@, filament_id@, filaments@).ams_trays);
        true
    }

    /// Queues a request for the calibration table of `nozzle_diameter`.
    pub fn fetch_filament_calibrations(&mut self, nozzle_diameter: &str)
        ensures
            final(self)@ == (PrinterModel { requests: old(self)@.requests.push(nozzle_diameter@), ..old(self)@ }),
    {
        self.outgoing.push(ExtrusionCaliGetCommand::new(nozzle_diameter));
        assert(self@.requests =~= old(self)@.requests.push(nozzle_diameter@));
    }

    /// Applies one inbound message. Observers are not called from here: the caller
    /// notifies them afterwards, when the returned flag is set.
    pub fn process_print_message(&mut self, print: &PrintData) -> (changed: bool)
        ensures
            (final(self)@, changed) == message_applied(old(self)@, *print),
    {
        let command = match &print.command {
            Some(c) => c,
            None => return false,
        };
        if *command == String::from_str("push_status") {
            let ghost m = self@;
            let mut nozzle_changed = false;
            if let Some(n) = &print.nozzle_diameter {
                let previous = clone_opt_text(&self.nozzle_diameter);
                self.nozzle_diameter = Some(n.clone());
                nozzle_changed = !same_opt_text(&previous, &self.nozzle_diameter);
            }
            let ghost m1 = self@;
            let mut ams_changed = false;
            if let Some(ams) = &print.ams {
                ams_changed = self.process_print_message__push_status__ams(ams);
            }
            let ghost m2 = self@;
            let mut vt_changed = false;
            if let Some(v) = &print.vt_tray {
                vt_changed = self.process_print_message__push_status__vt_tray(v);
            }
            let ghost m3 = self@;
            assert(m3 == push_status_applied(m, *print));
            assert(m2.nozzle_diameter == m1.nozzle_diameter);
            assert(m3.nozzle_diameter == m1.nozzle_diameter);
            assert(m3.ams_trays == m2.ams_trays && m3.tray_exist_bits == m2.tray_exist_bits);
            assert(m2.virt_tray == m1.virt_tray);
            nozzle_changed || ams_changed || vt_changed
        } else if *command == String::from_str("ams_filament_setting") {
            self.process_print_message__ams_filament_setting(print)
        } else if *command == String::from_str("extrusion_cali_set") || *command == String::from_str(
            "extrusion_cali_del",
        ) {
            if let Some(n) = &print.nozzle_diameter {
                self.fetch_filament_calibrations(n.as_str());
            }
            true
        } else if *command == String::from_str("extrusion_cali_sel") {
            self.process_print_message__extrusion_cali_sel(print)
        } else if *command == String::from_str("extrusion_cali_get") {
            self.process_print_message__extrusion_cali_get(print)
        } else {
            false
        }
    }

    /// The calibration `filament_info` carries for the current nozzle.
    pub fn get_filament_calibration_for_current_nozzle(&self, filament_info: &FilamentInfo) -> (r: Option<Calibration>)
        requires
            self.nozzle_diameter is Some,
        ensures
            r matches Some(c) ==> filament_info@.calibrations.contains_key(self@.nozzle_diameter->0)
                && c@ == filament_info@.calibrations[self@.nozzle_diameter->0],
            r is None ==> !filament_info@.calibrations.contains_key(self@.nozzle_diameter->0),
    {
        match &self.nozzle_diameter {
            Some(n) => filament_info.calibrations.get(n),
            None => None,
        }
    }

    /// The k of the calibration `filament_info` carries for the current nozzle, or empty text.
    pub fn get_filament_k_for_current_nozzle(&self, filament_info: &FilamentInfo) -> (r: String)
        requires
            self.nozzle_diameter is Some,
        ensures
            r@ == if filament_info@.calibrations.contains_key(self@.nozzle_diameter->0) {
                filament_info@.calibrations[self@.nozzle_diameter->0].k_value
            } else {
                Seq::empty()
            },
    {
        match self.get_filament_calibration_for_current_nozzle(filament_info) {
            Some(c) => c.k_value,
            None => String::new(),
        }
    }

    /// The AMS unit and unit-local slot of a tray index; the external tray (254 and up)
    /// keeps its index under unit 254.
    pub fn get_ams_and_tray_id(tray_id: usize) -> (r: (usize, usize))
        ensures
            tray_id < 254 ==> r == (tray_id / 4, tray_id % 4),
            tray_id >= 254 ==> r == (254usize, tray_id),
    {
        if tray_id < 254 {
            let ams_id = tray_id / 4;
            (ams_id, tray_id - ams_id * 4)
        } else {
            (254, tray_id)
        }
    }

    /// The two commands that assign `filament` to tray `tray_id` (254: external):
    /// its identity, then its calibration for the current nozzle when the printer's
    /// table still holds that index (-1 otherwise).
    pub fn set_tray_filament(&self, tray_id: i32, filament: &FilamentInfo) -> (r: (
        AmsFilamentSettingCommand,
        ExtrusionCaliSelCommand,
    ))
        requires
            self.nozzle_diameter is Some,
            tray_id >= 0,
        ensures
            r.0.print.command@ == "ams_filament_setting"@,
            r.0.print.ams_id == if tray_id == 254 { 255 } else { tray_id / 4 },
            r.0.print.tray_id == if tray_id == 254 { 254 } else { tray_id % 4 },
            r.0.print.tray_info_idx@ == filament@.tray_info_idx,
            opt_view(r.0.print.setting_id) == if filament@.calibrations.contains_key(self@.nozzle_diameter->0) {
                Some(filament@.calibrations[self@.nozzle_diameter->0].setting_id)
            } else {
                None
            },
            r.0.print.tray_type@ == filament@.tray_type,
            r.0.print.tray_color@ == filament@.tray_color,
            r.0.print.nozzle_temp_min == filament.nozzle_temp_min,
            r.0.print.nozzle_temp_max == filament.nozzle_temp_max,
            r.0.print.sequence_id@ == "1"@,
            r.1.print.command@ == "extrusion_cali_sel"@,
            r.1.print.nozzle_diameter@ == self@.nozzle_diameter->0,
            r.1.print.tray_id == tray_id,
            r.1.print.filament_id@ == filament@.tray_info_idx,
            r.1.print.cali_idx == selectable_index(self@, filament@),
            r.1.print.sequence_id@ == "1"@,
    {
        let (ams_id, ams_tray_id): (u32, i32) = if tray_id == 254 {
            (255, 254)
        } else {
            ((tray_id / 4) as u32, tray_id % 4)
        };
        let nozzle = match &self.nozzle_diameter {
            Some(n) => n,
            None => {
                return (
                    AmsFilamentSettingCommand::new(0, 0, "", None, "", "", 0, 0),
                    ExtrusionCaliSelCommand::new("", 0, "", None),
                )
            },
        };
        let calibration = self.get_filament_calibration_for_current_nozzle(filament);
        let setting_id = match &calibration {
            Some(c) => Some(c.setting_id.as_str()),
            None => None,
        };
        let cmd = AmsFilamentSettingCommand::new(
            ams_id,
            ams_tray_id,
            filament.tray_info_idx.as_str(),
            setting_id,
            filament.tray_type.as_str(),
            filament.tray_color.as_str(),
            filament.nozzle_temp_min,
            filament.nozzle_temp_max,
        );
        let mut cali_idx: i32 = -1;
        if let Some(c) = calibration {
            if let Some(t) = self.calibrations.get(nozzle) {
                if t.get(c.cali_idx).is_some() {
                    cali_idx = c.cali_idx;
                }
            }
        }
        let sel = ExtrusionCaliSelCommand::new(
            nozzle.as_str(),
            tray_id,
            filament.tray_info_idx.as_str(),
            Some(cali_idx),
        );
        (cmd, sel)
    }

    /// Attaches to `filament` a copy of the calibration `(current nozzle, cali_idx)`.
    fn attach_calibration(&self, filament: &mut Filament, cali_idx: Option<i32>)
        ensures
            final(filament)@ == attach_calibration(context(self@), old(filament)@, cali_idx),
    {
        if let (Some(nozzle_diameter), Some(idx)) = (&self.nozzle_diameter, cali_idx) {
            if let Some(calibration) = self.get_calibration(nozzle_diameter, idx) {
                if let Filament::Known(info) = filament {
                    info.calibrations.insert(nozzle_diameter.clone(), calibration);
                }
            }
        }
    }

    /// Re-derives a tray's k and calibration copy from the tables.
    fn rederive_tray(&self, tray: &mut Tray)
        ensures
            final(tray)@ == rederived(context(self@), old(tray)@),
    {
        let k = self.get_tray_cali_k_value(tray);
        let cali_idx = tray.cali_idx;
        self.attach_calibration(&mut tray.filament, cali_idx);
        tray.k = k;
    }

    /// What a tray fragment says of a tray: `Ok(None)` when it lacks one of
    /// type, filament code and color, an error when it holds placeholder content.
    pub fn tray_from_update(&self, tray_update: &PrintTray) -> (r: Result<Option<Tray>, JunkField>)
        ensures
            match fragment_tray(context(self@), *tray_update) {
                FragmentOutcome::NoData => r matches Ok(None),
                FragmentOutcome::Junk => r is Err,
                FragmentOutcome::Parsed(t) => r matches Ok(Some(x)) && x@ == t,
            },
    {
        if let (Some(tray_type), Some(tray_info_idx), Some(tray_color)) = (
            &tray_update.tray_type,
            &tray_update.tray_info_idx,
            &tray_update.tray_color,
        ) {
            if ends_with_00(tray_type) {
                return Err(JunkField::TrayType);
            }
            if ends_with_00(tray_color) {
                return Err(JunkField::TrayColor);
            }
            if starts_with_00(tray_info_idx) {
                return Err(JunkField::TrayInfoIdx);
            }
            let filament = if is_empty_text(tray_type) {
                Filament::Unknown
            } else {
                Filament::Known(FilamentInfo::from_tray(tray_update))
            };
            let k = match &tray_update.k {
                Some(k) => {
                    let mut s = String::from_str("(");
                    s.append(k.as_str());
                    s.append(")");
                    proof {
                        reveal_strlit("(");
                        reveal_strlit(")");
                    }
                    assert(s@ =~= paren(k@));
                    Some(s)
                },
                None => None,
            };
            let mut new_tray = Tray {
                state: TrayState::Unknown,
                filament,
                k,
                cali_idx: tray_update.cali_idx,
            };
            self.rederive_tray(&mut new_tray);
            Ok(Some(new_tray))
        } else {
            Ok(None)
        }
    }

    /// The tray that replaces `old_tray` given a fragment, or `None` for no change.
    /// `tray_id` is the AMS slot, `None` for the external tray.
    pub fn get_updated_tray(
        &self,
        old_tray: &Tray,
        tray_update: Option<&PrintTray>,
        tray_id: Option<usize>,
    ) -> (r: Option<Tray>)
        requires
            tray_id matches Some(i) ==> i < 16,
        ensures
            opt_tray_view(r) == updated_tray(
                context(self@),
                old_tray@,
                opt_fragment(tray_update),
                match tray_id {
                    Some(i) => Some(i as int),
                    None => None,
                },
            ),
    {
        if let Some(tray_id) = tray_id {
            if let Some(tray_exist_bits) = self.tray_exist_bits {
                let tray_exist = ((tray_exist_bits >> (tray_id as u32)) & 1u32) != 0u32;
                if tray_exist {
                    let tray_reading = match self.tray_reading_bits {
                        Some(x) => ((x >> (tray_id as u32)) & 1u32) != 0u32,
                        None => false,
                    };
                    let tray_read_done = match self.tray_read_done_bits {
                        Some(x) => ((x >> (tray_id as u32)) & 1u32) != 0u32,
                        None => false,
                    };
                    let mut new_tray = match tray_update {
                        Some(u) => match self.tray_from_update(u) {
                            Ok(Some(t)) => t,
                            Ok(None) => old_tray.clone(),
                            Err(_) => return None,
                        },
                        None => old_tray.clone(),
                    };
                    new_tray.state = TrayState::Spool;
                    if tray_reading {
                        new_tray.state = TrayState::Reading;
                    }
                    if tray_read_done {
                        new_tray.state = TrayState::Ready;
                    }
                    Some(new_tray)
                } else {
                    let mut new_tray = old_tray.clone();
                    new_tray.state = TrayState::Empty;
                    Some(new_tray)
                }
            } else {
                Some(Tray::unknown())
            }
        } else {
            match tray_update {
                Some(u) => match self.tray_from_update(u) {
                    Ok(Some(t)) => {
                        let mut new_tray = t;
                        new_tray.state = match new_tray.filament {
                            Filament::Unknown => TrayState::Empty,
                            Filament::Known(_) => TrayState::Ready,
                        };
                        Some(new_tray)
                    },
                    Ok(None) => Some(Tray::unknown()),
                    Err(_) => None,
                },
                None => None,
            }
        }
    }
}

pub open spec fn opt_tray_view(t: Option<Tray>) -> Option<TrayModel> {
    match t {
        Some(x) => Some(x@),
        None => None,
    }
}

pub open spec fn opt_fragment(u: Option<&PrintTray>) -> Option<PrintTray> {
    match u {
        Some(x) => Some(*x),
        None => None,
    }
}

/// The fragment an AMS block carries for `slot`.
fn fragment_for_slot_exec(ams: &PrintAms, slot: usize) -> (r: Option<&PrintTray>)
    requires
        slot < 16,
    ensures
        opt_fragment(r) == fragment_for_slot(*ams, slot as int),
{
    let units = match &ams.ams {
        Some(u) => u,
        None => return None,
    };
    let id_text = u32_text((slot / 4) as u32);
    let mut i: usize = 0;
    assert(units@.skip(0) =~= units@);
    while i < units.len()
        invariant
            0 <= i <= units.len(),
            ams.ams == Some(*units),
            id_text@ == decimal((slot / 4) as nat),
            first_unit_with_id(units@, id_text@) == match first_unit_with_id(
                units@.skip(i as int),
                id_text@,
            ) {
                Some(j) => Some(j + i),
                None => None,
            },
        decreases units.len() - i,
    {
        assert(units@.skip(i as int).drop_first() =~= units@.skip(i + 1));
        assert(units@.skip(i as int)[0] == units@[i as int]);
        if units[i].id == id_text {
            return match api::find_index_with_id(&units[i].tray, (slot % 4) as u32) {
                Some(j) => Some(&units[i].tray[j]),
                None => None,
            };
        }
        i = i + 1;
    }
    None
}

/// The filament an `ams_filament_setting` message assigns.
fn setting_filament_exec(print: &PrintData) -> (r: Filament)
    ensures
        r@ == setting_filament(*print),
{
    let idx = clone_or_empty(&print.tray_info_idx);
    if is_empty_text(&idx) {
        Filament::Unknown
    } else {
        let info = FilamentInfo {
            tray_info_idx: idx,
            tray_type: clone_or_empty(&print.tray_type),
            tray_color: clone_or_empty(&print.tray_color),
            nozzle_temp_max: match print.nozzle_temp_max {
                Some(t) => t,
                None => 250,
            },
            nozzle_temp_min: match print.nozzle_temp_min {
                Some(t) => t,
                None => 190,
            },
            calibrations: NozzleCalibrations::new(),
        };
        assert(nozzle_entries(info.calibrations) =~= Map::empty());
        Filament::Known(info)
    }
}

impl Calibration {
    /// The calibration an `extrusion_cali_get` entry describes.
    pub fn from_filament(v: &api::Filament) -> (r: Self)
        ensures
            r@ == filament_calibration(*v),
    {
        Calibration {
            filament_id: v.filament_id.clone(),
            name: v.name.clone(),
            k_value: v.k_value.clone(),
            n_coef: v.n_coef.clone(),
            setting_id: v.setting_id.clone(),
            cali_idx: v.cali_idx,
        }
    }
}

/// The calibration index a tray assignment selects: that of the filament's copy for the
/// current nozzle when the printer's table for that nozzle holds it, else -1.
pub open spec fn selectable_index(m: PrinterModel, f: FilamentInfoModel) -> i32 {
    match m.nozzle_diameter {
        Some(n) => if f.calibrations.contains_key(n) {
            if m.calibrations.contains_key(n) && m.calibrations[n].contains_key(f.calibrations[n].cali_idx) {
                f.calibrations[n].cali_idx
            } else {
                -1i32
            }
        } else {
            -1i32
        },
        None => -1i32,
    }
}

impl FilamentInfo {
    /// The filament identity of a tray fragment, with temperature defaults 190 / 250.
    pub fn from_tray(v: &PrintTray) -> (r: Self)
        ensures
            r@ == fragment_info(*v),
    {
        let r = FilamentInfo {
            tray_info_idx: clone_or_empty(&v.tray_info_idx),
            tray_type: clone_or_empty(&v.tray_type),
            tray_color: clone_or_empty(&v.tray_color),
            nozzle_temp_max: match v.nozzle_temp_max {
                Some(t) => t,
                None => 250,
            },
            nozzle_temp_min: match v.nozzle_temp_min {
                Some(t) => t,
                None => 190,
            },
            calibrations: NozzleCalibrations::new(),
        };
        assert(nozzle_entries(r.calibrations) =~= Map::empty());
        r
    }
}

fn clone_or_empty(o: &Option<String>) -> (r: String)
    ensures
        r@ == text_or_empty(*o),
{
    match o {
        Some(s) => s.clone(),
        None => String::new(),
    }
}

} // verus!
