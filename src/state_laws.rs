use vstd::prelude::*;
use crate::api::{PrintAms, PrintData, PrintTray};
use crate::model::{blank_tray, TrayModel, TrayState};
use crate::printer::{
    ams_applied, ams_bits_applied, bit_set, cali_get_applied, context, fragment_tray,
    lookup, message_applied, parsed_bits, push_status_applied, rebuilt_table, table_of,
    updated_tray, with_state, PrinterModel, TrayContext,
};
use crate::text::ends_with;

verus! {

/// A bit-flag field parsed twice from the same text is parsed once.
proof fn lemma_parsed_bits_idempotent(old: Option<u32>, text: Option<String>, radix: nat)
    ensures
        parsed_bits(parsed_bits(old, text, radix), text, radix) == parsed_bits(old, text, radix),
{
}

/// A tray after an update: the replacement, or the tray itself for no change.
pub open spec fn tray_after(c: TrayContext, old: TrayModel, upd: Option<PrintTray>, slot: Option<int>) -> TrayModel {
    match updated_tray(c, old, upd, slot) {
        Some(t) => t,
        None => old,
    }
}

/// Updating a tray a second time with the same fragment and context leaves it as the
/// first update did.
pub proof fn lemma_updated_tray_idempotent(
    c: TrayContext,
    old: TrayModel,
    upd: Option<PrintTray>,
    slot: Option<int>,
)
    ensures
        tray_after(c, tray_after(c, old, upd, slot), upd, slot) == tray_after(c, old, upd, slot),
{
}

/// Bit authority: while no tray-exist flags are known, every AMS slot a report
/// reconciles is `Unknown`, whatever content the report carries.
pub proof fn lemma_bit_authority(m: PrinterModel, ams: PrintAms)
    requires
        ams_bits_applied(m, ams).tray_exist_bits is None,
    ensures
        forall|i: int| 0 <= i < 16 ==> (#[trigger] ams_applied(m, ams).ams_trays[i]) == blank_tray(
            TrayState::Unknown,
        ),
{
}

/// Historical memory: a slot whose exist flag reads 0 becomes `Empty` and keeps the
/// filament, k and calibration it had.
pub proof fn lemma_historical_memory(m: PrinterModel, ams: PrintAms, i: int)
    requires
        0 <= i < 16,
        ams_bits_applied(m, ams).tray_exist_bits matches Some(b) && !bit_set(b, i),
    ensures
        ams_applied(m, ams).ams_trays[i] == with_state(m.ams_trays[i], TrayState::Empty),
        ams_applied(m, ams).ams_trays[i].filament == m.ams_trays[i].filament,
{
}

/// Junk rejection: a complete fragment whose color ends in "00" leaves the filament,
/// k and calibration index of the tray it addresses as they were (an AMS slot only
/// once its exist flags are known: before that, bit authority makes it `Unknown`).
pub proof fn lemma_junk_rejected(c: TrayContext, old: TrayModel, u: PrintTray, slot: Option<int>)
    requires
        u.tray_type is Some,
        u.tray_info_idx is Some,
        u.tray_color matches Some(col) && ends_with(col@, seq!['0', '0']),
        slot is Some ==> c.tray_exist_bits is Some,
    ensures
        fragment_tray(c, u) is Junk,
        updated_tray(c, old, Some(u), slot) matches Some(t) ==> t.filament == old.filament && t.k
            == old.k && t.cali_idx == old.cali_idx,
{
}

/// Calibration re-derivation: after an `extrusion_cali_get` response for the current
/// nozzle, an AMS tray whose calibration index is in the new table shows that entry's
/// k; a tray whose index (under the current nozzle) is in no table keeps its k.
pub proof fn lemma_calibration_rederived(
    m: PrinterModel,
    nozzle: Seq<char>,
    fid: Seq<char>,
    fs: Seq<crate::api::Filament>,
    i: int,
    idx: i32,
)
    requires
        0 <= i < 16,
        m.ams_trays[i].cali_idx == Some(idx),
    ensures
        m.nozzle_diameter == Some(nozzle) && rebuilt_table(
            table_of(m.calibrations, nozzle),
            fid,
            fs,
        ).contains_key(idx) ==> cali_get_applied(m, nozzle, fid, fs).ams_trays[i].k == Some(
            rebuilt_table(table_of(m.calibrations, nozzle), fid, fs)[idx].k_value,
        ),
        m.nozzle_diameter is None || lookup(
            cali_get_applied(m, nozzle, fid, fs).calibrations,
            m.nozzle_diameter->0,
            idx,
        ) is None ==> cali_get_applied(m, nozzle, fid, fs).ams_trays[i].k == m.ams_trays[i].k,
{
}

/// Idempotence: a `push_status` report applied a second time changes nothing.
pub proof fn lemma_push_status_idempotent(m: PrinterModel, p: PrintData)
    requires
        p.command matches Some(c) && c@ == "push_status"@,
        m.ams_trays.len() == 16,
    ensures
        message_applied(message_applied(m, p).0, p).1 == false,
        message_applied(message_applied(m, p).0, p).0 == message_applied(m, p).0,
{
    let s1 = push_status_applied(m, p);
    let m1 = match p.nozzle_diameter {
        Some(n) => PrinterModel { nozzle_diameter: Some(n@), ..m },
        None => m,
    };
    let n1 = match p.nozzle_diameter {
        Some(n) => PrinterModel { nozzle_diameter: Some(n@), ..s1 },
        None => s1,
    };
    let m2 = match p.ams {
        Some(a) => ams_applied(m1, a),
        None => m1,
    };
    let n2 = match p.ams {
        Some(a) => ams_applied(n1, a),
        None => n1,
    };
    if let Some(a) = p.ams {
        lemma_parsed_bits_idempotent(m1.ams_exist_bits, a.ams_exist_bits, 10);
        lemma_parsed_bits_idempotent(m1.tray_exist_bits, a.tray_exist_bits, 16);
        lemma_parsed_bits_idempotent(m1.tray_read_done_bits, a.tray_read_done_bits, 16);
        lemma_parsed_bits_idempotent(m1.tray_reading_bits, a.tray_reading_bits, 16);
        assert(context(ams_bits_applied(n1, a)) == context(ams_bits_applied(m1, a)));
        assert forall|i: int| 0 <= i < 16 implies n2.ams_trays[i] == m2.ams_trays[i] by {
            lemma_updated_tray_idempotent(
                context(ams_bits_applied(m1, a)),
                m1.ams_trays[i],
                crate::printer::fragment_for_slot(a, i),
                Some(i),
            );
            assert(n1.ams_trays[i] == m2.ams_trays[i]);
        }
        assert(n2.ams_trays =~= m2.ams_trays);
    }
    assert(context(n2) == context(m2));
    if let Some(v) = p.vt_tray {
        lemma_updated_tray_idempotent(context(m2), m2.virt_tray, Some(v), None);
        assert(n2.virt_tray == s1.virt_tray);
    }
    assert(push_status_applied(s1, p) == s1);
}

} // verus!
