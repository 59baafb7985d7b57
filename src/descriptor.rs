use vstd::prelude::*;
use crate::model::{minimal_calibration, Calibration, CalibrationModel, FilamentInfo, FilamentInfoModel};
use crate::cali_table::{nozzle_entries, table_entries, tables_entries, CalibrationTables, NozzleCalibrations};
use crate::printer::BambuPrinter;
use crate::text::{
    chars_of, eq_chars, parse_u32_radix, parse_uint, split_once, split_once_exec, starts_with,
    string_of, sub_chars, escaped, decimal, trim_space, trim_space_exec, trim_zeros, trim_zeros_exec, unescape_chars,
    unescaped,
};

verus! {

/// The origin every descriptor starts with.
pub open spec fn prefix() -> Seq<char> {
    "https://info.filament3d.org/"@
}

/// Why a descriptor was refused.
#[derive(Debug, Clone, Copy, PartialEq, Eq, Structural)]
pub enum Error {
    /// The prefix is wrong, a temperature is not a number, or a calibration has
    /// fewer than three parts.
    ParseError,
    /// A required field is absent.
    MissingFields,
}

pub open spec fn is_separator(c: char) -> bool {
    c == '&' || c == '/' || c == '?'
}

/// `s` split on `&`, `/` and `?`; empty pieces kept.
pub open spec fn segments(s: Seq<char>) -> Seq<Seq<char>>
    decreases s.len(),
{
    if s.len() == 0 {
        seq![Seq::empty()]
    } else {
        let p = segments(s.drop_last());
        if is_separator(s.last()) {
            p.push(Seq::empty())
        } else {
            p.update(p.len() - 1, p.last().push(s.last()))
        }
    }
}

pub proof fn lemma_segments_nonempty(s: Seq<char>)
    ensures
        segments(s).len() >= 1,
    decreases s.len(),
{
    if s.len() > 0 {
        lemma_segments_nonempty(s.drop_last());
    }
}

/// The fields the first pass collects: for each, whether it was seen and its last value.
pub struct FlatFields {
    pub v1: bool,
    pub id: bool,
    pub material: Option<Seq<char>>,
    pub color: Option<Seq<char>>,
    pub temp_min: Option<u32>,
    pub temp_max: Option<u32>,
    pub filament_code: Option<Seq<char>>,
    pub error: bool,
}

pub open spec fn no_fields() -> FlatFields {
    FlatFields {
        v1: false,
        id: false,
        material: None,
        color: None,
        temp_min: None,
        temp_max: None,
        filament_code: None,
        error: false,
    }
}

/// One segment applied to the first pass: the `V1` marker or a `NAME=VALUE` token.
pub open spec fn flat_step(f: FlatFields, seg: Seq<char>) -> FlatFields {
    if seg == "V1"@ {
        FlatFields { v1: true, ..f }
    } else {
        match split_once(seg, '=') {
            Some((name, value)) => if name == "ID"@ {
                FlatFields { id: true, ..f }
            } else if name == "M"@ {
                FlatFields { material: Some(value), ..f }
            } else if name == "C"@ {
                FlatFields { color: Some(value), ..f }
            } else if name == "NN"@ {
                match parse_uint(value, 10) {
                    Some(t) => FlatFields { temp_min: Some(t), ..f },
                    None => FlatFields { error: true, ..f },
                }
            } else if name == "NX"@ {
                match parse_uint(value, 10) {
                    Some(t) => FlatFields { temp_max: Some(t), ..f },
                    None => FlatFields { error: true, ..f },
                }
            } else if name == "FI"@ {
                FlatFields { filament_code: Some(value), ..f }
            } else {
                f
            },
            None => f,
        }
    }
}

/// The first pass over the segments, in order.
pub open spec fn flat_fields(segs: Seq<Seq<char>>) -> FlatFields
    decreases segs.len(),
{
    if segs.len() == 0 {
        no_fields()
    } else {
        flat_step(flat_fields(segs.drop_last()), segs.last())
    }
}

/// `s` has an opening `(K` at `i` that a final `)` closes.
pub open spec fn k_open_at(s: Seq<char>, i: int) -> bool {
    0 <= i && i + 2 < s.len() && s[i] == '(' && s[i + 1] == 'K'
}

/// The last `(K` opening before position `n`.
pub open spec fn last_k_open(s: Seq<char>, n: int) -> Option<int>
    decreases n,
{
    if n <= 0 {
        None
    } else if k_open_at(s, n - 1) {
        Some(n - 1)
    } else {
        last_k_open(s, n - 1)
    }
}

/// A segment without the printer-name wrapper `<name>(K...)`: the text inside the
/// last `(K ... )` that closes at the end, when the segment has no line break.
pub open spec fn k_param(s: Seq<char>) -> Seq<char> {
    if s.len() > 0 && s.last() == ')' && !s.contains('\n') {
        match last_k_open(s, s.len() as int) {
            Some(i) => s.subrange(i + 1, s.len() - 1),
            None => s,
        }
    } else {
        s
    }
}

/// The three `~`-separated parts of a calibration value; the last takes the rest.
pub open spec fn k_parts(v: Seq<char>) -> Option<(Seq<char>, Seq<char>, Seq<char>)> {
    match split_once(v, '~') {
        Some((a, rest)) => match split_once(rest, '~') {
            Some((b, c)) => Some((a, b, c)),
            None => None,
        },
        None => None,
    }
}

/// The calibration keys: K followed by the diameter digit of 0.4, 0.2, 0.6 or 0.8.
pub open spec fn is_k_key(name: Seq<char>) -> bool {
    name.len() == 2 && name[0] == 'K' && (name[1] == '4' || name[1] == '2' || name[1] == '6'
        || name[1] == '8')
}

/// A table entry matches a tag's k (trailing zeros ignored), filament and setting.
pub open spec fn k_matches(c: CalibrationModel, k: Seq<char>, fid: Seq<char>, setting: Seq<char>) -> bool {
    trim_zeros(c.k_value) == trim_zeros(k) && c.filament_id == fid && c.setting_id == setting
}

/// A table entry matches a tag's calibration name (white space trimmed), filament and setting.
pub open spec fn name_matches(c: CalibrationModel, name: Seq<char>, fid: Seq<char>, setting: Seq<char>) -> bool {
    trim_space(c.name) == trim_space(name) && c.filament_id == fid && c.setting_id == setting
}

/// The smallest index of `e` whose entry satisfies `p`.
#[verifier::opaque]
pub open spec fn least_index(e: Map<i32, CalibrationModel>, p: spec_fn(CalibrationModel) -> bool) -> Option<i32> {
    if exists|i: i32| e.contains_key(i) && p(e[i]) {
        Some(
            choose|i: i32|
                e.contains_key(i) && p(e[i]) && forall|j: i32| e.contains_key(j) && p(e[j]) ==> i <= j,
        )
    } else {
        None
    }
}

/// The entry of a table with the smallest index that matches a tag's k, filament and setting.
pub open spec fn first_k_match(
    e: Map<i32, CalibrationModel>,
    k: Seq<char>,
    fid: Seq<char>,
    setting: Seq<char>,
) -> Option<CalibrationModel> {
    match least_index(e, |c: CalibrationModel| k_matches(c, k, fid, setting)) {
        Some(i) => Some(e[i]),
        None => None,
    }
}

/// The entry of a table with the smallest index that matches a tag's name, filament and setting.
pub open spec fn first_name_match(
    e: Map<i32, CalibrationModel>,
    name: Seq<char>,
    fid: Seq<char>,
    setting: Seq<char>,
) -> Option<CalibrationModel> {
    match least_index(e, |c: CalibrationModel| name_matches(c, name, fid, setting)) {
        Some(i) => Some(e[i]),
        None => None,
    }
}

/// The least matching index found by a scan over all keys is `least_index`.
pub proof fn lemma_least_index(
    e: Map<i32, CalibrationModel>,
    p: spec_fn(CalibrationModel) -> bool,
    keys: Seq<i32>,
    best: Option<i32>,
)
    requires
        forall|k: i32| keys.contains(k) <==> e.contains_key(k),
        best matches Some(b) ==> e.contains_key(b) && p(e[b]) && forall|m: int|
            0 <= m < keys.len() && p(e[keys[m]]) ==> b <= keys[m],
        best is None ==> forall|m: int| 0 <= m < keys.len() ==> !p(e[keys[m]]),
    ensures
        least_index(e, p) == best,
{
    reveal(least_index);
    match best {
        Some(b) => {
            assert forall|j: i32| e.contains_key(j) && p(e[j]) implies b <= j by {
                assert(keys.contains(j));
                let m = choose|m: int| 0 <= m < keys.len() && keys[m] == j;
            }
            let i = choose|i: i32|
                e.contains_key(i) && p(e[i]) && forall|j: i32| e.contains_key(j) && p(e[j]) ==> i <= j;
            assert(i <= b && b <= i);
        },
        None => {
            assert forall|i: i32| e.contains_key(i) implies !p(e[i]) by {
                assert(keys.contains(i));
                let m = choose|m: int| 0 <= m < keys.len() && keys[m] == i;
            }
        },
    }
}

/// The printer calibration a tag's entry stands for: matched by k first, then by name.
pub open spec fn resolve(
    tables: Map<Seq<char>, Map<i32, CalibrationModel>>,
    nozzle: Seq<char>,
    fid: Seq<char>,
    k: Seq<char>,
    setting: Seq<char>,
    name: Seq<char>,
) -> Option<CalibrationModel> {
    match crate::printer::table_of(tables, nozzle) {
        Some(e) => match first_k_match(e, k, fid, setting) {
            Some(c) => Some(minimal_calibration(k, c.filament_id, c.setting_id, c.name, c.cali_idx)),
            None => match first_name_match(e, name, fid, setting) {
                Some(c) => Some(
                    minimal_calibration(c.k_value, c.filament_id, c.setting_id, c.name, c.cali_idx),
                ),
                None => None,
            },
        },
        None => None,
    }
}

pub struct KFields {
    pub calibrations: Map<Seq<char>, CalibrationModel>,
    pub error: bool,
}

/// One segment applied to the second pass.
pub open spec fn k_step(
    tables: Map<Seq<char>, Map<i32, CalibrationModel>>,
    fid: Seq<char>,
    st: KFields,
    seg: Seq<char>,
) -> KFields {
    match split_once(k_param(seg), '=') {
        Some((name, value)) => if is_k_key(name) {
            match k_parts(value) {
                None => KFields { error: true, ..st },
                Some((k, setting, ename)) => {
                    let nozzle = seq!['0', '.', name[1]];
                    match resolve(tables, nozzle, fid, trim_zeros(k), setting, unescaped(ename)) {
                        Some(c) => KFields { calibrations: st.calibrations.insert(nozzle, c), ..st },
                        None => st,
                    }
                },
            }
        } else {
            st
        },
        None => st,
    }
}

/// The second pass over the segments, in order.
pub open spec fn k_fields(
    tables: Map<Seq<char>, Map<i32, CalibrationModel>>,
    fid: Seq<char>,
    segs: Seq<Seq<char>>,
) -> KFields
    decreases segs.len(),
{
    if segs.len() == 0 {
        KFields { calibrations: Map::empty(), error: false }
    } else {
        k_step(tables, fid, k_fields(tables, fid, segs.drop_last()), segs.last())
    }
}

/// An error of the second pass stays.
pub proof fn lemma_k_error_persists(
    tables: Map<Seq<char>, Map<i32, CalibrationModel>>,
    fid: Seq<char>,
    segs: Seq<Seq<char>>,
    j: int,
)
    requires
        0 <= j <= segs.len(),
        k_fields(tables, fid, segs.take(j)).error,
    ensures
        k_fields(tables, fid, segs).error,
    decreases segs.len(),
{
    if j == segs.len() {
        assert(segs.take(j) =~= segs);
    } else {
        assert(segs.drop_last().take(j) =~= segs.take(j));
        lemma_k_error_persists(tables, fid, segs.drop_last(), j);
    }
}

pub open spec fn or_empty(o: Option<Seq<char>>) -> Seq<char> {
    match o {
        Some(s) => s,
        None => Seq::empty(),
    }
}

/// What a descriptor decodes to against the printer's calibration tables.
pub open spec fn decoded(
    s: Seq<char>,
    tables: Map<Seq<char>, Map<i32, CalibrationModel>>,
) -> Result<FilamentInfoModel, Error> {
    if !starts_with(s, prefix()) {
        Err(Error::ParseError)
    } else {
        let segs = segments(s.skip(prefix().len() as int));
        let f = flat_fields(segs);
        if f.error {
            Err(Error::ParseError)
        } else {
            let k = k_fields(tables, or_empty(f.filament_code), segs);
            if k.error {
                Err(Error::ParseError)
            } else if !(f.v1 && f.id && f.material is Some && f.filament_code is Some && f.color is Some
                && f.temp_min is Some && f.temp_max is Some) {
                Err(Error::MissingFields)
            } else {
                Ok(
                    FilamentInfoModel {
                        tray_info_idx: f.filament_code->0,
                        tray_type: f.material->0,
                        tray_color: f.color->0,
                        nozzle_temp_max: f.temp_max->0,
                        nozzle_temp_min: f.temp_min->0,
                        calibrations: k.calibrations,
                    },
                )
            }
        }
    }
}

pub open spec fn chars_view(v: Seq<Vec<char>>) -> Seq<Seq<char>> {
    v.map_values(|c: Vec<char>| c@)
}

/// `s` split on `&`, `/` and `?`.
fn split_segments(s: &Vec<char>) -> (r: Vec<Vec<char>>)
    ensures
        chars_view(r@) == segments(s@),
{
    let mut segs: Vec<Vec<char>> = Vec::new();
    let mut cur: Vec<char> = Vec::new();
    let mut i: usize = 0;
    assert(s@.take(0) =~= Seq::<char>::empty());
    assert(chars_view(segs@).push(cur@) =~= seq![Seq::<char>::empty()]);
    while i < s.len()
        invariant
            0 <= i <= s.len(),
            chars_view(segs@).push(cur@) == segments(s@.take(i as int)),
        decreases s.len() - i,
    {
        let c = s[i];
        assert(s@.take(i + 1).drop_last() =~= s@.take(i as int));
        proof {
            lemma_segments_nonempty(s@.take(i as int));
        }
        if c == '&' || c == '/' || c == '?' {
            let done = cur;
            segs.push(done);
            cur = Vec::new();
            assert(chars_view(segs@).push(cur@) =~= segments(s@.take(i as int)).push(Seq::empty()));
        } else {
            let ghost p = segments(s@.take(i as int));
            cur.push(c);
            assert(chars_view(segs@).push(cur@) =~= p.update(p.len() - 1, p.last().push(c)));
        }
        i = i + 1;
    }
    assert(s@.take(s.len() as int) =~= s@);
    segs.push(cur);
    assert(chars_view(segs@) =~= segments(s@));
    segs
}

/// Whether `v` holds the characters of the literal `lit`.
fn is_text(v: &Vec<char>, lit: &str) -> (r: bool)
    ensures
        r == (v@ == lit@),
{
    let l = chars_of(lit);
    eq_chars(v, &l)
}

fn parse_decimal(v: &Vec<char>) -> (r: Option<u32>)
    ensures
        r == parse_uint(v@, 10),
{
    let s = string_of(v);
    parse_u32_radix(s.as_str(), 10)
}

/// The exec state of the first pass.
struct Flat {
    v1: bool,
    id: bool,
    material: Option<Vec<char>>,
    color: Option<Vec<char>>,
    temp_min: Option<u32>,
    temp_max: Option<u32>,
    filament_code: Option<Vec<char>>,
    error: bool,
}

spec fn opt_chars(o: Option<Vec<char>>) -> Option<Seq<char>> {
    match o {
        Some(v) => Some(v@),
        None => None,
    }
}

impl View for Flat {
    type V = FlatFields;

    closed spec fn view(&self) -> FlatFields {
        FlatFields {
            v1: self.v1,
            id: self.id,
            material: opt_chars(self.material),
            color: opt_chars(self.color),
            temp_min: self.temp_min,
            temp_max: self.temp_max,
            filament_code: opt_chars(self.filament_code),
            error: self.error,
        }
    }
}

fn flat_step_exec(f: &mut Flat, seg: &Vec<char>)
    ensures
        final(f)@ == flat_step(old(f)@, seg@),
{
    if is_text(seg, "V1") {
        f.v1 = true;
        return;
    }
    if let Some((name, value)) = split_once_exec(seg, '=') {
        if is_text(&name, "ID") {
            f.id = true;
        } else if is_text(&name, "M") {
            f.material = Some(value);
        } else if is_text(&name, "C") {
            f.color = Some(value);
        } else if is_text(&name, "NN") {
            match parse_decimal(&value) {
                Some(t) => f.temp_min = Some(t),
                None => f.error = true,
            }
        } else if is_text(&name, "NX") {
            match parse_decimal(&value) {
                Some(t) => f.temp_max = Some(t),
                None => f.error = true,
            }
        } else if is_text(&name, "FI") {
            f.filament_code = Some(value);
        }
    }
}

fn k_open_exec(s: &Vec<char>) -> (r: Option<usize>)
    ensures
        r matches Some(i) ==> last_k_open(s@, s@.len() as int) == Some(i as int) && i + 2 < s.len(),
        r is None ==> last_k_open(s@, s@.len() as int) is None,
{
    let mut n: usize = s.len();
    while n > 0
        invariant
            0 <= n <= s.len(),
            last_k_open(s@, s@.len() as int) == last_k_open(s@, n as int),
        decreases n,
    {
        if s.len() - n > 1 && s[n - 1] == '(' && s[n] == 'K' {
            return Some(n - 1);
        }
        n = n - 1;
    }
    None
}

fn contains_char(s: &Vec<char>, c: char) -> (r: bool)
    ensures
        r == s@.contains(c),
{
    let mut i: usize = 0;
    while i < s.len()
        invariant
            0 <= i <= s.len(),
            forall|j: int| 0 <= j < i ==> s@[j] != c,
        decreases s.len() - i,
    {
        if s[i] == c {
            return true;
        }
        i = i + 1;
    }
    false
}

fn k_param_exec(s: &Vec<char>) -> (r: Vec<char>)
    ensures
        r@ == k_param(s@),
{
    let n = s.len();
    if n > 0 && s[n - 1] == ')' && !contains_char(s, '\n') {
        match k_open_exec(s) {
            Some(i) => sub_chars(s, i + 1, n - 1),
            None => sub_chars(s, 0, n),
        }
    } else {
        sub_chars(s, 0, n)
    }
}

spec fn best_index(b: Option<(i32, Calibration)>) -> Option<i32> {
    match b {
        Some(x) => Some(x.0),
        None => None,
    }
}

fn same_chars(a: &String, b: &Vec<char>) -> (r: bool)
    ensures
        r == (a@ == b@),
{
    eq_chars(&chars_of(a.as_str()), b)
}

fn resolve_exec(
    tables: &CalibrationTables,
    nozzle: &String,
    fid: &Vec<char>,
    k: &Vec<char>,
    setting: &Vec<char>,
    name: &Vec<char>,
) -> (r: Option<Calibration>)
    ensures
        r matches Some(c) ==> resolve(tables_entries(*tables), nozzle@, fid@, k@, setting@, name@) == Some(c@),
        r is None ==> resolve(tables_entries(*tables), nozzle@, fid@, k@, setting@, name@) is None,
{
    let table = match tables.get(nozzle) {
        Some(t) => t,
        None => return None,
    };
    let ghost e = table_entries(*table);
    let kt = trim_zeros_exec(k);
    let nt = trim_space_exec(name);
    let keys = table.keys();
    let mut best_k: Option<(i32, Calibration)> = None;
    let mut best_n: Option<(i32, Calibration)> = None;
    let mut j: usize = 0;
    while j < keys.len()
        invariant
            0 <= j <= keys.len(),
            e == table_entries(*table),
            kt@ == trim_zeros(k@),
            nt@ == trim_space(name@),
            forall|x: i32| keys@.contains(x) <==> e.contains_key(x),
            best_k matches Some(b) ==> e.contains_key(b.0) && b.1@ == e[b.0] && k_matches(e[b.0], k@, fid@, setting@)
                && forall|m: int| 0 <= m < j && k_matches(e[keys@[m]], k@, fid@, setting@) ==> b.0 <= keys@[m],
            best_k is None ==> forall|m: int| 0 <= m < j ==> !k_matches(e[keys@[m]], k@, fid@, setting@),
            best_n matches Some(b) ==> e.contains_key(b.0) && b.1@ == e[b.0] && name_matches(e[b.0], name@, fid@, setting@)
                && forall|m: int| 0 <= m < j && name_matches(e[keys@[m]], name@, fid@, setting@) ==> b.0 <= keys@[m],
            best_n is None ==> forall|m: int| 0 <= m < j ==> !name_matches(e[keys@[m]], name@, fid@, setting@),
        decreases keys.len() - j,
    {
        let idx = keys[j];
        assert(keys@.contains(idx));
        if let Some(c) = table.get(idx) {
            let ck = trim_zeros_exec(&chars_of(c.k_value.as_str()));
            let cn = trim_space_exec(&chars_of(c.name.as_str()));
            let same_id = same_chars(&c.filament_id, fid) && same_chars(&c.setting_id, setting);
            let k_ok = same_id && eq_chars(&ck, &kt);
            let n_ok = same_id && eq_chars(&cn, &nt);
            assert(c@ == e[idx]);
            assert(k_ok == k_matches(e[idx], k@, fid@, setting@));
            assert(n_ok == name_matches(e[idx], name@, fid@, setting@));
            let take_k = k_ok && match &best_k {
                Some(b) => idx < b.0,
                None => true,
            };
            let take_n = n_ok && match &best_n {
                Some(b) => idx < b.0,
                None => true,
            };
            if take_k {
                best_k = Some((idx, c.clone()));
            }
            if take_n {
                best_n = Some((idx, c));
            }
        }
        j = j + 1;
    }
    proof {
        lemma_least_index(e, |c: CalibrationModel| k_matches(c, k@, fid@, setting@), keys@, best_index(best_k));
        lemma_least_index(e, |c: CalibrationModel| name_matches(c, name@, fid@, setting@), keys@, best_index(best_n));
    }
    match best_k {
        Some((_, c)) => Some(Calibration {
            k_value: string_of(k),
            filament_id: c.filament_id,
            n_coef: String::new(),
            setting_id: c.setting_id,
            name: c.name,
            cali_idx: c.cali_idx,
        }),
        None => match best_n {
            Some((_, c)) => Some(Calibration {
                k_value: c.k_value,
                filament_id: c.filament_id,
                n_coef: String::new(),
                setting_id: c.setting_id,
                name: c.name,
                cali_idx: c.cali_idx,
            }),
            None => None,
        },
    }
}

/// One segment applied to the second pass. Returns false on a malformed calibration.
fn k_step_exec(
    tables: &CalibrationTables,
    fid: &Vec<char>,
    cals: &mut NozzleCalibrations,
    seg: &Vec<char>,
) -> (ok: bool)
    ensures
        ({
            let st = k_step(
                tables_entries(*tables),
                fid@,
                KFields { calibrations: nozzle_entries(*old(cals)), error: false },
                seg@,
            );
            &&& ok == !st.error
            &&& nozzle_entries(*final(cals)) == st.calibrations
        }),
{
    let p = k_param_exec(seg);
    let (name, value) = match split_once_exec(&p, '=') {
        Some(nv) => nv,
        None => return true,
    };
    if !(name.len() == 2 && name[0] == 'K' && (name[1] == '4' || name[1] == '2' || name[1] == '6'
        || name[1] == '8')) {
        return true;
    }
    let (k, rest) = match split_once_exec(&value, '~') {
        Some(kr) => kr,
        None => return false,
    };
    let (setting, ename) = match split_once_exec(&rest, '~') {
        Some(se) => se,
        None => return false,
    };
    let mut nozzle_chars: Vec<char> = Vec::new();
    nozzle_chars.push('0');
    nozzle_chars.push('.');
    nozzle_chars.push(name[1]);
    let nozzle = string_of(&nozzle_chars);
    let kt = trim_zeros_exec(&k);
    let nm = unescape_chars(&ename);
    assert(nozzle_chars@ =~= seq!['0', '.', name@[1]]);
    match resolve_exec(tables, &nozzle, fid, &kt, &setting, &nm) {
        Some(c) => {
            cals.insert(nozzle, c);
        },
        None => {},
    }
    true
}

impl FilamentInfo {
    /// Decodes a descriptor, resolving its calibrations against the printer's tables.
    pub fn from_descriptor(descriptor: &str, bambu_printer: &BambuPrinter) -> (r: Result<Self, Error>)
        ensures
            match decoded(descriptor@, bambu_printer@.calibrations) {
                Ok(f) => r matches Ok(x) && x@ == f,
                Err(e) => r == Err::<Self, Error>(e),
            },
    {
        let s = chars_of(descriptor);
        let p = chars_of("https://info.filament3d.org/");
        proof {
            reveal_strlit("https://info.filament3d.org/");
        }
        assert(p@ == prefix());
        if s.len() < p.len() {
            return Err(Error::ParseError);
        }
        let head = sub_chars(&s, 0, p.len());
        if !eq_chars(&head, &p) {
            return Err(Error::ParseError);
        }
        let body = sub_chars(&s, p.len(), s.len());
        assert(body@ =~= s@.skip(prefix().len() as int));
        let segs = split_segments(&body);
        let ghost sv = chars_view(segs@);
        assert(starts_with(descriptor@, prefix()));
        let mut flat = Flat {
            v1: false,
            id: false,
            material: None,
            color: None,
            temp_min: None,
            temp_max: None,
            filament_code: None,
            error: false,
        };
        let mut i: usize = 0;
        while i < segs.len()
            invariant
                0 <= i <= segs.len(),
                sv == chars_view(segs@),
                sv == segments(descriptor@.skip(prefix().len() as int)),
                starts_with(descriptor@, prefix()),
                flat@ == flat_fields(sv.take(i as int)),
            decreases segs.len() - i,
        {
            assert(sv.take(i + 1).drop_last() =~= sv.take(i as int));
            flat_step_exec(&mut flat, &segs[i]);
            i = i + 1;
        }
        assert(sv.take(segs.len() as int) =~= sv);
        if flat.error {
            return Err(Error::ParseError);
        }
        let fid: Vec<char> = match &flat.filament_code {
            Some(f) => sub_chars(f, 0, f.len()),
            None => Vec::new(),
        };
        let mut cals = NozzleCalibrations::new();
        assert(nozzle_entries(cals) =~= Map::empty());
        let mut j: usize = 0;
        while j < segs.len()
            invariant
                0 <= j <= segs.len(),
                sv == chars_view(segs@),
                fid@ == or_empty(flat@.filament_code),
                sv == segments(descriptor@.skip(prefix().len() as int)),
                starts_with(descriptor@, prefix()),
                flat@ == flat_fields(sv),
                !flat@.error,
                k_fields(bambu_printer@.calibrations, fid@, sv.take(j as int)) == (KFields {
                    calibrations: nozzle_entries(cals),
                    error: false,
                }),
            decreases segs.len() - j,
        {
            assert(sv.take(j + 1).drop_last() =~= sv.take(j as int));
            assert(sv.take(j + 1).last() == segs@[j as int]@);
            let ok = k_step_exec(&bambu_printer.calibrations, &fid, &mut cals, &segs[j]);
            if !ok {
                proof {
                    lemma_k_error_persists(bambu_printer@.calibrations, fid@, sv, j + 1);
                }
                return Err(Error::ParseError);
            }
            j = j + 1;
        }
        assert(sv.take(segs.len() as int) =~= sv);
        match (flat.v1, flat.id, flat.material, flat.filament_code, flat.color, flat.temp_min, flat.temp_max) {
            (true, true, Some(m), Some(fi), Some(c), Some(nn), Some(nx)) => Ok(FilamentInfo {
                tray_info_idx: string_of(&fi),
                tray_type: string_of(&m),
                tray_color: string_of(&c),
                nozzle_temp_max: nx,
                nozzle_temp_min: nn,
                calibrations: cals,
            }),
            _ => Err(Error::MissingFields),
        }
    }
}

/// The text a descriptor carries in place of the tag's id until it is written.
pub const TAG_PLACEHOLDER: &'static str = "$tag-id$";

/// One calibration as it stands in a descriptor: `&<name>(K<d>=<k>~<setting>~<cal name>)`,
/// `<d>` being the third character of the nozzle diameter.
pub open spec fn calibration_block(name_esc: Seq<char>, nozzle: Seq<char>, c: CalibrationModel) -> Seq<char> {
    seq!['&'] + name_esc + seq!['(', 'K', nozzle[2], '='] + trim_zeros(c.k_value) + seq!['~']
        + c.setting_id + seq!['~'] + escaped(c.name) + seq![')']
}

/// The calibration blocks of a filament, for its diameters in the order `order`; a
/// diameter it has no calibration for, or of under three characters, gives none.
pub open spec fn calibration_blocks(
    name_esc: Seq<char>,
    cals: Map<Seq<char>, CalibrationModel>,
    order: Seq<Seq<char>>,
) -> Seq<char>
    decreases order.len(),
{
    if order.len() == 0 {
        Seq::empty()
    } else {
        calibration_blocks(name_esc, cals, order.drop_last()) + if cals.contains_key(order.last())
            && order.last().len() >= 3 {
            calibration_block(name_esc, order.last(), cals[order.last()])
        } else {
            Seq::empty()
        }
    }
}

/// `order` lists each diameter of `cals` once, and nothing else.
pub open spec fn key_order(order: Seq<Seq<char>>, cals: Map<Seq<char>, CalibrationModel>) -> bool {
    &&& forall|i: int, j: int| 0 <= i < j < order.len() ==> order[i] != order[j]
    &&& forall|k: Seq<char>| cals.contains_key(k) <==> order.contains(k)
}

/// The descriptor of a filament for a printer named `name` (possibly empty), its
/// calibration blocks in the order `order`.
pub open spec fn encoded(f: FilamentInfoModel, name: Seq<char>, order: Seq<Seq<char>>) -> Seq<char> {
    encoded_with_id(f, name, order, "$tag-id$"@)
}

/// The descriptor of a filament as written to a tag whose id text is `id`.
pub open spec fn encoded_with_id(
    f: FilamentInfoModel,
    name: Seq<char>,
    order: Seq<Seq<char>>,
    id: Seq<char>,
) -> Seq<char> {
    prefix() + "V1?ID="@ + id + "&M="@ + f.tray_type + "&C="@ + f.tray_color + "&NN="@
        + decimal(f.nozzle_temp_min as nat) + "&NX="@ + decimal(f.nozzle_temp_max as nat)
        + calibration_blocks(escaped(name), f.calibrations, order) + "&FI="@ + f.tray_info_idx
}

pub open spec fn strings_view(v: Seq<String>) -> Seq<Seq<char>> {
    v.map_values(|s: String| s@)
}

fn push_all(out: &mut Vec<char>, s: &Vec<char>)
    ensures
        final(out)@ == old(out)@ + s@,
{
    let mut i: usize = 0;
    while i < s.len()
        invariant
            0 <= i <= s.len(),
            out@ == old(out)@ + s@.take(i as int),
        decreases s.len() - i,
    {
        out.push(s[i]);
        i = i + 1;
        assert(out@ =~= old(out)@ + s@.take(i as int));
    }
    assert(s@.take(s.len() as int) =~= s@);
}

fn push_str(out: &mut Vec<char>, s: &str)
    ensures
        final(out)@ == old(out)@ + s@,
{
    let c = chars_of(s);
    push_all(out, &c);
}

impl FilamentInfo {
    /// The descriptor of this filament, with the tag-id placeholder and, per calibration,
    /// a block under the escaped printer name; the blocks follow the order in which the
    /// calibration map lists its diameters.
    pub fn to_descriptor(&self, printer_name: &Option<String>) -> (r: String)
        ensures
            exists|order: Seq<Seq<char>>|
                key_order(order, self@.calibrations) && r@ == encoded(
                    self@,
                    crate::printer::text_or_empty(*printer_name),
                    order,
                ),
    {
        let keys = self.calibrations.keys();
        let ghost order = strings_view(keys@);
        assert forall|k: Seq<char>| self@.calibrations.contains_key(k) <==> order.contains(k) by {
            if self@.calibrations.contains_key(k) {
                let i = choose|i: int| 0 <= i < keys@.len() && keys@[i]@ == k;
                assert(order[i] == k);
            }
            if order.contains(k) {
                let i = choose|i: int| 0 <= i < order.len() && order[i] == k;
                assert(keys@[i]@ == k);
            }
        }
        assert forall|i: int, j: int| 0 <= i < j < order.len() implies order[i] != order[j] by {
            assert(order[i] == keys@[i]@ && order[j] == keys@[j]@);
        }
        assert(key_order(order, self@.calibrations));
        let r = self.descriptor_in_order(printer_name, &keys);
        assert(r@ == encoded(self@, crate::printer::text_or_empty(*printer_name), order));
        r
    }

    /// The descriptor of this filament with its calibration blocks in the order `order`.
    pub fn descriptor_in_order(&self, printer_name: &Option<String>, order: &Vec<String>) -> (r: String)
        ensures
            r@ == encoded(self@, crate::printer::text_or_empty(*printer_name), strings_view(order@)),
    {
        let name = match printer_name {
            Some(n) => n.clone(),
            None => String::new(),
        };
        let name_esc = chars_of(crate::text::efficient_encode(name.as_str()).as_str());
        let mut out: Vec<char> = Vec::new();
        push_str(&mut out, "https://info.filament3d.org/");
        push_str(&mut out, "V1?ID=");
        push_str(&mut out, TAG_PLACEHOLDER);
        push_str(&mut out, "&M=");
        push_str(&mut out, self.tray_type.as_str());
        push_str(&mut out, "&C=");
        push_str(&mut out, self.tray_color.as_str());
        push_str(&mut out, "&NN=");
        push_str(&mut out, crate::text::u32_text(self.nozzle_temp_min).as_str());
        push_str(&mut out, "&NX=");
        push_str(&mut out, crate::text::u32_text(self.nozzle_temp_max).as_str());
        let ghost head = out@;
        let ghost ov = strings_view(order@);
        let ghost cals = self@.calibrations;
        let mut i: usize = 0;
        assert(ov.take(0) =~= Seq::<Seq<char>>::empty());
        assert(out@ =~= head + calibration_blocks(name_esc@, cals, ov.take(0)));
        while i < order.len()
            invariant
                0 <= i <= order.len(),
                ov == strings_view(order@),
                cals == self@.calibrations,
                out@ == head + calibration_blocks(name_esc@, cals, ov.take(i as int)),
            decreases order.len() - i,
        {
            assert(ov.take(i + 1).drop_last() =~= ov.take(i as int));
            assert(ov.take(i + 1).last() == order@[i as int]@);
            let nozzle = chars_of(order[i].as_str());
            let ghost before = out@;
            match self.calibrations.get(&order[i]) {
                Some(c) => {
                    if nozzle.len() >= 3 {
                        push_str(&mut out, "&");
                        push_all(&mut out, &name_esc);
                        push_str(&mut out, "(K");
                        out.push(nozzle[2]);
                        push_str(&mut out, "=");
                        push_all(&mut out, &trim_zeros_exec(&chars_of(c.k_value.as_str())));
                        push_str(&mut out, "~");
                        push_str(&mut out, c.setting_id.as_str());
                        push_str(&mut out, "~");
                        push_str(&mut out, crate::text::efficient_encode(c.name.as_str()).as_str());
                        push_str(&mut out, ")");
                        proof {
                            reveal_strlit("&");
                            reveal_strlit("(K");
                            reveal_strlit("=");
                            reveal_strlit("~");
                            reveal_strlit(")");
                        }
                        assert(out@ =~= before + calibration_block(name_esc@, ov[i as int], cals[ov[i as int]]));
                    } else {
                        assert(out@ =~= before + Seq::<char>::empty());
                    }
                },
                None => {
                    assert(out@ =~= before + Seq::<char>::empty());
                },
            }
            i = i + 1;
            assert(out@ =~= head + calibration_blocks(name_esc@, cals, ov.take(i as int)));
        }
        assert(ov.take(order.len() as int) =~= ov);
        push_str(&mut out, "&FI=");
        push_str(&mut out, self.tray_info_idx.as_str());
        proof {
            reveal_strlit("$tag-id$");
        }
        assert(out@ =~= encoded(self@, name@, ov));
        string_of(&out)
    }
}

} // verus!
