use vstd::prelude::*;
use crate::model::{Calibration, CalibrationModel};

verus! {

/// One nozzle diameter's calibration table, keyed by calibration index, held in a
/// hashbrown map.
#[verifier::external_body]
#[derive(Debug)]
pub struct CaliTable {
    inner: hashbrown::HashMap<i32, Calibration>,
}

/// What a calibration table holds.
pub uninterp spec fn table_entries(t: CaliTable) -> Map<i32, CalibrationModel>;

impl CaliTable {
    /// Relies on `hashbrown::HashMap::new`: an empty map.
    #[verifier::external_body]
    pub fn new() -> (r: Self)
        ensures
            table_entries(r).dom().is_empty(),
    {
        CaliTable { inner: hashbrown::HashMap::new() }
    }

    /// Relies on `hashbrown::HashMap::get`: the value under `idx`, if any (cloned).
    #[verifier::external_body]
    pub(crate) fn get(&self, idx: i32) -> (r: Option<Calibration>)
        ensures
            r matches Some(c) ==> table_entries(*self).contains_key(idx) && c@ == table_entries(
                *self,
            )[idx],
            r is None ==> !table_entries(*self).contains_key(idx),
    {
        self.inner.get(&idx).cloned()
    }

    /// Relies on `hashbrown::HashMap::insert`: the value under `idx` becomes `c`.
    #[verifier::external_body]
    pub(crate) fn insert(&mut self, idx: i32, c: Calibration)
        ensures
            table_entries(*final(self)) == table_entries(*old(self)).insert(idx, c@),
    {
        self.inner.insert(idx, c);
    }

    /// Relies on `hashbrown::HashMap::clear`: no entry is left.
    #[verifier::external_body]
    pub(crate) fn clear(&mut self)
        ensures
            table_entries(*final(self)).dom().is_empty(),
    {
        self.inner.clear();
    }

    /// Relies on `hashbrown::HashMap::retain`: the entries of filament `fid` stay, the
    /// others are removed.
    #[verifier::external_body]
    pub(crate) fn retain_filament(&mut self, fid: &String)
        ensures
            table_entries(*final(self)) == crate::printer::keep_filament(table_entries(*old(self)), fid@),
    {
        self.inner.retain(|_k, v| belongs_to(v, fid));
    }

    /// Relies on `hashbrown::HashMap::keys`: each key once, in an unspecified order.
    #[verifier::external_body]
    pub(crate) fn keys(&self) -> (r: Vec<i32>)
        ensures
            r@.no_duplicates(),
            forall|i: i32| r@.contains(i) <==> table_entries(*self).contains_key(i),
    {
        self.inner.keys().copied().collect()
    }
}

/// Whether calibration `c` belongs to filament `fid`.
pub fn belongs_to(c: &Calibration, fid: &String) -> (r: bool)
    ensures
        r == (c.filament_id@ == fid@),
{
    c.filament_id == *fid
}

/// A filament's calibrations, keyed by nozzle diameter, held in a hashbrown map.
#[verifier::external_body]
#[derive(Debug)]
pub struct NozzleCalibrations {
    inner: hashbrown::HashMap<String, Calibration>,
}

/// What a filament's calibration map holds.
pub uninterp spec fn nozzle_entries(t: NozzleCalibrations) -> Map<Seq<char>, CalibrationModel>;

impl NozzleCalibrations {
    /// Relies on `hashbrown::HashMap::new`: an empty map.
    #[verifier::external_body]
    pub fn new() -> (r: Self)
        ensures
            nozzle_entries(r).dom().is_empty(),
    {
        NozzleCalibrations { inner: hashbrown::HashMap::new() }
    }

    /// Relies on `hashbrown::HashMap::get`: the value under `nozzle`, if any (cloned).
    #[verifier::external_body]
    pub(crate) fn get(&self, nozzle: &String) -> (r: Option<Calibration>)
        ensures
            r matches Some(c) ==> nozzle_entries(*self).contains_key(nozzle@) && c@ == nozzle_entries(
                *self,
            )[nozzle@],
            r is None ==> !nozzle_entries(*self).contains_key(nozzle@),
    {
        self.inner.get(nozzle).cloned()
    }

    /// Relies on `hashbrown::HashMap::insert`: the value under `nozzle` becomes `c`.
    #[verifier::external_body]
    pub(crate) fn insert(&mut self, nozzle: String, c: Calibration)
        ensures
            nozzle_entries(*final(self)) == nozzle_entries(*old(self)).insert(nozzle@, c@),
    {
        self.inner.insert(nozzle, c);
    }

    /// Relies on `hashbrown::HashMap::keys`: each key once, in an unspecified order.
    #[verifier::external_body]
    pub(crate) fn keys(&self) -> (r: Vec<String>)
        ensures
            forall|i: int, j: int| 0 <= i < j < r@.len() ==> r@[i]@ != r@[j]@,
            forall|k: Seq<char>|
                nozzle_entries(*self).contains_key(k) <==> exists|i: int| 0 <= i < r@.len() && r@[i]@ == k,
    {
        self.inner.keys().cloned().collect()
    }

    /// Relies on hashbrown's `PartialEq` for maps: the same keys, and equal values under
    /// `Calibration`'s `==`, which compares the models.
    #[verifier::external_body]
    pub(crate) fn same(&self, o: &NozzleCalibrations) -> (r: bool)
        ensures
            r == (nozzle_entries(*self) == nozzle_entries(*o)),
    {
        self.inner == o.inner
    }

    /// Relies on hashbrown's `Clone` for maps: the keys cloned, and the values through
    /// `Calibration`'s `clone`, which keeps them equal.
    #[verifier::external_body]
    pub(crate) fn duplicate(&self) -> (r: NozzleCalibrations)
        ensures
            nozzle_entries(r) == nozzle_entries(*self),
    {
        NozzleCalibrations { inner: self.inner.clone() }
    }
}

/// The printer's calibration tables, keyed by nozzle diameter, held in a hashbrown map.
#[verifier::external_body]
#[derive(Debug)]
pub struct CalibrationTables {
    inner: hashbrown::HashMap<String, CaliTable>,
}

/// What the printer's calibration tables hold.
pub uninterp spec fn tables_entries(t: CalibrationTables) -> Map<Seq<char>, Map<i32, CalibrationModel>>;

impl CalibrationTables {
    /// Relies on `hashbrown::HashMap::new`: an empty map.
    #[verifier::external_body]
    pub fn new() -> (r: Self)
        ensures
            tables_entries(r).dom().is_empty(),
    {
        CalibrationTables { inner: hashbrown::HashMap::new() }
    }

    /// Relies on `hashbrown::HashMap::get`: the table under `nozzle`, if any.
    #[verifier::external_body]
    pub(crate) fn get(&self, nozzle: &String) -> (r: Option<&CaliTable>)
        ensures
            r matches Some(t) ==> tables_entries(*self).contains_key(nozzle@) && table_entries(*t)
                == tables_entries(*self)[nozzle@],
            r is None ==> !tables_entries(*self).contains_key(nozzle@),
    {
        self.inner.get(nozzle)
    }

    /// Relies on `hashbrown::HashMap::remove`: the table under `nozzle` is taken out.
    #[verifier::external_body]
    pub(crate) fn remove(&mut self, nozzle: &String) -> (r: Option<CaliTable>)
        ensures
            r matches Some(t) ==> tables_entries(*old(self)).contains_key(nozzle@) && table_entries(t)
                == tables_entries(*old(self))[nozzle@],
            r is None ==> !tables_entries(*old(self)).contains_key(nozzle@),
            tables_entries(*final(self)) == tables_entries(*old(self)).remove(nozzle@),
    {
        self.inner.remove(nozzle)
    }

    /// Relies on `hashbrown::HashMap::insert`: the table under `nozzle` becomes `t`.
    #[verifier::external_body]
    pub(crate) fn insert(&mut self, nozzle: String, t: CaliTable)
        ensures
            tables_entries(*final(self)) == tables_entries(*old(self)).insert(nozzle@, table_entries(t)),
    {
        self.inner.insert(nozzle, t);
    }
}

} // verus!
