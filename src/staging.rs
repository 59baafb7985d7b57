use vstd::prelude::*;
use crate::model::{Filament, FilamentModel};

verus! {

/// A scanned filament identity held until the user assigns it to a tray.
#[derive(Debug)]
pub struct FilamentStaging {
    pub filament_info: Filament,
}

impl FilamentStaging {
    pub fn new() -> (r: Self)
        ensures
            r.filament_info@ == FilamentModel::Unknown,
    {
        FilamentStaging { filament_info: Filament::Unknown }
    }

    pub fn clear(&mut self)
        ensures
            final(self).filament_info@ == FilamentModel::Unknown,
    {
        self.filament_info = Filament::Unknown;
    }
}

} // verus!
