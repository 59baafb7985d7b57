use vstd::prelude::*;

verus! {

/// Whether the printer has been heard from since the last keep-alive timeout.
#[derive(Debug, Clone, Copy, PartialEq, Eq, Structural)]
pub struct PrinterLink {
    pub known_up: bool,
}

impl PrinterLink {
    pub fn new() -> (r: Self)
        ensures
            !r.known_up,
    {
        PrinterLink { known_up: false }
    }

    /// A message arrived from the printer.
    pub fn on_message(&mut self)
        ensures
            final(self).known_up,
    {
        self.known_up = true;
    }

    /// No message arrived within the keep-alive period. Returns whether to request a
    /// full state report: only the first timeout after the printer was heard from does,
    /// and the printer then counts as not known to be up.
    pub fn on_keepalive_timeout(&mut self) -> (resync: bool)
        ensures
            resync == old(self).known_up,
            !final(self).known_up,
    {
        let resync = self.known_up;
        self.known_up = false;
        resync
    }
}

} // verus!
