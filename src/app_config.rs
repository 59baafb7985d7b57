use vstd::prelude::*;

verus! {

/// The device configuration and the readiness reports of its parts. Persisting it is
/// the caller's work; the printer address is kept as its four octets.
#[derive(Debug)]
pub struct AppConfig {
    pub printer_ip: Option<[u8; 4]>,
    pub printer_serial: Option<String>,
    pub printer_access_code: Option<String>,
    pub tag_scan_timeout: u64,
    pub config_processed_ok: Option<bool>,
    pub pn532_ok: Option<bool>,
    pub printer_connectivity_ok: Option<bool>,
}

impl AppConfig {
    /// Nothing configured, nothing reported, a 10 s tag scan timeout.
    pub fn new() -> (r: Self)
        ensures
            r.printer_ip is None,
            r.printer_serial is None,
            r.printer_access_code is None,
            r.tag_scan_timeout == 10,
            r.config_processed_ok is None,
            r.pn532_ok is None,
            r.printer_connectivity_ok is None,
    {
        AppConfig {
            printer_ip: None,
            printer_serial: None,
            printer_access_code: None,
            tag_scan_timeout: 10,
            config_processed_ok: None,
            pn532_ok: None,
            printer_connectivity_ok: None,
        }
    }

    /// Whether the printer serial or access code is missing.
    pub fn missing_configs(&self) -> (r: bool)
        ensures
            r == (self.printer_serial is None || self.printer_access_code is None),
    {
        self.printer_serial.is_none() || self.printer_access_code.is_none()
    }

    /// The stored configuration was read.
    pub fn config_loaded(&mut self)
        ensures
            final(self).config_processed_ok == Some(true),
            final(self).printer_ip == old(self).printer_ip,
            final(self).printer_serial == old(self).printer_serial,
            final(self).printer_access_code == old(self).printer_access_code,
            final(self).tag_scan_timeout == old(self).tag_scan_timeout,
            final(self).pn532_ok == old(self).pn532_ok,
            final(self).printer_connectivity_ok == old(self).printer_connectivity_ok,
    {
        self.config_processed_ok = Some(true);
    }

    pub fn report_pn532(&mut self, status: bool)
        ensures
            final(self).pn532_ok == Some(status),
            final(self).printer_ip == old(self).printer_ip,
            final(self).printer_serial == old(self).printer_serial,
            final(self).printer_access_code == old(self).printer_access_code,
            final(self).tag_scan_timeout == old(self).tag_scan_timeout,
            final(self).config_processed_ok == old(self).config_processed_ok,
            final(self).printer_connectivity_ok == old(self).printer_connectivity_ok,
    {
        self.pn532_ok = Some(status);
    }

    /// Records the printer's connectivity; the caller notifies observers with `status`.
    pub fn report_printer_connectivity(&mut self, status: bool)
        ensures
            final(self).printer_connectivity_ok == Some(status),
            final(self).printer_ip == old(self).printer_ip,
            final(self).printer_serial == old(self).printer_serial,
            final(self).printer_access_code == old(self).printer_access_code,
            final(self).tag_scan_timeout == old(self).tag_scan_timeout,
            final(self).config_processed_ok == old(self).config_processed_ok,
            final(self).pn532_ok == old(self).pn532_ok,
    {
        self.printer_connectivity_ok = Some(status);
    }

    /// The device can start: its framework is up, the configuration was read, the tag
    /// reader answered, and the printer serial and access code are set.
    pub fn initialization_ok(&self, framework_ok: bool) -> (r: bool)
        ensures
            r == (framework_ok && self.config_processed_ok == Some(true) && self.pn532_ok == Some(true)
                && self.printer_serial is Some && self.printer_access_code is Some),
    {
        framework_ok && matches!(self.config_processed_ok, Some(true)) && matches!(self.pn532_ok, Some(true))
            && self.printer_serial.is_some() && self.printer_access_code.is_some()
    }

    /// Start-up finished: initialization is done and the printer is reachable.
    pub fn boot_completed(&self, framework_boot_completed: bool, framework_ok: bool) -> (r: bool)
        ensures
            r == (framework_boot_completed && framework_ok && self.config_processed_ok == Some(true)
                && self.pn532_ok == Some(true) && self.printer_serial is Some
                && self.printer_access_code is Some && self.printer_connectivity_ok == Some(true)),
    {
        framework_boot_completed && self.initialization_ok(framework_ok) && matches!(
            self.printer_connectivity_ok,
            Some(true)
        )
    }

    /// Sets the printer configuration; an empty serial or access code counts as unset.
    pub fn set_printer_config(&mut self, printer_ip: Option<[u8; 4]>, printer_serial: String, printer_access_code: String)
        ensures
            final(self).printer_ip == printer_ip,
            final(self).printer_serial == if printer_serial@.len() == 0 { None } else { Some(printer_serial) },
            final(self).printer_access_code == if printer_access_code@.len() == 0 {
                None
            } else {
                Some(printer_access_code)
            },
            final(self).tag_scan_timeout == old(self).tag_scan_timeout,
            final(self).config_processed_ok == old(self).config_processed_ok,
            final(self).pn532_ok == old(self).pn532_ok,
            final(self).printer_connectivity_ok == old(self).printer_connectivity_ok,
    {
        self.printer_ip = printer_ip;
        self.printer_serial = if crate::text::is_empty_text(&printer_serial) {
            None
        } else {
            Some(printer_serial)
        };
        self.printer_access_code = if crate::text::is_empty_text(&printer_access_code) {
            None
        } else {
            Some(printer_access_code)
        };
    }

    pub fn set_tag_config(&mut self, tag_scan_timeout: u64)
        ensures
            final(self).tag_scan_timeout == tag_scan_timeout,
            final(self).printer_ip == old(self).printer_ip,
            final(self).printer_serial == old(self).printer_serial,
            final(self).printer_access_code == old(self).printer_access_code,
            final(self).config_processed_ok == old(self).config_processed_ok,
            final(self).pn532_ok == old(self).pn532_ok,
            final(self).printer_connectivity_ok == old(self).printer_connectivity_ok,
    {
        self.tag_scan_timeout = tag_scan_timeout;
    }
}

} // verus!
