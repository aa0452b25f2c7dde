use vstd::prelude::*;

use crate::store::{only_settings_changed, Store};
use crate::text::clone_opt_string;

verus! {

/// The office's identity: a singleton record — the store holds at most one.
pub struct Settings {
    pub barangay: Option<String>,
    pub municipality: Option<String>,
    pub province: Option<String>,
    pub phone_number: Option<String>,
    pub email: Option<String>,
    pub logo: Option<String>,
    pub logo_municipality: Option<String>,
}

impl Clone for Settings {
    fn clone(&self) -> (r: Self)
        ensures
            r == *self,
    {
        Settings {
            barangay: clone_opt_string(&self.barangay),
            municipality: clone_opt_string(&self.municipality),
            province: clone_opt_string(&self.province),
            phone_number: clone_opt_string(&self.phone_number),
            email: clone_opt_string(&self.email),
            logo: clone_opt_string(&self.logo),
            logo_municipality: clone_opt_string(&self.logo_municipality),
        }
    }
}

impl Store {
    /// The settings record, when one has been saved; the store never holds
    /// more than one.
    pub fn fetch_settings(&self) -> (r: Option<Settings>)
        ensures
            r == self.settings,
    {
        match &self.settings {
            Some(s) => Some(s.clone()),
            None => None,
        }
    }

    /// Saves the office identity, creating the singleton record or replacing
    /// it whole; a second instance can never come to exist.
    pub fn save_settings(&mut self, s: &Settings)
        requires
            old(self).wf(),
        ensures
            final(self).wf(),
            only_settings_changed(*old(self), *final(self)),
            final(self).settings == Some(*s),
    {
        self.settings = Some(s.clone());
    }
}

} // verus!
