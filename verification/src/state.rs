//! Process-wide state: the single slot for the active inspector handle and
//! the loaded configuration. At most one inspector is active at a time; a
//! second start is refused without touching the first.

use vstd::prelude::*;

use crate::config::{AppConfig, ServerProfile};
use crate::inspector::{client_url_chars, InspectorHandle};

verus! {

/// The message a refused second start carries.
pub open spec fn already_running_msg() -> Seq<char> {
    "Inspector already running. Please stop current instance first."@
}

/// The application's shared state; callers guard it with their own mutual
/// exclusion.
pub struct AppState {
    pub inspector: Option<InspectorHandle>,
    pub config: AppConfig,
}

impl AppState {
    /// Fresh state: no active inspector, the given configuration.
    pub fn new(config: AppConfig) -> (r: AppState)
        ensures
            r.inspector is None,
            r.config == config,
    {
        AppState { inspector: None, config }
    }

    /// Installs the handle of a newly spawned inspector. Refused — with the
    /// state left untouched — while one is already active.
    pub fn attach_inspector(&mut self, h: InspectorHandle) -> (r: Result<(), String>)
        ensures
            old(self).inspector is Some ==> *final(self) == *old(self) && (r matches Err(m)
                && m@ == already_running_msg()),
            old(self).inspector is None ==> r is Ok && final(self).inspector == Some(h)
                && final(self).config == old(self).config,
    {
        if self.inspector.is_some() {
            Err("Inspector already running. Please stop current instance first.".to_owned())
        } else {
            self.inspector = Some(h);
            Ok(())
        }
    }

    /// Clears the slot and hands the active handle, if any, to the caller for
    /// teardown. Never fails: stopping with nothing active, or with a child
    /// that already exited, is a no-op.
    pub fn take_inspector(&mut self) -> (r: Option<InspectorHandle>)
        ensures
            r == old(self).inspector,
            final(self).inspector is None,
            final(self).config == old(self).config,
    {
        self.inspector.take()
    }

    /// Answers a status query from the latest poll of the child: the client
    /// URL while one is active and running; otherwise nothing, clearing the
    /// slot of an exited child.
    pub fn status(&mut self, running: bool) -> (r: Option<String>)
        ensures
            final(self).config == old(self).config,
            match old(self).inspector {
                Some(h) => {
                    &&& (running ==> *final(self) == *old(self) && (r matches Some(u) && u@
                        == client_url_chars(h.client_port)))
                    &&& (!running ==> final(self).inspector is None && r is None)
                },
                None => *final(self) == *old(self) && r is None,
            },
    {
        match &self.inspector {
            Some(h) => {
                if running {
                    Some(h.client_url())
                } else {
                    self.inspector = None;
                    None
                }
            },
            None => None,
        }
    }

    /// The saved profiles, most recently used first.
    pub fn get_recent_profiles(&self) -> (r: &Vec<ServerProfile>)
        ensures
            r == &self.config.recent_profiles,
    {
        &self.config.recent_profiles
    }
}

} // verus!
