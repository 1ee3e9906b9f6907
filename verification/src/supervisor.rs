//! Process-supervisor decisions: the target paths, whether a live process
//! handle is held, and what each lifecycle step returns. Spawning, killing
//! and waiting are the caller's work; every decision about them is made here.

use vstd::prelude::*;
use crate::error::{ClashError, ClashErrorKind};

verus! {

/// The supervisor's state: the executable path, the base configuration path
/// the next start uses, and whether a live process handle is held. At most
/// one live handle exists at a time; `active` models the handle slot.
#[derive(Debug, PartialEq, Eq)]
pub struct Clash {
    pub path: String,
    pub config: String,
    pub active: bool,
}

/// What the caller is to do after `stop`: terminate the process and restore
/// the saved DNS configuration, or nothing at all.
#[derive(Debug, PartialEq, Eq)]
pub struct StopPlan {
    pub terminate: bool,
}

impl Clash {
    /// A supervisor over the given executable and base configuration paths,
    /// holding no process handle.
    pub fn new(path: String, config: String) -> (r: Self)
        ensures
            r.path@ == path@,
            r.config@ == config@,
            !r.active,
    {
        Self { path, config, active: false }
    }

    /// Replace the base configuration path the next start uses.
    pub fn update_config_path(&mut self, path: &str)
        ensures
            final(self).config@ == path@,
            final(self).path == old(self).path,
            final(self).active == old(self).active,
    {
        self.config = String::from_str(path);
    }

    /// Whether a start may proceed: a supervisor already holding a live
    /// handle rejects a second start rather than leak the first process.
    pub fn can_start(&self) -> (r: bool)
        ensures
            r == !self.active,
    {
        !self.active
    }

    /// Error returned when a start is requested while a process is active.
    pub fn already_running_error() -> (r: ClashError)
        ensures
            r.kind == ClashErrorKind::Default,
            r.message@ == "proxy core is already running"@,
    {
        ClashError::of(
            ClashErrorKind::Default,
            String::from_str("proxy core is already running"),
        )
    }

    /// A start wraps any failure of the configuration rewrite — a malformed
    /// document or a failed rule-provider download — as a format error
    /// carrying the rewrite's own message.
    pub fn on_transform_failure(message: String) -> (r: ClashError)
        ensures
            r.kind == ClashErrorKind::ConfigFormatError,
            r.message@ == message@,
    {
        ClashError::of(ClashErrorKind::ConfigFormatError, message)
    }

    /// Record the outcome of spawning the proxy-core executable. A failed
    /// spawn leaves the supervisor without a handle and reports the
    /// operating system's message under the launch-failure kind.
    pub fn on_spawn(&mut self, spawned: bool, os_message: String) -> (r: Result<(), ClashError>)
        requires
            !old(self).active,
        ensures
            final(self).path == old(self).path,
            final(self).config == old(self).config,
            spawned ==> final(self).active && r is Ok,
            !spawned ==> (r matches Err(e) && !final(self).active && e.kind
                == ClashErrorKind::CoreNotFound && e.message@ == os_message@),
    {
        if spawned {
            self.active = true;
            Ok(())
        } else {
            Err(ClashError::of(ClashErrorKind::CoreNotFound, os_message))
        }
    }

    /// Record the outcome of applying the system network settings, done after
    /// the process is spawned. A failure is reported as a network error
    /// carrying the helper's message; the process stays active, so the caller
    /// sees the known inconsistency — a running process with network state
    /// unset — in the error it gets back.
    pub fn on_network_apply(&self, applied: bool, helper_message: String) -> (r: Result<
        (),
        ClashError,
    >)
        ensures
            applied ==> r is Ok,
            !applied ==> (r matches Err(e) && e.kind == ClashErrorKind::NetworkError
                && e.message@ == helper_message@),
    {
        if applied {
            Ok(())
        } else {
            Err(ClashError::of(ClashErrorKind::NetworkError, helper_message))
        }
    }

    /// Release the handle slot. With a live handle the caller is told to
    /// terminate the process and restore the saved DNS configuration; with
    /// none this is a no-op, not an error, and the state is unchanged.
    pub fn stop(&mut self) -> (r: StopPlan)
        ensures
            r.terminate == old(self).active,
            !final(self).active,
            final(self).path == old(self).path,
            final(self).config == old(self).config,
            !old(self).active ==> *final(self) == *old(self),
    {
        let was_active = self.active;
        self.active = false;
        StopPlan { terminate: was_active }
    }
}

} // verus!
