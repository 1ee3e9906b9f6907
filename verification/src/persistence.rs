//! User settings, runtime state, and the decisions of the background
//! persistence loop: the startup health check, and the debounced flush of
//! dirty settings to disk. File reads and writes, locks and sleeping are the
//! caller's work; every decision about them is made here.

use vstd::prelude::*;

verus! {

/// User-facing settings, persisted to a fixed per-user path.
#[derive(Clone, Copy, PartialEq, Eq, Structural, Debug)]
pub struct Settings {
    pub enable: bool,
}

/// Runtime state: the home directory the settings path is derived from, and
/// whether in-memory settings may be newer than their on-disk copy.
#[derive(Debug, PartialEq, Eq)]
pub struct State {
    pub home: String,
    pub dirty: bool,
}

/// The settings file location under a home directory.
pub open spec fn settings_path_chars(home: Seq<char>) -> Seq<char> {
    home + "/.config/tomoon/tomoon.json"@
}

/// The settings file location under a home directory, for a home path
/// without a trailing separator.
pub fn settings_path(home: &str) -> (r: String)
    ensures
        r@ == settings_path_chars(home@),
{
    let mut out = String::from_str(home);
    out.append("/.config/tomoon/tomoon.json");
    out
}

/// The settings document as persisted: a single-field record.
pub open spec fn settings_json_chars(enable: bool) -> Seq<char> {
    if enable {
        "{\"enable\":true}"@
    } else {
        "{\"enable\":false}"@
    }
}

/// The two renderings differ, so a parsed document determines the settings.
pub proof fn lemma_settings_json_distinct()
    ensures
        settings_json_chars(true) != settings_json_chars(false),
{
    reveal_strlit("{\"enable\":true}");
    reveal_strlit("{\"enable\":false}");
    assert(settings_json_chars(true).len() == 15);
    assert(settings_json_chars(false).len() == 16);
}

/// Render the settings document that is written to disk.
pub fn render_settings(settings: &Settings) -> (r: String)
    ensures
        r@ == settings_json_chars(settings.enable),
{
    if settings.enable {
        String::from_str("{\"enable\":true}")
    } else {
        String::from_str("{\"enable\":false}")
    }
}

/// Read settings back from a persisted document; anything but the two
/// canonical renderings is rejected.
pub fn parse_settings(text: &str) -> (r: Option<Settings>)
    ensures
        match r {
            Some(s) => text@ == settings_json_chars(s.enable),
            None => text@ != settings_json_chars(true) && text@ != settings_json_chars(false),
        },
{
    let t = String::from_str(text);
    if t == String::from_str("{\"enable\":true}") {
        Some(Settings { enable: true })
    } else if t == String::from_str("{\"enable\":false}") {
        Some(Settings { enable: false })
    } else {
        None
    }
}

/// The startup health check: recovering from an unclean prior shutdown, where
/// settings persisted as enabled but the proxy core is not actually running,
/// means clearing the flag and asking for exactly one network reset. In every
/// other case the settings are untouched and no reset is asked for.
pub fn health_check(settings: &mut Settings, core_running: bool) -> (reset_network: bool)
    ensures
        (!core_running && old(settings).enable) ==> (!final(settings).enable && reset_network),
        !(!core_running && old(settings).enable) ==> (*final(settings) == *old(settings)
            && !reset_network),
{
    if !core_running && settings.enable {
        settings.enable = false;
        true
    } else {
        false
    }
}

/// A file write the caller is to perform: the settings document at its path.
#[derive(Debug, PartialEq, Eq)]
pub struct WriteCommand {
    pub path: String,
    pub content: String,
}

/// One iteration of the persistence loop: a clean state asks for no write and
/// changes nothing; a dirty state asks for one write of the current settings
/// to the settings path under the state's home, and comes out clean.
pub fn persistence_step(state: &mut State, settings: &Settings) -> (w: Option<WriteCommand>)
    ensures
        final(state).home == old(state).home,
        !final(state).dirty,
        old(state).dirty ==> (w matches Some(c) && c.path@ == settings_path_chars(
            old(state).home@,
        ) && c.content@ == settings_json_chars(settings.enable)),
        !old(state).dirty ==> w is None && *final(state) == *old(state),
{
    if state.dirty {
        let path = settings_path(state.home.as_str());
        let content = render_settings(settings);
        state.dirty = false;
        Some(WriteCommand { path, content })
    } else {
        None
    }
}

/// Writes performed by a run of loop iterations that starts with the dirty
/// flag as given, when no writer marks the settings dirty in between: each
/// iteration writes exactly when the flag is set, and clears it.
pub open spec fn loop_writes(dirty: bool, iterations: nat) -> nat
    decreases iterations,
{
    if iterations == 0 {
        0
    } else if dirty {
        1 + loop_writes(false, (iterations - 1) as nat)
    } else {
        loop_writes(false, (iterations - 1) as nat)
    }
}

/// The loop writes the settings file at most once per dirty-to-clean
/// transition, and never while clean: however many iterations run after one
/// marking, at most one write happens, and none at all from a clean start.
pub proof fn lemma_flush_at_most_once(dirty: bool, iterations: nat)
    ensures
        loop_writes(dirty, iterations) <= 1,
        !dirty ==> loop_writes(dirty, iterations) == 0,
        (dirty && iterations > 0) ==> loop_writes(dirty, iterations) == 1,
    decreases iterations,
{
    if iterations > 0 {
        lemma_flush_at_most_once(false, (iterations - 1) as nat);
    }
}

} // verus!
