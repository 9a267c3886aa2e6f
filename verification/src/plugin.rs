//! The record kept of each installed plugin: where it came from, whether it
//! is enabled, and when it was installed and last changed.
use vstd::prelude::*;
use crate::text::{cat, owned, same_text};

verus! {

/// Where a plugin was installed from.
#[derive(Clone, Copy, Debug, PartialEq, Eq, Structural)]
pub enum PluginOrigin {
    Local,
    Jilebi,
}

/// Whether a plugin shows up in the server.
#[derive(Clone, Copy, Debug, PartialEq, Eq, Structural)]
pub enum PluginState {
    Enabled,
    Disabled,
}

/// The text an origin is shown and stored as.
pub open spec fn origin_text(o: PluginOrigin) -> Seq<char> {
    match o {
        PluginOrigin::Local => "local"@,
        PluginOrigin::Jilebi => "jilebi"@,
    }
}

/// The text a state is shown and stored as.
pub open spec fn state_text(s: PluginState) -> Seq<char> {
    match s {
        PluginState::Enabled => "enabled"@,
        PluginState::Disabled => "disabled"@,
    }
}

/// The origin a stored text names, if any.
pub open spec fn origin_from_text(t: Seq<char>) -> Option<PluginOrigin> {
    if t == "local"@ {
        Some(PluginOrigin::Local)
    } else if t == "jilebi"@ {
        Some(PluginOrigin::Jilebi)
    } else {
        None
    }
}

/// The state a stored text names, if any.
pub open spec fn state_from_text(t: Seq<char>) -> Option<PluginState> {
    if t == "enabled"@ {
        Some(PluginState::Enabled)
    } else if t == "disabled"@ {
        Some(PluginState::Disabled)
    } else {
        None
    }
}

impl PluginOrigin {
    /// The origin in lower case: `local` or `jilebi`.
    pub fn to_display(&self) -> (r: String)
        ensures
            r@ == origin_text(*self),
    {
        match self {
            PluginOrigin::Local => owned("local"),
            PluginOrigin::Jilebi => owned("jilebi"),
        }
    }

    /// Reads a stored origin.
    pub fn from_text(t: &str) -> (r: Option<PluginOrigin>)
        ensures
            r == origin_from_text(t@),
    {
        if same_text(t, "local") {
            Some(PluginOrigin::Local)
        } else if same_text(t, "jilebi") {
            Some(PluginOrigin::Jilebi)
        } else {
            None
        }
    }
}

impl PluginState {
    /// The state in lower case: `enabled` or `disabled`.
    pub fn to_display(&self) -> (r: String)
        ensures
            r@ == state_text(*self),
    {
        match self {
            PluginState::Enabled => owned("enabled"),
            PluginState::Disabled => owned("disabled"),
        }
    }

    /// Reads a stored state.
    pub fn from_text(t: &str) -> (r: Option<PluginState>)
        ensures
            r == state_from_text(t@),
    {
        if same_text(t, "enabled") {
            Some(PluginState::Enabled)
        } else if same_text(t, "disabled") {
            Some(PluginState::Disabled)
        } else {
            None
        }
    }
}

/// An origin or a state reads back as what was stored.
pub proof fn law_stored_origin_and_state_read_back(o: PluginOrigin, s: PluginState)
    ensures
        origin_from_text(origin_text(o)) == Some(o),
        state_from_text(state_text(s)) == Some(s),
{
    reveal_strlit("local");
    reveal_strlit("jilebi");
    reveal_strlit("enabled");
    reveal_strlit("disabled");
    assert("local"@ != "jilebi"@) by {
        assert("local"@.len() != "jilebi"@.len());
    }
    assert("enabled"@ != "disabled"@) by {
        assert("enabled"@.len() != "disabled"@.len());
    }
}

/// What is known of an installed plugin. The two dates are seconds since
/// the Unix epoch.
#[derive(Debug)]
pub struct PluginMetaData {
    pub name: String,
    pub path: String,
    pub version: String,
    pub origin: PluginOrigin,
    pub state: PluginState,
    pub date_installed: i64,
    pub last_updated: i64,
}

/// The instant an RFC 2822 date stands for, in seconds since the Unix epoch;
/// none when `chrono` does not read the text as one.
pub uninterp spec fn rfc2822_seconds(text: Seq<char>) -> Option<i64>;

/// `chrono::DateTime::parse_from_rfc2822`, taken to seconds since the epoch
/// (`DateTime::timestamp`). Claimed: the result is [`rfc2822_seconds`] of
/// the text.
#[verifier::external_body]
fn parse_rfc2822(text: &str) -> (r: Option<i64>)
    ensures
        r == rfc2822_seconds(text@),
{
    match chrono::DateTime::parse_from_rfc2822(text) {
        Ok(d) => Some(d.timestamp()),
        Err(_) => None,
    }
}

/// The current time as an RFC 2822 date (`chrono::Utc::now().to_rfc2822()`).
/// Claimed: the text is one that `DateTime::parse_from_rfc2822` reads back.
/// Which instant it names is not claimed: it depends on the clock. (`chrono`
/// panics on a clock outside the years 0 to 9999.)
#[verifier::external_body]
fn now_rfc2822() -> (r: String)
    ensures
        rfc2822_seconds(r@) is Some,
{
    chrono::Utc::now().to_rfc2822()
}

/// The message for a stored plugin that cannot be read.
pub open spec fn unreadable_plugin_text() -> Seq<char> {
    "Could not query plugin from DB, please check logs"@
}

/// A stored plugin read from its fields, the two dates already read as
/// instants (`None` for a date that did not read).
pub fn plugin_from_fields(
    name: String,
    path: String,
    version: String,
    origin: &str,
    state: &str,
    date_installed: Option<i64>,
    last_updated: Option<i64>,
) -> (r: Result<PluginMetaData, String>)
    ensures
        match (origin_from_text(origin@), state_from_text(state@), date_installed, last_updated) {
            (Some(o), Some(s), Some(d), Some(u)) => r is Ok && r->Ok_0 == (PluginMetaData {
                name,
                path,
                version,
                origin: o,
                state: s,
                date_installed: d,
                last_updated: u,
            }),
            _ => r is Err && r->Err_0@ == unreadable_plugin_text(),
        },
{
    let (o, s, d, u) = match (PluginOrigin::from_text(origin), PluginState::from_text(state), date_installed, last_updated) {
        (Some(o), Some(s), Some(d), Some(u)) => (o, s, d, u),
        _ => {
            return Err(owned("Could not query plugin from DB, please check logs"));
        },
    };
    Ok(PluginMetaData { name, path, version, origin: o, state: s, date_installed: d, last_updated: u })
}

/// A stored plugin read from the text of its row.
pub fn plugin_from_row(
    name: String,
    path: String,
    version: String,
    origin: &str,
    state: &str,
    date_installed: &str,
    last_updated: &str,
) -> (r: Result<PluginMetaData, String>)
    ensures
        match (
            origin_from_text(origin@),
            state_from_text(state@),
            rfc2822_seconds(date_installed@),
            rfc2822_seconds(last_updated@),
        ) {
            (Some(o), Some(s), Some(d), Some(u)) => r is Ok && r->Ok_0 == (PluginMetaData {
                name,
                path,
                version,
                origin: o,
                state: s,
                date_installed: d,
                last_updated: u,
            }),
            _ => r is Err && r->Err_0@ == unreadable_plugin_text(),
        },
{
    let installed = parse_rfc2822(date_installed);
    let updated = parse_rfc2822(last_updated);
    plugin_from_fields(name, path, version, origin, state, installed, updated)
}

/// The texts of a new plugin's row: name, path, version, origin, state, and
/// the dates it was installed and last changed.
#[derive(Debug)]
pub struct PluginRow {
    pub name: String,
    pub path: String,
    pub version: String,
    pub origin: String,
    pub state: String,
    pub date_installed: String,
    pub last_updated: String,
}

/// The row of a newly installed plugin: from the plugin store, enabled,
/// installed and last changed now (one reading of the clock for both).
pub fn new_plugin_row(name: &str, path: &str, version: &str) -> (r: PluginRow)
    ensures
        r.name@ == name@,
        r.path@ == path@,
        r.version@ == version@,
        r.origin@ == origin_text(PluginOrigin::Jilebi),
        r.state@ == state_text(PluginState::Enabled),
        r.date_installed@ == r.last_updated@,
        rfc2822_seconds(r.date_installed@) is Some,
{
    let now = now_rfc2822();
    PluginRow {
        name: owned(name),
        path: owned(path),
        version: owned(version),
        origin: PluginOrigin::Jilebi.to_display(),
        state: PluginState::Enabled.to_display(),
        date_installed: now.clone(),
        last_updated: now,
    }
}

/// A new plugin's row reads back: as a plugin from the plugin store,
/// enabled, installed and last changed at one and the same instant.
pub proof fn law_new_row_reads_back(row: PluginRow)
    requires
        row.origin@ == origin_text(PluginOrigin::Jilebi),
        row.state@ == state_text(PluginState::Enabled),
        row.date_installed@ == row.last_updated@,
        rfc2822_seconds(row.date_installed@) is Some,
    ensures
        origin_from_text(row.origin@) == Some(PluginOrigin::Jilebi),
        state_from_text(row.state@) == Some(PluginState::Enabled),
        rfc2822_seconds(row.date_installed@) is Some,
        rfc2822_seconds(row.last_updated@) == rfc2822_seconds(row.date_installed@),
{
    law_stored_origin_and_state_read_back(PluginOrigin::Jilebi, PluginState::Enabled);
}

/// The stored state and change date of a plugin set to `state` now; the
/// date reads back as an instant.
pub fn state_change(state: PluginState) -> (r: (String, String))
    ensures
        r.0@ == state_text(state),
        state_from_text(r.0@) == Some(state),
        rfc2822_seconds(r.1@) is Some,
{
    proof {
        law_stored_origin_and_state_read_back(PluginOrigin::Jilebi, state);
    }
    (state.to_display(), now_rfc2822())
}

/// The log file of a plugin: its name followed by `.logs`.
pub fn plugin_log_file_name(id: &str) -> (r: String)
    ensures
        r@ == id@ + ".logs"@,
{
    cat(id, ".logs")
}

} // verus!
