//! The settings of the engine.

use crate::text;
use vstd::prelude::*;
use vstd::string::*;

verus! {

pub const MAX_RECOVERY_ATTEMPTS: u32 = 3;

pub const RECOVERY_WINDOW_SECS: u64 = 300;

pub const INCIDENT_COOLDOWN_SECS: u64 = 30;

/// The mode in which containers are left alone.
pub const FREE_MODE: &'static str = "free";

/// The settings of the engine.
#[derive(Clone, Debug)]
pub struct Config {
    pub mode: String,
    pub service: String,
    pub log_path: String,
    pub max_recovery_attempts: u32,
    pub recovery_window_secs: u64,
    pub incident_cooldown_secs: u64,
    pub email_enabled: bool,
    pub email_to: Option<String>,
    pub email_from: Option<String>,
    pub email_command: Option<String>,
    pub container: Option<String>,
}

impl Default for Config {
    fn default() -> (r: Self)
        ensures
            r.mode@ == FREE_MODE@,
            r.service@ == ""@,
            r.log_path@ == ""@,
            r.max_recovery_attempts == MAX_RECOVERY_ATTEMPTS,
            r.recovery_window_secs == RECOVERY_WINDOW_SECS,
            r.incident_cooldown_secs == INCIDENT_COOLDOWN_SECS,
            !r.email_enabled,
            r.email_to is None,
            r.email_from is None,
            r.email_command is None,
            r.container is None,
    {
        Config {
            mode: FREE_MODE.to_owned(),
            service: "".to_owned(),
            log_path: "".to_owned(),
            max_recovery_attempts: MAX_RECOVERY_ATTEMPTS,
            recovery_window_secs: RECOVERY_WINDOW_SECS,
            incident_cooldown_secs: INCIDENT_COOLDOWN_SECS,
            email_enabled: false,
            email_to: None,
            email_from: None,
            email_command: None,
            container: None,
        }
    }
}

/// Whether the engine runs in the mode in which containers are left alone.
pub open spec fn free(mode: Seq<char>) -> bool {
    mode == FREE_MODE@
}

/// Tells whether the engine runs in the mode in which containers are left alone.
pub fn is_free(mode: &str) -> (r: bool)
    ensures
        r == free(mode@),
{
    text::same_text(mode, FREE_MODE)
}

/// The container of a configuration, or the empty text where it names none.
pub open spec fn container_or_empty(config: Config) -> Seq<char> {
    match config.container {
        Some(container) => container@,
        None => ""@,
    }
}

/// `value` with the placeholders for the configured service and container filled in.
pub open spec fn target(value: Seq<char>, config: Config) -> Seq<char> {
    if value == "TARGET_SERVICE"@ {
        config.service@
    } else if value == "TARGET_CONTAINER"@ {
        container_or_empty(config)
    } else {
        value
    }
}

/// Fills in the placeholders for the configured service and container.
pub fn replace_target(value: &str, config: &Config) -> (r: String)
    ensures
        r@ == target(value@, *config),
{
    if text::same_text(value, "TARGET_SERVICE") {
        config.service.clone()
    } else if text::same_text(value, "TARGET_CONTAINER") {
        match &config.container {
            Some(container) => container.clone(),
            None => "".to_owned(),
        }
    } else {
        value.to_owned()
    }
}

/// The settings that the engine runs with: `config`, with limits of zero replaced.
pub open spec fn effective(config: Config) -> Config {
    Config {
        max_recovery_attempts: if config.max_recovery_attempts == 0 {
            1
        } else {
            config.max_recovery_attempts
        },
        recovery_window_secs: if config.recovery_window_secs == 0 {
            RECOVERY_WINDOW_SECS
        } else {
            config.recovery_window_secs
        },
        ..config
    }
}

/// Checks the settings before the engine runs with them. They must name a service; limits of zero
/// are replaced.
pub fn prepare(config: Config) -> (r: Result<Config, String>)
    ensures
        match r {
            Ok(c) => !text::blank(config.service@) && c == effective(config),
            Err(e) => text::blank(config.service@) && e@ == "No service configured."@,
        },
{
    if text::is_blank(config.service.as_str()) {
        return Err("No service configured.".to_owned());
    }
    let mut c = config;
    if c.max_recovery_attempts == 0 {
        c.max_recovery_attempts = 1;
    }
    if c.recovery_window_secs == 0 {
        c.recovery_window_secs = RECOVERY_WINDOW_SECS;
    }
    Ok(c)
}

/// The settings that the engine runs with allow at least one recovery, within a window that is
/// not empty.
pub proof fn law_effective_limits_are_positive(config: Config)
    ensures
        effective(config).max_recovery_attempts > 0,
        effective(config).recovery_window_secs > 0,
        effective(effective(config)) == effective(config),
{
}

/// A target is what is named, but for the two placeholders, which stand for the configured service
/// and the configured container.
pub proof fn law_targets_are_what_is_named(value: &str, config: &Config, r: String)
    requires
        call_ensures(replace_target, (value, config), r),
    ensures
        r@ == target(value@, *config),
        value@ == "TARGET_SERVICE"@ ==> r@ == config.service@,
        value@ == "TARGET_CONTAINER"@ ==> match config.container {
            Some(c) => r@ == c@,
            None => r@.len() == 0,
        },
        value@ != "TARGET_SERVICE"@ && value@ != "TARGET_CONTAINER"@ ==> r@ == value@,
{
    reveal_strlit("");
    reveal_strlit("TARGET_SERVICE");
    reveal_strlit("TARGET_CONTAINER");
    assert("TARGET_SERVICE"@.len() != "TARGET_CONTAINER"@.len());
}

/// Containers are left alone in the mode `free` and in no other.
pub proof fn law_one_mode_is_free(mode: &str, r: bool)
    requires
        call_ensures(is_free, (mode,), r),
    ensures
        r == (mode@ == "free"@),
        r == free(mode@),
{
}

/// Settings are refused exactly when they name no service. Else the engine runs with them as they
/// are, but that a limit of no recovery means one, and a window of no length one of 300 seconds.
pub proof fn law_settings_are_used_as_they_are(config: Config, r: Result<Config, String>)
    requires
        call_ensures(prepare, (config,), r),
    ensures
        r is Err <==> text::trimmed(config.service@).len() == 0,
        r matches Err(e) ==> e@ == "No service configured."@,
        r matches Ok(c) ==> {
            &&& c.mode == config.mode
            &&& c.service == config.service
            &&& c.log_path == config.log_path
            &&& c.incident_cooldown_secs == config.incident_cooldown_secs
            &&& c.email_enabled == config.email_enabled
            &&& c.email_to == config.email_to
            &&& c.email_from == config.email_from
            &&& c.email_command == config.email_command
            &&& c.container == config.container
            &&& config.max_recovery_attempts > 0 ==> c.max_recovery_attempts
                == config.max_recovery_attempts
            &&& config.max_recovery_attempts == 0 ==> c.max_recovery_attempts == 1
            &&& config.recovery_window_secs > 0 ==> c.recovery_window_secs
                == config.recovery_window_secs
            &&& config.recovery_window_secs == 0 ==> c.recovery_window_secs == 300
        },
{
}

} // verus!
