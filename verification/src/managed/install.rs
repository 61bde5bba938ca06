//! Setting the engine up as a service.

use crate::commands;
use crate::commands::CommandLine;
use crate::commands::CommandLineView;
use crate::commands::CommandOutput;
use crate::managed::config::Config;
use crate::service;
use crate::text;
use crate::unicode;
use vstd::prelude::*;
use vstd::string::*;

verus! {

pub const CONFIG_DIR: &'static str = "/etc/aegira";

pub const RULES_PATH: &'static str = "/etc/aegira/rules.json";

pub const CONFIG_PATH: &'static str = "/etc/aegira/config.json";

pub const LOGS_DIR: &'static str = "/var/log/aegira";

pub const AEGIRA_LOG: &'static str = "/var/log/aegira/aegira.log";

pub const INCIDENT_LOG: &'static str = "/var/log/aegira/incident.log";

pub const INSTALL_BIN: &'static str = "/usr/local/bin/aegira";

pub const SYSTEMD_UNIT: &'static str = "/etc/systemd/system/aegira.service";

/// The log file that is suggested to be watched.
pub const DEFAULT_LOG_PATH: &'static str = "/var/log/aegira/system.log";

/// The systemd unit in front of the path of the program.
pub const UNIT_HEAD: &'static str =
    "[Unit]\nDescription=Aegira Automated Recovery Engine\nAfter=network.target\n\n[Service]\nType=simple\nUser=root\nWorkingDirectory=/etc/aegira\nExecStart=";

/// The systemd unit behind the path of the program.
pub const UNIT_TAIL: &'static str =
    "\nRestart=always\nRestartSec=3\n\n[Install]\nWantedBy=multi-user.target\n";

/// What is said where a file cannot be created.
pub fn creation_failure(path: &str, error: &str) -> (r: String)
    ensures
        r@ == path@ + ": "@ + error@,
{
    path.to_owned().concat(": ").concat(error)
}

/// What is said where the configuration file cannot be read.
pub fn config_unreadable(error: &str) -> (r: String)
    ensures
        r@ == "Cannot read "@ + CONFIG_PATH@ + ": "@ + error@,
{
    "Cannot read ".to_owned().concat(CONFIG_PATH).concat(": ").concat(error)
}

/// What is said where the configuration file does not hold a configuration.
pub fn config_invalid(error: &str) -> (r: String)
    ensures
        r@ == "Invalid config: "@ + error@,
{
    "Invalid config: ".to_owned().concat(error)
}

/// What is said where the program cannot be put in its place.
pub fn binary_failure(error: &str) -> (r: String)
    ensures
        r@ == "Cannot install binary: "@ + error@,
{
    "Cannot install binary: ".to_owned().concat(error)
}

/// What is said where the program at `exe` comes without rules.
pub fn rules_missing(exe: &str) -> (r: String)
    ensures
        r@ == "Bundled rules.json not found next to "@ + exe@,
{
    "Bundled rules.json not found next to ".to_owned().concat(exe)
}

/// What is said where the rules cannot be put in their place.
pub fn rules_failure(error: &str) -> (r: String)
    ensures
        r@ == "Cannot install rules.json: "@ + error@,
{
    "Cannot install rules.json: ".to_owned().concat(error)
}

/// Checks, by what `id -u` left behind, that the program runs as root.
pub fn require_root(output: &CommandOutput) -> (r: Result<(), String>)
    ensures
        r is Ok <==> commands::reported(
            output.success,
            unicode::lossy_text(output.stdout@),
            "0"@,
        ),
        r matches Err(e) ==> e@ == "This operation requires root. Run it with sudo."@,
{
    if commands::output_says(output, "0") {
        Ok(())
    } else {
        Err("This operation requires root. Run it with sudo.".to_owned())
    }
}

/// A question, with the answer that is suggested.
pub fn prompt_line(label: &str, default: Option<&str>) -> (r: String)
    ensures
        r@ == match default {
            Some(d) => label@ + " ["@ + d@ + "]"@ + ": "@,
            None => label@ + ": "@,
        },
{
    match default {
        Some(d) => label.to_owned().concat(" [").concat(d).concat("]").concat(": "),
        None => label.to_owned().concat(": "),
    }
}

/// The answer to a question: what was typed without white space round it, or what was suggested
/// where that is nothing.
pub fn answer(typed: &str, default: Option<&str>) -> (r: String)
    ensures
        r@ == (if !text::blank(typed@) {
            text::trimmed(typed@)
        } else {
            match default {
                Some(d) => d@,
                None => ""@,
            }
        }),
{
    let given = text::trim(typed);
    if !given.is_empty() {
        given.to_owned()
    } else {
        match default {
            Some(d) => d.to_owned(),
            None => "".to_owned(),
        }
    }
}

/// Checks that a service can be watched over: it has a name and is not Aegira itself.
pub fn check_service(name: &str) -> (r: Result<(), String>)
    ensures
        r is Ok <==> !text::blank(name@) && !service::self_service(name@),
        r matches Err(e) ==> e@ == "A valid non-Aegira service is required."@,
{
    if text::is_blank(name) || service::is_self_service(name) {
        Err("A valid non-Aegira service is required.".to_owned())
    } else {
        Ok(())
    }
}

/// Tells whether an answer asks for alerts by email.
pub fn wants_email(reply: &str) -> (r: bool)
    ensures
        r == (reply@ == "y"@ || reply@ == "Y"@),
{
    text::same_text(reply, "y") || text::same_text(reply, "Y")
}

/// Where alerts are sent, as whom and how.
#[derive(Debug)]
pub struct EmailSettings {
    pub to: String,
    pub from: String,
    pub command: String,
}

/// The configuration that is written at installation: the default one, with the service and the
/// log file filled in, and with the email settings where there are any.
pub fn new_config(service_name: &str, log_path: &str, email: Option<EmailSettings>) -> (r: Config)
    ensures
        r.service@ == text::trimmed(service_name@),
        r.log_path@ == text::trimmed(log_path@),
        match email {
            Some(e) => r.email_enabled && r.email_to == Some(e.to) && r.email_from == Some(e.from)
                && r.email_command == Some(e.command),
            None => !r.email_enabled && r.email_to is None && r.email_from is None
                && r.email_command is None,
        },
        r.mode@ == crate::managed::config::FREE_MODE@,
        r.max_recovery_attempts == crate::managed::config::MAX_RECOVERY_ATTEMPTS,
        r.recovery_window_secs == crate::managed::config::RECOVERY_WINDOW_SECS,
        r.incident_cooldown_secs == crate::managed::config::INCIDENT_COOLDOWN_SECS,
        r.container is None,
{
    let mut config = Config::default();
    config.service = text::trim(service_name).to_owned();
    config.log_path = text::trim(log_path).to_owned();
    if let Some(e) = email {
        config.email_enabled = true;
        config.email_to = Some(e.to);
        config.email_from = Some(e.from);
        config.email_command = Some(e.command);
    }
    config
}

/// The systemd unit.
pub fn unit_file() -> (r: String)
    ensures
        r@ == UNIT_HEAD@ + INSTALL_BIN@ + UNIT_TAIL@,
{
    UNIT_HEAD.to_owned().concat(INSTALL_BIN).concat(UNIT_TAIL)
}

/// The commands that make systemd run the engine.
pub open spec fn activation(systemctl: Seq<char>) -> Seq<CommandLineView> {
    seq![
        CommandLineView { program: systemctl, args: seq!["daemon-reload"@] },
        CommandLineView { program: systemctl, args: seq!["enable"@, "aegira.service"@] },
        CommandLineView { program: systemctl, args: seq!["restart"@, "aegira.service"@] },
    ]
}

/// The commands that make systemd run the engine, to be run one after the other.
pub fn activation_commands(systemctl: &'static str) -> (r: Vec<CommandLine>)
    ensures
        r@.map_values(|c: CommandLine| c@) == activation(systemctl@),
{
    let reload = CommandLine { program: systemctl, args: vec!["daemon-reload".to_owned()] };
    assert(reload@.args == seq!["daemon-reload"@]);
    let all = vec![
        reload,
        commands::command(systemctl, "enable", "aegira.service"),
        commands::command(systemctl, "restart", "aegira.service"),
    ];
    assert(all@.map_values(|c: CommandLine| c@) == activation(systemctl@));
    all
}

/// What is asked for at installation passes the checks that are made when the engine starts.
pub proof fn law_checked_service_is_configured(name: Seq<char>)
    requires
        !text::blank(name),
    ensures
        !text::blank(text::trimmed(name)),
{
    text::law_trimmed_ends(name);
}

/// An answer is what was typed, white space round it aside, and what was suggested only where
/// nothing was typed.
pub proof fn law_answers_are_what_was_typed(typed: &str, default: Option<&str>, r: String)
    requires
        call_ensures(answer, (typed, default), r),
    ensures
        text::trimmed(typed@).len() > 0 ==> r@ == text::trimmed(typed@),
        text::trimmed(typed@).len() == 0 && default is Some ==> r@ == default->0@,
        text::trimmed(typed@).len() == 0 && default is None ==> r@.len() == 0,
{
    reveal_strlit("");
}

/// A question shows what is suggested.
pub proof fn law_questions_show_the_suggestion(label: &str, default: Option<&str>, r: String)
    requires
        call_ensures(prompt_line, (label, default), r),
    ensures
        default matches Some(d) ==> r@ == label@ + " ["@ + d@ + "]: "@,
        default is None ==> r@ == label@ + ": "@,
{
    reveal_strlit("]");
    reveal_strlit(": ");
    reveal_strlit("]: ");
    if let Some(d) = default {
        assert(label@ + " ["@ + d@ + "]"@ + ": "@ == label@ + " ["@ + d@ + "]: "@);
    }
}

/// Every service can be watched over that has a name and is not Aegira itself; no other can.
pub proof fn law_services_that_can_be_watched(name: &str, r: Result<(), String>)
    requires
        call_ensures(check_service, (name,), r),
    ensures
        r is Ok <==> text::trimmed(name@).len() > 0 && service::normalized_service(name@)
            != "aegira"@,
        r matches Err(e) ==> e@ == "A valid non-Aegira service is required."@,
{
}

/// Alerts by email are asked for by the letter `y`, in either case, and by nothing else.
pub proof fn law_email_is_asked_for(reply: &str, r: bool)
    requires
        call_ensures(wants_email, (reply,), r),
    ensures
        r == (reply@.len() == 1 && (reply@[0] == 'y' || reply@[0] == 'Y')),
{
    reveal_strlit("y");
    reveal_strlit("Y");
    if r {
        assert(reply@[0] == 'y' || reply@[0] == 'Y');
    } else if reply@.len() == 1 && reply@[0] == 'y' {
        assert(reply@ == "y"@);
    } else if reply@.len() == 1 && reply@[0] == 'Y' {
        assert(reply@ == "Y"@);
    }
}

/// The program runs as root exactly when `id -u` ends well and prints a zero.
pub proof fn law_root_is_user_zero(output: &CommandOutput, r: Result<(), String>)
    requires
        call_ensures(require_root, (output,), r),
    ensures
        r is Ok <==> output.success && text::trimmed(unicode::lossy_text(output.stdout@)) == "0"@,
        r matches Err(e) ==> e@ == "This operation requires root. Run it with sudo."@,
{
}

/// The configuration that is written holds what was asked for; the rest is the engine's own: the
/// free mode, three recoveries within 300 seconds, and a cooldown of 30 seconds.
pub proof fn law_configuration_is_what_was_asked_for(
    service_name: &str,
    log_path: &str,
    email: Option<EmailSettings>,
    r: Config,
)
    requires
        call_ensures(new_config, (service_name, log_path, email), r),
    ensures
        r.service@ == text::trimmed(service_name@),
        r.log_path@ == text::trimmed(log_path@),
        r.email_enabled == (email is Some),
        email matches Some(e) ==> r.email_to == Some(e.to) && r.email_from == Some(e.from)
            && r.email_command == Some(e.command),
        email is None ==> r.email_to is None && r.email_from is None && r.email_command is None,
        r.mode@ == "free"@,
        r.max_recovery_attempts == 3,
        r.recovery_window_secs == 300,
        r.incident_cooldown_secs == 30,
        r.container is None,
{
}

/// The service is made known to systemd, then enabled, then restarted.
pub proof fn law_activation(systemctl: &'static str, r: Vec<CommandLine>)
    requires
        call_ensures(activation_commands, (systemctl,), r),
    ensures
        r@.len() == 3,
        forall|i: int| 0 <= i < 3 ==> (#[trigger] r@[i]).program@ == systemctl@,
        text::texts(r@[0].args@) == seq!["daemon-reload"@],
        text::texts(r@[1].args@) == seq!["enable"@, "aegira.service"@],
        text::texts(r@[2].args@) == seq!["restart"@, "aegira.service"@],
{
    let views = r@.map_values(|c: CommandLine| c@);
    assert(views.len() == r@.len());
    assert(views[0] == r@[0]@ && views[1] == r@[1]@ && views[2] == r@[2]@);
}

} // verus!
