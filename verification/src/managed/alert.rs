//! Alerts, by the incident log and by email.

use crate::managed::config::Config;
use vstd::prelude::*;
use vstd::string::*;

verus! {

/// Something that the engine does to the world outside.
#[derive(Debug)]
pub enum Effect {
    /// Print a line and append it to the incident log.
    Incident(String),
    /// Run `command` with `recipient` as its argument and hand it `message`.
    Email { command: String, recipient: String, message: String },
    /// Wait for so many seconds.
    Sleep(u64),
}

/// The texts of an effect.
pub enum EffectView {
    Incident(Seq<char>),
    Email { command: Seq<char>, recipient: Seq<char>, message: Seq<char> },
    Sleep(u64),
}

impl View for Effect {
    type V = EffectView;

    open spec fn view(&self) -> EffectView {
        match *self {
            Effect::Incident(line) => EffectView::Incident(line@),
            Effect::Email { command, recipient, message } => EffectView::Email {
                command: command@,
                recipient: recipient@,
                message: message@,
            },
            Effect::Sleep(secs) => EffectView::Sleep(secs),
        }
    }
}

/// The texts of a list of effects.
pub open spec fn shown(effects: Seq<Effect>) -> Seq<EffectView> {
    effects.map_values(|e: Effect| e@)
}

/// Adding an effect adds its texts.
pub broadcast proof fn lemma_shown_push(effects: Seq<Effect>, e: Effect)
    ensures
        #[trigger] shown(effects.push(e)) == shown(effects).push(e@),
{
    assert(shown(effects.push(e)) == shown(effects).push(e@));
}

/// Adding effects adds their texts.
pub broadcast proof fn lemma_shown_add(a: Seq<Effect>, b: Seq<Effect>)
    ensures
        #[trigger] shown(a + b) == shown(a) + shown(b),
{
    assert(shown(a + b) == shown(a) + shown(b));
}

/// The line that says that the email settings are incomplete.
pub const EMAIL_INCOMPLETE: &'static str =
    "[ALERT ERROR] Email is enabled but email_to/email_from/email_command is incomplete";

/// An email: its headers, an empty line and its body.
pub open spec fn email_message(
    from: Seq<char>,
    to: Seq<char>,
    subject: Seq<char>,
    body: Seq<char>,
) -> Seq<char> {
    "From: "@ + from + "\nTo: "@ + to + "\nSubject: "@ + subject + "\n\n"@ + body + "\n"@
}

/// What is done to send an email: nothing unless email is enabled, and a complaint where the
/// settings do not say whom to send it to, as whom and how.
pub open spec fn email_effects(config: Config, subject: Seq<char>, body: Seq<char>) -> Seq<
    EffectView,
> {
    if !config.email_enabled {
        Seq::empty()
    } else {
        match (config.email_to, config.email_from, config.email_command) {
            (Some(to), Some(from), Some(command)) => seq![
                EffectView::Email {
                    command: command@,
                    recipient: to@,
                    message: email_message(from@, to@, subject, body),
                },
            ],
            _ => seq![EffectView::Incident(EMAIL_INCOMPLETE@)],
        }
    }
}

/// What is done to send an email.
pub fn send_email(config: &Config, subject: &str, body: &str) -> (r: Vec<Effect>)
    ensures
        shown(r@) == email_effects(*config, subject@, body@),
{
    let mut effects: Vec<Effect> = Vec::new();
    if config.email_enabled {
        match (&config.email_to, &config.email_from, &config.email_command) {
            (Some(to), Some(from), Some(command)) => {
                let message = "From: ".to_owned().concat(from.as_str()).concat("\nTo: ").concat(
                    to.as_str(),
                ).concat("\nSubject: ").concat(subject).concat("\n\n").concat(body).concat("\n");
                effects.push(
                    Effect::Email { command: command.clone(), recipient: to.clone(), message },
                );
            },
            _ => {
                effects.push(Effect::Incident(EMAIL_INCOMPLETE.to_owned()));
            },
        }
    }
    assert(shown(effects@) == email_effects(*config, subject@, body@));
    effects
}

/// What is done to raise an alert: it is written to the incident log, then sent by email.
pub open spec fn alert_effects(config: Config, subject: Seq<char>, body: Seq<char>) -> Seq<
    EffectView,
> {
    seq![EffectView::Incident("[ALERT] "@ + subject + " | "@ + body)] + email_effects(
        config,
        subject,
        body,
    )
}

/// What is done to raise an alert.
pub fn alert(config: &Config, subject: &str, body: &str) -> (r: Vec<Effect>)
    ensures
        shown(r@) == alert_effects(*config, subject@, body@),
{
    let mut effects: Vec<Effect> = Vec::new();
    effects.push(
        Effect::Incident(
            "[ALERT] ".to_owned().concat(subject).concat(" | ").concat(body),
        ),
    );
    let mut mail = send_email(config, subject, body);
    proof {
        lemma_shown_add(effects@, mail@);
    }
    assert(shown(effects@) == seq![EffectView::Incident("[ALERT] "@ + subject@ + " | "@ + body@)]);
    effects.append(&mut mail);
    effects
}

/// The line that says that the email command did not start.
pub fn email_failure(error: &str) -> (r: String)
    ensures
        r@ == "[ALERT ERROR] Failed to start email command: "@ + error@,
{
    "[ALERT ERROR] Failed to start email command: ".to_owned().concat(error)
}

/// An alert always leaves a line in the incident log, and sends at most one email, only where
/// email is enabled and the settings are complete.
pub proof fn law_alerts_are_logged(config: Config, subject: Seq<char>, body: Seq<char>)
    ensures
        alert_effects(config, subject, body)[0] == EffectView::Incident(
            "[ALERT] "@ + subject + " | "@ + body,
        ),
        alert_effects(config, subject, body).len() <= 2,
        forall|i: int|
            0 <= i < alert_effects(config, subject, body).len() && (#[trigger] alert_effects(
                config,
                subject,
                body,
            )[i] is Email) ==> config.email_enabled && config.email_to is Some
                && config.email_from is Some && config.email_command is Some,
{
}

/// Effects are shown one for one.
pub proof fn law_effects_are_shown(effects: Seq<Effect>, i: int)
    requires
        0 <= i < effects.len(),
    ensures
        shown(effects).len() == effects.len(),
        effects[i] matches Effect::Incident(line) ==> shown(effects)[i] == EffectView::Incident(
            line@,
        ),
        effects[i] matches Effect::Sleep(secs) ==> shown(effects)[i] == EffectView::Sleep(secs),
        effects[i] matches Effect::Email { command, recipient, message } ==> shown(effects)[i]
            == (EffectView::Email {
            command: command@,
            recipient: recipient@,
            message: message@,
        }),
{
}

/// An email goes out exactly when email is enabled and the settings are complete: by the configured
/// command, to the configured recipient, with the headers, the subject and the body. Where the
/// settings are not complete, that is logged; where email is not enabled, nothing is done.
pub proof fn law_emails_go_out(config: &Config, subject: &str, body: &str, r: Vec<Effect>)
    requires
        call_ensures(send_email, (config, subject, body), r),
    ensures
        shown(r@) == email_effects(*config, subject@, body@),
        !config.email_enabled ==> r@.len() == 0,
        config.email_enabled ==> r@.len() == 1,
        config.email_enabled && config.email_to is Some && config.email_from is Some
            && config.email_command is Some ==> (r@[0] matches Effect::Email {
            command,
            recipient,
            message,
        } && command@ == config.email_command->0@ && recipient@ == config.email_to->0@ && message@
            == "From: "@ + config.email_from->0@ + "\nTo: "@ + config.email_to->0@
            + "\nSubject: "@ + subject@ + "\n\n"@ + body@ + "\n"@),
        config.email_enabled && !(config.email_to is Some && config.email_from is Some
            && config.email_command is Some) ==> (r@[0] matches Effect::Incident(line) && line@
            == "[ALERT ERROR] Email is enabled but email_to/email_from/email_command is incomplete"@),
{
    assert(shown(r@).len() == r@.len());
    if r@.len() > 0 {
        assert(shown(r@)[0] == r@[0]@);
    }
}

/// An alert is logged with its subject and its body, and then goes out by email like any other.
pub proof fn law_alerts_are_logged_and_sent(
    config: &Config,
    subject: &str,
    body: &str,
    r: Vec<Effect>,
    mail: Vec<Effect>,
)
    requires
        call_ensures(alert, (config, subject, body), r),
        call_ensures(send_email, (config, subject, body), mail),
    ensures
        shown(r@) == alert_effects(*config, subject@, body@),
        r@.len() == 1 + mail@.len(),
        r@[0] matches Effect::Incident(line) && line@ == "[ALERT] "@ + subject@ + " | "@ + body@,
        forall|i: int| 0 <= i < mail@.len() ==> r@[i + 1]@ == (#[trigger] mail@[i])@,
{
    assert(shown(r@).len() == r@.len());
    assert(shown(mail@).len() == mail@.len());
    assert(shown(r@)[0] == r@[0]@);
    assert forall|i: int| 0 <= i < mail@.len() implies r@[i + 1]@ == (#[trigger] mail@[i])@ by {
        assert(shown(mail@)[i] == mail@[i]@);
        assert(shown(r@)[i + 1] == r@[i + 1]@);
    }
}

} // verus!
