//! What the runtime publishes to the browser.
//!
//! A [`Publication`] is put to the browser session by the caller, who owns
//! the session.

use vstd::prelude::*;
use vstd::slice::slice_to_vec;
use vstd::utf8::encode_utf8;

use crate::ledger::text_view;
use crate::number::{signed_decimal, signed_decimal_text};
use crate::policy::{AuthorizedCommand, CommandView};
use crate::runtime::{AuthorityConfigView, CommandAuthorityConfig};
use crate::text::{concat, copy_text, strip_suffix};
use crate::velocity_budget::{clamp_limit, clamped_limit, BudgetState, StateView};
use crate::wire::{
    json_object, json_text, member_views, param_set_reply, read_param_set_reply, reply_view,
    result_name, result_name_of, Scalar, ScalarView,
};

verus! {

/// Bytes to put under a key.
#[derive(Debug, PartialEq, Eq)]
pub struct Publication {
    pub key: String,
    pub payload: Vec<u8>,
}

/// The value of a [`Publication`].
pub struct PublicationView {
    pub key: Seq<char>,
    pub payload: Seq<u8>,
}

impl View for Publication {
    type V = PublicationView;

    open spec fn view(&self) -> PublicationView {
        PublicationView { key: self.key@, payload: self.payload@ }
    }
}

/// The values of a list of publications.
pub open spec fn publication_views(publications: Seq<Publication>) -> Seq<PublicationView> {
    publications.map_values(|publication: Publication| publication@)
}

/// The prefix of status keys: the intent prefix without `/cmd` at its end.
pub open spec fn status_prefix_of(intent_prefix: Seq<char>) -> Seq<char> {
    if "/cmd"@.is_suffix_of(intent_prefix) {
        intent_prefix.take(intent_prefix.len() - "/cmd"@.len())
    } else {
        intent_prefix
    }
}

/// The prefix of status keys.
pub fn status_prefix(intent_prefix: &str) -> (prefix: String)
    ensures
        prefix@ == status_prefix_of(intent_prefix@),
{
    match strip_suffix(intent_prefix, "/cmd") {
        Some(prefix) => prefix,
        None => intent_prefix.to_owned(),
    }
}

/// The bytes of the JSON object with `members`.
pub open spec fn json_bytes(members: Seq<(Seq<char>, ScalarView)>) -> Seq<u8> {
    encode_utf8(json_object(members))
}

/// A status message under `leaf`.
pub open spec fn status_of(
    config: AuthorityConfigView,
    leaf: Seq<char>,
    status: Seq<char>,
    message: Seq<char>,
) -> PublicationView {
    PublicationView {
        key: status_prefix_of(config.policy.intent_prefix) + "/status/"@ + leaf,
        payload: json_bytes(
            seq![
                ("status"@, ScalarView::Text(status)),
                ("message"@, ScalarView::Text(message)),
            ],
        ),
    }
}

fn text_member(name: &str, text: &str) -> (member: (String, Scalar))
    ensures
        (member.0@, member.1@) == (name@, ScalarView::Text(text@)),
{
    (name.to_owned(), Scalar::Text(text.to_owned()))
}

fn number_member(name: &str, number: u32) -> (member: (String, Scalar))
    ensures
        (member.0@, member.1@) == (name@, ScalarView::Number(number)),
{
    (name.to_owned(), Scalar::Number(number))
}

/// Null for none.
pub open spec fn text_or_null(text: Option<Seq<char>>) -> ScalarView {
    match text {
        Some(text) => ScalarView::Text(text),
        None => ScalarView::Null,
    }
}

fn optional_member(name: &str, text: &Option<String>) -> (member: (String, Scalar))
    ensures
        (member.0@, member.1@) == (name@, text_or_null(text_view(*text))),
{
    match text {
        Some(text) => (name.to_owned(), Scalar::Text(text.clone())),
        None => (name.to_owned(), Scalar::Null),
    }
}

fn json_payload(members: Vec<(String, Scalar)>) -> (bytes: Vec<u8>)
    ensures
        bytes@ == json_bytes(member_views(members@)),
{
    slice_to_vec(json_text(members).as_str().as_bytes())
}

/// A status message under `leaf`.
pub fn publish_status(
    config: &CommandAuthorityConfig,
    leaf: &str,
    status: &str,
    message: &str,
) -> (publication: Publication)
    ensures
        publication@ == status_of(config@, leaf@, status@, message@),
{
    let mut key = status_prefix(config.policy.intent_prefix.as_str());
    key.append("/status/");
    key.append(leaf);
    let mut members: Vec<(String, Scalar)> = Vec::new();
    members.push(text_member("status", status));
    members.push(text_member("message", message));
    assert(member_views(members@) =~= seq![
        ("status"@, ScalarView::Text(status@)),
        ("message"@, ScalarView::Text(message@)),
    ]);
    Publication { key, payload: json_payload(members) }
}

/// What a velocity status reports.
pub struct VelocityFieldsView {
    pub device_id: Option<Seq<char>>,
    pub credential_id: Option<Seq<char>>,
    pub limit: u32,
    pub used: u32,
    pub remaining: u32,
    pub budget_version: Option<Seq<char>>,
}

/// What a velocity status reports.
#[derive(Debug, PartialEq, Eq)]
pub struct VelocityFields {
    pub device_id: Option<String>,
    pub credential_id: Option<String>,
    pub limit: u32,
    pub used: u32,
    pub remaining: u32,
    pub budget_version: Option<String>,
}

impl View for VelocityFields {
    type V = VelocityFieldsView;

    open spec fn view(&self) -> VelocityFieldsView {
        VelocityFieldsView {
            device_id: text_view(self.device_id),
            credential_id: text_view(self.credential_id),
            limit: self.limit,
            used: self.used,
            remaining: self.remaining,
            budget_version: text_view(self.budget_version),
        }
    }
}

/// The key of a velocity status, scoped to a credential where one is known.
pub open spec fn velocity_key(config: AuthorityConfigView, credential_id: Option<Seq<char>>) -> Seq<
    char,
> {
    let key = status_prefix_of(config.policy.intent_prefix) + "/status/velocity"@;
    match credential_id {
        Some(id) => key + ("/"@ + id),
        None => key,
    }
}

/// A velocity status.
pub open spec fn velocity_status_of(
    config: AuthorityConfigView,
    status: Seq<char>,
    fields: VelocityFieldsView,
    message: Seq<char>,
) -> PublicationView {
    PublicationView {
        key: velocity_key(config, fields.credential_id),
        payload: json_bytes(
            seq![
                ("status"@, ScalarView::Text(status)),
                ("message"@, ScalarView::Text(message)),
                ("deviceId"@, text_or_null(fields.device_id)),
                ("credentialId"@, text_or_null(fields.credential_id)),
                ("limit"@, ScalarView::Number(fields.limit)),
                ("used"@, ScalarView::Number(fields.used)),
                ("remaining"@, ScalarView::Number(fields.remaining)),
                ("budgetVersion"@, text_or_null(fields.budget_version)),
            ],
        ),
    }
}

/// A velocity status.
pub fn publish_velocity_status_fields(
    config: &CommandAuthorityConfig,
    status: &str,
    fields: &VelocityFields,
    message: &str,
) -> (publication: Publication)
    ensures
        publication@ == velocity_status_of(config@, status@, fields@, message@),
{
    let mut key = status_prefix(config.policy.intent_prefix.as_str());
    key.append("/status/velocity");
    match &fields.credential_id {
        Some(id) => {
            let suffix = concat("/", id.as_str());
            key.append(suffix.as_str());
        },
        None => {},
    }
    let mut members: Vec<(String, Scalar)> = Vec::new();
    members.push(text_member("status", status));
    members.push(text_member("message", message));
    members.push(optional_member("deviceId", &fields.device_id));
    members.push(optional_member("credentialId", &fields.credential_id));
    members.push(number_member("limit", fields.limit));
    members.push(number_member("used", fields.used));
    members.push(number_member("remaining", fields.remaining));
    members.push(optional_member("budgetVersion", &fields.budget_version));
    assert(member_views(members@) =~= seq![
        ("status"@, ScalarView::Text(status@)),
        ("message"@, ScalarView::Text(message@)),
        ("deviceId"@, text_or_null(fields@.device_id)),
        ("credentialId"@, text_or_null(fields@.credential_id)),
        ("limit"@, ScalarView::Number(fields@.limit)),
        ("used"@, ScalarView::Number(fields@.used)),
        ("remaining"@, ScalarView::Number(fields@.remaining)),
        ("budgetVersion"@, text_or_null(fields@.budget_version)),
    ]);
    Publication { key, payload: json_payload(members) }
}

/// What a budget state reports.
pub open spec fn fields_of_state(state: StateView) -> VelocityFieldsView {
    VelocityFieldsView {
        device_id: Some(state.device_id),
        credential_id: Some(state.credential_id),
        limit: state.limit,
        used: state.used,
        remaining: state.remaining,
        budget_version: Some(state.budget_version),
    }
}

/// A velocity status that reports `state`.
pub fn publish_velocity_status(
    config: &CommandAuthorityConfig,
    status: &str,
    state: &BudgetState,
    message: &str,
) -> (publication: Publication)
    ensures
        publication@ == velocity_status_of(
            config@,
            status@,
            fields_of_state(state@),
            message@,
        ),
{
    let fields = VelocityFields {
        device_id: Some(state.device_id.clone()),
        credential_id: Some(state.credential_id.clone()),
        limit: state.limit,
        used: state.used,
        remaining: state.remaining,
        budget_version: Some(state.budget_version.clone()),
    };
    publish_velocity_status_fields(config, status, &fields, message)
}

/// What a command reports of the budget that it was charged to; where it was
/// charged to none, an exhausted budget.
pub open spec fn fields_of_command(config: AuthorityConfigView, command: CommandView) -> VelocityFieldsView {
    VelocityFieldsView {
        device_id: command.velocity_device,
        credential_id: command.velocity_credential_id,
        limit: match command.velocity_limit {
            Some(limit) => limit,
            None => clamped_limit(config.policy.velocity_budget),
        },
        used: match command.velocity_used {
            Some(used) => used,
            None => config.policy.velocity_budget,
        },
        remaining: match command.velocity_remaining {
            Some(remaining) => remaining,
            None => 0,
        },
        budget_version: command.velocity_budget_version,
    }
}

/// A velocity status that reports the budget of `command`.
pub fn publish_velocity_command_status(
    config: &CommandAuthorityConfig,
    status: &str,
    command: &AuthorizedCommand,
    message: &str,
) -> (publication: Publication)
    ensures
        publication@ == velocity_status_of(
            config@,
            status@,
            fields_of_command(config@, command@),
            message@,
        ),
{
    let fields = VelocityFields {
        device_id: copy_text(&command.velocity_device),
        credential_id: copy_text(&command.velocity_credential_id),
        limit: match command.velocity_limit {
            Some(limit) => limit,
            None => clamp_limit(config.policy.velocity_budget),
        },
        used: match command.velocity_used {
            Some(used) => used,
            None => config.policy.velocity_budget,
        },
        remaining: match command.velocity_remaining {
            Some(remaining) => remaining,
            None => 0,
        },
        budget_version: copy_text(&command.velocity_budget_version),
    };
    publish_velocity_status_fields(config, status, &fields, message)
}

/// What is reported where a team's budget is not known: nothing left.
pub open spec fn unknown_fields(config: AuthorityConfigView, credential_id: Option<Seq<char>>) -> VelocityFieldsView {
    VelocityFieldsView {
        device_id: None,
        credential_id,
        limit: clamped_limit(config.policy.velocity_budget),
        used: clamped_limit(config.policy.velocity_budget),
        remaining: 0,
        budget_version: None,
    }
}

/// A rejection of a velocity command whose budget is not known.
pub fn publish_unknown_velocity_status(
    config: &CommandAuthorityConfig,
    credential_id: &Option<String>,
    message: &str,
) -> (publication: Publication)
    ensures
        publication@ == velocity_status_of(
            config@,
            "rejected"@,
            unknown_fields(config@, text_view(*credential_id)),
            message@,
        ),
{
    let fields = VelocityFields {
        device_id: None,
        credential_id: copy_text(credential_id),
        limit: clamp_limit(config.policy.velocity_budget),
        used: clamp_limit(config.policy.velocity_budget),
        remaining: 0,
        budget_version: None,
    };
    publish_velocity_status_fields(config, "rejected", &fields, message)
}

/// A status and its message, or the message of an error.
pub open spec fn reply_status_of(reply: Result<(u8, i32), Seq<char>>) -> Result<
    (Seq<char>, Seq<char>),
    Seq<char>,
> {
    match reply {
        Err(message) => Err("invalid ParamSetReply: "@ + message),
        Ok((result, detail)) => if result == 0 {
            Ok(("accepted"@, "target service accepted the gain"@))
        } else if result == 5 {
            Ok(("in_progress"@, "target service is applying the gain"@))
        } else {
            let name = match result_name_of(result) {
                Some(name) => name,
                None => "unknown result"@,
            };
            Err(
                "target service returned "@ + name + " (detail "@ + signed_decimal(detail as int)
                    + ")"@,
            )
        },
    }
}

/// The value of a reply status.
pub open spec fn reply_status_view(status: Result<(&'static str, String), String>) -> Result<
    (Seq<char>, Seq<char>),
    Seq<char>,
> {
    match status {
        Ok((status, message)) => Ok((status@, message@)),
        Err(message) => Err(message@),
    }
}

/// The status that a decoded reply to a gain query stands for.
pub fn reply_status(reply: &Result<(u8, i32), String>) -> (status: Result<
    (&'static str, String),
    String,
>)
    ensures
        reply_status_view(status) == reply_status_of(reply_view(*reply)),
{
    match reply {
        Err(message) => Err(concat("invalid ParamSetReply: ", message.as_str())),
        Ok((result, detail)) => {
            if *result == 0 {
                return Ok(("accepted", "target service accepted the gain".to_owned()));
            }
            if *result == 5 {
                return Ok(("in_progress", "target service is applying the gain".to_owned()));
            }
            let name = match result_name(*result) {
                Some(name) => name,
                None => "unknown result".to_owned(),
            };
            let mut message = concat("target service returned ", name.as_str());
            message.append(" (detail ");
            message.append(signed_decimal_text(*detail).as_str());
            message.append(")");
            Err(message)
        },
    }
}

/// The status that the reply to a gain query stands for.
pub fn parameter_reply_status(payload: &[u8]) -> (status: Result<(&'static str, String), String>)
    ensures
        reply_status_view(status) == reply_status_of(param_set_reply(payload@)),
{
    let reply = read_param_set_reply(payload);
    reply_status(&reply)
}

} // verus!
