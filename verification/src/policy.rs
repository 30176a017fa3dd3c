//! Which browser intents cross to the vehicle, and as what.
//!
//! Nothing crosses unless an explicit mapping here accepts it.

use vstd::prelude::*;
use vstd::slice::slice_to_vec;

use crate::credential::{credential_id, id_of_name, safe_device_id, safe_id, CredentialView};
use crate::ledger::{text_view, BudgetDatabase, RecordView};
use crate::number::{digit, digits, is_digit};
use crate::payload::{
    check_gain, envelope_view, gain_refusal, is_manual_command, is_radio_command, is_safe_segment,
    is_x_velocity_command, manual_command, open_envelope, opened, radio_command, safe_segment,
    x_velocity_command, Envelope, EnvelopeView,
};
use crate::speed::speed_text;
use crate::text::{
    chars_of, concat, pieces, same_text, split, strip_prefix, text_of, trim_end_char,
    without_trailing,
};
use crate::velocity_budget::{
    clamped_limit, clock, outcome_of, outcome_view, BudgetFiles, BudgetUpdate,
    BudgetUpdateView, Credential, FilesView, StateView, Update, UpdateView, VelocityBudgetStore,
};
use crate::wire::{param_set_request, read_param_set_request, read_x_velocity, x_velocity_text};

verus! {

/// The query keys that the vehicle serves for firmware updates.
pub const CANONICAL_FIRMWARE_QUERY_KEYS: [&'static str; 6] = [
    "synapse/v1/cmd/firmware_info",
    "synapse/v1/cmd/firmware_status",
    "synapse/v1/cmd/firmware_prepare",
    "synapse/v1/cmd/firmware_chunk",
    "synapse/v1/cmd/firmware_commit",
    "synapse/v1/cmd/firmware_abort",
];

/// The largest payload of a staged firmware intent.
pub const FIRMWARE_MAX_BYTES: usize = 69632;

/// What the policy is configured with.
#[derive(Debug, PartialEq, Eq)]
pub struct PolicyConfig {
    pub intent_prefix: String,
    pub vehicle_topic_prefix: String,
    pub parameter_key: String,
    pub firmware_key_prefix: String,
    /// Bit pattern of the smallest X velocity, a non-negative
    /// single-precision number in metres per second.
    pub velocity_min_mps_bits: u32,
    /// Bit pattern of the greatest X velocity.
    pub velocity_max_mps_bits: u32,
    pub velocity_budget: u32,
    pub velocity_budget_json: String,
    pub velocity_budget_csv: String,
    pub raw_max_bytes: usize,
}

/// The value of a [`PolicyConfig`].
pub struct PolicyConfigView {
    pub intent_prefix: Seq<char>,
    pub vehicle_topic_prefix: Seq<char>,
    pub parameter_key: Seq<char>,
    pub firmware_key_prefix: Seq<char>,
    pub velocity_min_mps_bits: u32,
    pub velocity_max_mps_bits: u32,
    pub velocity_budget: u32,
    pub velocity_budget_json: Seq<char>,
    pub velocity_budget_csv: Seq<char>,
    pub raw_max_bytes: usize,
}

impl View for PolicyConfig {
    type V = PolicyConfigView;

    open spec fn view(&self) -> PolicyConfigView {
        PolicyConfigView {
            intent_prefix: self.intent_prefix@,
            vehicle_topic_prefix: self.vehicle_topic_prefix@,
            parameter_key: self.parameter_key@,
            firmware_key_prefix: self.firmware_key_prefix@,
            velocity_min_mps_bits: self.velocity_min_mps_bits,
            velocity_max_mps_bits: self.velocity_max_mps_bits,
            velocity_budget: self.velocity_budget,
            velocity_budget_json: self.velocity_budget_json@,
            velocity_budget_csv: self.velocity_budget_csv@,
            raw_max_bytes: self.raw_max_bytes,
        }
    }
}

/// The configuration that holds without any settings: X velocities from 1 to
/// 4 metres per second, five commands per team, raw payloads up to 4 KiB.
pub open spec fn default_policy_config() -> PolicyConfigView {
    PolicyConfigView {
        intent_prefix: "gcs/v1/cmd"@,
        vehicle_topic_prefix: "synapse/v1/topic"@,
        parameter_key: "synapse/v1/cmd/param_set"@,
        firmware_key_prefix: "synapse/v1/cmd/firmware"@,
        velocity_min_mps_bits: 0x3f80_0000,
        velocity_max_mps_bits: 0x4080_0000,
        velocity_budget: 5,
        velocity_budget_json: "velocity-budget.json"@,
        velocity_budget_csv: "velocity-budget.csv"@,
        raw_max_bytes: 4096,
    }
}

impl Default for PolicyConfig {
    fn default() -> (config: Self)
        ensures
            config@ == default_policy_config(),
    {
        PolicyConfig {
            intent_prefix: "gcs/v1/cmd".to_owned(),
            vehicle_topic_prefix: "synapse/v1/topic".to_owned(),
            parameter_key: "synapse/v1/cmd/param_set".to_owned(),
            firmware_key_prefix: "synapse/v1/cmd/firmware".to_owned(),
            velocity_min_mps_bits: 0x3f80_0000,
            velocity_max_mps_bits: 0x4080_0000,
            velocity_budget: 5,
            velocity_budget_json: "velocity-budget.json".to_owned(),
            velocity_budget_csv: "velocity-budget.csv".to_owned(),
            raw_max_bytes: 4096,
        }
    }
}

impl Clone for PolicyConfig {
    fn clone(&self) -> (copy: Self)
        ensures
            copy@ == self@,
    {
        PolicyConfig {
            intent_prefix: self.intent_prefix.clone(),
            vehicle_topic_prefix: self.vehicle_topic_prefix.clone(),
            parameter_key: self.parameter_key.clone(),
            firmware_key_prefix: self.firmware_key_prefix.clone(),
            velocity_min_mps_bits: self.velocity_min_mps_bits,
            velocity_max_mps_bits: self.velocity_max_mps_bits,
            velocity_budget: self.velocity_budget,
            velocity_budget_json: self.velocity_budget_json.clone(),
            velocity_budget_csv: self.velocity_budget_csv.clone(),
            raw_max_bytes: self.raw_max_bytes,
        }
    }
}

/// How an accepted command goes on.
#[derive(Clone, Copy, Debug, PartialEq, Eq, Structural)]
pub enum Delivery {
    /// Published to the vehicle.
    Publish,
    /// Sent to the vehicle as a query.
    Query,
    /// Handed to the staged firmware update.
    Firmware,
    /// Answered with the state of a budget.
    Budget,
}

/// A command that the policy lets through.
#[derive(Debug, PartialEq, Eq)]
pub struct AuthorizedCommand {
    pub delivery: Delivery,
    pub target: String,
    pub payload: Vec<u8>,
    pub status_leaf: String,
    pub velocity_device: Option<String>,
    pub velocity_credential_id: Option<String>,
    pub velocity_limit: Option<u32>,
    pub velocity_used: Option<u32>,
    pub velocity_remaining: Option<u32>,
    pub velocity_budget_version: Option<String>,
}

/// The value of an [`AuthorizedCommand`].
pub struct CommandView {
    pub delivery: Delivery,
    pub target: Seq<char>,
    pub payload: Seq<u8>,
    pub status_leaf: Seq<char>,
    pub velocity_device: Option<Seq<char>>,
    pub velocity_credential_id: Option<Seq<char>>,
    pub velocity_limit: Option<u32>,
    pub velocity_used: Option<u32>,
    pub velocity_remaining: Option<u32>,
    pub velocity_budget_version: Option<Seq<char>>,
}

impl View for AuthorizedCommand {
    type V = CommandView;

    open spec fn view(&self) -> CommandView {
        CommandView {
            delivery: self.delivery,
            target: self.target@,
            payload: self.payload@,
            status_leaf: self.status_leaf@,
            velocity_device: text_view(self.velocity_device),
            velocity_credential_id: text_view(self.velocity_credential_id),
            velocity_limit: self.velocity_limit,
            velocity_used: self.velocity_used,
            velocity_remaining: self.velocity_remaining,
            velocity_budget_version: text_view(self.velocity_budget_version),
        }
    }
}

/// Why a command is refused.
#[derive(Debug, PartialEq, Eq)]
pub struct PolicyError {
    message: String,
}

impl PolicyError {
    /// The text of the refusal.
    pub closed spec fn text(self) -> Seq<char> {
        self.message@
    }

    /// The text of the refusal.
    pub fn to_string(&self) -> (message: String)
        ensures
            message@ == self.text(),
    {
        self.message.clone()
    }
}

/// What an intent key asks for.
pub enum IntentView {
    Velocity,
    VelocityBudget,
    Manual,
    Radio,
    Gain,
    Raw(Seq<char>),
    Firmware(Seq<char>),
    Unknown,
}

/// What an intent key asks for.
#[derive(Debug, PartialEq, Eq)]
pub enum Intent {
    Velocity,
    VelocityBudget,
    Manual,
    Radio,
    Gain,
    /// Raw bytes for the topic with this leaf.
    Raw(String),
    /// A step of a firmware update: the key behind `firmware/`.
    Firmware(String),
    Unknown,
}

impl View for Intent {
    type V = IntentView;

    open spec fn view(&self) -> IntentView {
        match self {
            Intent::Velocity => IntentView::Velocity,
            Intent::VelocityBudget => IntentView::VelocityBudget,
            Intent::Manual => IntentView::Manual,
            Intent::Radio => IntentView::Radio,
            Intent::Gain => IntentView::Gain,
            Intent::Raw(leaf) => IntentView::Raw(leaf@),
            Intent::Firmware(step) => IntentView::Firmware(step@),
            Intent::Unknown => IntentView::Unknown,
        }
    }
}

/// `prefix` with exactly one slash at its end.
pub open spec fn with_slash(prefix: Seq<char>) -> Seq<char> {
    without_trailing(prefix, '/').push('/')
}

/// What `key` asks for under the intent prefix `prefix`.
pub open spec fn intent_of(prefix: Seq<char>, key: Seq<char>) -> IntentView {
    let lead = with_slash(prefix);
    let suffix = key.skip(lead.len() as int);
    if !lead.is_prefix_of(key) {
        IntentView::Unknown
    } else if suffix == "velocity"@ {
        IntentView::Velocity
    } else if suffix == "velocity_budget"@ {
        IntentView::VelocityBudget
    } else if suffix == "manual"@ {
        IntentView::Manual
    } else if suffix == "radio"@ {
        IntentView::Radio
    } else if suffix == "gain"@ {
        IntentView::Gain
    } else if "raw/"@.is_prefix_of(suffix) {
        IntentView::Raw(suffix.skip("raw/"@.len() as int))
    } else if "firmware/"@.is_prefix_of(suffix) {
        IntentView::Firmware(suffix.skip("firmware/"@.len() as int))
    } else {
        IntentView::Unknown
    }
}

/// `prefix` with exactly one slash at its end.
pub fn slash_ended(prefix: &str) -> (lead: String)
    ensures
        lead@ == with_slash(prefix@),
{
    let mut lead = trim_end_char(prefix, '/');
    lead.push('/');
    lead
}

/// What `key` asks for under the intent prefix `prefix`.
pub fn classify(prefix: &str, key: &str) -> (intent: Intent)
    ensures
        intent@ == intent_of(prefix@, key@),
{
    let lead = slash_ended(prefix);
    let suffix = match strip_prefix(key, lead.as_str()) {
        Some(suffix) => suffix,
        None => {
            return Intent::Unknown;
        },
    };
    let suffix = suffix.as_str();
    if same_text(suffix, "velocity") {
        return Intent::Velocity;
    }
    if same_text(suffix, "velocity_budget") {
        return Intent::VelocityBudget;
    }
    if same_text(suffix, "manual") {
        return Intent::Manual;
    }
    if same_text(suffix, "radio") {
        return Intent::Radio;
    }
    if same_text(suffix, "gain") {
        return Intent::Gain;
    }
    match strip_prefix(suffix, "raw/") {
        Some(leaf) => {
            return Intent::Raw(leaf);
        },
        None => {},
    }
    match strip_prefix(suffix, "firmware/") {
        Some(step) => Intent::Firmware(step),
        None => Intent::Unknown,
    }
}

/// Marks an envelope around a velocity command.
pub open spec fn command_kind() -> Seq<u8> {
    seq![69u8, 86u8, 67u8, 49u8]
}

/// Marks an envelope that asks for the state of a budget.
pub open spec fn budget_kind() -> Seq<u8> {
    seq![69u8, 86u8, 66u8, 49u8]
}

/// Marks an envelope around raw bytes for the velocity topic.
pub open spec fn raw_kind() -> Seq<u8> {
    seq![69u8, 86u8, 82u8, 49u8]
}

fn command_kind_bytes() -> (kind: [u8; 4])
    ensures
        kind@ == command_kind(),
{
    [69, 86, 67, 49]
}

fn budget_kind_bytes() -> (kind: [u8; 4])
    ensures
        kind@ == budget_kind(),
{
    [69, 86, 66, 49]
}

fn raw_kind_bytes() -> (kind: [u8; 4])
    ensures
        kind@ == raw_kind(),
{
    [69, 86, 82, 49]
}

/// The envelope in `payload`, whichever kind it has.
pub open spec fn opened_any(payload: Seq<u8>) -> Option<EnvelopeView> {
    if opened(payload, command_kind()) is Some {
        opened(payload, command_kind())
    } else if opened(payload, budget_kind()) is Some {
        opened(payload, budget_kind())
    } else {
        opened(payload, raw_kind())
    }
}

fn open_any(payload: &[u8]) -> (envelope: Option<Envelope>)
    ensures
        envelope_view(envelope) == opened_any(payload@),
{
    match open_envelope(payload, &command_kind_bytes()) {
        Some(envelope) => {
            return Some(envelope);
        },
        None => {},
    }
    match open_envelope(payload, &budget_kind_bytes()) {
        Some(envelope) => {
            return Some(envelope);
        },
        None => {},
    }
    open_envelope(payload, &raw_kind_bytes())
}

/// The team whose budget a command is charged to, and how.
pub struct ChargeView {
    pub team: Seq<char>,
    pub update: UpdateView,
}

/// An accepted command before its budget is looked at.
pub struct PlanView {
    pub delivery: Delivery,
    pub target: Seq<char>,
    pub payload: Seq<u8>,
    pub status_leaf: Seq<char>,
    pub charge: Option<ChargeView>,
}

/// The vehicle topic with the given leaf.
pub open spec fn topic_key(config: PolicyConfigView, leaf: Seq<char>) -> Seq<char> {
    with_slash(config.vehicle_topic_prefix) + leaf
}

/// A command that is published to one leaf of the vehicle topics.
pub open spec fn published(
    config: PolicyConfigView,
    leaf: Seq<char>,
    payload: Seq<u8>,
    status_leaf: Seq<char>,
    charge: Option<ChargeView>,
) -> PlanView {
    PlanView {
        delivery: Delivery::Publish,
        target: topic_key(config, leaf),
        payload,
        status_leaf,
        charge,
    }
}

/// The update id in a firmware step, where the step is `<id>/start`,
/// `<id>/commit` or `<id>/chunk/<index>`.
pub open spec fn firmware_update_id(step: Seq<char>) -> Option<Seq<char>> {
    let parts = pieces(step, '/');
    let whole = parts.len() == 2 && (parts[1] == "start"@ || parts[1] == "commit"@);
    let chunk = parts.len() == 3 && parts[1] == "chunk"@ && 0 < parts[2].len() <= 10 && digits(
        parts[2],
    );
    if safe_segment(parts[0]) && (whole || chunk) {
        Some(parts[0])
    } else {
        None
    }
}

/// What the policy makes of `payload` under an intent, before any budget.
pub open spec fn plan_of(config: PolicyConfigView, intent: IntentView, payload: Seq<u8>) -> Result<
    PlanView,
    Seq<char>,
> {
    match intent {
        IntentView::Velocity => match opened(payload, command_kind()) {
            None => Err("velocity command requires a team credential envelope"@),
            Some(envelope) => if x_velocity_command(
                envelope.inner,
                config.velocity_min_mps_bits,
                config.velocity_max_mps_bits,
            ) {
                Ok(
                    published(
                        config,
                        "local_position_command"@,
                        envelope.inner,
                        "velocity"@,
                        Some(
                            ChargeView {
                                team: envelope.name,
                                update: UpdateView::Consume(
                                    Some(x_velocity_text(envelope.inner)),
                                ),
                            },
                        ),
                    ),
                )
            } else {
                Err("velocity command requires an X velocity within range and no other"@)
            },
        },
        IntentView::VelocityBudget => match opened(payload, budget_kind()) {
            None => Err("velocity budget request requires a team credential envelope"@),
            Some(envelope) => if envelope.inner.len() == 0 {
                Ok(
                    PlanView {
                        delivery: Delivery::Budget,
                        target: Seq::empty(),
                        payload: Seq::empty(),
                        status_leaf: "velocity"@,
                        charge: Some(
                            ChargeView { team: envelope.name, update: UpdateView::Read },
                        ),
                    },
                )
            } else {
                Err("velocity budget request carries no payload"@)
            },
        },
        IntentView::Manual => if manual_command(payload) {
            Ok(published(config, "manual_control_command"@, payload, "manual"@, None))
        } else {
            Err("manual control command is invalid"@)
        },
        IntentView::Radio => if radio_command(payload) {
            Ok(published(config, "radio_control"@, payload, "radio"@, None))
        } else {
            Err("radio control command is invalid"@)
        },
        IntentView::Gain => match gain_refusal(param_set_request(payload)) {
            Some(message) => Err(message),
            None => Ok(
                PlanView {
                    delivery: Delivery::Query,
                    target: config.parameter_key,
                    payload,
                    status_leaf: "gain"@,
                    charge: None,
                },
            ),
        },
        IntentView::Raw(leaf) => if !safe_segment(leaf) {
            Err("raw topic must be one safe segment"@)
        } else if leaf == "local_position_command"@ {
            match opened(payload, raw_kind()) {
                None => Err("raw velocity command requires a team credential envelope"@),
                Some(envelope) => if envelope.inner.len() > config.raw_max_bytes {
                    Err("raw payload is too large"@)
                } else {
                    Ok(
                        published(
                            config,
                            leaf,
                            envelope.inner,
                            "velocity"@,
                            Some(
                                ChargeView {
                                    team: envelope.name,
                                    update: UpdateView::Consume(None),
                                },
                            ),
                        ),
                    )
                },
            }
        } else if payload.len() > config.raw_max_bytes {
            Err("raw payload is too large"@)
        } else {
            Ok(published(config, leaf, payload, "command"@, None))
        },
        IntentView::Firmware(step) => match firmware_update_id(step) {
            None => Err("firmware intent is not a staged update step"@),
            Some(id) => if payload.len() > FIRMWARE_MAX_BYTES {
                Err("firmware payload is too large"@)
            } else {
                Ok(
                    PlanView {
                        delivery: Delivery::Firmware,
                        target: step,
                        payload,
                        status_leaf: "firmware/"@ + id,
                        charge: None,
                    },
                )
            },
        },
        IntentView::Unknown => Err("intent is not mapped"@),
    }
}

/// The credential of the team called `name`.
pub open spec fn credential_of(name: Seq<char>) -> CredentialView {
    CredentialView { device_id: name, credential_id: id_of_name(name) }
}

/// The message that refuses a team name.
pub open spec fn bad_team_name() -> Seq<char> {
    "team name must be 1-128 characters of letters, numbers, dot, underscore, colon, or hyphen"@
}

/// What an update of the budget of the team called `name` comes to.
pub open spec fn team_outcome(
    config: PolicyConfigView,
    files: FilesView,
    name: Seq<char>,
    update: UpdateView,
    now: nat,
) -> Result<BudgetUpdateView, Seq<char>> {
    let limit = clamped_limit(config.velocity_budget);
    if !safe_id(name) {
        Err(bad_team_name())
    } else {
        outcome_of(
            files,
            config.velocity_budget_csv,
            limit,
            credential_of(name),
            update,
            now,
        )
    }
}

/// What giving a command back to the budget of `credential` comes to.
pub open spec fn refund_of(
    config: PolicyConfigView,
    files: FilesView,
    credential: CredentialView,
    now: nat,
) -> Result<BudgetUpdateView, Seq<char>> {
    outcome_of(
        files,
        config.velocity_budget_csv,
        clamped_limit(config.velocity_budget),
        credential,
        UpdateView::Refund,
        now,
    )
}

/// A plan without a budget as a command.
pub open spec fn plain_command(plan: PlanView) -> CommandView {
    CommandView {
        delivery: plan.delivery,
        target: plan.target,
        payload: plan.payload,
        status_leaf: plan.status_leaf,
        velocity_device: None,
        velocity_credential_id: None,
        velocity_limit: None,
        velocity_used: None,
        velocity_remaining: None,
        velocity_budget_version: None,
    }
}

/// A plan as a command that reports `state`.
pub open spec fn charged_command(plan: PlanView, state: StateView) -> CommandView {
    CommandView {
        velocity_device: Some(state.device_id),
        velocity_credential_id: Some(state.credential_id),
        velocity_limit: Some(state.limit),
        velocity_used: Some(state.used),
        velocity_remaining: Some(state.remaining),
        velocity_budget_version: Some(state.budget_version),
        ..plain_command(plan)
    }
}

/// Whether the speed that is charged with an intent, if any, is the text of a
/// number.
pub open spec fn speed_is_number(config: PolicyConfigView, key: Seq<char>, payload: Seq<u8>) -> bool {
    plan_of(config, intent_of(config.intent_prefix, key), payload) matches Ok(plan) ==> (
    plan.charge matches Some(charge) ==> (charge.update matches UpdateView::Consume(Some(speed))
        ==> speed_text(speed)))
}

/// An accepted command and the budget rows to save with it, if any.
pub struct AuthorizationView {
    pub command: CommandView,
    pub saved: Option<Seq<RecordView>>,
}

/// What the policy makes of an intent: refused, or the command to deliver
/// once the rows are saved.
pub open spec fn authorization_of(
    config: PolicyConfigView,
    files: FilesView,
    now: nat,
    key: Seq<char>,
    payload: Seq<u8>,
) -> Result<AuthorizationView, Seq<char>> {
    match plan_of(config, intent_of(config.intent_prefix, key), payload) {
        Err(message) => Err(message),
        Ok(plan) => match plan.charge {
            None => Ok(AuthorizationView { command: plain_command(plan), saved: None }),
            Some(charge) => match team_outcome(config, files, charge.team, charge.update, now) {
                Err(message) => Err(message),
                Ok(outcome) => Ok(
                    AuthorizationView {
                        command: charged_command(plan, outcome.state),
                        saved: outcome.saved,
                    },
                ),
            },
        },
    }
}

/// An accepted command and the budget rows to save before it is delivered.
#[derive(Debug, PartialEq, Eq)]
pub struct Authorization {
    pub command: AuthorizedCommand,
    pub saved: Option<BudgetDatabase>,
}

impl View for Authorization {
    type V = AuthorizationView;

    open spec fn view(&self) -> AuthorizationView {
        AuthorizationView {
            command: self.command@,
            saved: match self.saved {
                Some(database) => Some(database@),
                None => None,
            },
        }
    }
}

/// The value of an authorization or of its refusal.
pub open spec fn authorization_view(authorization: Result<Authorization, PolicyError>) -> Result<
    AuthorizationView,
    Seq<char>,
> {
    match authorization {
        Ok(authorization) => Ok(authorization@),
        Err(error) => Err(error.text()),
    }
}

/// The team whose budget a command is charged to, and how.
#[derive(Debug, PartialEq, Eq)]
struct Charge {
    team: String,
    update: Update,
}

/// An accepted command before its budget is looked at.
#[derive(Debug, PartialEq, Eq)]
struct Plan {
    delivery: Delivery,
    target: String,
    payload: Vec<u8>,
    status_leaf: String,
    charge: Option<Charge>,
}

spec fn charge_view(charge: Option<Charge>) -> Option<ChargeView> {
    match charge {
        Some(charge) => Some(ChargeView { team: charge.team@, update: charge.update@ }),
        None => None,
    }
}

spec fn plan_view(plan: Result<Plan, String>) -> Result<PlanView, Seq<char>> {
    match plan {
        Ok(plan) => Ok(
            PlanView {
                delivery: plan.delivery,
                target: plan.target@,
                payload: plan.payload@,
                status_leaf: plan.status_leaf@,
                charge: charge_view(plan.charge),
            },
        ),
        Err(message) => Err(message@),
    }
}

/// The speed that a plan is charged with is the text of a speed.
spec fn speed_is_text(plan: Result<Plan, String>) -> bool {
    plan matches Ok(plan) ==> (plan.charge matches Some(charge) ==> (
    charge.update matches Update::Consume(Some(speed)) ==> speed_text(speed@)))
}

fn publish(
    config: &PolicyConfig,
    leaf: &str,
    payload: Vec<u8>,
    status_leaf: &str,
    charge: Option<Charge>,
) -> (plan: Plan)
    ensures
        plan_view(Ok(plan)) == Ok::<PlanView, Seq<char>>(
            published(config@, leaf@, payload@, status_leaf@, charge_view(charge)),
        ),
        plan.charge == charge,
{
    let mut target = slash_ended(config.vehicle_topic_prefix.as_str());
    target.append(leaf);
    Plan {
        delivery: Delivery::Publish,
        target,
        payload,
        status_leaf: status_leaf.to_owned(),
        charge,
    }
}

fn plan_velocity(config: &PolicyConfig, payload: &[u8]) -> (plan: Result<Plan, String>)
    ensures
        plan_view(plan) == plan_of(config@, IntentView::Velocity, payload@),
        speed_is_text(plan),
{
    match open_envelope(payload, &command_kind_bytes()) {
        None => Err("velocity command requires a team credential envelope".to_owned()),
        Some(envelope) => {
            if !is_x_velocity_command(
                envelope.inner.as_slice(),
                config.velocity_min_mps_bits,
                config.velocity_max_mps_bits,
            ) {
                return Err(
                    "velocity command requires an X velocity within range and no other".to_owned(),
                );
            }
            let speed = read_x_velocity(envelope.inner.as_slice());
            let charge = Charge { team: envelope.name, update: Update::Consume(Some(speed)) };
            Ok(
                publish(
                    config,
                    "local_position_command",
                    envelope.inner,
                    "velocity",
                    Some(charge),
                ),
            )
        },
    }
}

fn plan_velocity_budget(config: &PolicyConfig, payload: &[u8]) -> (plan: Result<Plan, String>)
    ensures
        plan_view(plan) == plan_of(config@, IntentView::VelocityBudget, payload@),
        speed_is_text(plan),
{
    match open_envelope(payload, &budget_kind_bytes()) {
        None => Err("velocity budget request requires a team credential envelope".to_owned()),
        Some(envelope) => {
            if envelope.inner.len() != 0 {
                return Err("velocity budget request carries no payload".to_owned());
            }
            Ok(
                Plan {
                    delivery: Delivery::Budget,
                    target: String::new(),
                    payload: Vec::new(),
                    status_leaf: "velocity".to_owned(),
                    charge: Some(Charge { team: envelope.name, update: Update::Read }),
                },
            )
        },
    }
}

fn plan_gain(config: &PolicyConfig, payload: &[u8]) -> (plan: Result<Plan, String>)
    ensures
        plan_view(plan) == plan_of(config@, IntentView::Gain, payload@),
        speed_is_text(plan),
{
    let request = read_param_set_request(payload);
    match check_gain(&request) {
        Some(message) => Err(message),
        None => Ok(
            Plan {
                delivery: Delivery::Query,
                target: config.parameter_key.clone(),
                payload: slice_to_vec(payload),
                status_leaf: "gain".to_owned(),
                charge: None,
            },
        ),
    }
}

fn plan_raw(config: &PolicyConfig, leaf: &str, payload: &[u8]) -> (plan: Result<Plan, String>)
    ensures
        plan_view(plan) == plan_of(config@, IntentView::Raw(leaf@), payload@),
        speed_is_text(plan),
{
    if !is_safe_segment(&chars_of(leaf)) {
        return Err("raw topic must be one safe segment".to_owned());
    }
    if same_text(leaf, "local_position_command") {
        return match open_envelope(payload, &raw_kind_bytes()) {
            None => Err("raw velocity command requires a team credential envelope".to_owned()),
            Some(envelope) => {
                if envelope.inner.len() > config.raw_max_bytes {
                    return Err("raw payload is too large".to_owned());
                }
                let charge = Charge { team: envelope.name, update: Update::Consume(None) };
                Ok(publish(config, leaf, envelope.inner, "velocity", Some(charge)))
            },
        };
    }
    if payload.len() > config.raw_max_bytes {
        return Err("raw payload is too large".to_owned());
    }
    Ok(publish(config, leaf, slice_to_vec(payload), "command", None))
}

/// The update id in a firmware step, where it is a staged step.
fn update_id_of(step: &str) -> (id: Option<String>)
    ensures
        text_view(id) == firmware_update_id(step@),
{
    let parts = split(&chars_of(step), '/');
    let ghost all = pieces(step@, '/');
    assert(all.len() == parts@.len());
    let count: usize = parts.len();
    if count != 2 && count != 3 {
        return None;
    }
    assert(all[0] == parts@[0]@);
    assert(all[1] == parts@[1]@);
    if !is_safe_segment(&parts[0]) {
        return None;
    }
    let verb = text_of(&parts[1]);
    let staged = if count == 2 {
        same_text(verb.as_str(), "start") || same_text(verb.as_str(), "commit")
    } else {
        assert(all[2] == parts@[2]@);
        same_text(verb.as_str(), "chunk") && is_index(&parts[2])
    };
    if staged {
        Some(text_of(&parts[0]))
    } else {
        None
    }
}

fn is_index(chars: &Vec<char>) -> (yes: bool)
    ensures
        yes == (0 < chars@.len() <= 10 && digits(chars@)),
{
    if chars.len() == 0 || chars.len() > 10 {
        return false;
    }
    for i in 0..chars.len()
        invariant
            forall|j: int| 0 <= j < i ==> digit(#[trigger] chars@[j]),
    {
        if !is_digit(chars[i]) {
            assert(!digit(chars@[i as int]));
            return false;
        }
    }
    true
}

fn plan_firmware(config: &PolicyConfig, step: &str, payload: &[u8]) -> (plan: Result<Plan, String>)
    ensures
        plan_view(plan) == plan_of(config@, IntentView::Firmware(step@), payload@),
        speed_is_text(plan),
{
    match update_id_of(step) {
        None => Err("firmware intent is not a staged update step".to_owned()),
        Some(id) => {
            if payload.len() > FIRMWARE_MAX_BYTES {
                return Err("firmware payload is too large".to_owned());
            }
            Ok(
                Plan {
                    delivery: Delivery::Firmware,
                    target: step.to_owned(),
                    payload: slice_to_vec(payload),
                    status_leaf: concat("firmware/", id.as_str()),
                    charge: None,
                },
            )
        },
    }
}

fn plan(config: &PolicyConfig, intent: &Intent, payload: &[u8]) -> (plan: Result<Plan, String>)
    ensures
        plan_view(plan) == plan_of(config@, intent@, payload@),
        speed_is_text(plan),
{
    match intent {
        Intent::Velocity => plan_velocity(config, payload),
        Intent::VelocityBudget => plan_velocity_budget(config, payload),
        Intent::Manual => {
            if is_manual_command(payload) {
                let bytes = slice_to_vec(payload);
                Ok(publish(config, "manual_control_command", bytes, "manual", None))
            } else {
                Err("manual control command is invalid".to_owned())
            }
        },
        Intent::Radio => {
            if is_radio_command(payload) {
                Ok(publish(config, "radio_control", slice_to_vec(payload), "radio", None))
            } else {
                Err("radio control command is invalid".to_owned())
            }
        },
        Intent::Gain => plan_gain(config, payload),
        Intent::Raw(leaf) => plan_raw(config, leaf.as_str(), payload),
        Intent::Firmware(step) => plan_firmware(config, step.as_str(), payload),
        Intent::Unknown => Err("intent is not mapped".to_owned()),
    }
}

/// The explicit mappings from browser intents to vehicle commands.
#[derive(Debug)]
pub struct CommandPolicy {
    config: PolicyConfig,
    store: VelocityBudgetStore,
}

impl CommandPolicy {
    #[verifier::type_invariant]
    spec fn store_fits_config(self) -> bool {
        &&& self.store.limit() == clamped_limit(self.config.velocity_budget)
        &&& self.store.csv_path() == self.config.velocity_budget_csv@
        &&& self.store.json_path() == self.config.velocity_budget_json@
    }

    /// What the policy is configured with.
    pub closed spec fn config(self) -> PolicyConfigView {
        self.config@
    }

    /// The policy with the given configuration.
    pub fn new(config: PolicyConfig) -> (policy: Self)
        ensures
            policy.config() == config@,
    {
        let store = VelocityBudgetStore::new(
            config.velocity_budget_json.clone(),
            config.velocity_budget_csv.clone(),
            config.velocity_budget,
        );
        CommandPolicy { config, store }
    }

    /// Where the budget files are kept: the CSV and its mirror.
    pub fn budget_paths(&self) -> (paths: (String, String))
        ensures
            paths.0@ == self.config().velocity_budget_csv,
            paths.1@ == self.config().velocity_budget_json,
    {
        proof {
            use_type_invariant(self);
        }
        self.store.paths()
    }

    /// What a budget update by the team called `name` comes to.
    fn team_update(
        &self,
        files: &BudgetFiles,
        since_epoch: Option<u128>,
        name: &str,
        update: Update,
    ) -> (outcome: Result<BudgetUpdate, String>)
        requires
            update matches Update::Consume(Some(speed)) ==> speed_text(speed@),
        ensures
            outcome_view(outcome) == team_outcome(
                self.config(),
                files@,
                name@,
                update@,
                clock(since_epoch),
            ),
    {
        proof {
            use_type_invariant(self);
        }
        match self.store.resolve(name) {
            Ok(credential) => self.store.update(files, &credential, update, since_epoch),
            Err(message) => Err(message),
        }
    }

    /// Maps an intent to the command that may be delivered, against the
    /// budget files as they stand. Rows that come back have to be saved
    /// before the command is delivered.
    pub fn authorize(
        &self,
        files: &BudgetFiles,
        since_epoch: Option<u128>,
        intent_key: &str,
        payload: &[u8],
    ) -> (authorization: Result<Authorization, PolicyError>)
        ensures
            authorization_view(authorization) == authorization_of(
                self.config(),
                files@,
                clock(since_epoch),
                intent_key@,
                payload@,
            ),
            speed_is_number(self.config(), intent_key@, payload@),
    {
        let intent = classify(self.config.intent_prefix.as_str(), intent_key);
        let plan = match plan(&self.config, &intent, payload) {
            Ok(plan) => plan,
            Err(message) => {
                return Err(PolicyError { message });
            },
        };
        match plan.charge {
            None => Ok(
                Authorization {
                    command: AuthorizedCommand {
                        delivery: plan.delivery,
                        target: plan.target,
                        payload: plan.payload,
                        status_leaf: plan.status_leaf,
                        velocity_device: None,
                        velocity_credential_id: None,
                        velocity_limit: None,
                        velocity_used: None,
                        velocity_remaining: None,
                        velocity_budget_version: None,
                    },
                    saved: None,
                },
            ),
            Some(charge) => match self.team_update(
                files,
                since_epoch,
                charge.team.as_str(),
                charge.update,
            ) {
                Err(message) => Err(PolicyError { message }),
                Ok(outcome) => Ok(
                    Authorization {
                        command: AuthorizedCommand {
                            delivery: plan.delivery,
                            target: plan.target,
                            payload: plan.payload,
                            status_leaf: plan.status_leaf,
                            velocity_device: Some(outcome.state.device_id),
                            velocity_credential_id: Some(outcome.state.credential_id),
                            velocity_limit: Some(outcome.state.limit),
                            velocity_used: Some(outcome.state.used),
                            velocity_remaining: Some(outcome.state.remaining),
                            velocity_budget_version: Some(outcome.state.budget_version),
                        },
                        saved: outcome.saved,
                    },
                ),
            },
        }
    }

    /// Gives a command back to the budget that it was charged to.
    pub fn refund_velocity(
        &self,
        files: &BudgetFiles,
        since_epoch: Option<u128>,
        device: &str,
        credential_id: &str,
    ) -> (outcome: Result<BudgetUpdate, String>)
        ensures
            outcome_view(outcome) == refund_of(
                self.config(),
                files@,
                (CredentialView { device_id: device@, credential_id: credential_id@ }),
                clock(since_epoch),
            ),
    {
        proof {
            use_type_invariant(self);
        }
        let credential = Credential {
            device_id: device.to_owned(),
            credential_id: credential_id.to_owned(),
        };
        self.store.refund(files, &credential, since_epoch)
    }

    /// The budget of the team that `payload` names.
    pub fn velocity_state_for_payload(
        &self,
        files: &BudgetFiles,
        since_epoch: Option<u128>,
        payload: &[u8],
    ) -> (outcome: Result<BudgetUpdate, String>)
        ensures
            outcome_view(outcome) == (match opened_any(payload@) {
                None => Err("payload carries no team credential envelope"@),
                Some(envelope) => team_outcome(
                    self.config(),
                    files@,
                    envelope.name,
                    UpdateView::Read,
                    clock(since_epoch),
                ),
            }),
    {
        match open_any(payload) {
            None => Err("payload carries no team credential envelope".to_owned()),
            Some(envelope) => self.team_update(
                files,
                since_epoch,
                envelope.name.as_str(),
                Update::Read,
            ),
        }
    }

    /// The credential id of the team that `payload` names, where it names one.
    pub fn credential_id_for_payload(payload: &[u8]) -> (id: Option<String>)
        ensures
            text_view(id) == (match opened_any(payload@) {
                Some(envelope) => if safe_id(envelope.name) {
                    Some(id_of_name(envelope.name))
                } else {
                    None
                },
                None => None,
            }),
    {
        match open_any(payload) {
            None => None,
            Some(envelope) => {
                if safe_device_id(envelope.name.as_str()) {
                    Some(credential_id(envelope.name.as_str()))
                } else {
                    None
                }
            },
        }
    }
}

} // verus!
