//! What the runtime does next.
//!
//! The sessions, the worker, the files and the clock belong to the caller, who
//! performs each step and hands back what came of it.

use vstd::prelude::*;
use vstd::slice::slice_to_vec;

use crate::credential::{id_of_name, safe_id};
use crate::ledger::{text_view, BudgetDatabase, RecordView};
use crate::policy::{
    classify, intent_of, opened_any, slash_ended, team_outcome, with_slash, AuthorizedCommand,
    CommandPolicy, CommandView, Delivery, Intent, IntentView, PolicyConfigView,
};
use crate::runtime::{AuthorityConfigView, CommandAuthorityConfig, PRIVATE_MOCAP_TOPIC};
use crate::status::{
    fields_of_command, fields_of_state, parameter_reply_status, publication_views, publish_status,
    publish_unknown_velocity_status, publish_velocity_command_status, publish_velocity_status,
    reply_status_of, status_of, status_prefix, status_prefix_of, unknown_fields,
    velocity_status_of, Publication, PublicationView,
};
use crate::text::{chars_of, concat, pieces, pieces_never_empty, same_text, split, text_of, views};
use crate::velocity_budget::{
    clock, BudgetFiles, BudgetState, BudgetUpdateView, FilesView, StateView, UpdateView,
};
use crate::wire::{is_mocap_frame, mocap_frame, param_set_reply};

verus! {

/// The key expression of all intents.
pub open spec fn intent_subscription_of(intent_prefix: Seq<char>) -> Seq<char> {
    with_slash(intent_prefix) + "**"@
}

/// The key expression of all intents.
pub fn intent_subscription(config: &CommandAuthorityConfig) -> (key: String)
    ensures
        key@ == intent_subscription_of(config@.policy.intent_prefix),
{
    let mut key = slash_ended(config.policy.intent_prefix.as_str());
    key.append("**");
    key
}

/// What is done with an accepted command.
#[derive(Debug, PartialEq, Eq)]
pub enum IntentStep {
    /// Publish it to the vehicle.
    Publish,
    /// Answer with this status.
    Answer(Publication),
    /// Hand it to the query worker.
    Enqueue,
}

/// The value of an [`IntentStep`].
pub enum IntentStepView {
    Publish,
    Answer(PublicationView),
    Enqueue,
}

impl View for IntentStep {
    type V = IntentStepView;

    open spec fn view(&self) -> IntentStepView {
        match self {
            IntentStep::Publish => IntentStepView::Publish,
            IntentStep::Answer(publication) => IntentStepView::Answer(publication@),
            IntentStep::Enqueue => IntentStepView::Enqueue,
        }
    }
}

/// What is done with an accepted command: published commands go out at once,
/// budget requests are answered, everything else waits for the worker.
pub open spec fn intent_step_of(config: AuthorityConfigView, command: CommandView) -> IntentStepView {
    match command.delivery {
        Delivery::Publish => IntentStepView::Publish,
        Delivery::Budget => IntentStepView::Answer(
            velocity_status_of(
                config,
                "state"@,
                fields_of_command(config, command),
                "authoritative velocity budget"@,
            ),
        ),
        _ => IntentStepView::Enqueue,
    }
}

/// What is done with an accepted command.
pub fn route_command(config: &CommandAuthorityConfig, command: &AuthorizedCommand) -> (step:
    IntentStep)
    ensures
        step@ == intent_step_of(config@, command@),
{
    match command.delivery {
        Delivery::Publish => IntentStep::Publish,
        Delivery::Budget => IntentStep::Answer(
            publish_velocity_command_status(
                config,
                "state",
                command,
                "authoritative velocity budget",
            ),
        ),
        _ => IntentStep::Enqueue,
    }
}

/// What the query worker does with a command.
#[derive(Clone, Copy, Debug, PartialEq, Eq, Structural)]
pub enum WorkerTask {
    Query,
    Firmware,
    /// Not a command for the worker.
    Drop,
}

/// What the query worker does with a command.
pub open spec fn worker_task_of(delivery: Delivery) -> WorkerTask {
    match delivery {
        Delivery::Query => WorkerTask::Query,
        Delivery::Firmware => WorkerTask::Firmware,
        _ => WorkerTask::Drop,
    }
}

/// What the query worker does with a command.
pub fn worker_task(delivery: Delivery) -> (task: WorkerTask)
    ensures
        task == worker_task_of(delivery),
{
    match delivery {
        Delivery::Query => WorkerTask::Query,
        Delivery::Firmware => WorkerTask::Firmware,
        _ => WorkerTask::Drop,
    }
}

/// Which kind of intent a refusal answers.
#[derive(Debug, PartialEq, Eq)]
pub enum RefusedIntent {
    /// An intent on the velocity budget.
    Velocity,
    Gain,
    /// A firmware step; what stands for the update id in its key.
    Firmware(String),
    Other,
}

/// The value of a [`RefusedIntent`].
pub enum RefusedIntentView {
    Velocity,
    Gain,
    Firmware(Seq<char>),
    Other,
}

impl View for RefusedIntent {
    type V = RefusedIntentView;

    open spec fn view(&self) -> RefusedIntentView {
        match self {
            RefusedIntent::Velocity => RefusedIntentView::Velocity,
            RefusedIntent::Gain => RefusedIntentView::Gain,
            RefusedIntent::Firmware(id) => RefusedIntentView::Firmware(id@),
            RefusedIntent::Other => RefusedIntentView::Other,
        }
    }
}

/// Which kind of intent a refusal answers.
pub open spec fn refused_intent_of(intent: IntentView) -> RefusedIntentView {
    match intent {
        IntentView::Velocity | IntentView::VelocityBudget => RefusedIntentView::Velocity,
        IntentView::Raw(leaf) => if leaf == "local_position_command"@ {
            RefusedIntentView::Velocity
        } else {
            RefusedIntentView::Other
        },
        IntentView::Gain => RefusedIntentView::Gain,
        IntentView::Firmware(step) => RefusedIntentView::Firmware(pieces(step, '/')[0]),
        _ => RefusedIntentView::Other,
    }
}

/// Which kind of intent a refusal of `intent_key` answers.
pub fn refused_intent(config: &CommandAuthorityConfig, intent_key: &str) -> (refused: RefusedIntent)
    ensures
        refused@ == refused_intent_of(intent_of(config@.policy.intent_prefix, intent_key@)),
{
    match classify(config.policy.intent_prefix.as_str(), intent_key) {
        Intent::Velocity => RefusedIntent::Velocity,
        Intent::VelocityBudget => RefusedIntent::Velocity,
        Intent::Raw(leaf) => {
            if same_text(leaf.as_str(), "local_position_command") {
                RefusedIntent::Velocity
            } else {
                RefusedIntent::Other
            }
        },
        Intent::Gain => RefusedIntent::Gain,
        Intent::Firmware(step) => {
            let parts = split(&chars_of(step.as_str()), '/');
            proof {
                pieces_never_empty(step@, '/');
                assert(views(parts@).len() == parts@.len());
                assert(views(parts@)[0] == parts@[0]@);
            }
            RefusedIntent::Firmware(text_of(&parts[0]))
        },
        _ => RefusedIntent::Other,
    }
}

/// The value of the state of a budget, where it is known.
pub open spec fn known_view(state: Option<BudgetState>) -> Option<StateView> {
    match state {
        Some(state) => Some(state@),
        None => None,
    }
}

/// What answers a refused intent. A refused velocity intent reports the
/// budget where it is known.
pub open spec fn refusal_report_of(
    config: AuthorityConfigView,
    refused: RefusedIntentView,
    state: Option<StateView>,
    credential_id: Option<Seq<char>>,
    message: Seq<char>,
) -> PublicationView {
    match refused {
        RefusedIntentView::Velocity => velocity_status_of(
            config,
            "rejected"@,
            match state {
                Some(state) => fields_of_state(state),
                None => unknown_fields(config, credential_id),
            },
            message,
        ),
        RefusedIntentView::Gain => status_of(config, "gain"@, "rejected"@, message),
        _ => status_of(config, "command"@, "rejected"@, message),
    }
}

/// What answers a refused intent.
pub fn refusal_report(
    config: &CommandAuthorityConfig,
    refused: &RefusedIntent,
    state: &Option<BudgetState>,
    credential_id: &Option<String>,
    message: &str,
) -> (publication: Publication)
    ensures
        publication@ == refusal_report_of(
            config@,
            refused@,
            known_view(*state),
            text_view(*credential_id),
            message@,
        ),
{
    match refused {
        RefusedIntent::Velocity => match state {
            Some(state) => publish_velocity_status(config, "rejected", state, message),
            None => publish_unknown_velocity_status(config, credential_id, message),
        },
        RefusedIntent::Gain => publish_status(config, "gain", "rejected", message),
        _ => publish_status(config, "command", "rejected", message),
    }
}

/// How a refused intent is answered.
#[derive(Debug, PartialEq, Eq)]
pub struct Refusal {
    /// The update that a refused firmware step belongs to. Where its own
    /// status can carry the refusal, that takes the place of `report`.
    pub firmware_update: Option<String>,
    /// The budget rows to save before `report` is published.
    pub saved: Option<BudgetDatabase>,
    pub report: Publication,
    /// What is published in place of `report` where the rows cannot be saved.
    pub unsaved_report: Publication,
}

/// The value of a [`Refusal`].
pub struct RefusalView {
    pub firmware_update: Option<Seq<char>>,
    pub saved: Option<Seq<RecordView>>,
    pub report: PublicationView,
    pub unsaved_report: PublicationView,
}

impl View for Refusal {
    type V = RefusalView;

    open spec fn view(&self) -> RefusalView {
        RefusalView {
            firmware_update: text_view(self.firmware_update),
            saved: match self.saved {
                Some(database) => Some(database@),
                None => None,
            },
            report: self.report@,
            unsaved_report: self.unsaved_report@,
        }
    }
}

/// What reading the budget of the team that `payload` names comes to, where
/// it can be read.
pub open spec fn reading_of(
    policy: PolicyConfigView,
    files: FilesView,
    now: nat,
    payload: Seq<u8>,
) -> Option<BudgetUpdateView> {
    match opened_any(payload) {
        None => None,
        Some(envelope) => match team_outcome(policy, files, envelope.name, UpdateView::Read, now) {
            Ok(outcome) => Some(outcome),
            Err(_) => None,
        },
    }
}

/// The credential id of the team that `payload` names, where it names one.
pub open spec fn credential_in(payload: Seq<u8>) -> Option<Seq<char>> {
    match opened_any(payload) {
        Some(envelope) => if safe_id(envelope.name) {
            Some(id_of_name(envelope.name))
        } else {
            None
        },
        None => None,
    }
}

/// How a refused intent is answered: one on the velocity budget with the
/// budget as it stands, read afresh; one whose budget cannot be read, or
/// cannot be saved again, as if nothing were left.
pub open spec fn refusal_of(
    config: AuthorityConfigView,
    policy: PolicyConfigView,
    files: FilesView,
    now: nat,
    intent_key: Seq<char>,
    payload: Seq<u8>,
    message: Seq<char>,
) -> RefusalView {
    let refused = refused_intent_of(intent_of(config.policy.intent_prefix, intent_key));
    let reading = if refused is Velocity {
        reading_of(policy, files, now, payload)
    } else {
        None
    };
    RefusalView {
        firmware_update: match refused {
            RefusedIntentView::Firmware(id) => Some(id),
            _ => None,
        },
        saved: match reading {
            Some(outcome) => outcome.saved,
            None => None,
        },
        report: refusal_report_of(
            config,
            refused,
            match reading {
                Some(outcome) => Some(outcome.state),
                None => None,
            },
            credential_in(payload),
            message,
        ),
        unsaved_report: refusal_report_of(config, refused, None, credential_in(payload), message),
    }
}

/// How the intent that `policy` refused with `message` is answered, against
/// the budget files as they stand.
pub fn publish_policy_error(
    config: &CommandAuthorityConfig,
    policy: &CommandPolicy,
    files: &BudgetFiles,
    since_epoch: Option<u128>,
    intent_key: &str,
    payload: &[u8],
    message: &str,
) -> (refusal: Refusal)
    ensures
        refusal@ == refusal_of(
            config@,
            policy.config(),
            files@,
            clock(since_epoch),
            intent_key@,
            payload@,
            message@,
        ),
{
    let refused = refused_intent(config, intent_key);
    let credential_id = CommandPolicy::credential_id_for_payload(payload);
    let mut state: Option<BudgetState> = None;
    let mut saved: Option<BudgetDatabase> = None;
    if let RefusedIntent::Velocity = refused {
        match policy.velocity_state_for_payload(files, since_epoch, payload) {
            Ok(outcome) => {
                state = Some(outcome.state);
                saved = outcome.saved;
            },
            Err(_) => {},
        }
    }
    let report = refusal_report(config, &refused, &state, &credential_id, message);
    let unsaved_report = refusal_report(config, &refused, &None, &credential_id, message);
    let firmware_update = match refused {
        RefusedIntent::Firmware(id) => Some(id),
        _ => None,
    };
    Refusal { firmware_update, saved, report, unsaved_report }
}

/// What follows an attempt to publish a command to the vehicle.
#[derive(Debug, PartialEq, Eq)]
pub enum PublishStep {
    /// Give the command back to this device's budget, then report.
    Refund { device: String, credential_id: String },
    /// Report.
    Report(Publication),
}

/// The value of a [`PublishStep`].
pub enum PublishStepView {
    Refund { device: Seq<char>, credential_id: Seq<char> },
    Report(PublicationView),
}

impl View for PublishStep {
    type V = PublishStepView;

    open spec fn view(&self) -> PublishStepView {
        match self {
            PublishStep::Refund { device, credential_id } => PublishStepView::Refund {
                device: device@,
                credential_id: credential_id@,
            },
            PublishStep::Report(publication) => PublishStepView::Report(publication@),
        }
    }
}

/// What follows an attempt to publish a command: success is reported, with
/// the budget where one was charged; a failure of a charged command is
/// refunded; any other failure is reported.
pub open spec fn publish_step_of(
    config: AuthorityConfigView,
    command: CommandView,
    failure: Option<Seq<char>>,
) -> PublishStepView {
    match failure {
        Some(error) => if command.velocity_device is Some && command.velocity_credential_id is Some {
            PublishStepView::Refund {
                device: command.velocity_device->0,
                credential_id: command.velocity_credential_id->0,
            }
        } else {
            PublishStepView::Report(status_of(config, command.status_leaf, "failed"@, error))
        },
        None => if command.velocity_remaining is Some {
            PublishStepView::Report(
                velocity_status_of(
                    config,
                    "accepted"@,
                    fields_of_command(config, command),
                    "command forwarded to the vehicle session"@,
                ),
            )
        } else {
            PublishStepView::Report(
                status_of(
                    config,
                    command.status_leaf,
                    "accepted"@,
                    "command forwarded to the vehicle session"@,
                ),
            )
        },
    }
}

/// What follows an attempt to publish a command to the vehicle, which failed
/// with `failure` where that is given.
pub fn execute_publish(
    config: &CommandAuthorityConfig,
    command: &AuthorizedCommand,
    failure: &Option<String>,
) -> (step: PublishStep)
    ensures
        step@ == publish_step_of(config@, command@, text_view(*failure)),
{
    match failure {
        Some(error) => {
            if let Some(device) = &command.velocity_device {
                if let Some(credential_id) = &command.velocity_credential_id {
                    return PublishStep::Refund {
                        device: device.clone(),
                        credential_id: credential_id.clone(),
                    };
                }
            }
            PublishStep::Report(
                publish_status(config, command.status_leaf.as_str(), "failed", error.as_str()),
            )
        },
        None => {
            let message = "command forwarded to the vehicle session";
            if command.velocity_remaining.is_some() {
                PublishStep::Report(
                    publish_velocity_command_status(config, "accepted", command, message),
                )
            } else {
                PublishStep::Report(
                    publish_status(config, command.status_leaf.as_str(), "accepted", message),
                )
            }
        },
    }
}

/// What is reported once a failed command has been refunded, or could not be.
pub open spec fn refund_report_of(
    config: AuthorityConfigView,
    command: CommandView,
    failure: Seq<char>,
    refund: Result<StateView, Seq<char>>,
) -> PublicationView {
    match refund {
        Ok(state) => velocity_status_of(config, "failed"@, fields_of_state(state), failure),
        Err(error) => velocity_status_of(
            config,
            "failed"@,
            fields_of_command(config, command),
            failure + "; velocity budget refund failed: "@ + error,
        ),
    }
}

/// The value of a refund.
pub open spec fn refund_view(refund: Result<BudgetState, String>) -> Result<StateView, Seq<char>> {
    match refund {
        Ok(state) => Ok(state@),
        Err(message) => Err(message@),
    }
}

/// What is reported once a failed command has been refunded, or could not be.
pub fn report_refund(
    config: &CommandAuthorityConfig,
    command: &AuthorizedCommand,
    failure: &str,
    refund: &Result<BudgetState, String>,
) -> (publication: Publication)
    ensures
        publication@ == refund_report_of(config@, command@, failure@, refund_view(*refund)),
{
    match refund {
        Ok(state) => publish_velocity_status(config, "failed", state, failure),
        Err(error) => {
            let mut message = concat(failure, "; velocity budget refund failed: ");
            message.append(error.as_str());
            publish_velocity_command_status(config, "failed", command, message.as_str())
        },
    }
}

/// What became of the attempt to queue a command.
#[derive(Clone, Copy, Debug, PartialEq, Eq, Structural)]
pub enum QueueOutcome {
    Queued,
    Full,
    Disconnected,
}

/// What is reported of the attempt to queue a command.
pub open spec fn queue_report_of(
    config: AuthorityConfigView,
    status_leaf: Seq<char>,
    outcome: QueueOutcome,
) -> Option<PublicationView> {
    match outcome {
        QueueOutcome::Queued => None,
        QueueOutcome::Full => Some(
            status_of(config, status_leaf, "rejected"@, "command query queue is full"@),
        ),
        QueueOutcome::Disconnected => Some(
            status_of(config, status_leaf, "rejected"@, "command query worker is unavailable"@),
        ),
    }
}

/// The value of an optional publication.
pub open spec fn report_view(report: Option<Publication>) -> Option<PublicationView> {
    match report {
        Some(publication) => Some(publication@),
        None => None,
    }
}

/// What is reported of the attempt to queue a command: nothing where it
/// waits, else why it is refused.
pub fn enqueue_query(
    config: &CommandAuthorityConfig,
    status_leaf: &str,
    outcome: QueueOutcome,
) -> (report: Option<Publication>)
    ensures
        report_view(report) == queue_report_of(config@, status_leaf@, outcome),
{
    match outcome {
        QueueOutcome::Queued => None,
        QueueOutcome::Full => Some(
            publish_status(config, status_leaf, "rejected", "command query queue is full"),
        ),
        QueueOutcome::Disconnected => Some(
            publish_status(config, status_leaf, "rejected", "command query worker is unavailable"),
        ),
    }
}

/// What came back from a query to the vehicle.
#[derive(Debug, PartialEq, Eq)]
pub enum QueryReply {
    /// The bytes of a reply.
    Sample(Vec<u8>),
    /// The query ended without a reply.
    Nothing,
    /// The query, its reply or the wait for it failed.
    Failed(String),
}

/// The value of a [`QueryReply`].
pub enum QueryReplyView {
    Sample(Seq<u8>),
    Nothing,
    Failed(Seq<char>),
}

impl View for QueryReply {
    type V = QueryReplyView;

    open spec fn view(&self) -> QueryReplyView {
        match self {
            QueryReply::Sample(bytes) => QueryReplyView::Sample(bytes@),
            QueryReply::Nothing => QueryReplyView::Nothing,
            QueryReply::Failed(message) => QueryReplyView::Failed(message@),
        }
    }
}

/// What is published of a query: the bytes of a reply as they are, then the
/// status that they stand for; or why there is no reply.
pub open spec fn query_reports_of(
    config: AuthorityConfigView,
    status_leaf: Seq<char>,
    reply: QueryReplyView,
) -> Seq<PublicationView> {
    match reply {
        QueryReplyView::Sample(bytes) => seq![
            PublicationView {
                key: status_prefix_of(config.policy.intent_prefix) + "/reply/"@ + status_leaf,
                payload: bytes,
            },
            match reply_status_of(param_set_reply(bytes)) {
                Ok((status, message)) => status_of(config, status_leaf, status, message),
                Err(message) => status_of(config, status_leaf, "rejected"@, message),
            },
        ],
        QueryReplyView::Nothing => seq![
            status_of(config, status_leaf, "rejected"@, "target service returned no reply"@),
        ],
        QueryReplyView::Failed(message) => seq![
            status_of(config, status_leaf, "rejected"@, message),
        ],
    }
}

/// What is published of a query, in order.
pub fn execute_query(
    config: &CommandAuthorityConfig,
    command: &AuthorizedCommand,
    reply: &QueryReply,
) -> (reports: Vec<Publication>)
    ensures
        publication_views(reports@) == query_reports_of(config@, command@.status_leaf, reply@),
{
    let leaf = command.status_leaf.as_str();
    let mut reports: Vec<Publication> = Vec::new();
    match reply {
        QueryReply::Sample(bytes) => {
            let mut key = status_prefix(config.policy.intent_prefix.as_str());
            key.append("/reply/");
            key.append(leaf);
            reports.push(Publication { key, payload: slice_to_vec(bytes.as_slice()) });
            match parameter_reply_status(bytes.as_slice()) {
                Ok((status, message)) => {
                    reports.push(publish_status(config, leaf, status, message.as_str()));
                },
                Err(message) => {
                    reports.push(publish_status(config, leaf, "rejected", message.as_str()));
                },
            }
        },
        QueryReply::Nothing => {
            reports.push(
                publish_status(config, leaf, "rejected", "target service returned no reply"),
            );
        },
        QueryReply::Failed(message) => {
            reports.push(publish_status(config, leaf, "rejected", message.as_str()));
        },
    }
    assert(publication_views(reports@) =~= query_reports_of(
        config@,
        command@.status_leaf,
        reply@,
    ));
    reports
}

/// What is relayed of bytes that came in on the private motion-capture topic:
/// a valid frame goes on unchanged under the same key, anything else is
/// dropped.
pub open spec fn relayed_of(payload: Seq<u8>) -> Option<PublicationView> {
    if mocap_frame(payload) {
        Some(PublicationView { key: PRIVATE_MOCAP_TOPIC@, payload })
    } else {
        None
    }
}

/// What is relayed of bytes that came in on the private motion-capture topic.
pub fn relay_verified_mocap(payload: &[u8]) -> (relayed: Option<Publication>)
    ensures
        report_view(relayed) == relayed_of(payload@),
{
    if is_mocap_frame(payload) {
        Some(
            Publication { key: PRIVATE_MOCAP_TOPIC.to_owned(), payload: slice_to_vec(payload) },
        )
    } else {
        None
    }
}

} // verus!
