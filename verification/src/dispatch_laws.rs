//! What holds of everything that the runtime does.

use vstd::prelude::*;

use crate::budget_laws::{
    a_refund_fails_only_at_the_last_version, files_hold_readable_rows, one_request_counts_right,
    reports_are_kept, used_and_remaining_add_up, used_by, versions_grow, Request,
};
use crate::course_laws::{
    a_command_registers, calls_are_kept, files_after_call, files_with, held,
};
use crate::credential::id_of_name;
use crate::dispatch::{
    credential_in, intent_step_of, publish_step_of, query_reports_of, reading_of, refusal_of,
    worker_task_of, PublishStepView, QueryReplyView, WorkerTask,
};
use crate::number::unsigned;
use crate::policy::{
    authorization_of, credential_of, intent_of, plan_of, refund_of, speed_is_number, CommandView,
    Delivery, PolicyConfigView,
};
use crate::policy_laws::{
    published_velocity_commands_are_counted,
    the_velocity_topic_is_always_charged, velocity_topic,
};
use crate::runtime::{session_settings_of, AuthorityConfigView};
use crate::status::{
    fields_of_command, fields_of_state, json_bytes, reply_status_of, status_of, status_prefix_of,
    text_or_null, unknown_fields, velocity_key, velocity_status_of, PublicationView,
    VelocityFieldsView,
};
use crate::velocity_budget::{clamped_limit, rows_of, FilesView, UpdateView};
use crate::wire::{param_set_reply, ScalarView};

verus! {

/// A session is a peer that makes no search for others: multicast discovery
/// is switched off in its last setting, and no other setting touches it.
pub proof fn sessions_never_look_for_others(listen: Seq<char>, connect: Option<Seq<char>>)
    ensures
        ({
            let settings = session_settings_of(listen, connect);
            &&& settings.len() >= 2
            &&& settings[0] == ("mode"@, "\"peer\""@)
            &&& settings.last() == ("scouting/multicast/enabled"@, "false"@)
            &&& forall|i: int|
                0 <= i < settings.len() - 1 ==> (#[trigger] settings[i]).0
                    != "scouting/multicast/enabled"@
        }),
{
    reveal_strlit("mode");
    reveal_strlit("listen/endpoints");
    reveal_strlit("connect/endpoints");
    reveal_strlit("scouting/multicast/enabled");
    assert("scouting/multicast/enabled"@.len() == 26);
}

/// Two credentials have different velocity status keys, and neither has the
/// key of those without a credential: no team sees the status of another.
pub proof fn velocity_statuses_are_scoped(
    config: AuthorityConfigView,
    a: Seq<char>,
    b: Option<Seq<char>>,
)
    ensures
        velocity_key(config, Some(a)) == velocity_key(config, b) ==> b == Some(a),
{
    let stem = status_prefix_of(config.policy.intent_prefix) + "/status/velocity"@;
    reveal_strlit("/");
    if velocity_key(config, Some(a)) == velocity_key(config, b) {
        match b {
            Some(other) => {
                assert((stem + ("/"@ + a)).skip((stem.len() + 1) as int) =~= a);
                assert((stem + ("/"@ + other)).skip((stem.len() + 1) as int) =~= other);
            },
            None => {
                assert((stem + ("/"@ + a)).len() == stem.len() + 1 + a.len());
            },
        }
    }
}

/// Whether a publication is a JSON status that opens with `status` and
/// `message`.
pub open spec fn reports(publication: PublicationView, status: Seq<char>, message: Seq<char>) -> bool {
    exists|members: Seq<(Seq<char>, ScalarView)>|
        publication.payload == #[trigger] json_bytes(members) && members.len() >= 2 && members[0]
            == ("status"@, ScalarView::Text(status)) && members[1] == (
            "message"@,
            ScalarView::Text(message),
        )
}

/// Whether a publication stands under the status keys.
pub open spec fn under_status(config: AuthorityConfigView, publication: PublicationView) -> bool {
    (status_prefix_of(config.policy.intent_prefix) + "/status/"@).is_prefix_of(publication.key)
}

proof fn status_reports(
    config: AuthorityConfigView,
    leaf: Seq<char>,
    status: Seq<char>,
    message: Seq<char>,
)
    ensures
        reports(status_of(config, leaf, status, message), status, message),
        under_status(config, status_of(config, leaf, status, message)),
{
    let publication = status_of(config, leaf, status, message);
    let members = seq![
        ("status"@, ScalarView::Text(status)),
        ("message"@, ScalarView::Text(message)),
    ];
    assert(publication.payload == json_bytes(members));
    let lead = status_prefix_of(config.policy.intent_prefix) + "/status/"@;
    assert(publication.key.take(lead.len() as int) =~= lead);
}

proof fn velocity_status_reports(
    config: AuthorityConfigView,
    status: Seq<char>,
    fields: VelocityFieldsView,
    message: Seq<char>,
)
    ensures
        reports(velocity_status_of(config, status, fields, message), status, message),
        under_status(config, velocity_status_of(config, status, fields, message)),
{
    let publication = velocity_status_of(config, status, fields, message);
    let members = seq![
        ("status"@, ScalarView::Text(status)),
        ("message"@, ScalarView::Text(message)),
        ("deviceId"@, text_or_null(fields.device_id)),
        ("credentialId"@, text_or_null(fields.credential_id)),
        ("limit"@, ScalarView::Number(fields.limit)),
        ("used"@, ScalarView::Number(fields.used)),
        ("remaining"@, ScalarView::Number(fields.remaining)),
        ("budgetVersion"@, text_or_null(fields.budget_version)),
    ];
    assert(publication.payload == json_bytes(members));
    let lead = status_prefix_of(config.policy.intent_prefix) + "/status/"@;
    reveal_strlit("/status/");
    reveal_strlit("/status/velocity");
    assert(publication.key.take(lead.len() as int) =~= lead);
}

/// Every refused intent is answered with why it was refused: under the status
/// keys, as rejected, with the message of the refusal, whether or not the
/// budget can be read and saved.
pub proof fn refused_intents_are_answered(
    config: AuthorityConfigView,
    policy: PolicyConfigView,
    files: FilesView,
    now: nat,
    key: Seq<char>,
    payload: Seq<u8>,
    message: Seq<char>,
)
    ensures
        ({
            let refusal = refusal_of(config, policy, files, now, key, payload, message);
            &&& under_status(config, refusal.report)
            &&& reports(refusal.report, "rejected"@, message)
            &&& under_status(config, refusal.unsaved_report)
            &&& reports(refusal.unsaved_report, "rejected"@, message)
        }),
{
    status_reports(config, "gain"@, "rejected"@, message);
    status_reports(config, "command"@, "rejected"@, message);
    let unknown = unknown_fields(config, credential_in(payload));
    velocity_status_reports(config, "rejected"@, unknown, message);
    match reading_of(policy, files, now, payload) {
        Some(outcome) => {
            velocity_status_reports(config, "rejected"@, fields_of_state(outcome.state), message);
        },
        None => {},
    }
}

/// The result code in what came back from a query, where there is one.
pub open spec fn result_in(reply: QueryReplyView) -> Option<u8> {
    match reply {
        QueryReplyView::Sample(bytes) => match param_set_reply(bytes) {
            Ok((result, _)) => Some(result),
            Err(_) => None,
        },
        _ => None,
    }
}

/// A query is answered in every case, last of all with a status under its
/// own leaf; and that status is accepted, or in progress, only where the
/// vehicle's reply says so.
pub proof fn every_query_is_answered(
    config: AuthorityConfigView,
    status_leaf: Seq<char>,
    reply: QueryReplyView,
)
    ensures
        ({
            let answers = query_reports_of(config, status_leaf, reply);
            &&& answers.len() >= 1
            &&& under_status(config, answers.last())
            &&& answers.last().key == status_of(config, status_leaf, ""@, ""@).key
            &&& reply matches QueryReplyView::Sample(bytes) ==> answers[0].payload == bytes
            &&& if result_in(reply) == Some(0u8) {
                reports(answers.last(), "accepted"@, "target service accepted the gain"@)
            } else if result_in(reply) == Some(5u8) {
                reports(answers.last(), "in_progress"@, "target service is applying the gain"@)
            } else {
                exists|message: Seq<char>| #[trigger]
                    reports(answers.last(), "rejected"@, message)
            }
        }),
{
    match reply {
        QueryReplyView::Sample(bytes) => match reply_status_of(param_set_reply(bytes)) {
            Ok((status, message)) => {
                status_reports(config, status_leaf, status, message);
            },
            Err(message) => {
                status_reports(config, status_leaf, "rejected"@, message);
            },
        },
        QueryReplyView::Nothing => {
            status_reports(
                config,
                status_leaf,
                "rejected"@,
                "target service returned no reply"@,
            );
        },
        QueryReplyView::Failed(message) => {
            status_reports(config, status_leaf, "rejected"@, message);
        },
    }
}

/// Only what the worker can handle is handed to it.
pub proof fn only_queries_reach_the_worker(config: AuthorityConfigView, command: CommandView)
    ensures
        intent_step_of(config, command) is Enqueue <==> worker_task_of(command.delivery)
            != WorkerTask::Drop,
        intent_step_of(config, command) is Publish <==> command.delivery == Delivery::Publish,
{
}

/// Whether the policy makes a published velocity command of an intent.
pub open spec fn publishes_velocity(
    policy: PolicyConfigView,
    files: FilesView,
    now: nat,
    key: Seq<char>,
    payload: Seq<u8>,
) -> bool {
    authorization_of(policy, files, now, key, payload) matches Ok(authorization)
        && authorization.command.delivery == Delivery::Publish && authorization.command.target
        == velocity_topic(policy)
}

/// An accepted velocity command is reported under the key of its own team's
/// credential, with figures that add up to the limit, which is at most five.
pub proof fn accepted_velocity_commands_report_their_budget(
    config: AuthorityConfigView,
    files: FilesView,
    now: nat,
    key: Seq<char>,
    payload: Seq<u8>,
)
    requires
        publishes_velocity(config.policy, files, now, key, payload),
    ensures
        ({
            let command = authorization_of(config.policy, files, now, key, payload)->Ok_0.command;
            let step = publish_step_of(config, command, None);
            let fields = fields_of_command(config, command);
            &&& command.velocity_device is Some
            &&& step is Report
            &&& step->Report_0.key == velocity_key(
                config,
                Some(id_of_name(command.velocity_device->0)),
            )
            &&& reports(
                step->Report_0,
                "accepted"@,
                "command forwarded to the vehicle session"@,
            )
            &&& fields.limit == clamped_limit(config.policy.velocity_budget) <= 5
            &&& fields.used + fields.remaining == fields.limit
            &&& fields.used >= 1
        }),
{
    let policy = config.policy;
    published_velocity_commands_are_counted(policy, files, now, key, payload);
    let command = authorization_of(policy, files, now, key, payload)->Ok_0.command;
    let intent = intent_of(policy.intent_prefix, key);
    the_velocity_topic_is_always_charged(policy, intent, payload);
    let charge = plan_of(policy, intent, payload)->Ok_0.charge->0;
    let limit = clamped_limit(policy.velocity_budget);
    let rows = rows_of(files, policy.velocity_budget_csv, limit)->Ok_0;
    used_and_remaining_add_up(rows, limit, credential_of(charge.team), charge.update, now);
    velocity_status_reports(
        config,
        "accepted"@,
        fields_of_command(config, command),
        "command forwarded to the vehicle session"@,
    );
}

/// A velocity command that could not be published is given back to the team
/// that it was charged to, out of the files that it was written to; and with
/// that the team's count is what it was before, whatever the clock shows. The
/// refund fails only where the version cannot grow any more.
pub proof fn failed_velocity_commands_are_refunded(
    config: AuthorityConfigView,
    files: FilesView,
    now: nat,
    key: Seq<char>,
    payload: Seq<u8>,
    failure: Seq<char>,
    later: nat,
)
    requires
        publishes_velocity(config.policy, files, now, key, payload),
        speed_is_number(config.policy, key, payload),
        now <= u128::MAX,
    ensures
        ({
            let limit = clamped_limit(config.policy.velocity_budget);
            let csv_path = config.policy.velocity_budget_csv;
            let authorization = authorization_of(config.policy, files, now, key, payload)->Ok_0;
            let device = authorization.command.velocity_device->0;
            let refunded = refund_of(
                config.policy,
                files_with(files, authorization.saved),
                credential_of(device),
                later,
            );
            &&& publish_step_of(config, authorization.command, Some(failure))
                == PublishStepView::Refund { device, credential_id: id_of_name(device) }
            &&& refunded matches Ok(update) ==> {
                &&& update.state.used == used_by(held(files, csv_path, limit), device, limit)
                &&& update.saved is Some
                &&& used_by(update.saved->0, device, limit) == update.state.used
            }
            &&& refunded is Err ==> unsigned(
                authorization.command.velocity_budget_version->0,
                u128::MAX as int,
            ) == Some(u128::MAX as int)
        }),
{
    let policy = config.policy;
    let limit = clamped_limit(policy.velocity_budget);
    let csv_path = policy.velocity_budget_csv;
    published_velocity_commands_are_counted(policy, files, now, key, payload);
    let intent = intent_of(policy.intent_prefix, key);
    the_velocity_topic_is_always_charged(policy, intent, payload);
    let charge = plan_of(policy, intent, payload)->Ok_0.charge->0;
    let credential = credential_of(charge.team);
    let device = charge.team;
    let command = Request { credential, update: charge.update, now };
    let refund = Request { credential, update: UpdateView::Refund, now: later };
    let rows = held(files, csv_path, limit);
    let after = files_after_call(files, csv_path, limit, command);
    let spent = held(after, csv_path, limit);
    files_hold_readable_rows(files, csv_path, limit);
    files_hold_readable_rows(after, csv_path, limit);
    calls_are_kept(files, csv_path, limit, command, device, credential);
    a_command_registers(rows, limit, command);
    one_request_counts_right(rows, limit, command, device);
    versions_grow(rows, limit, command, device);
    one_request_counts_right(spent, limit, refund, device);
    reports_are_kept(spent, limit, refund, credential);
    a_refund_fails_only_at_the_last_version(spent, limit, credential, later);
}

/// The worker queries for queries, stages firmware, and drops the rest.
pub proof fn the_worker_has_two_tasks(delivery: Delivery)
    ensures
        worker_task_of(delivery) == WorkerTask::Query <==> delivery == Delivery::Query,
        worker_task_of(delivery) == WorkerTask::Firmware <==> delivery == Delivery::Firmware,
{
}

} // verus!
