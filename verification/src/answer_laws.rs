//! What is answered, member by member.

use vstd::prelude::*;
use vstd::utf8::encode_utf8;

use crate::budget_laws::{files_hold_readable_rows, used_by};
use crate::course_laws::{files_with, held};
use crate::credential::{id_of_name, safe_id};
use crate::csv_laws::{csv_reads_back, readable, settled, settled_rows_are_found};
use crate::dispatch::{
    intent_step_of, intent_subscription_of, publish_step_of, query_reports_of, queue_report_of,
    refund_report_of, refusal_of, relayed_of, PublishStepView, QueryReplyView, QueueOutcome,
};
use crate::intent_laws::{
    accepted_budget_requests, first_piece, payloads_name_teams, raw_keys, refusals_by_key,
    stands_for, stem_with_slash, stray_keys, under, wraps,
};
use crate::ledger::{find, rank, rank_splits, registered_at_rank};
use crate::number::{decimal, decimal_reads_back, signed_decimal};
use crate::policy::{authorization_of, opened_any, CommandView, Delivery, PolicyConfigView};
use crate::runtime::AuthorityConfigView;
use crate::status::{fields_of_command, status_prefix_of, velocity_status_of, PublicationView};
use crate::velocity_budget::{capped, clamped_limit, rows_of, temporary_name_of, FilesView, StateView};
use crate::wire::{json_object, mocap_frame, root_reply, ScalarView};

verus! {

/// `base` is what statuses are published under: the intent prefix without
/// `/cmd` at its end, if it has that.
pub open spec fn reports_under(prefix: Seq<char>, base: Seq<char>) -> bool {
    let end = prefix.len() as int;
    let at_cmd = end >= 4 && prefix[end - 4] == '/' && prefix[end - 3] == 'c' && prefix[end - 2]
        == 'm' && prefix[end - 1] == 'd';
    if at_cmd {
        base == prefix.take(end - 4)
    } else {
        base == prefix
    }
}

proof fn base_is_status_prefix(prefix: Seq<char>, base: Seq<char>)
    requires
        reports_under(prefix, base),
    ensures
        status_prefix_of(prefix) == base,
{
    reveal_strlit("/cmd");
    let end = prefix.len() as int;
    if end >= 4 {
        let tail = prefix.subrange(end - 4, end);
        assert(tail[0] == prefix[end - 4] && tail[1] == prefix[end - 3] && tail[2] == prefix[end
            - 2] && tail[3] == prefix[end - 1]);
        if prefix[end - 4] == '/' && prefix[end - 3] == 'c' && prefix[end - 2] == 'm' && prefix[end
            - 1] == 'd' {
            assert(tail =~= "/cmd"@);
        }
    }
}

/// A publication is the JSON object with exactly `members`.
pub open spec fn says(publication: PublicationView, members: Seq<(Seq<char>, ScalarView)>) -> bool {
    publication.payload == encode_utf8(json_object(members))
}

/// A publication stands under `leaf` and says `status` and `message`.
pub open spec fn tells(
    publication: PublicationView,
    base: Seq<char>,
    leaf: Seq<char>,
    status: Seq<char>,
    message: Seq<char>,
) -> bool {
    &&& publication.key == base + "/status/"@ + leaf
    &&& says(
        publication,
        seq![("status"@, ScalarView::Text(status)), ("message"@, ScalarView::Text(message))],
    )
}

/// A publication stands under the velocity key of the credential `id` and says
/// how the budget of `device` stands.
pub open spec fn tells_budget(
    publication: PublicationView,
    base: Seq<char>,
    status: Seq<char>,
    message: Seq<char>,
    device: Seq<char>,
    id: Seq<char>,
    limit: u32,
    used: u32,
    remaining: u32,
    version: Seq<char>,
) -> bool {
    &&& publication.key == base + "/status/velocity/"@ + id
    &&& says(
        publication,
        seq![
            ("status"@, ScalarView::Text(status)),
            ("message"@, ScalarView::Text(message)),
            ("deviceId"@, ScalarView::Text(device)),
            ("credentialId"@, ScalarView::Text(id)),
            ("limit"@, ScalarView::Number(limit)),
            ("used"@, ScalarView::Number(used)),
            ("remaining"@, ScalarView::Number(remaining)),
            ("budgetVersion"@, ScalarView::Text(version)),
        ],
    )
}

proof fn scoped_key(base: Seq<char>, id: Seq<char>)
    ensures
        base + "/status/velocity"@ + ("/"@ + id) == base + "/status/velocity/"@ + id,
{
    reveal_strlit("/status/velocity");
    reveal_strlit("/status/velocity/");
    reveal_strlit("/");
    assert(base + "/status/velocity"@ + ("/"@ + id) =~= base + "/status/velocity/"@ + id);
}

/// A command that carries the state of a budget.
pub open spec fn carries_budget(command: CommandView) -> bool {
    &&& command.velocity_device is Some
    &&& command.velocity_credential_id is Some
    &&& command.velocity_limit is Some
    &&& command.velocity_used is Some
    &&& command.velocity_remaining is Some
    &&& command.velocity_budget_version is Some
}

/// A publication tells the budget that `command` carries.
pub open spec fn tells_budget_of(
    publication: PublicationView,
    base: Seq<char>,
    status: Seq<char>,
    message: Seq<char>,
    command: CommandView,
) -> bool {
    tells_budget(
        publication,
        base,
        status,
        message,
        command.velocity_device->0,
        command.velocity_credential_id->0,
        command.velocity_limit->0,
        command.velocity_used->0,
        command.velocity_remaining->0,
        command.velocity_budget_version->0,
    )
}

/// Accepted commands go where they are delivered: published commands are
/// published, budget requests are answered with the budget that they carry,
/// queries and firmware steps wait for the worker.
pub proof fn each_command_is_routed(
    config: AuthorityConfigView,
    base: Seq<char>,
    command: CommandView,
)
    requires
        reports_under(config.policy.intent_prefix, base),
    ensures
        ({
            let step = intent_step_of(config, command);
            &&& command.delivery == Delivery::Publish ==> step is Publish
            &&& command.delivery == Delivery::Query ==> step is Enqueue
            &&& command.delivery == Delivery::Firmware ==> step is Enqueue
            &&& command.delivery == Delivery::Budget ==> step is Answer
            &&& command.delivery == Delivery::Budget && carries_budget(command) ==> tells_budget_of(
                step->Answer_0,
                base,
                "state"@,
                "authoritative velocity budget"@,
                command,
            )
        }),
{
    base_is_status_prefix(config.policy.intent_prefix, base);
    if carries_budget(command) {
        scoped_key(base, command.velocity_credential_id->0);
    }
}

/// A budget request is answered under the key of the credential of the team
/// that it names, with the limit in force, the count that the files hold for
/// that team, the limit less that count, and the version of the team's row.
#[verifier::rlimit(40)]
pub proof fn budget_requests_are_answered(
    config: AuthorityConfigView,
    base: Seq<char>,
    stem: Seq<char>,
    files: FilesView,
    now: nat,
    payload: Seq<u8>,
    team: Seq<char>,
)
    requires
        reports_under(config.policy.intent_prefix, base),
        stands_for(config.policy.intent_prefix, stem),
        wraps(payload, 'B', team, Seq::empty()),
        safe_id(team),
        rows_of(
            files,
            config.policy.velocity_budget_csv,
            clamped_limit(config.policy.velocity_budget),
        ) is Ok,
    ensures
        ({
            let limit = clamped_limit(config.policy.velocity_budget);
            let rows = held(files, config.policy.velocity_budget_csv, limit);
            let outcome = authorization_of(
                config.policy,
                files,
                now,
                under(stem, "velocity_budget"@),
                payload,
            );
            let step = intent_step_of(config, outcome->Ok_0.command);
            &&& outcome is Ok
            &&& step is Answer
            &&& tells_budget(
                step->Answer_0,
                base,
                "state"@,
                "authoritative velocity budget"@,
                team,
                id_of_name(team),
                limit,
                used_by(rows, team, limit),
                (limit - used_by(rows, team, limit)) as u32,
                match find(rows, team) {
                    Some(row) => row.updated_at,
                    None => "0"@,
                },
            )
        }),
{
    let outcome = authorization_of(
        config.policy,
        files,
        now,
        under(stem, "velocity_budget"@),
        payload,
    );
    accepted_budget_requests(config.policy, stem, files, now, payload, team, team);
    let command = outcome->Ok_0.command;
    each_command_is_routed(config, base, command);
    let named = command.velocity_device->0;
    assert(named =~= team) by {
        assert(wraps(payload, 'B', named, Seq::empty()));
        assert(named.len() == team.len());
        assert forall|i: int| 0 <= i < team.len() implies named[i] == team[i] by {
            assert(named[i] as int == payload[5 + i]);
            assert(team[i] as int == payload[5 + i]);
        }
    }
}

/// After an attempt to publish: a charged command that failed is given back to
/// the device and the credential that it carries; one that went out tells its
/// budget; any other tells under its own leaf what came of it.
pub proof fn each_publication_is_followed_up(
    config: AuthorityConfigView,
    base: Seq<char>,
    command: CommandView,
    failure: Seq<char>,
)
    requires
        reports_under(config.policy.intent_prefix, base),
    ensures
        ({
            let failed = publish_step_of(config, command, Some(failure));
            let sent = publish_step_of(config, command, None);
            &&& carries_budget(command) ==> {
                &&& failed == PublishStepView::Refund {
                    device: command.velocity_device->0,
                    credential_id: command.velocity_credential_id->0,
                }
                &&& sent is Report
                &&& tells_budget_of(
                    sent->Report_0,
                    base,
                    "accepted"@,
                    "command forwarded to the vehicle session"@,
                    command,
                )
            }
            &&& command.velocity_device is None || command.velocity_credential_id is None ==> {
                &&& failed is Report
                &&& tells(failed->Report_0, base, command.status_leaf, "failed"@, failure)
            }
            &&& command.velocity_remaining is None ==> {
                &&& sent is Report
                &&& tells(
                    sent->Report_0,
                    base,
                    command.status_leaf,
                    "accepted"@,
                    "command forwarded to the vehicle session"@,
                )
            }
        }),
{
    base_is_status_prefix(config.policy.intent_prefix, base);
    if carries_budget(command) {
        scoped_key(base, command.velocity_credential_id->0);
    }
}

/// After a refund the failure is told with the budget as the refund left it;
/// where the refund failed too, with the budget that the command carries and
/// with both messages.
pub proof fn each_refund_is_told(
    config: AuthorityConfigView,
    base: Seq<char>,
    command: CommandView,
    failure: Seq<char>,
    state: StateView,
    error: Seq<char>,
)
    requires
        reports_under(config.policy.intent_prefix, base),
    ensures
        tells_budget(
            refund_report_of(config, command, failure, Ok(state)),
            base,
            "failed"@,
            failure,
            state.device_id,
            state.credential_id,
            state.limit,
            state.used,
            state.remaining,
            state.budget_version,
        ),
        carries_budget(command) ==> tells_budget_of(
            refund_report_of(config, command, failure, Err(error)),
            base,
            "failed"@,
            failure + "; velocity budget refund failed: "@ + error,
            command,
        ),
{
    base_is_status_prefix(config.policy.intent_prefix, base);
    scoped_key(base, state.credential_id);
    if carries_budget(command) {
        scoped_key(base, command.velocity_credential_id->0);
    }
}

/// A command that finds no place in the queue is rejected under its own leaf;
/// one that finds a place is not answered yet.
pub proof fn each_queueing_is_told(
    config: AuthorityConfigView,
    base: Seq<char>,
    leaf: Seq<char>,
)
    requires
        reports_under(config.policy.intent_prefix, base),
    ensures
        queue_report_of(config, leaf, QueueOutcome::Queued) is None,
        queue_report_of(config, leaf, QueueOutcome::Full) matches Some(report) && tells(
            report,
            base,
            leaf,
            "rejected"@,
            "command query queue is full"@,
        ),
        queue_report_of(config, leaf, QueueOutcome::Disconnected) matches Some(report) && tells(
            report,
            base,
            leaf,
            "rejected"@,
            "command query worker is unavailable"@,
        ),
{
    base_is_status_prefix(config.policy.intent_prefix, base);
}

/// `name` is what a result that is neither success nor progress is called.
pub open spec fn names_result(code: u8, name: Seq<char>) -> bool {
    ||| code == 1 && name == "TemporarilyRejected"@
    ||| code == 2 && name == "Denied"@
    ||| code == 3 && name == "Unsupported"@
    ||| code == 4 && name == "Failed"@
    ||| code == 6 && name == "Cancelled"@
    ||| code > 6 && name == "unknown result"@
}

/// What came back from a query is handed on as it is under the reply key, and
/// then told under the leaf of the query; where nothing came back, that is
/// told.
pub proof fn each_reply_is_told(
    config: AuthorityConfigView,
    base: Seq<char>,
    leaf: Seq<char>,
    bytes: Seq<u8>,
    failure: Seq<char>,
)
    requires
        reports_under(config.policy.intent_prefix, base),
    ensures
        ({
            let replied = query_reports_of(config, leaf, QueryReplyView::Sample(bytes));
            let decoded = root_reply(bytes);
            &&& replied.len() == 2
            &&& replied[0].key == base + "/reply/"@ + leaf
            &&& replied[0].payload == bytes
            &&& replied[1].key == base + "/status/"@ + leaf
            &&& bytes.len() <= 0x8000_0000 && decoded is Ok && decoded->Ok_0.0 == 0 ==> tells(
                replied[1],
                base,
                leaf,
                "accepted"@,
                "target service accepted the gain"@,
            )
            &&& bytes.len() <= 0x8000_0000 && decoded is Ok && decoded->Ok_0.0 == 5 ==> tells(
                replied[1],
                base,
                leaf,
                "in_progress"@,
                "target service is applying the gain"@,
            )
            &&& forall|name: Seq<char>|
                bytes.len() <= 0x8000_0000 && decoded is Ok && #[trigger] names_result(
                    decoded->Ok_0.0,
                    name,
                ) ==> tells(
                    replied[1],
                    base,
                    leaf,
                    "rejected"@,
                    "target service returned "@ + name + " (detail "@
                        + signed_decimal(decoded->Ok_0.1 as int) + ")"@,
                )
            &&& bytes.len() > 0x8000_0000 ==> tells(
                replied[1],
                base,
                leaf,
                "rejected"@,
                "invalid ParamSetReply: "@ + "buffer is longer than a FlatBuffer can be"@,
            )
            &&& bytes.len() <= 0x8000_0000 && decoded is Err ==> tells(
                replied[1],
                base,
                leaf,
                "rejected"@,
                "invalid ParamSetReply: "@ + decoded->Err_0,
            )
        }),
        query_reports_of(config, leaf, QueryReplyView::Nothing).len() == 1,
        tells(
            query_reports_of(config, leaf, QueryReplyView::Nothing)[0],
            base,
            leaf,
            "rejected"@,
            "target service returned no reply"@,
        ),
        query_reports_of(config, leaf, QueryReplyView::Failed(failure)).len() == 1,
        tells(
            query_reports_of(config, leaf, QueryReplyView::Failed(failure))[0],
            base,
            leaf,
            "rejected"@,
            failure,
        ),
{
    base_is_status_prefix(config.policy.intent_prefix, base);
}

/// Intents are subscribed to under the intent prefix, all of them.
pub proof fn intents_are_subscribed(prefix: Seq<char>, stem: Seq<char>)
    requires
        stands_for(prefix, stem),
    ensures
        intent_subscription_of(prefix) == stem + "/**"@,
{
    stem_with_slash(prefix, stem);
    reveal_strlit("**");
    reveal_strlit("/**");
    assert(stem.push('/') + "**"@ =~= stem + "/**"@);
}

/// The rows that a refusal saves are those that were there: the files written
/// from them hold the row of every team as it was, as it is read again, and so
/// its count and its version.
#[verifier::rlimit(40)]
pub proof fn refusals_change_no_budget(
    config: AuthorityConfigView,
    policy: PolicyConfigView,
    files: FilesView,
    now: nat,
    key: Seq<char>,
    payload: Seq<u8>,
    message: Seq<char>,
    team: Seq<char>,
)
    ensures
        ({
            let limit = clamped_limit(policy.velocity_budget);
            let csv_path = policy.velocity_budget_csv;
            let refusal = refusal_of(config, policy, files, now, key, payload, message);
            let after = files_with(files, refusal.saved);
            let before_rows = held(files, csv_path, limit);
            let after_rows = held(after, csv_path, limit);
            &&& rows_of(files, csv_path, limit) is Ok ==> rows_of(after, csv_path, limit) is Ok
            &&& rows_of(files, csv_path, limit) is Err ==> after == files
            &&& refusal.saved is None ==> after == files
            &&& refusal.saved is Some ==> find(after_rows, team) == (match find(
                before_rows,
                team,
            ) {
                Some(row) => Some(settled(row)),
                None => None,
            })
            &&& used_by(after_rows, team, limit) == used_by(before_rows, team, limit)
            &&& find(before_rows, team) is None <==> find(after_rows, team) is None
            &&& find(before_rows, team) matches Some(row) ==> find(after_rows, team)->0.updated_at
                == row.updated_at && find(after_rows, team)->0.created_at == row.created_at
        }),
{
    let limit = clamped_limit(policy.velocity_budget);
    let csv_path = policy.velocity_budget_csv;
    let refusal = refusal_of(config, policy, files, now, key, payload, message);
    files_hold_readable_rows(files, csv_path, limit);
    if refusal.saved is Some {
        let name = opened_any(payload)->0.name;
        let rows = rows_of(files, csv_path, limit)->Ok_0;
        registered_at_rank(rows, name);
        rank_splits(rows, name);
        let at = rank(rows, name);
        assert(readable(rows[at], limit));
        assert(capped(rows[at], limit) == rows[at]);
        assert(rows.update(at, rows[at]) =~= rows);
        assert(refusal.saved == Some(rows));
        csv_reads_back(rows, limit);
        settled_rows_are_found(rows, team);
    }
}

/// A refused intent on the velocity budget is answered with the budget of the
/// team that its payload names, where it can be read: under the key of that
/// team's credential, with the limit in force, the count that the files hold
/// and what is left. Where it cannot, or cannot be saved again, it is answered
/// as if nothing were left.
#[verifier::rlimit(40)]
pub proof fn refused_velocity_intents_tell_the_budget(
    config: AuthorityConfigView,
    base: Seq<char>,
    stem: Seq<char>,
    files: FilesView,
    now: nat,
    key: Seq<char>,
    payload: Seq<u8>,
    message: Seq<char>,
    team: Seq<char>,
    inner: Seq<u8>,
)
    requires
        reports_under(config.policy.intent_prefix, base),
        stands_for(config.policy.intent_prefix, stem),
        key == under(stem, "velocity"@) || key == under(stem, "velocity_budget"@) || key == under(
            stem,
            "raw/local_position_command"@,
        ),
        wraps(payload, 'C', team, inner) || wraps(payload, 'B', team, inner) || wraps(
            payload,
            'R',
            team,
            inner,
        ),
        safe_id(team),
    ensures
        ({
            let limit = clamped_limit(config.policy.velocity_budget);
            let csv_path = config.policy.velocity_budget_csv;
            let rows = held(files, csv_path, limit);
            let refusal = refusal_of(config, config.policy, files, now, key, payload, message);
            &&& refusal.firmware_update is None
            &&& refusal.saved is Some <==> find(rows, team) is Some
            &&& rows_of(files, csv_path, limit) is Ok ==> tells_budget(
                refusal.report,
                base,
                "rejected"@,
                message,
                team,
                id_of_name(team),
                limit,
                used_by(rows, team, limit),
                (limit - used_by(rows, team, limit)) as u32,
                match find(rows, team) {
                    Some(row) => row.updated_at,
                    None => "0"@,
                },
            )
            &&& rows_of(files, csv_path, limit) is Err ==> refusal.report == refusal.unsaved_report
            &&& refusal.unsaved_report.key == base + "/status/velocity/"@ + id_of_name(team)
            &&& says(
                refusal.unsaved_report,
                seq![
                    ("status"@, ScalarView::Text("rejected"@)),
                    ("message"@, ScalarView::Text(message)),
                    ("deviceId"@, ScalarView::Null),
                    ("credentialId"@, ScalarView::Text(id_of_name(team))),
                    ("limit"@, ScalarView::Number(limit)),
                    ("used"@, ScalarView::Number(limit)),
                    ("remaining"@, ScalarView::Number(0)),
                    ("budgetVersion"@, ScalarView::Null),
                ],
            )
        }),
{
    let limit = clamped_limit(config.policy.velocity_budget);
    base_is_status_prefix(config.policy.intent_prefix, base);
    scoped_key(base, id_of_name(team));
    payloads_name_teams(payload, team, inner);
    refusals_by_key(config.policy, stem, Seq::empty());
    files_hold_readable_rows(files, config.policy.velocity_budget_csv, limit);
    let rows = held(files, config.policy.velocity_budget_csv, limit);
    registered_at_rank(rows, team);
    rank_splits(rows, team);
}

/// A refused gain and any other refused intent are answered under their leaf,
/// and a refused firmware step is handed to the update that its key names. No
/// budget is touched.
#[verifier::rlimit(40)]
pub proof fn other_refusals_are_told(
    config: AuthorityConfigView,
    base: Seq<char>,
    stem: Seq<char>,
    files: FilesView,
    now: nat,
    payload: Seq<u8>,
    message: Seq<char>,
    update: Seq<char>,
    rest: Seq<char>,
    leaf: Seq<char>,
    stray: Seq<char>,
)
    requires
        reports_under(config.policy.intent_prefix, base),
        stands_for(config.policy.intent_prefix, stem),
        leaf != "local_position_command"@,
        forall|rest: Seq<char>| stray != #[trigger] under(stem, rest),
    ensures
        ({
            let policy = config.policy;
            let gain = refusal_of(
                config,
                policy,
                files,
                now,
                under(stem, "gain"@),
                payload,
                message,
            );
            let manual = refusal_of(
                config,
                policy,
                files,
                now,
                under(stem, "manual"@),
                payload,
                message,
            );
            let radio = refusal_of(
                config,
                policy,
                files,
                now,
                under(stem, "radio"@),
                payload,
                message,
            );
            let firmware = refusal_of(
                config,
                policy,
                files,
                now,
                under(stem, "firmware/"@ + (update.push('/') + rest)),
                payload,
                message,
            );
            let raw = refusal_of(
                config,
                policy,
                files,
                now,
                under(stem, "raw/"@ + leaf),
                payload,
                message,
            );
            let unmapped = refusal_of(config, policy, files, now, stray, payload, message);
            &&& tells(gain.report, base, "gain"@, "rejected"@, message)
            &&& gain.saved is None && gain.firmware_update is None && gain.unsaved_report
                == gain.report
            &&& tells(manual.report, base, "command"@, "rejected"@, message)
            &&& manual.saved is None && manual.firmware_update is None && manual.unsaved_report
                == manual.report
            &&& tells(radio.report, base, "command"@, "rejected"@, message)
            &&& radio.saved is None && radio.firmware_update is None && radio.unsaved_report
                == radio.report
            &&& tells(raw.report, base, "command"@, "rejected"@, message)
            &&& raw.saved is None && raw.firmware_update is None && raw.unsaved_report
                == raw.report
            &&& tells(unmapped.report, base, "command"@, "rejected"@, message)
            &&& unmapped.saved is None && unmapped.firmware_update is None
                && unmapped.unsaved_report == unmapped.report
            &&& tells(firmware.report, base, "command"@, "rejected"@, message)
            &&& firmware.saved is None && firmware.unsaved_report == firmware.report
            &&& (forall|i: int| 0 <= i < update.len() ==> #[trigger] update[i] != '/')
                ==> firmware.firmware_update == Some(update)
        }),
{
    base_is_status_prefix(config.policy.intent_prefix, base);
    let step = update.push('/') + rest;
    refusals_by_key(config.policy, stem, step);
    raw_keys(config.policy, stem, leaf);
    stray_keys(config.policy, stem, stray);
    first_piece(update, rest);
}

/// No team that can be one is named in `payload`.
pub open spec fn names_no_team(payload: Seq<u8>) -> bool {
    forall|name: Seq<char>, inner: Seq<u8>|
        safe_id(name) ==> !wraps(payload, 'C', name, inner) && !wraps(payload, 'B', name, inner)
            && !#[trigger] wraps(payload, 'R', name, inner)
}

/// A refused velocity intent whose payload names no team, or none that can
/// be one, is answered under the velocity key that all share, as if nothing
/// were left.
#[verifier::rlimit(40)]
pub proof fn nameless_refusals_are_told(
    config: AuthorityConfigView,
    base: Seq<char>,
    stem: Seq<char>,
    files: FilesView,
    now: nat,
    key: Seq<char>,
    payload: Seq<u8>,
    message: Seq<char>,
)
    requires
        reports_under(config.policy.intent_prefix, base),
        stands_for(config.policy.intent_prefix, stem),
        key == under(stem, "velocity"@) || key == under(stem, "velocity_budget"@) || key == under(
            stem,
            "raw/local_position_command"@,
        ),
        names_no_team(payload),
    ensures
        ({
            let limit = clamped_limit(config.policy.velocity_budget);
            let refusal = refusal_of(config, config.policy, files, now, key, payload, message);
            &&& refusal.saved is None && refusal.firmware_update is None
            &&& refusal.unsaved_report == refusal.report
            &&& refusal.report.key == base + "/status/velocity"@
            &&& says(
                refusal.report,
                seq![
                    ("status"@, ScalarView::Text("rejected"@)),
                    ("message"@, ScalarView::Text(message)),
                    ("deviceId"@, ScalarView::Null),
                    ("credentialId"@, ScalarView::Null),
                    ("limit"@, ScalarView::Number(limit)),
                    ("used"@, ScalarView::Number(limit)),
                    ("remaining"@, ScalarView::Number(0)),
                    ("budgetVersion"@, ScalarView::Null),
                ],
            )
        }),
{
    base_is_status_prefix(config.policy.intent_prefix, base);
    refusals_by_key(config.policy, stem, Seq::empty());
    match opened_any(payload) {
        Some(envelope) => {
            payloads_name_teams(payload, envelope.name, envelope.inner);
            let as_raw = wraps(payload, 'R', envelope.name, envelope.inner);
            if safe_id(envelope.name) {
                assert(!as_raw);
                assert(false);
            }
        },
        None => {},
    }
}

/// A command that was charged to no budget tells an exhausted one, under the
/// velocity key that all share.
pub proof fn uncharged_commands_tell_an_exhausted_budget(
    config: AuthorityConfigView,
    base: Seq<char>,
    status: Seq<char>,
    message: Seq<char>,
    command: CommandView,
)
    requires
        reports_under(config.policy.intent_prefix, base),
        command.velocity_device is None,
        command.velocity_credential_id is None,
        command.velocity_limit is None,
        command.velocity_used is None,
        command.velocity_remaining is None,
        command.velocity_budget_version is None,
    ensures
        ({
            let told = velocity_status_of(
                config,
                status,
                fields_of_command(config, command),
                message,
            );
            &&& told.key == base + "/status/velocity"@
            &&& says(
                told,
                seq![
                    ("status"@, ScalarView::Text(status)),
                    ("message"@, ScalarView::Text(message)),
                    ("deviceId"@, ScalarView::Null),
                    ("credentialId"@, ScalarView::Null),
                    ("limit"@, ScalarView::Number(clamped_limit(config.policy.velocity_budget))),
                    ("used"@, ScalarView::Number(config.policy.velocity_budget)),
                    ("remaining"@, ScalarView::Number(0)),
                    ("budgetVersion"@, ScalarView::Null),
                ],
            )
        }),
{
    base_is_status_prefix(config.policy.intent_prefix, base);
}

/// Of what comes in on the private motion-capture topic, every valid frame is
/// relayed, as it is and under that topic, and nothing else.
pub proof fn valid_frames_are_relayed(payload: Seq<u8>)
    ensures
        mocap_frame(payload) <==> relayed_of(payload) is Some,
        relayed_of(payload) matches Some(relayed) ==> relayed.payload == payload && relayed.key
            == "electrode/sim/rumoca/mocap_frame"@,
{
}

/// A temporary file is hidden beside its target and marked as temporary, and
/// two processes never share one.
pub proof fn temporary_files_are_not_shared(file_name: Seq<char>, process: u32, other: u32)
    ensures
        ({
            let name = temporary_name_of(Some(file_name), process);
            &&& name == "."@ + file_name + "."@ + decimal(process as nat) + ".tmp"@
            &&& temporary_name_of(Some(file_name), other) == name ==> other == process
            &&& temporary_name_of(None, process) == ".velocity-budget."@ + decimal(process as nat)
                + ".tmp"@
        }),
{
    reveal_strlit(".");
    reveal_strlit("velocity-budget");
    reveal_strlit(".velocity-budget.");
    assert("."@ + "velocity-budget"@ + "."@ =~= ".velocity-budget."@);
    if temporary_name_of(Some(file_name), other) == temporary_name_of(Some(file_name), process) {
        let head = "."@ + file_name + "."@;
        let tail = ".tmp"@;
        let a = decimal(process as nat);
        let b = decimal(other as nat);
        assert((head + a + tail).len() == (head + b + tail).len());
        assert((head + a + tail).subrange(head.len() as int, (head.len() + a.len()) as int) =~= a);
        assert((head + b + tail).subrange(head.len() as int, (head.len() + b.len()) as int) =~= b);
        decimal_reads_back(process as nat);
        decimal_reads_back(other as nat);
    }
}

} // verus!
