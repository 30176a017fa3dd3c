//! What holds of every command that the policy lets through.

use vstd::prelude::*;

use crate::budget_laws::{a_command_uses_one, files_hold_readable_rows, used_by};
use crate::credential::safe_id;
use crate::payload::{opened, safe_segment};
use crate::policy::{
    authorization_of, budget_kind, command_kind, credential_of, firmware_update_id, intent_of,
    plan_of, raw_kind, topic_key, with_slash, Delivery, IntentView, PolicyConfigView,
    FIRMWARE_MAX_BYTES,
};
use crate::velocity_budget::{clamped_limit, rows_of, FilesView, UpdateView};

verus! {

/// The topic that velocity commands go to.
pub open spec fn velocity_topic(config: PolicyConfigView) -> Seq<char> {
    topic_key(config, "local_position_command"@)
}

proof fn same_topic_same_leaf(config: PolicyConfigView, a: Seq<char>, b: Seq<char>)
    requires
        topic_key(config, a) == topic_key(config, b),
    ensures
        a == b,
{
    let lead = with_slash(config.vehicle_topic_prefix);
    assert((lead + a).skip(lead.len() as int) =~= a);
    assert((lead + b).skip(lead.len() as int) =~= b);
}

/// Whatever the intent, nothing is published to the velocity topic without
/// taking a command out of the budget of the team that asks for it.
pub proof fn the_velocity_topic_is_always_charged(
    config: PolicyConfigView,
    intent: IntentView,
    payload: Seq<u8>,
)
    ensures
        plan_of(config, intent, payload) matches Ok(plan) ==> (plan.delivery == Delivery::Publish
            && plan.target == velocity_topic(config) ==> plan.charge is Some
            && plan.charge->0.update is Consume),
{
    match plan_of(config, intent, payload) {
        Ok(plan) => {
            reveal_strlit("local_position_command");
            reveal_strlit("manual_control_command");
            reveal_strlit("radio_control");
            assert("manual_control_command"@[0] != "local_position_command"@[0]);
            if plan.target == velocity_topic(config) {
                match intent {
                    IntentView::Manual => {
                        same_topic_same_leaf(
                            config,
                            "manual_control_command"@,
                            "local_position_command"@,
                        );
                    },
                    IntentView::Radio => {
                        same_topic_same_leaf(config, "radio_control"@, "local_position_command"@);
                    },
                    IntentView::Raw(leaf) => {
                        same_topic_same_leaf(config, leaf, "local_position_command"@);
                    },
                    _ => {},
                }
            }
        },
        Err(_) => {},
    }
}

/// What crosses to the vehicle is mapped explicitly: published to one leaf
/// under the topic prefix, queried under the parameter key, or staged as a
/// firmware step; a budget request goes nowhere.
pub proof fn targets_are_mapped(config: PolicyConfigView, intent: IntentView, payload: Seq<u8>)
    ensures
        plan_of(config, intent, payload) matches Ok(plan) ==> {
            &&& !(intent is Unknown)
            &&& plan.delivery == Delivery::Publish ==> exists|leaf: Seq<char>|
                safe_segment(leaf) && plan.target == #[trigger] topic_key(config, leaf)
            &&& plan.delivery == Delivery::Query ==> plan.target == config.parameter_key
                && intent is Gain
            &&& plan.delivery == Delivery::Firmware ==> intent == IntentView::Firmware(plan.target)
                && firmware_update_id(plan.target) is Some
            &&& plan.delivery == Delivery::Budget ==> plan.payload.len() == 0
                && plan.charge is Some && plan.charge->0.update is Read
        },
{
    match plan_of(config, intent, payload) {
        Ok(plan) => match intent {
            IntentView::Velocity => {
                reveal_strlit("local_position_command");
                let leaf = "local_position_command"@;
                assert(safe_segment(leaf));
                assert(plan.target == topic_key(config, leaf));
            },
            IntentView::Manual => {
                reveal_strlit("manual_control_command");
                let leaf = "manual_control_command"@;
                assert(safe_segment(leaf));
                assert(plan.target == topic_key(config, leaf));
            },
            IntentView::Radio => {
                reveal_strlit("radio_control");
                let leaf = "radio_control"@;
                assert(safe_segment(leaf));
                assert(plan.target == topic_key(config, leaf));
            },
            IntentView::Raw(leaf) => {
                assert(plan.target == topic_key(config, leaf));
            },
            _ => {},
        },
        Err(_) => {},
    }
}

/// The key behind the intent prefix decides what an intent asks for, and each
/// typed intent has one target, as has each leaf of the raw path.
#[verifier::rlimit(40)]
pub proof fn each_intent_has_one_target(config: PolicyConfigView, leaf: Seq<char>, payload: Seq<u8>)
    ensures
        intent_of(config.intent_prefix, with_slash(config.intent_prefix) + "velocity"@)
            == IntentView::Velocity,
        intent_of(config.intent_prefix, with_slash(config.intent_prefix) + "velocity_budget"@)
            == IntentView::VelocityBudget,
        intent_of(config.intent_prefix, with_slash(config.intent_prefix) + "manual"@)
            == IntentView::Manual,
        intent_of(config.intent_prefix, with_slash(config.intent_prefix) + "radio"@)
            == IntentView::Radio,
        intent_of(config.intent_prefix, with_slash(config.intent_prefix) + "gain"@)
            == IntentView::Gain,
        intent_of(config.intent_prefix, with_slash(config.intent_prefix) + ("raw/"@ + leaf))
            == IntentView::Raw(leaf),
        plan_of(config, IntentView::Velocity, payload) matches Ok(plan) ==> plan.target
            == velocity_topic(config),
        plan_of(config, IntentView::Manual, payload) matches Ok(plan) ==> plan.target == topic_key(
            config,
            "manual_control_command"@,
        ),
        plan_of(config, IntentView::Radio, payload) matches Ok(plan) ==> plan.target == topic_key(
            config,
            "radio_control"@,
        ),
        plan_of(config, IntentView::Gain, payload) matches Ok(plan) ==> plan.target
            == config.parameter_key,
        plan_of(config, IntentView::Raw(leaf), payload) matches Ok(plan) ==> plan.target
            == topic_key(config, leaf),
{
    let lead = with_slash(config.intent_prefix);
    assert forall|rest: Seq<char>| #[trigger] lead.is_prefix_of(lead + rest) by {
        assert((lead + rest).take(lead.len() as int) =~= lead);
    }
    assert forall|rest: Seq<char>| (#[trigger] (lead + rest)).skip(lead.len() as int) == rest by {
        assert((lead + rest).skip(lead.len() as int) =~= rest);
    }
    reveal_strlit("velocity");
    reveal_strlit("velocity_budget");
    reveal_strlit("manual");
    reveal_strlit("radio");
    reveal_strlit("gain");
    reveal_strlit("raw/");
    let raw = "raw/"@ + leaf;
    assert(raw[0] == 'r' && raw[1] == 'a' && raw[2] == 'w');
    assert("raw/"@.is_prefix_of(raw)) by {
        assert(raw.take(4) =~= "raw/"@);
    }
    assert(raw.skip(4) =~= leaf);
    assert("velocity"@[0] == 'v' && "manual"@[0] == 'm' && "radio"@[2] == 'd' && "gain"@[0] == 'g');
    assert("velocity"@.len() == 8 && "velocity_budget"@.len() == 15);
    assert("velocity_budget"@[0] == 'v');
}

/// The bytes that are delivered are the bytes that came in, or exactly the
/// inner bytes of the envelope that came in; raw and firmware bytes are
/// bounded.
pub proof fn bytes_are_forwarded_exactly(
    config: PolicyConfigView,
    intent: IntentView,
    payload: Seq<u8>,
)
    ensures
        plan_of(config, intent, payload) matches Ok(plan) ==> {
            &&& plan.charge is None ==> plan.payload == payload
            &&& plan.charge is Some ==> {
                ||| opened(payload, command_kind()) matches Some(envelope) && plan.payload
                    == envelope.inner && plan.charge->0.team == envelope.name
                ||| opened(payload, raw_kind()) matches Some(envelope) && plan.payload
                    == envelope.inner && plan.charge->0.team == envelope.name
                ||| opened(payload, budget_kind()) matches Some(envelope) && plan.payload
                    == envelope.inner && plan.charge->0.team == envelope.name
            }
            &&& intent is Raw ==> plan.payload.len() <= config.raw_max_bytes
            &&& intent is Firmware ==> plan.payload.len() <= FIRMWARE_MAX_BYTES
        },
{
    match plan_of(config, intent, payload) {
        Ok(plan) => {
            if intent is VelocityBudget {
                assert(plan.payload =~= opened(payload, budget_kind())->0.inner);
            }
        },
        Err(_) => {},
    }
}

/// Where the budget cannot be read, nothing that draws on it gets through;
/// and a CSV that is missing beside its mirror cannot be read, nor one whose
/// file cannot.
pub proof fn an_unread_budget_fails_closed(
    config: PolicyConfigView,
    files: FilesView,
    now: nat,
    key: Seq<char>,
    payload: Seq<u8>,
)
    ensures
        ({
            let limit = clamped_limit(config.velocity_budget);
            let rows = rows_of(files, config.velocity_budget_csv, limit);
            let plan = plan_of(config, intent_of(config.intent_prefix, key), payload);
            &&& files.csv is Missing && files.mirror_exists ==> rows is Err
            &&& files.csv is Unreadable ==> rows is Err
            &&& rows is Err && plan is Ok && plan->Ok_0.charge is Some ==> authorization_of(
                config,
                files,
                now,
                key,
                payload,
            ) is Err
        }),
{
}

/// A command that is published to the velocity topic has been taken out of
/// its team's budget in the rows that are saved with it, and it reports the
/// count; once the budget is used up, no intent publishes there.
pub proof fn published_velocity_commands_are_counted(
    config: PolicyConfigView,
    files: FilesView,
    now: nat,
    key: Seq<char>,
    payload: Seq<u8>,
)
    ensures
        authorization_of(config, files, now, key, payload) matches Ok(authorization) ==> (
        authorization.command.delivery == Delivery::Publish && authorization.command.target
            == velocity_topic(config) ==> {
            let limit = clamped_limit(config.velocity_budget);
            let rows = rows_of(files, config.velocity_budget_csv, limit);
            let command = authorization.command;
            &&& rows is Ok
            &&& command.velocity_device is Some
            &&& safe_id(command.velocity_device->0)
            &&& command.velocity_credential_id == Some(
                credential_of(command.velocity_device->0).credential_id,
            )
            &&& authorization.saved is Some
            &&& used_by(rows->Ok_0, command.velocity_device->0, limit) < limit <= 5
            &&& used_by(authorization.saved->0, command.velocity_device->0, limit) == used_by(
                rows->Ok_0,
                command.velocity_device->0,
                limit,
            ) + 1
            &&& command.velocity_used == Some(
                used_by(authorization.saved->0, command.velocity_device->0, limit),
            )
        }),
{
    let intent = intent_of(config.intent_prefix, key);
    the_velocity_topic_is_always_charged(config, intent, payload);
    match plan_of(config, intent, payload) {
        Ok(plan) => match plan.charge {
            Some(charge) => {
                let limit = clamped_limit(config.velocity_budget);
                files_hold_readable_rows(files, config.velocity_budget_csv, limit);
                match charge.update {
                    UpdateView::Consume(speed) => match rows_of(
                        files,
                        config.velocity_budget_csv,
                        limit,
                    ) {
                        Ok(rows) => {
                            a_command_uses_one(
                                rows,
                                limit,
                                credential_of(charge.team),
                                speed,
                                now,
                            );
                        },
                        Err(_) => {},
                    },
                    _ => {},
                }
            },
            None => {},
        },
        Err(_) => {},
    }
}

} // verus!
