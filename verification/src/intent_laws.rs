//! Which intents the policy accepts, in terms of their keys and bytes.

use vstd::prelude::*;

use crate::budget_laws::{
    a_command_uses_one, files_hold_readable_rows, other_teams_keep_their_rows, starting_row,
    used_by, version_in,
};
use crate::course_laws::held;
use crate::credential::{id_of_name, safe_char, safe_id};
use crate::csv::joined;
use crate::csv_laws::{free_of, joined_parts_split, readable, split_parts_join};
use crate::ledger::{find, put_then_find, rank, rank_splits, registered, registered_at_rank};
use crate::number::{decimal, decimal_reads_back, digit};
use crate::payload::{
    axis_value, channel_value, gain_name, manual_command, opened, pid_term, radio_command,
    safe_segment, segment_char, EnvelopeView,
};
use crate::policy::{
    authorization_of, budget_kind, command_kind, credential_of, firmware_update_id, intent_of,
    opened_any, plan_of, raw_kind, with_slash, AuthorizationView, Delivery, IntentView,
    PolicyConfigView,
};
use crate::policy_laws::each_intent_has_one_target;
use crate::text::{pieces, pieces_never_empty, without_trailing_drops};
use crate::velocity_budget::{capped, clamped_limit, row_after, rows_of, FilesView, UpdateView};
use crate::wire::{root_request, x_velocity_text};

verus! {

/// `prefix` is `stem` and any number of slashes.
pub open spec fn stands_for(prefix: Seq<char>, stem: Seq<char>) -> bool {
    &&& stem.len() <= prefix.len()
    &&& prefix.take(stem.len() as int) == stem
    &&& stem.len() > 0 ==> stem.last() != '/'
    &&& forall|i: int| stem.len() <= i < prefix.len() ==> #[trigger] prefix[i] == '/'
}

/// The key of `rest` under `stem`.
pub open spec fn under(stem: Seq<char>, rest: Seq<char>) -> Seq<char> {
    stem + seq!['/'] + rest
}

/// Whatever slashes end a prefix, keys under it have one.
pub proof fn stem_with_slash(prefix: Seq<char>, stem: Seq<char>)
    requires
        stands_for(prefix, stem),
    ensures
        with_slash(prefix) == stem.push('/'),
        forall|rest: Seq<char>| #[trigger] under(stem, rest) == with_slash(prefix) + rest,
{
    if stem.len() > 0 {
        assert(prefix[stem.len() - 1] == prefix.take(stem.len() as int).last());
    }
    without_trailing_drops(prefix, '/', stem.len() as int);
    assert forall|rest: Seq<char>| #[trigger] under(stem, rest) == with_slash(prefix) + rest by {
        assert(under(stem, rest) =~= stem.push('/') + rest);
    }
}

/// The number in the four bytes at `at`, low byte first.
pub open spec fn word_at(bytes: Seq<u8>, at: int) -> int {
    bytes[at] + 256 * bytes[at + 1] + 65536 * bytes[at + 2] + 16777216 * bytes[at + 3]
}

/// The four bytes at `at` are a single-precision zero, of either sign.
pub open spec fn zero_at(bytes: Seq<u8>, at: int) -> bool {
    bytes[at] == 0 && bytes[at + 1] == 0 && bytes[at + 2] == 0 && (bytes[at + 3] == 0 || bytes[at
        + 3] == 0x80)
}

/// `payload` is the magic `EV`, `third`, `1`, then the length of `name`, then
/// `name`, then `inner`, and nothing else.
pub open spec fn wraps(payload: Seq<u8>, third: char, name: Seq<char>, inner: Seq<u8>) -> bool {
    &&& payload.len() == 5 + name.len() + inner.len()
    &&& payload[0] as int == 'E' as int
    &&& payload[1] as int == 'V' as int
    &&& payload[2] as int == third as int
    &&& payload[3] as int == '1' as int
    &&& payload[4] == name.len()
    &&& forall|i: int| 0 <= i < name.len() ==> (#[trigger] name[i]) as int == payload[5 + i]
    &&& forall|i: int|
        0 <= i < inner.len() ==> #[trigger] inner[i] == payload[5 + name.len() + i]
}

proof fn opened_wraps(payload: Seq<u8>, kind: Seq<u8>, third: char, name: Seq<char>, inner: Seq<u8>)
    requires
        kind == seq![69u8, 86u8, third as u8, 49u8],
        third == 'C' || third == 'B' || third == 'R',
    ensures
        opened(payload, kind) == Some(EnvelopeView { name, inner }) <==> wraps(
            payload,
            third,
            name,
            inner,
        ),
{
    if wraps(payload, third, name, inner) {
        let end = 5 + payload[4] as int;
        assert(payload.take(4) =~= kind);
        let envelope = opened(payload, kind)->0;
        assert(envelope.name =~= name) by {
            assert forall|i: int| 0 <= i < name.len() implies envelope.name[i] == name[i] by {
                assert(name[i] as int == payload[5 + i]);
            }
        }
        assert(envelope.inner =~= inner) by {
            assert forall|i: int| 0 <= i < inner.len() implies envelope.inner[i] == inner[i] by {
                assert(inner[i] == payload[5 + name.len() + i]);
            }
        }
    }
    if opened(payload, kind) == Some(EnvelopeView { name, inner }) {
        assert(payload.take(4) == kind);
        assert(payload[0] == payload.take(4)[0]);
        assert(payload[1] == payload.take(4)[1]);
        assert(payload[2] == payload.take(4)[2]);
        assert(payload[3] == payload.take(4)[3]);
    }
}

proof fn kinds_are_magics()
    ensures
        command_kind() == seq![69u8, 86u8, 'C' as u8, 49u8],
        budget_kind() == seq![69u8, 86u8, 'B' as u8, 49u8],
        raw_kind() == seq![69u8, 86u8, 'R' as u8, 49u8],
{
}

#[verifier::rlimit(40)]
proof fn intents_by_key(config: PolicyConfigView, stem: Seq<char>, rest: Seq<char>)
    requires
        stands_for(config.intent_prefix, stem),
    ensures
        ({
            let prefix = config.intent_prefix;
            &&& intent_of(prefix, under(stem, "velocity"@)) == IntentView::Velocity
            &&& intent_of(prefix, under(stem, "velocity_budget"@)) == IntentView::VelocityBudget
            &&& intent_of(prefix, under(stem, "manual"@)) == IntentView::Manual
            &&& intent_of(prefix, under(stem, "radio"@)) == IntentView::Radio
            &&& intent_of(prefix, under(stem, "gain"@)) == IntentView::Gain
            &&& intent_of(prefix, under(stem, "raw/"@ + rest)) == IntentView::Raw(rest)
            &&& intent_of(prefix, under(stem, "firmware/"@ + rest)) == IntentView::Firmware(rest)
        }),
{
    each_intent_has_one_target(config, rest, Seq::empty());
    stem_with_slash(config.intent_prefix, stem);
    let lead = with_slash(config.intent_prefix);
    let suffix = "firmware/"@ + rest;
    let key = lead + suffix;
    assert(key.take(lead.len() as int) =~= lead);
    assert(key.skip(lead.len() as int) =~= suffix);
    reveal_strlit("velocity");
    reveal_strlit("velocity_budget");
    reveal_strlit("manual");
    reveal_strlit("radio");
    reveal_strlit("gain");
    reveal_strlit("raw/");
    reveal_strlit("firmware/");
    assert(suffix[0] == 'f');
    assert("velocity"@[0] == 'v' && "velocity_budget"@[0] == 'v' && "manual"@[0] == 'm'
        && "radio"@[0] == 'r' && "gain"@[0] == 'g' && "raw/"@[0] == 'r');
    if "raw/"@.is_prefix_of(suffix) {
        assert(suffix[0] == "raw/"@[0]);
    }
    assert(suffix.take(9) =~= "firmware/"@);
    assert(suffix.skip(9) =~= rest);
}

/// A charge to the budget of `device` lets one command through, and changes
/// the row of no other team.
pub open spec fn charged(
    config: PolicyConfigView,
    files: FilesView,
    now: nat,
    authorization: AuthorizationView,
    device: Seq<char>,
    other: Seq<char>,
) -> bool {
    let limit = clamped_limit(config.velocity_budget);
    let before = held(files, config.velocity_budget_csv, limit);
    let command = authorization.command;
    &&& rows_of(files, config.velocity_budget_csv, limit) is Ok
    &&& safe_id(device)
    &&& used_by(before, device, limit) < limit
    &&& command.velocity_device == Some(device)
    &&& command.velocity_credential_id == Some(id_of_name(device))
    &&& command.velocity_limit == Some(limit)
    &&& command.velocity_used matches Some(used) && used == used_by(before, device, limit) + 1
    &&& command.velocity_remaining matches Some(remaining) && remaining == limit - used_by(
        before,
        device,
        limit,
    ) - 1
    &&& authorization.saved matches Some(after) && find(after, device) matches Some(row)
        && row.used == used_by(before, device, limit) + 1 && row.limit == limit
        && command.velocity_budget_version == Some(row.updated_at) && row.last_applied_at == Some(
        decimal(now),
    ) && (other != device ==> find(after, other) == find(before, other))
}

/// A command can be charged to `device`: it names a team whose budget can be
/// read and has something left, and whose version can grow.
pub open spec fn chargeable(
    config: PolicyConfigView,
    files: FilesView,
    now: nat,
    device: Seq<char>,
) -> bool {
    let limit = clamped_limit(config.velocity_budget);
    let before = held(files, config.velocity_budget_csv, limit);
    &&& rows_of(files, config.velocity_budget_csv, limit) is Ok
    &&& safe_id(device)
    &&& used_by(before, device, limit) < limit
    &&& version_in(before, device) < u128::MAX
    &&& now < u128::MAX
}

#[verifier::rlimit(40)]
proof fn consuming_charges(
    config: PolicyConfigView,
    files: FilesView,
    now: nat,
    key: Seq<char>,
    payload: Seq<u8>,
    other: Seq<char>,
)
    requires
        ({
            let plan = plan_of(config, intent_of(config.intent_prefix, key), payload);
            plan is Ok && plan->Ok_0.charge is Some && plan->Ok_0.charge->0.update is Consume
        }),
    ensures
        ({
            let plan = plan_of(config, intent_of(config.intent_prefix, key), payload)->Ok_0;
            let device = plan.charge->0.team;
            let speed = plan.charge->0.update->Consume_0;
            let outcome = authorization_of(config, files, now, key, payload);
            &&& outcome matches Ok(authorization) ==> charged(
                config,
                files,
                now,
                authorization,
                device,
                other,
            ) && (speed is Some ==> find(authorization.saved->0, device)->0.last_velocity_mps
                == speed)
            &&& chargeable(config, files, now, device) ==> outcome is Ok
        }),
{
    let plan = plan_of(config, intent_of(config.intent_prefix, key), payload)->Ok_0;
    let device = plan.charge->0.team;
    let speed = plan.charge->0.update->Consume_0;
    let limit = clamped_limit(config.velocity_budget);
    let rows = held(files, config.velocity_budget_csv, limit);
    files_hold_readable_rows(files, config.velocity_budget_csv, limit);
    a_command_uses_one(rows, limit, credential_of(device), speed, now);
    other_teams_keep_their_rows(
        rows,
        limit,
        credential_of(device),
        UpdateView::Consume(speed),
        now,
        if other == device {
            device.push('x')
        } else {
            other
        },
    );
    registered_at_rank(rows, device);
    rank_splits(rows, device);
    if registered(rows, device) && rows_of(files, config.velocity_budget_csv, limit) is Ok {
        assert(readable(rows[rank(rows, device)], limit));
    }
    decimal_reads_back(now);
    let row = starting_row(rows, device, limit, now);
    match row_after(row, limit, UpdateView::Consume(speed), now) {
        Ok(after) => {
            put_then_find(rows, after, device);
        },
        Err(_) => {},
    }
}

/// A velocity intent is accepted only in an envelope around 56 bytes whose Y
/// and Z velocities are zero and whose X velocity is within range; it is
/// published as those bytes and charged to the team that the envelope names.
#[verifier::rlimit(40)]
pub proof fn accepted_velocity_intents(
    config: PolicyConfigView,
    stem: Seq<char>,
    topics: Seq<char>,
    files: FilesView,
    now: nat,
    payload: Seq<u8>,
    other: Seq<char>,
)
    requires
        stands_for(config.intent_prefix, stem),
        stands_for(config.vehicle_topic_prefix, topics),
    ensures
        authorization_of(config, files, now, under(stem, "velocity"@), payload) matches Ok(
            authorization,
        ) ==> {
            let command = authorization.command;
            let device = command.velocity_device->0;
            &&& command.velocity_device is Some
            &&& wraps(payload, 'C', device, command.payload)
            &&& command.payload.len() == 56
            &&& zero_at(command.payload, 24)
            &&& zero_at(command.payload, 28)
            &&& config.velocity_min_mps_bits <= word_at(command.payload, 20)
                <= config.velocity_max_mps_bits
            &&& command.delivery == Delivery::Publish
            &&& command.target == under(topics, "local_position_command"@)
            &&& command.status_leaf == "velocity"@
            &&& charged(config, files, now, authorization, device, other)
            &&& find(authorization.saved->0, device)->0.last_velocity_mps == Some(
                x_velocity_text(command.payload),
            )
        },
{
    let key = under(stem, "velocity"@);
    intents_by_key(config, stem, Seq::empty());
    stem_with_slash(config.vehicle_topic_prefix, topics);
    kinds_are_magics();
    match opened(payload, command_kind()) {
        Some(envelope) => {
            opened_wraps(payload, command_kind(), 'C', envelope.name, envelope.inner);
            if plan_of(config, IntentView::Velocity, payload) is Ok {
                consuming_charges(config, files, now, key, payload, other);
            }
        },
        None => {},
    }
}

/// Such an intent is accepted whenever it can be charged.
pub proof fn velocity_intents_are_accepted(
    config: PolicyConfigView,
    stem: Seq<char>,
    files: FilesView,
    now: nat,
    payload: Seq<u8>,
    device: Seq<char>,
    inner: Seq<u8>,
)
    requires
        stands_for(config.intent_prefix, stem),
        wraps(payload, 'C', device, inner),
        inner.len() == 56,
        zero_at(inner, 24),
        zero_at(inner, 28),
        config.velocity_min_mps_bits <= word_at(inner, 20) <= config.velocity_max_mps_bits,
        chargeable(config, files, now, device),
    ensures
        authorization_of(config, files, now, under(stem, "velocity"@), payload) is Ok,
{
    intents_by_key(config, stem, Seq::empty());
    kinds_are_magics();
    opened_wraps(payload, command_kind(), 'C', device, inner);
    consuming_charges(config, files, now, under(stem, "velocity"@), payload, device);
}

/// A budget request is accepted exactly in an empty envelope that names a team
/// whose budget can be read. It reports the limit in force, the count that
/// the files hold and what is left, it is delivered nowhere, and what it saves
/// leaves the row of every team under the limit in force as it was.
#[verifier::rlimit(40)]
pub proof fn accepted_budget_requests(
    config: PolicyConfigView,
    stem: Seq<char>,
    files: FilesView,
    now: nat,
    payload: Seq<u8>,
    device: Seq<char>,
    any: Seq<char>,
)
    requires
        stands_for(config.intent_prefix, stem),
    ensures
        ({
            let limit = clamped_limit(config.velocity_budget);
            let rows = rows_of(files, config.velocity_budget_csv, limit);
            let before = held(files, config.velocity_budget_csv, limit);
            let outcome = authorization_of(
                config,
                files,
                now,
                under(stem, "velocity_budget"@),
                payload,
            );
            &&& wraps(payload, 'B', device, Seq::empty()) && safe_id(device) && rows is Ok
                ==> outcome is Ok
            &&& outcome matches Ok(authorization) ==> {
                let command = authorization.command;
                let team = command.velocity_device->0;
                &&& command.velocity_device is Some
                &&& wraps(payload, 'B', team, Seq::empty())
                &&& safe_id(team)
                &&& rows is Ok
                &&& command.delivery == Delivery::Budget
                &&& command.payload.len() == 0
                &&& command.target.len() == 0
                &&& command.status_leaf == "velocity"@
                &&& command.velocity_credential_id == Some(id_of_name(team))
                &&& command.velocity_limit == Some(limit)
                &&& command.velocity_used == Some(used_by(before, team, limit))
                &&& command.velocity_remaining matches Some(remaining) && remaining == limit
                    - used_by(before, team, limit)
                &&& find(before, team) matches Some(row) ==> command.velocity_budget_version
                    == Some(row.updated_at)
                &&& find(before, team) is None ==> command.velocity_budget_version == Some(
                    "0"@,
                ) && authorization.saved is None
                &&& find(before, team) is Some ==> authorization.saved is Some
                &&& authorization.saved matches Some(after) ==> find(after, any) == find(before, any)
            }
        }),
{
    let limit = clamped_limit(config.velocity_budget);
    let before = held(files, config.velocity_budget_csv, limit);
    intents_by_key(config, stem, Seq::empty());
    kinds_are_magics();
    files_hold_readable_rows(files, config.velocity_budget_csv, limit);
    opened_wraps(payload, budget_kind(), 'B', device, Seq::empty());
    match opened(payload, budget_kind()) {
        Some(envelope) => {
            opened_wraps(payload, budget_kind(), 'B', envelope.name, envelope.inner);
            let team = envelope.name;
            if envelope.inner.len() == 0 {
                assert(envelope.inner =~= Seq::<u8>::empty());
            }
            registered_at_rank(before, team);
            rank_splits(before, team);
            if registered(before, team) {
                let row = before[rank(before, team)];
                if rows_of(files, config.velocity_budget_csv, limit) is Ok {
                    assert(readable(row, limit));
                    assert(capped(row, limit) == row);
                    put_then_find(before, row, any);
                }
            }
        },
        None => {},
    }
}

/// One to 128 of the characters `a` to `z`, `A` to `Z`, `0` to `9`, `-` and `_`.
pub open spec fn is_segment(s: Seq<char>) -> bool {
    &&& 1 <= s.len() <= 128
    &&& forall|i: int|
        0 <= i < s.len() ==> {
            let code = (#[trigger] s[i]) as int;
            97 <= code <= 122 || 65 <= code <= 90 || 48 <= code <= 57 || code == 45 || code == 95
        }
}

proof fn segments_are_safe(s: Seq<char>)
    ensures
        is_segment(s) <==> safe_segment(s),
{
    if is_segment(s) {
        assert forall|i: int| 0 <= i < s.len() implies segment_char(#[trigger] s[i]) by {}
    }
    if safe_segment(s) {
        assert forall|i: int| 0 <= i < s.len() implies {
            let code = (#[trigger] s[i]) as int;
            97 <= code <= 122 || 65 <= code <= 90 || 48 <= code <= 57 || code == 45 || code == 95
        } by {
            assert(segment_char(s[i]));
        }
    }
}

/// A team name is one to 128 of the characters `a` to `z`, `A` to `Z`, `0` to
/// `9`, `-`, `_`, `.` and `:`, and every such text is one.
pub proof fn team_names_are(s: Seq<char>)
    ensures
        safe_id(s) <==> 1 <= s.len() <= 128 && forall|i: int|
            0 <= i < s.len() ==> {
                let code = (#[trigger] s[i]) as int;
                97 <= code <= 122 || 65 <= code <= 90 || 48 <= code <= 57 || code == 45 || code
                    == 95 || code == 46 || code == 58
            },
{
    if safe_id(s) {
        assert forall|i: int| 0 <= i < s.len() implies {
            let code = (#[trigger] s[i]) as int;
            97 <= code <= 122 || 65 <= code <= 90 || 48 <= code <= 57 || code == 45 || code == 95
                || code == 46 || code == 58
        } by {
            assert(safe_char(s[i]));
        }
    } else if 1 <= s.len() <= 128 {
        let i = choose|i: int| 0 <= i < s.len() && !safe_char(#[trigger] s[i]);
        let c: char = s[i];
        let code = c as int;
        assert(!(97 <= code <= 122 || 65 <= code <= 90 || 48 <= code <= 57 || code == 45 || code
            == 95 || code == 46 || code == 58));
    }
}

/// No budget is involved: nothing is reported of one, and nothing is saved.
pub open spec fn uncharged(authorization: AuthorizationView) -> bool {
    let command = authorization.command;
    &&& authorization.saved is None
    &&& command.velocity_device is None
    &&& command.velocity_credential_id is None
    &&& command.velocity_limit is None
    &&& command.velocity_used is None
    &&& command.velocity_remaining is None
    &&& command.velocity_budget_version is None
}

/// A raw intent for any leaf but the velocity topic is accepted exactly where
/// the leaf is one segment and the bytes are within bounds, and those bytes
/// are published to that leaf.
pub proof fn accepted_raw_intents(
    config: PolicyConfigView,
    stem: Seq<char>,
    topics: Seq<char>,
    files: FilesView,
    now: nat,
    leaf: Seq<char>,
    payload: Seq<u8>,
)
    requires
        stands_for(config.intent_prefix, stem),
        stands_for(config.vehicle_topic_prefix, topics),
        leaf != "local_position_command"@,
    ensures
        ({
            let outcome = authorization_of(
                config,
                files,
                now,
                under(stem, "raw/"@ + leaf),
                payload,
            );
            &&& outcome is Ok <==> is_segment(leaf) && payload.len() <= config.raw_max_bytes
            &&& outcome matches Ok(authorization) ==> {
                &&& authorization.command.delivery == Delivery::Publish
                &&& authorization.command.target == under(topics, leaf)
                &&& authorization.command.payload == payload
                &&& authorization.command.status_leaf == "command"@
                &&& uncharged(authorization)
            }
        }),
{
    intents_by_key(config, stem, leaf);
    stem_with_slash(config.vehicle_topic_prefix, topics);
    segments_are_safe(leaf);
}

/// A raw intent for the velocity topic is accepted only in an envelope; its
/// inner bytes, within bounds, are published as they are and charged to the
/// team that the envelope names.
#[verifier::rlimit(40)]
pub proof fn accepted_raw_velocity_intents(
    config: PolicyConfigView,
    stem: Seq<char>,
    topics: Seq<char>,
    files: FilesView,
    now: nat,
    payload: Seq<u8>,
    device: Seq<char>,
    inner: Seq<u8>,
    other: Seq<char>,
)
    requires
        stands_for(config.intent_prefix, stem),
        stands_for(config.vehicle_topic_prefix, topics),
    ensures
        ({
            let outcome = authorization_of(
                config,
                files,
                now,
                under(stem, "raw/"@ + "local_position_command"@),
                payload,
            );
            &&& wraps(payload, 'R', device, inner) && inner.len() <= config.raw_max_bytes
                && chargeable(config, files, now, device) ==> outcome is Ok
            &&& outcome matches Ok(authorization) ==> {
                let command = authorization.command;
                &&& command.velocity_device is Some
                &&& wraps(payload, 'R', command.velocity_device->0, command.payload)
                &&& command.payload.len() <= config.raw_max_bytes
                &&& command.delivery == Delivery::Publish
                &&& command.target == under(topics, "local_position_command"@)
                &&& command.status_leaf == "velocity"@
                &&& charged(config, files, now, authorization, command.velocity_device->0, other)
            }
        }),
{
    let leaf = "local_position_command"@;
    let key = under(stem, "raw/"@ + leaf);
    intents_by_key(config, stem, leaf);
    stem_with_slash(config.vehicle_topic_prefix, topics);
    kinds_are_magics();
    assert(safe_segment(leaf)) by {
        reveal_strlit("local_position_command");
    }
    opened_wraps(payload, raw_kind(), 'R', device, inner);
    match opened(payload, raw_kind()) {
        Some(envelope) => {
            opened_wraps(payload, raw_kind(), 'R', envelope.name, envelope.inner);
            if plan_of(config, IntentView::Raw(leaf), payload) is Ok {
                consuming_charges(config, files, now, key, payload, other);
            }
        },
        None => {},
    }
}

/// The signed number in the two bytes at `at`, low byte first, is within 1000
/// of 0.
pub open spec fn axis_at(bytes: Seq<u8>, at: int) -> bool {
    let low = bytes[at] + 256 * bytes[at + 1];
    low <= 1000 || low >= 65536 - 1000
}

/// A manual control sample is accepted exactly where it has 40 bytes, is
/// marked active and valid in byte 35, and keeps its ten axes from byte 14 on
/// within range; it is published as it is.
#[verifier::rlimit(40)]
pub proof fn accepted_manual_intents(
    config: PolicyConfigView,
    stem: Seq<char>,
    topics: Seq<char>,
    files: FilesView,
    now: nat,
    payload: Seq<u8>,
)
    requires
        stands_for(config.intent_prefix, stem),
        stands_for(config.vehicle_topic_prefix, topics),
    ensures
        ({
            let outcome = authorization_of(config, files, now, under(stem, "manual"@), payload);
            &&& outcome is Ok <==> {
                &&& payload.len() == 40
                &&& payload[35] & 4 == 4
                &&& payload[35] & 8 == 8
                &&& axis_at(payload, 14) && axis_at(payload, 16) && axis_at(payload, 18)
                &&& axis_at(payload, 20) && axis_at(payload, 22) && axis_at(payload, 24)
                &&& axis_at(payload, 26) && axis_at(payload, 28) && axis_at(payload, 30)
                &&& axis_at(payload, 32)
            }
            &&& outcome matches Ok(authorization) ==> {
                &&& authorization.command.delivery == Delivery::Publish
                &&& authorization.command.target == under(topics, "manual_control_command"@)
                &&& authorization.command.payload == payload
                &&& authorization.command.status_leaf == "manual"@
                &&& uncharged(authorization)
            }
        }),
{
    intents_by_key(config, stem, Seq::empty());
    stem_with_slash(config.vehicle_topic_prefix, topics);
    if payload.len() == 40 {
        let flags = payload[35];
        assert((flags & 4 == 4) == ((flags / 4) % 2 == 1)) by (bit_vector);
        assert((flags & 8 == 8) == ((flags / 8) % 2 == 1)) by (bit_vector);
        assert forall|axis: int| 0 <= axis < 10 implies (-1000 <= #[trigger] axis_value(
            payload,
            axis,
        ) <= 1000) == axis_at(payload, 14 + 2 * axis) by {}
        if manual_command(payload) {
            assert(-1000 <= axis_value(payload, 0) <= 1000);
            assert(-1000 <= axis_value(payload, 1) <= 1000);
            assert(-1000 <= axis_value(payload, 2) <= 1000);
            assert(-1000 <= axis_value(payload, 3) <= 1000);
            assert(-1000 <= axis_value(payload, 4) <= 1000);
            assert(-1000 <= axis_value(payload, 5) <= 1000);
            assert(-1000 <= axis_value(payload, 6) <= 1000);
            assert(-1000 <= axis_value(payload, 7) <= 1000);
            assert(-1000 <= axis_value(payload, 8) <= 1000);
            assert(-1000 <= axis_value(payload, 9) <= 1000);
        }
    }
}

/// A receiver sample is accepted exactly where it has 48 bytes, counts 1 to 18
/// channels in byte 8, has a link quality up to 100 in byte 9, and keeps the
/// channels that it counts, from byte 10 on, from 900 to 2100; it is published
/// as it is.
pub proof fn accepted_radio_intents(
    config: PolicyConfigView,
    stem: Seq<char>,
    topics: Seq<char>,
    files: FilesView,
    now: nat,
    payload: Seq<u8>,
)
    requires
        stands_for(config.intent_prefix, stem),
        stands_for(config.vehicle_topic_prefix, topics),
    ensures
        ({
            let outcome = authorization_of(config, files, now, under(stem, "radio"@), payload);
            &&& outcome is Ok <==> {
                &&& payload.len() == 48
                &&& 1 <= payload[8] <= 18
                &&& payload[9] <= 100
                &&& forall|at: int|
                    10 <= at < 10 + 2 * payload[8] && at % 2 == 0 ==> 900 <= (#[trigger] payload[at])
                        + 256 * payload[at + 1] <= 2100
            }
            &&& outcome matches Ok(authorization) ==> {
                &&& authorization.command.delivery == Delivery::Publish
                &&& authorization.command.target == under(topics, "radio_control"@)
                &&& authorization.command.payload == payload
                &&& authorization.command.status_leaf == "radio"@
                &&& uncharged(authorization)
            }
        }),
{
    intents_by_key(config, stem, Seq::empty());
    stem_with_slash(config.vehicle_topic_prefix, topics);
    if payload.len() == 48 {
        if radio_command(payload) {
            assert forall|at: int|
                10 <= at < 10 + 2 * payload[8] && at % 2 == 0 implies 900 <= (#[trigger] payload[at])
                + 256 * payload[at + 1] <= 2100 by {
                assert(900 <= channel_value(payload, (at - 10) / 2) <= 2100);
            }
        } else if 1 <= payload[8] <= 18 && payload[9] <= 100 {
            let channel = choose|channel: int|
                0 <= channel < payload[8] && !(900 <= #[trigger] channel_value(payload, channel)
                    <= 2100);
            let at = 10 + 2 * channel;
            assert(payload[at] >= 0);
        }
    }
}

/// The parts of the name of a gain: segments with dots between them, of which
/// the last is `kp`, `ki` or `kd` and the one before it ends in `Pid`.
pub open spec fn gain_parts(parts: Seq<Seq<char>>) -> bool {
    let owner = parts[parts.len() - 2];
    &&& parts.len() >= 2
    &&& forall|i: int| 0 <= i < parts.len() ==> is_segment(#[trigger] parts[i])
    &&& parts.last() == "kp"@ || parts.last() == "ki"@ || parts.last() == "kd"@
    &&& owner.len() >= 3
    &&& owner[owner.len() - 3] == 'P' && owner[owner.len() - 2] == 'i' && owner[owner.len() - 1]
        == 'd'
}

/// The bit pattern of a double-precision number that is neither infinite nor
/// not a number: below that of infinity, whatever the sign.
pub open spec fn finite(bits: u64) -> bool {
    bits < 0x7ff0_0000_0000_0000 || 0x8000_0000_0000_0000 <= bits < 0xfff0_0000_0000_0000
}

#[verifier::rlimit(40)]
proof fn gain_names_have_parts(name: Seq<char>)
    ensures
        gain_name(name) <==> exists|parts: Seq<Seq<char>>| #[trigger]
            joined(parts, '.') == name && gain_parts(parts),
{
    reveal_strlit("kp");
    reveal_strlit("ki");
    reveal_strlit("kd");
    assert("kp"@ =~= seq!['k', 'p']);
    assert("ki"@ =~= seq!['k', 'i']);
    assert("kd"@ =~= seq!['k', 'd']);
    let pid = seq!['P', 'i', 'd'];
    if gain_name(name) {
        let parts = pieces(name, '.');
        split_parts_join(name, '.');
        assert forall|i: int| 0 <= i < parts.len() implies is_segment(#[trigger] parts[i]) by {
            segments_are_safe(parts[i]);
        }
        let owner = parts[parts.len() - 2];
        let tail = owner.subrange(owner.len() - 3, owner.len() as int);
        assert(tail[0] == 'P' && tail[1] == 'i' && tail[2] == 'd');
        assert(gain_parts(parts));
    }
    if exists|parts: Seq<Seq<char>>| #[trigger] joined(parts, '.') == name && gain_parts(parts) {
        let parts = choose|parts: Seq<Seq<char>>| #[trigger]
            joined(parts, '.') == name && gain_parts(parts);
        assert forall|i: int| 0 <= i < parts.len() implies free_of(
            #[trigger] parts[i],
            '.',
        ) by {
            assert(is_segment(parts[i]));
            assert forall|j: int| 0 <= j < parts[i].len() implies #[trigger] parts[i][j] != '.' by {
                assert(parts[i][j] as int != 46);
            }
        }
        joined_parts_split(parts, '.');
        assert forall|i: int| 0 <= i < parts.len() implies safe_segment(#[trigger] parts[i]) by {
            assert(is_segment(parts[i]));
            segments_are_safe(parts[i]);
        }
        let owner = parts[parts.len() - 2];
        assert(owner.subrange(owner.len() - 3, owner.len() as int) =~= pid);
        assert(pid.is_suffix_of(owner));
        assert(pid_term(parts.last()));
    }
}

/// A gain is accepted exactly where its bytes decode to a finite
/// floating-point value for the name of a gain; the bytes are queried, as they
/// are, under the parameter key.
#[verifier::rlimit(40)]
pub proof fn accepted_gain_intents(
    config: PolicyConfigView,
    stem: Seq<char>,
    files: FilesView,
    now: nat,
    payload: Seq<u8>,
)
    requires
        stands_for(config.intent_prefix, stem),
    ensures
        ({
            let outcome = authorization_of(config, files, now, under(stem, "gain"@), payload);
            let decoded = root_request(payload);
            &&& outcome is Ok <==> {
                &&& payload.len() <= 0x8000_0000
                &&& decoded is Ok && decoded->Ok_0 is Some
                &&& decoded->Ok_0->0.kind == 0
                &&& finite(decoded->Ok_0->0.float_bits)
                &&& decoded->Ok_0->0.name is Some
                &&& exists|parts: Seq<Seq<char>>| #[trigger]
                    joined(parts, '.') == decoded->Ok_0->0.name->0 && gain_parts(parts)
            }
            &&& outcome matches Ok(authorization) ==> {
                &&& authorization.command.delivery == Delivery::Query
                &&& authorization.command.target == config.parameter_key
                &&& authorization.command.payload == payload
                &&& authorization.command.status_leaf == "gain"@
                &&& uncharged(authorization)
            }
        }),
{
    intents_by_key(config, stem, Seq::empty());
    let decoded = root_request(payload);
    if decoded is Ok && decoded->Ok_0 is Some {
        let bits = decoded->Ok_0->0.float_bits;
        assert(((bits / 0x10_0000_0000_0000) % 2048 != 2047) == (bits < 0x7ff0_0000_0000_0000
            || 0x8000_0000_0000_0000 <= bits && bits < 0xfff0_0000_0000_0000)) by (bit_vector);
        if decoded->Ok_0->0.name is Some {
            gain_names_have_parts(decoded->Ok_0->0.name->0);
        }
    }
}

/// `step` is a staged step of the update `id`: its start, its commit, or a
/// chunk with an index of one to ten digits.
pub open spec fn staged(step: Seq<char>, id: Seq<char>, index: Seq<char>) -> bool {
    ||| step == id + "/start"@
    ||| step == id + "/commit"@
    ||| step == id + "/chunk/"@ + index && 1 <= index.len() <= 10 && forall|i: int|
        0 <= i < index.len() ==> '0' <= #[trigger] index[i] <= '9'
}

proof fn two_parts(a: Seq<char>, b: Seq<char>)
    requires
        free_of(a, '/'),
        free_of(b, '/'),
    ensures
        pieces(a.push('/') + b, '/') == seq![a, b],
{
    let parts = seq![a, b];
    assert(parts.drop_last() =~= seq![a]);
    assert(joined(seq![a], '/') == a);
    assert(joined(parts, '/') == a.push('/') + b);
    joined_parts_split(parts, '/');
}

proof fn three_parts(a: Seq<char>, b: Seq<char>, c: Seq<char>)
    requires
        free_of(a, '/'),
        free_of(b, '/'),
        free_of(c, '/'),
    ensures
        pieces((a.push('/') + b).push('/') + c, '/') == seq![a, b, c],
{
    let parts = seq![a, b, c];
    let front = seq![a, b];
    assert(parts.drop_last() =~= front);
    assert(front.drop_last() =~= seq![a]);
    assert(joined(seq![a], '/') == a);
    assert(joined(front, '/') == a.push('/') + b);
    assert(joined(parts, '/') == (a.push('/') + b).push('/') + c);
    joined_parts_split(parts, '/');
}

#[verifier::rlimit(40)]
proof fn staged_steps_have_ids(step: Seq<char>, id: Seq<char>, index: Seq<char>)
    requires
        safe_segment(id),
        staged(step, id, index),
    ensures
        firmware_update_id(step) == Some(id),
{
    reveal_strlit("/start");
    reveal_strlit("/commit");
    reveal_strlit("/chunk/");
    reveal_strlit("start");
    reveal_strlit("commit");
    reveal_strlit("chunk");
    assert forall|j: int| 0 <= j < id.len() implies #[trigger] id[j] != '/' by {
        assert(segment_char(id[j]));
    }
    if step == id + "/start"@ {
        two_parts(id, "start"@);
        assert(step =~= id.push('/') + "start"@);
    } else if step == id + "/commit"@ {
        two_parts(id, "commit"@);
        assert(step =~= id.push('/') + "commit"@);
    } else {
        assert forall|j: int| 0 <= j < index.len() implies #[trigger] index[j] != '/' && digit(
            index[j],
        ) by {}
        three_parts(id, "chunk"@, index);
        assert(step =~= (id.push('/') + "chunk"@).push('/') + index);
    }
}

/// Every staged step of an update with a safe id is accepted with at most
/// 69632 bytes, and staged under the key behind `firmware/`.
#[verifier::rlimit(40)]
pub proof fn staged_steps_are_accepted(
    config: PolicyConfigView,
    stem: Seq<char>,
    files: FilesView,
    now: nat,
    id: Seq<char>,
    index: Seq<char>,
    step: Seq<char>,
    payload: Seq<u8>,
)
    requires
        stands_for(config.intent_prefix, stem),
        is_segment(id),
        staged(step, id, index),
        payload.len() <= 69632,
    ensures
        authorization_of(config, files, now, under(stem, "firmware/"@ + step), payload) matches Ok(
            authorization,
        ) && authorization.command.delivery == Delivery::Firmware && authorization.command.target
            == step && authorization.command.payload == payload && authorization.command.status_leaf
            == "firmware/"@ + id && uncharged(authorization),
{
    intents_by_key(config, stem, step);
    segments_are_safe(id);
    staged_steps_have_ids(step, id, index);
}

/// Nothing else is accepted under `firmware/`.
pub proof fn accepted_firmware_intents(
    config: PolicyConfigView,
    stem: Seq<char>,
    files: FilesView,
    now: nat,
    step: Seq<char>,
    payload: Seq<u8>,
)
    requires
        stands_for(config.intent_prefix, stem),
    ensures
        authorization_of(config, files, now, under(stem, "firmware/"@ + step), payload) is Ok
            ==> payload.len() <= 69632 && exists|id: Seq<char>, index: Seq<char>|
            is_segment(id) && #[trigger] staged(step, id, index),
{
    intents_by_key(config, stem, step);
    if authorization_of(config, files, now, under(stem, "firmware/"@ + step), payload) is Ok {
        steps_with_ids_are_staged(step);
    }
}

#[verifier::rlimit(40)]
proof fn steps_with_ids_are_staged(step: Seq<char>)
    requires
        firmware_update_id(step) is Some,
    ensures
        exists|id: Seq<char>, index: Seq<char>| is_segment(id) && #[trigger] staged(step, id, index),
{
    let parts = pieces(step, '/');
    let id = parts[0];
    segments_are_safe(id);
    split_parts_join(step, '/');
    reveal_strlit("/start");
    reveal_strlit("/commit");
    reveal_strlit("/chunk/");
    reveal_strlit("start");
    reveal_strlit("commit");
    reveal_strlit("chunk");
    assert(joined(seq![id], '/') == id);
    if parts.len() == 2 {
        assert(parts.drop_last() =~= seq![id]);
        assert(step == id.push('/') + parts[1]);
        if parts[1] == "start"@ {
            assert(step =~= id + "/start"@);
        } else {
            assert(step =~= id + "/commit"@);
        }
        assert(staged(step, id, Seq::empty()));
    } else {
        let front = seq![id, parts[1]];
        let index = parts[2];
        assert(parts.drop_last() =~= front);
        assert(front.drop_last() =~= seq![id]);
        assert(joined(front, '/') == id.push('/') + parts[1]);
        assert(step == (id.push('/') + parts[1]).push('/') + index);
        assert(step =~= id + "/chunk/"@ + index);
        assert forall|i: int| 0 <= i < index.len() implies '0' <= #[trigger] index[i] <= '9' by {
            assert(digit(index[i]));
        }
        assert(staged(step, id, index));
    }
}

/// Ten to the power `k`.
spec fn power_of_ten(k: nat) -> nat
    decreases k,
{
    if k == 0 {
        1
    } else {
        10 * power_of_ten((k - 1) as nat)
    }
}

proof fn decimal_length(n: nat, k: nat)
    requires
        k >= 1,
        n < power_of_ten(k),
    ensures
        decimal(n).len() <= k,
    decreases k,
{
    if n >= 10 {
        if k == 1 {
            reveal_with_fuel(power_of_ten, 2);
        }
        decimal_length(n / 10, (k - 1) as nat);
    }
}

/// The decimal text of every 32-bit index is the index of a chunk.
pub proof fn chunks_are_numbered(id: Seq<char>, index: u32)
    ensures
        staged(id + "/chunk/"@ + decimal(index as nat), id, decimal(index as nat)),
{
    let text = decimal(index as nat);
    decimal_reads_back(index as nat);
    reveal_with_fuel(power_of_ten, 11);
    assert(power_of_ten(10) == 10_000_000_000);
    decimal_length(index as nat, 10);
    assert forall|i: int| 0 <= i < text.len() implies '0' <= #[trigger] text[i] <= '9' by {
        assert(digit(text[i]));
    }
}

/// Nothing is accepted but under the seven kinds of keys behind the intent
/// prefix.
pub proof fn only_mapped_keys_are_accepted(
    config: PolicyConfigView,
    stem: Seq<char>,
    files: FilesView,
    now: nat,
    key: Seq<char>,
    payload: Seq<u8>,
)
    requires
        stands_for(config.intent_prefix, stem),
        authorization_of(config, files, now, key, payload) is Ok,
    ensures
        ({
            ||| key == under(stem, "velocity"@)
            ||| key == under(stem, "velocity_budget"@)
            ||| key == under(stem, "manual"@)
            ||| key == under(stem, "radio"@)
            ||| key == under(stem, "gain"@)
            ||| exists|leaf: Seq<char>| key == #[trigger] under(stem, "raw/"@ + leaf)
            ||| exists|step: Seq<char>| key == #[trigger] under(stem, "firmware/"@ + step)
        }),
{
    unmapped_keys_are_unknown(config, stem, key);
}

/// A payload names a team exactly where it is an envelope of one of the three
/// kinds.
pub proof fn payloads_name_teams(payload: Seq<u8>, name: Seq<char>, inner: Seq<u8>)
    ensures
        wraps(payload, 'C', name, inner) || wraps(payload, 'B', name, inner) || wraps(
            payload,
            'R',
            name,
            inner,
        ) <==> opened_any(payload) == Some(EnvelopeView { name, inner }),
{
    kinds_are_magics();
    opened_wraps(payload, command_kind(), 'C', name, inner);
    opened_wraps(payload, budget_kind(), 'B', name, inner);
    opened_wraps(payload, raw_kind(), 'R', name, inner);
    if opened(payload, command_kind()) is Some {
        assert(payload.take(4)[2] == 67);
    }
    if opened(payload, budget_kind()) is Some {
        assert(payload.take(4)[2] == 66);
    }
    if opened(payload, raw_kind()) is Some {
        assert(payload.take(4)[2] == 82);
    }
}

/// What kind of intent a refusal answers, by the key.
pub proof fn refusals_by_key(config: PolicyConfigView, stem: Seq<char>, rest: Seq<char>)
    requires
        stands_for(config.intent_prefix, stem),
    ensures
        ({
            let prefix = config.intent_prefix;
            &&& intent_of(prefix, under(stem, "velocity"@)) == IntentView::Velocity
            &&& intent_of(prefix, under(stem, "velocity_budget"@)) == IntentView::VelocityBudget
            &&& intent_of(prefix, under(stem, "manual"@)) == IntentView::Manual
            &&& intent_of(prefix, under(stem, "radio"@)) == IntentView::Radio
            &&& intent_of(prefix, under(stem, "gain"@)) == IntentView::Gain
            &&& intent_of(prefix, under(stem, "raw/local_position_command"@)) == IntentView::Raw(
                "local_position_command"@,
            )
            &&& intent_of(prefix, under(stem, "firmware/"@ + rest)) == IntentView::Firmware(rest)
        }),
{
    intents_by_key(config, stem, rest);
    intents_by_key(config, stem, "local_position_command"@);
    reveal_strlit("raw/");
    reveal_strlit("local_position_command");
    reveal_strlit("raw/local_position_command");
    assert("raw/"@ + "local_position_command"@ =~= "raw/local_position_command"@);
}

/// Any leaf can stand in the key of a raw intent.
pub proof fn raw_keys(config: PolicyConfigView, stem: Seq<char>, leaf: Seq<char>)
    requires
        stands_for(config.intent_prefix, stem),
    ensures
        intent_of(config.intent_prefix, under(stem, "raw/"@ + leaf)) == IntentView::Raw(leaf),
{
    intents_by_key(config, stem, leaf);
}

/// A key that is not under the intent prefix asks for nothing.
pub proof fn stray_keys(config: PolicyConfigView, stem: Seq<char>, key: Seq<char>)
    requires
        stands_for(config.intent_prefix, stem),
        forall|rest: Seq<char>| key != #[trigger] under(stem, rest),
    ensures
        intent_of(config.intent_prefix, key) == IntentView::Unknown,
{
    stem_with_slash(config.intent_prefix, stem);
    let lead = with_slash(config.intent_prefix);
    if lead.is_prefix_of(key) {
        let rest = key.skip(lead.len() as int);
        assert(key =~= lead + rest);
        assert(key == under(stem, rest));
    }
}

/// What stands before the first slash is the first piece.
pub proof fn first_piece(first: Seq<char>, rest: Seq<char>)
    ensures
        free_of(first, '/') ==> pieces(first.push('/') + rest, '/')[0] == first,
    decreases rest.len(),
{
    let whole = first.push('/') + rest;
    if free_of(first, '/') {
        if rest.len() == 0 {
            two_parts(first, rest);
            assert(rest =~= Seq::<char>::empty());
        } else {
            first_piece(first, rest.drop_last());
            let front = first.push('/') + rest.drop_last();
            assert(whole.drop_last() =~= front);
            more_than_one_piece(first, rest.drop_last());
        }
    }
}

proof fn more_than_one_piece(first: Seq<char>, rest: Seq<char>)
    ensures
        pieces(first.push('/') + rest, '/').len() >= 2,
    decreases rest.len(),
{
    let whole = first.push('/') + rest;
    if rest.len() == 0 {
        assert(whole =~= first.push('/'));
        assert(first.push('/').drop_last() =~= first);
        pieces_never_empty(first, '/');
    } else {
        more_than_one_piece(first, rest.drop_last());
        assert(whole.drop_last() =~= first.push('/') + rest.drop_last());
    }
}

/// The refusal of a velocity intent says what is wrong with it: that it is not
/// in an envelope, what is in the envelope, the name on it, or the budget.
pub proof fn refused_velocity_intents_say_why(
    config: PolicyConfigView,
    stem: Seq<char>,
    files: FilesView,
    now: nat,
    payload: Seq<u8>,
    name: Seq<char>,
    inner: Seq<u8>,
)
    requires
        stands_for(config.intent_prefix, stem),
    ensures
        ({
            let outcome = authorization_of(config, files, now, under(stem, "velocity"@), payload);
            let limit = clamped_limit(config.velocity_budget);
            let rows = rows_of(files, config.velocity_budget_csv, limit);
            let sound = inner.len() == 56 && zero_at(inner, 24) && zero_at(inner, 28)
                && config.velocity_min_mps_bits <= word_at(inner, 20)
                <= config.velocity_max_mps_bits;
            &&& (forall|n: Seq<char>, i: Seq<u8>| !#[trigger] wraps(payload, 'C', n, i))
                ==> outcome == Err::<AuthorizationView, Seq<char>>(
                "velocity command requires a team credential envelope"@,
            )
            &&& wraps(payload, 'C', name, inner) && !sound ==> outcome == Err::<
                AuthorizationView,
                Seq<char>,
            >("velocity command requires an X velocity within range and no other"@)
            &&& wraps(payload, 'C', name, inner) && sound && !safe_id(name) ==> outcome == Err::<
                AuthorizationView,
                Seq<char>,
            >(
                "team name must be 1-128 characters of letters, numbers, dot, underscore, colon, or hyphen"@,
            )
            &&& wraps(payload, 'C', name, inner) && sound && safe_id(name) && rows is Err
                ==> outcome == Err::<AuthorizationView, Seq<char>>(rows->Err_0)
        }),
{
    intents_by_key(config, stem, Seq::empty());
    kinds_are_magics();
    opened_wraps(payload, command_kind(), 'C', name, inner);
    match opened(payload, command_kind()) {
        Some(envelope) => {
            opened_wraps(payload, command_kind(), 'C', envelope.name, envelope.inner);
        },
        None => {},
    }
}

/// The refusal of a budget request says what is wrong with it.
pub proof fn refused_budget_requests_say_why(
    config: PolicyConfigView,
    stem: Seq<char>,
    files: FilesView,
    now: nat,
    payload: Seq<u8>,
    name: Seq<char>,
    inner: Seq<u8>,
)
    requires
        stands_for(config.intent_prefix, stem),
    ensures
        ({
            let outcome = authorization_of(
                config,
                files,
                now,
                under(stem, "velocity_budget"@),
                payload,
            );
            let limit = clamped_limit(config.velocity_budget);
            let rows = rows_of(files, config.velocity_budget_csv, limit);
            &&& (forall|n: Seq<char>, i: Seq<u8>| !#[trigger] wraps(payload, 'B', n, i))
                ==> outcome == Err::<AuthorizationView, Seq<char>>(
                "velocity budget request requires a team credential envelope"@,
            )
            &&& wraps(payload, 'B', name, inner) && inner.len() > 0 ==> outcome == Err::<
                AuthorizationView,
                Seq<char>,
            >("velocity budget request carries no payload"@)
            &&& wraps(payload, 'B', name, inner) && inner.len() == 0 && !safe_id(name) ==> outcome
                == Err::<AuthorizationView, Seq<char>>(
                "team name must be 1-128 characters of letters, numbers, dot, underscore, colon, or hyphen"@,
            )
            &&& wraps(payload, 'B', name, inner) && inner.len() == 0 && safe_id(name) && rows is Err
                ==> outcome == Err::<AuthorizationView, Seq<char>>(rows->Err_0)
        }),
{
    intents_by_key(config, stem, Seq::empty());
    kinds_are_magics();
    opened_wraps(payload, budget_kind(), 'B', name, inner);
    match opened(payload, budget_kind()) {
        Some(envelope) => {
            opened_wraps(payload, budget_kind(), 'B', envelope.name, envelope.inner);
        },
        None => {},
    }
}

/// So does that of a raw intent for the velocity topic.
pub proof fn refused_raw_velocity_intents_say_why(
    config: PolicyConfigView,
    stem: Seq<char>,
    files: FilesView,
    now: nat,
    payload: Seq<u8>,
    name: Seq<char>,
    inner: Seq<u8>,
)
    requires
        stands_for(config.intent_prefix, stem),
    ensures
        ({
            let outcome = authorization_of(
                config,
                files,
                now,
                under(stem, "raw/"@ + "local_position_command"@),
                payload,
            );
            let limit = clamped_limit(config.velocity_budget);
            let rows = rows_of(files, config.velocity_budget_csv, limit);
            let fits = inner.len() <= config.raw_max_bytes;
            &&& (forall|n: Seq<char>, i: Seq<u8>| !#[trigger] wraps(payload, 'R', n, i))
                ==> outcome == Err::<AuthorizationView, Seq<char>>(
                "raw velocity command requires a team credential envelope"@,
            )
            &&& wraps(payload, 'R', name, inner) && !fits ==> outcome == Err::<
                AuthorizationView,
                Seq<char>,
            >("raw payload is too large"@)
            &&& wraps(payload, 'R', name, inner) && fits && !safe_id(name) ==> outcome == Err::<
                AuthorizationView,
                Seq<char>,
            >(
                "team name must be 1-128 characters of letters, numbers, dot, underscore, colon, or hyphen"@,
            )
            &&& wraps(payload, 'R', name, inner) && fits && safe_id(name) && rows is Err ==> outcome
                == Err::<AuthorizationView, Seq<char>>(rows->Err_0)
        }),
{
    let leaf = "local_position_command"@;
    intents_by_key(config, stem, leaf);
    kinds_are_magics();
    assert(safe_segment(leaf)) by {
        reveal_strlit("local_position_command");
    }
    opened_wraps(payload, raw_kind(), 'R', name, inner);
    match opened(payload, raw_kind()) {
        Some(envelope) => {
            opened_wraps(payload, raw_kind(), 'R', envelope.name, envelope.inner);
        },
        None => {},
    }
}

/// And so do those of the intents that draw on no budget: a raw intent for any
/// other leaf, a manual or receiver sample, a firmware step, and a key that
/// stands for none.
pub proof fn other_refused_intents_say_why(
    config: PolicyConfigView,
    stem: Seq<char>,
    files: FilesView,
    now: nat,
    rest: Seq<char>,
    key: Seq<char>,
    payload: Seq<u8>,
)
    requires
        stands_for(config.intent_prefix, stem),
    ensures
        ({
            let raw = authorization_of(config, files, now, under(stem, "raw/"@ + rest), payload);
            &&& !is_segment(rest) ==> raw == Err::<AuthorizationView, Seq<char>>(
                "raw topic must be one safe segment"@,
            )
            &&& is_segment(rest) && rest != "local_position_command"@ && payload.len()
                > config.raw_max_bytes ==> raw == Err::<AuthorizationView, Seq<char>>(
                "raw payload is too large"@,
            )
        }),
        authorization_of(config, files, now, under(stem, "manual"@), payload) matches Err(message)
            ==> message == "manual control command is invalid"@,
        authorization_of(config, files, now, under(stem, "radio"@), payload) matches Err(message)
            ==> message == "radio control command is invalid"@,
        ({
            let update = authorization_of(
                config,
                files,
                now,
                under(stem, "firmware/"@ + rest),
                payload,
            );
            let step = exists|id: Seq<char>, index: Seq<char>|
                is_segment(id) && #[trigger] staged(rest, id, index);
            &&& !step ==> update == Err::<AuthorizationView, Seq<char>>(
                "firmware intent is not a staged update step"@,
            )
            &&& step && payload.len() > 69632 ==> update == Err::<AuthorizationView, Seq<char>>(
                "firmware payload is too large"@,
            )
        }),
        ({
            &&& key != under(stem, "velocity"@)
            &&& key != under(stem, "velocity_budget"@)
            &&& key != under(stem, "manual"@)
            &&& key != under(stem, "radio"@)
            &&& key != under(stem, "gain"@)
            &&& forall|leaf: Seq<char>| key != #[trigger] under(stem, "raw/"@ + leaf)
            &&& forall|step: Seq<char>| key != #[trigger] under(stem, "firmware/"@ + step)
        }) ==> authorization_of(config, files, now, key, payload) == Err::<
            AuthorizationView,
            Seq<char>,
        >("intent is not mapped"@),
{
    intents_by_key(config, stem, rest);
    segments_are_safe(rest);
    if firmware_update_id(rest) is Some {
        steps_with_ids_are_staged(rest);
    } else if exists|id: Seq<char>, index: Seq<char>|
        is_segment(id) && #[trigger] staged(rest, id, index) {
        let (id, index) = choose|id: Seq<char>, index: Seq<char>|
            is_segment(id) && #[trigger] staged(rest, id, index);
        segments_are_safe(id);
        staged_steps_have_ids(rest, id, index);
    }
    unmapped_keys_are_unknown(config, stem, key);
}

proof fn unmapped_keys_are_unknown(config: PolicyConfigView, stem: Seq<char>, key: Seq<char>)
    requires
        stands_for(config.intent_prefix, stem),
    ensures
        ({
            ||| intent_of(config.intent_prefix, key) is Unknown
            ||| key == under(stem, "velocity"@)
            ||| key == under(stem, "velocity_budget"@)
            ||| key == under(stem, "manual"@)
            ||| key == under(stem, "radio"@)
            ||| key == under(stem, "gain"@)
            ||| exists|leaf: Seq<char>| key == #[trigger] under(stem, "raw/"@ + leaf)
            ||| exists|step: Seq<char>| key == #[trigger] under(stem, "firmware/"@ + step)
        }),
{
    stem_with_slash(config.intent_prefix, stem);
    let lead = with_slash(config.intent_prefix);
    if lead.is_prefix_of(key) {
        let suffix = key.skip(lead.len() as int);
        assert(key =~= lead + suffix);
        assert(key == under(stem, suffix));
        if "raw/"@.is_prefix_of(suffix) {
            let leaf = suffix.skip("raw/"@.len() as int);
            assert(suffix =~= "raw/"@ + leaf);
            assert(key == under(stem, "raw/"@ + leaf));
        }
        if "firmware/"@.is_prefix_of(suffix) {
            let step = suffix.skip("firmware/"@.len() as int);
            assert(suffix =~= "firmware/"@ + step);
            assert(key == under(stem, "firmware/"@ + step));
        }
    }
}

/// The refusal of a gain says what is wrong with the request: its bytes, that
/// it holds nothing, the name, or the value.
pub proof fn refused_gains_say_why(
    config: PolicyConfigView,
    stem: Seq<char>,
    files: FilesView,
    now: nat,
    payload: Seq<u8>,
)
    requires
        stands_for(config.intent_prefix, stem),
    ensures
        ({
            let outcome = authorization_of(config, files, now, under(stem, "gain"@), payload);
            let decoded = root_request(payload);
            let set = decoded->Ok_0->0;
            let named = set.name is Some && exists|parts: Seq<Seq<char>>| #[trigger]
                joined(parts, '.') == set.name->0 && gain_parts(parts);
            &&& payload.len() > 0x8000_0000 ==> outcome == Err::<AuthorizationView, Seq<char>>(
                "invalid ParamSetRequest: "@ + "buffer is longer than a FlatBuffer can be"@,
            )
            &&& payload.len() <= 0x8000_0000 ==> {
                &&& decoded is Err ==> outcome == Err::<AuthorizationView, Seq<char>>(
                    "invalid ParamSetRequest: "@ + decoded->Err_0,
                )
                &&& decoded is Ok && decoded->Ok_0 is None ==> outcome == Err::<
                    AuthorizationView,
                    Seq<char>,
                >("gain request carries no value"@)
                &&& decoded is Ok && decoded->Ok_0 is Some && !named ==> outcome == Err::<
                    AuthorizationView,
                    Seq<char>,
                >("parameter is not a tunable gain"@)
                &&& decoded is Ok && decoded->Ok_0 is Some && named && !(set.kind == 0 && finite(
                    set.float_bits,
                )) ==> outcome == Err::<AuthorizationView, Seq<char>>(
                    "gain must be a finite floating-point value"@,
                )
            }
        }),
{
    intents_by_key(config, stem, Seq::empty());
    let decoded = root_request(payload);
    if decoded is Ok && decoded->Ok_0 is Some {
        let bits = decoded->Ok_0->0.float_bits;
        assert(((bits / 0x10_0000_0000_0000) % 2048 != 2047) == (bits < 0x7ff0_0000_0000_0000
            || 0x8000_0000_0000_0000 <= bits && bits < 0xfff0_0000_0000_0000)) by (bit_vector);
        if decoded->Ok_0->0.name is Some {
            gain_names_have_parts(decoded->Ok_0->0.name->0);
        }
    }
}

} // verus!
