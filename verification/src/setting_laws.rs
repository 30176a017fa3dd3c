//! What the settings come to.

use vstd::prelude::*;

use crate::number::{decimal, decimal_reads_back, digit, unsigned, unsigned_part};
use crate::runtime::{
    config_from, listeners_of, session_settings_of, variable, AuthorityConfigView,
};
use crate::text::{blank, blank_char, trimmed, trimmed_is};
use crate::velocity_budget::clamped_limit;

verus! {

/// The environment sets `key` to `value`.
pub open spec fn sets(
    vars: Seq<(Seq<char>, Seq<char>)>,
    key: Seq<char>,
    value: Seq<char>,
) -> bool {
    &&& vars.contains((key, value))
    &&& forall|i: int| 0 <= i < vars.len() && (#[trigger] vars[i]).0 == key ==> vars[i].1 == value
}

/// The environment does not set `key`, or sets it to white space alone.
pub open spec fn leaves_out(vars: Seq<(Seq<char>, Seq<char>)>, key: Seq<char>) -> bool {
    (forall|i: int| 0 <= i < vars.len() ==> (#[trigger] vars[i]).0 != key) || exists|
        value: Seq<char>,
    |
        #[trigger] sets(vars, key, value) && blank(value)
}

proof fn a_set_variable_is_found(
    vars: Seq<(Seq<char>, Seq<char>)>,
    key: Seq<char>,
    value: Seq<char>,
)
    requires
        sets(vars, key, value),
    ensures
        variable(vars, key) == Some(value),
    decreases vars.len(),
{
    let at = choose|i: int| 0 <= i < vars.len() && vars[i] == (key, value);
    if vars[0].0 != key {
        let rest = vars.drop_first();
        assert(rest[at - 1] == (key, value));
        assert forall|i: int| 0 <= i < rest.len() && (#[trigger] rest[i]).0 == key implies rest[i].1
            == value by {
            assert(rest[i] == vars[i + 1]);
        }
        a_set_variable_is_found(rest, key, value);
    }
}

proof fn an_unset_variable_is_not_found(vars: Seq<(Seq<char>, Seq<char>)>, key: Seq<char>)
    requires
        forall|i: int| 0 <= i < vars.len() ==> (#[trigger] vars[i]).0 != key,
    ensures
        variable(vars, key) is None,
    decreases vars.len(),
{
    if vars.len() > 0 {
        let rest = vars.drop_first();
        assert(vars[0].0 != key);
        assert forall|i: int| 0 <= i < rest.len() implies (#[trigger] rest[i]).0 != key by {
            assert(rest[i] == vars[i + 1]);
        }
        an_unset_variable_is_not_found(rest, key);
    }
}

proof fn lookups(vars: Seq<(Seq<char>, Seq<char>)>, key: Seq<char>, value: Seq<char>)
    ensures
        sets(vars, key, value) ==> variable(vars, key) == Some(value),
        leaves_out(vars, key) ==> (variable(vars, key) matches Some(found) ==> blank(found)),
{
    if sets(vars, key, value) {
        a_set_variable_is_found(vars, key, value);
    }
    if leaves_out(vars, key) {
        if forall|i: int| 0 <= i < vars.len() ==> (#[trigger] vars[i]).0 != key {
            an_unset_variable_is_not_found(vars, key);
        } else {
            let found = choose|found: Seq<char>| #[trigger] sets(vars, key, found) && blank(found);
            a_set_variable_is_found(vars, key, found);
        }
    }
}

/// Each variable that is set to more than white space is the setting that it
/// names, character by character.
pub proof fn each_variable_is_taken(vars: Seq<(Seq<char>, Seq<char>)>, value: Seq<char>)
    requires
        !blank(value),
    ensures
        sets(vars, "ELECTRODE_GCS_ZENOH_WS_LISTEN"@, value) ==> config_from(vars).browser_listen
            == value,
        sets(vars, "ELECTRODE_GCS_BROWSER_ZENOH_CONNECT"@, value) ==> config_from(
            vars,
        ).browser_connect == Some(value),
        sets(vars, "ELECTRODE_GCS_ZENOH_LISTEN"@, value) ==> config_from(vars).vehicle_listen
            == value,
        sets(vars, "ELECTRODE_GCS_ZENOH_CONNECT"@, value) ==> config_from(vars).vehicle_connect
            == Some(value),
        sets(vars, "ELECTRODE_GCS_INTENT_PREFIX"@, value) ==> config_from(vars).policy.intent_prefix
            == value,
        sets(vars, "ELECTRODE_GCS_VEHICLE_TOPIC_PREFIX"@, value) ==> config_from(
            vars,
        ).policy.vehicle_topic_prefix == value,
        sets(vars, "ELECTRODE_GCS_PARAMETER_KEY"@, value) ==> config_from(vars).policy.parameter_key
            == value,
        sets(vars, "ELECTRODE_GCS_FIRMWARE_KEY_PREFIX"@, value) ==> config_from(
            vars,
        ).policy.firmware_key_prefix == value,
        sets(vars, "ELECTRODE_GCS_VELOCITY_BUDGET_DB"@, value) ==> config_from(
            vars,
        ).policy.velocity_budget_json == value,
        sets(vars, "ELECTRODE_GCS_VELOCITY_BUDGET_CSV"@, value) ==> config_from(
            vars,
        ).policy.velocity_budget_csv == value,
{
    lookups(vars, "ELECTRODE_GCS_ZENOH_WS_LISTEN"@, value);
    lookups(vars, "ELECTRODE_GCS_BROWSER_ZENOH_CONNECT"@, value);
    lookups(vars, "ELECTRODE_GCS_ZENOH_LISTEN"@, value);
    lookups(vars, "ELECTRODE_GCS_ZENOH_CONNECT"@, value);
    lookups(vars, "ELECTRODE_GCS_INTENT_PREFIX"@, value);
    lookups(vars, "ELECTRODE_GCS_VEHICLE_TOPIC_PREFIX"@, value);
    lookups(vars, "ELECTRODE_GCS_PARAMETER_KEY"@, value);
    lookups(vars, "ELECTRODE_GCS_FIRMWARE_KEY_PREFIX"@, value);
    lookups(vars, "ELECTRODE_GCS_VELOCITY_BUDGET_DB"@, value);
    lookups(vars, "ELECTRODE_GCS_VELOCITY_BUDGET_CSV"@, value);
}

/// Each variable that is left out leaves its setting at the default.
pub proof fn each_variable_has_a_default(vars: Seq<(Seq<char>, Seq<char>)>)
    ensures
        leaves_out(vars, "ELECTRODE_GCS_ZENOH_WS_LISTEN"@) ==> config_from(vars).browser_listen
            == "ws/0.0.0.0:7447"@,
        leaves_out(vars, "ELECTRODE_GCS_BROWSER_ZENOH_CONNECT"@) ==> config_from(
            vars,
        ).browser_connect is None,
        leaves_out(vars, "ELECTRODE_GCS_ZENOH_LISTEN"@) ==> config_from(vars).vehicle_listen
            == "udp/0.0.0.0:7447"@,
        leaves_out(vars, "ELECTRODE_GCS_ZENOH_CONNECT"@) ==> config_from(
            vars,
        ).vehicle_connect is None,
        leaves_out(vars, "ELECTRODE_GCS_INTENT_PREFIX"@) ==> config_from(vars).policy.intent_prefix
            == "gcs/v1/cmd"@,
        leaves_out(vars, "ELECTRODE_GCS_VEHICLE_TOPIC_PREFIX"@) ==> config_from(
            vars,
        ).policy.vehicle_topic_prefix == "synapse/v1/topic"@,
        leaves_out(vars, "ELECTRODE_GCS_PARAMETER_KEY"@) ==> config_from(vars).policy.parameter_key
            == "synapse/v1/cmd/param_set"@,
        leaves_out(vars, "ELECTRODE_GCS_FIRMWARE_KEY_PREFIX"@) ==> config_from(
            vars,
        ).policy.firmware_key_prefix == "synapse/v1/cmd/firmware"@,
        leaves_out(vars, "ELECTRODE_GCS_VELOCITY_BUDGET_DB"@) ==> config_from(
            vars,
        ).policy.velocity_budget_json == "velocity-budget.json"@,
        leaves_out(vars, "ELECTRODE_GCS_VELOCITY_BUDGET_CSV"@) ==> config_from(
            vars,
        ).policy.velocity_budget_csv == "velocity-budget.csv"@,
{
    let value = Seq::<char>::empty();
    lookups(vars, "ELECTRODE_GCS_ZENOH_WS_LISTEN"@, value);
    lookups(vars, "ELECTRODE_GCS_BROWSER_ZENOH_CONNECT"@, value);
    lookups(vars, "ELECTRODE_GCS_ZENOH_LISTEN"@, value);
    lookups(vars, "ELECTRODE_GCS_ZENOH_CONNECT"@, value);
    lookups(vars, "ELECTRODE_GCS_INTENT_PREFIX"@, value);
    lookups(vars, "ELECTRODE_GCS_VEHICLE_TOPIC_PREFIX"@, value);
    lookups(vars, "ELECTRODE_GCS_PARAMETER_KEY"@, value);
    lookups(vars, "ELECTRODE_GCS_FIRMWARE_KEY_PREFIX"@, value);
    lookups(vars, "ELECTRODE_GCS_VELOCITY_BUDGET_DB"@, value);
    lookups(vars, "ELECTRODE_GCS_VELOCITY_BUDGET_CSV"@, value);
}

/// The timeout is the number of milliseconds that is set, but at least 100 and
/// at most 60000, and 2000 without a number; the budget is the number that is
/// set, but at least 1 and at most 5, and 5 without a number. The velocity
/// range and the bound on raw payloads cannot be set.
pub proof fn numbers_are_taken_within_bounds(vars: Seq<(Seq<char>, Seq<char>)>, number: u64)
    ensures
        ({
            let config = config_from(vars);
            let timeout = config.query_timeout_ms;
            let budget = config.policy.velocity_budget;
            &&& sets(vars, "ELECTRODE_GCS_QUERY_TIMEOUT_MS"@, decimal(number as nat)) ==> {
                &&& 100 <= number <= 60_000 ==> timeout == number
                &&& number < 100 ==> timeout == 100
                &&& number > 60_000 ==> timeout == 60_000
            }
            &&& leaves_out(vars, "ELECTRODE_GCS_QUERY_TIMEOUT_MS"@) ==> timeout == 2_000
            &&& 100 <= timeout <= 60_000
            &&& sets(vars, "ELECTRODE_GCS_VELOCITY_BUDGET"@, decimal(number as nat)) && number
                <= u32::MAX ==> {
                &&& 1 <= number <= 5 ==> budget == number
                &&& number == 0 ==> budget == 1
                &&& number > 5 ==> budget == 5
            }
            &&& leaves_out(vars, "ELECTRODE_GCS_VELOCITY_BUDGET"@) ==> budget == 5
            &&& 1 <= budget <= 5
            &&& config.policy.velocity_min_mps_bits == 0x3f80_0000
            &&& config.policy.velocity_max_mps_bits == 0x4080_0000
            &&& config.policy.raw_max_bytes == 4096
        }),
{
    lookups(vars, "ELECTRODE_GCS_QUERY_TIMEOUT_MS"@, decimal(number as nat));
    lookups(vars, "ELECTRODE_GCS_VELOCITY_BUDGET"@, decimal(number as nat));
    decimal_reads_back(number as nat);
    blank_text_is_no_number();
}

/// White space writes no number.
proof fn blank_text_is_no_number()
    ensures
        forall|text: Seq<char>, max: int|
            blank(text) ==> (#[trigger] unsigned(text, max)) is None,
{
    assert forall|text: Seq<char>, max: int| blank(text) implies (
    #[trigger] unsigned(text, max)) is None by {
        if text.len() > 0 {
            assert(blank_char(text[0]));
            let body = unsigned_part(text);
            if body.len() > 0 {
                assert(body[0] == text[0]);
                assert(!digit(body[0]));
            }
        }
    }
}

/// A limit between 1 and 5 is taken as it is, and any other is the nearer of
/// the two.
pub proof fn limits_are_between_one_and_five(limit: u32)
    ensures
        1 <= limit <= 5 ==> clamped_limit(limit) == limit,
        limit < 1 ==> clamped_limit(limit) == 1,
        limit > 5 ==> clamped_limit(limit) == 5,
{
}

/// `text` is `endpoint` with nothing but white space around it.
pub open spec fn holds_endpoint(text: Seq<char>, endpoint: Seq<char>) -> bool {
    &&& endpoint.len() > 0
    &&& !blank_char(endpoint[0])
    &&& !blank_char(endpoint.last())
    &&& exists|before: Seq<char>, after: Seq<char>|
        blank(before) && blank(after) && text == #[trigger] (before + endpoint + after)
}

/// A session listens on the one endpoint that it is given, and connects to the
/// one that it is given, whatever white space stands around them; it does
/// neither where it is given none, and it has no other endpoint.
pub proof fn a_session_has_its_own_endpoints(
    listen: Seq<char>,
    connect: Seq<char>,
    listen_at: Seq<char>,
    connect_to: Seq<char>,
)
    ensures
        holds_endpoint(listen, listen_at) && holds_endpoint(connect, connect_to)
            ==> session_settings_of(listen, Some(connect)) == seq![
            ("mode"@, "\"peer\""@),
            ("listen/endpoints"@, "[\""@ + listen_at + "\"]"@),
            ("connect/endpoints"@, "[\""@ + connect_to + "\"]"@),
            ("scouting/multicast/enabled"@, "false"@),
        ],
        holds_endpoint(listen, listen_at) ==> session_settings_of(listen, None) == seq![
            ("mode"@, "\"peer\""@),
            ("listen/endpoints"@, "[\""@ + listen_at + "\"]"@),
            ("scouting/multicast/enabled"@, "false"@),
        ],
        blank(listen) && holds_endpoint(connect, connect_to) ==> session_settings_of(
            listen,
            Some(connect),
        ) == seq![
            ("mode"@, "\"peer\""@),
            ("connect/endpoints"@, "[\""@ + connect_to + "\"]"@),
            ("scouting/multicast/enabled"@, "false"@),
        ],
        blank(connect) ==> session_settings_of(listen, Some(connect)) == session_settings_of(
            listen,
            None,
        ),
        blank(listen) ==> session_settings_of(listen, None) == seq![
            ("mode"@, "\"peer\""@),
            ("scouting/multicast/enabled"@, "false"@),
        ],
{
    if holds_endpoint(listen, listen_at) {
        endpoint_is_trimmed(listen, listen_at);
    }
    if holds_endpoint(connect, connect_to) {
        endpoint_is_trimmed(connect, connect_to);
    }
}

proof fn endpoint_is_trimmed(text: Seq<char>, endpoint: Seq<char>)
    requires
        holds_endpoint(text, endpoint),
    ensures
        trimmed(text) == endpoint,
        !blank(text),
{
    let (before, after) = choose|before: Seq<char>, after: Seq<char>|
        blank(before) && blank(after) && text == #[trigger] (before + endpoint + after);
    trimmed_is(before, endpoint, after);
    assert(text[before.len() as int] == endpoint[0]);
}

/// The listeners are the vehicle's endpoint and the browser's, in that order,
/// as far as they are set.
pub proof fn listeners_are_both_endpoints(config: AuthorityConfigView)
    ensures
        !blank(config.vehicle_listen) && !blank(config.browser_listen) ==> listeners_of(config)
            == seq![config.vehicle_listen, config.browser_listen],
        blank(config.vehicle_listen) && !blank(config.browser_listen) ==> listeners_of(config)
            == seq![config.browser_listen],
        !blank(config.vehicle_listen) && blank(config.browser_listen) ==> listeners_of(config)
            == seq![config.vehicle_listen],
        blank(config.vehicle_listen) && blank(config.browser_listen) ==> listeners_of(config).len()
            == 0,
{
}

} // verus!
