//! Settings of the runtime that sits between the browser session and the
//! vehicle session.

use vstd::prelude::*;

use crate::ledger::text_view;
use crate::number::{parse_u32, parse_u64, unsigned};
use crate::policy::{default_policy_config, PolicyConfig, PolicyConfigView};
use crate::text::{blank, chars_of, concat, copy_text, is_blank, same_text, trim, trimmed};
use crate::velocity_budget::{clamp_limit, clamped_limit};

verus! {

/// How many queries may wait for the worker.
pub const PARAMETER_QUEUE_CAPACITY: usize = 8;

/// The only topic that is relayed from the browser to the vehicle.
pub const PRIVATE_MOCAP_TOPIC: &'static str = "electrode/sim/rumoca/mocap_frame";

/// The simulator outputs that are relayed to the browser.
pub const PRIVATE_PWM_TOPIC: &'static str = "electrode/sim/rumoca/radio_pwm_signal_outputs";

/// The vehicle keys that are relayed to the browser, one way.
pub const RELAYED_TOPICS: [&'static str; 3] = [
    "synapse/v1/topic/**",
    "synapse/mocap/**",
    PRIVATE_PWM_TOPIC,
];

/// Runtime endpoints. The two sessions never discover one another directly.
#[derive(Debug, PartialEq, Eq)]
pub struct CommandAuthorityConfig {
    pub browser_listen: String,
    pub browser_connect: Option<String>,
    pub vehicle_listen: String,
    pub vehicle_connect: Option<String>,
    /// How long a query may take, in milliseconds.
    pub query_timeout_ms: u64,
    pub policy: PolicyConfig,
}

/// The value of a [`CommandAuthorityConfig`].
pub struct AuthorityConfigView {
    pub browser_listen: Seq<char>,
    pub browser_connect: Option<Seq<char>>,
    pub vehicle_listen: Seq<char>,
    pub vehicle_connect: Option<Seq<char>>,
    pub query_timeout_ms: u64,
    pub policy: PolicyConfigView,
}

impl View for CommandAuthorityConfig {
    type V = AuthorityConfigView;

    open spec fn view(&self) -> AuthorityConfigView {
        AuthorityConfigView {
            browser_listen: self.browser_listen@,
            browser_connect: text_view(self.browser_connect),
            vehicle_listen: self.vehicle_listen@,
            vehicle_connect: text_view(self.vehicle_connect),
            query_timeout_ms: self.query_timeout_ms,
            policy: self.policy@,
        }
    }
}

/// The configuration that holds without any settings: browsers over
/// WebSocket, vehicles over UDP, two seconds for a query.
pub open spec fn default_authority_config() -> AuthorityConfigView {
    AuthorityConfigView {
        browser_listen: "ws/0.0.0.0:7447"@,
        browser_connect: None,
        vehicle_listen: "udp/0.0.0.0:7447"@,
        vehicle_connect: None,
        query_timeout_ms: 2000,
        policy: default_policy_config(),
    }
}

impl Default for CommandAuthorityConfig {
    fn default() -> (config: Self)
        ensures
            config@ == default_authority_config(),
    {
        CommandAuthorityConfig {
            browser_listen: "ws/0.0.0.0:7447".to_owned(),
            browser_connect: None,
            vehicle_listen: "udp/0.0.0.0:7447".to_owned(),
            vehicle_connect: None,
            query_timeout_ms: 2000,
            policy: PolicyConfig::default(),
        }
    }
}

impl Clone for CommandAuthorityConfig {
    fn clone(&self) -> (copy: Self)
        ensures
            copy@ == self@,
    {
        CommandAuthorityConfig {
            browser_listen: self.browser_listen.clone(),
            browser_connect: copy_text(&self.browser_connect),
            vehicle_listen: self.vehicle_listen.clone(),
            vehicle_connect: copy_text(&self.vehicle_connect),
            query_timeout_ms: self.query_timeout_ms,
            policy: self.policy.clone(),
        }
    }
}

/// The values of a list of environment variables.
pub open spec fn variable_views(vars: Seq<(String, String)>) -> Seq<(Seq<char>, Seq<char>)> {
    vars.map_values(|var: (String, String)| (var.0@, var.1@))
}

/// The value of the variable `key`, where it is set.
pub open spec fn variable(vars: Seq<(Seq<char>, Seq<char>)>, key: Seq<char>) -> Option<Seq<char>>
    decreases vars.len(),
{
    if vars.len() == 0 {
        None
    } else if vars[0].0 == key {
        Some(vars[0].1)
    } else {
        variable(vars.drop_first(), key)
    }
}

/// The value of the variable `key`, where it is set to more than white space.
pub open spec fn setting(vars: Seq<(Seq<char>, Seq<char>)>, key: Seq<char>) -> Option<Seq<char>> {
    match variable(vars, key) {
        Some(value) => if blank(value) {
            None
        } else {
            Some(value)
        },
        None => None,
    }
}

/// The setting `key`, or `default` where it is not set.
pub open spec fn setting_or(
    vars: Seq<(Seq<char>, Seq<char>)>,
    key: Seq<char>,
    default: Seq<char>,
) -> Seq<char> {
    match setting(vars, key) {
        Some(value) => value,
        None => default,
    }
}

/// The number in the variable `key`, or `default` where it holds none up to
/// `max`.
pub open spec fn number_or(
    vars: Seq<(Seq<char>, Seq<char>)>,
    key: Seq<char>,
    max: int,
    default: int,
) -> int {
    match variable(vars, key) {
        Some(value) => match unsigned(value, max) {
            Some(number) => number,
            None => default,
        },
        None => default,
    }
}

/// `milliseconds` brought into the range from 100 ms to a minute.
pub open spec fn clamped_timeout(milliseconds: int) -> u64 {
    if milliseconds < 100 {
        100
    } else if milliseconds > 60_000 {
        60_000
    } else {
        milliseconds as u64
    }
}

/// The configuration that the environment variables `vars` ask for. The
/// velocity range and the raw payload bound cannot be set.
pub open spec fn config_from(vars: Seq<(Seq<char>, Seq<char>)>) -> AuthorityConfigView {
    let defaults = default_authority_config();
    AuthorityConfigView {
        browser_listen: setting_or(
            vars,
            "ELECTRODE_GCS_ZENOH_WS_LISTEN"@,
            defaults.browser_listen,
        ),
        browser_connect: setting(vars, "ELECTRODE_GCS_BROWSER_ZENOH_CONNECT"@),
        vehicle_listen: setting_or(vars, "ELECTRODE_GCS_ZENOH_LISTEN"@, defaults.vehicle_listen),
        vehicle_connect: setting(vars, "ELECTRODE_GCS_ZENOH_CONNECT"@),
        query_timeout_ms: clamped_timeout(
            number_or(vars, "ELECTRODE_GCS_QUERY_TIMEOUT_MS"@, u64::MAX as int, 2_000),
        ),
        policy: PolicyConfigView {
            intent_prefix: setting_or(
                vars,
                "ELECTRODE_GCS_INTENT_PREFIX"@,
                defaults.policy.intent_prefix,
            ),
            vehicle_topic_prefix: setting_or(
                vars,
                "ELECTRODE_GCS_VEHICLE_TOPIC_PREFIX"@,
                defaults.policy.vehicle_topic_prefix,
            ),
            parameter_key: setting_or(
                vars,
                "ELECTRODE_GCS_PARAMETER_KEY"@,
                defaults.policy.parameter_key,
            ),
            firmware_key_prefix: setting_or(
                vars,
                "ELECTRODE_GCS_FIRMWARE_KEY_PREFIX"@,
                defaults.policy.firmware_key_prefix,
            ),
            velocity_min_mps_bits: 0x3f80_0000,
            velocity_max_mps_bits: 0x4080_0000,
            velocity_budget: clamped_limit(
                number_or(
                    vars,
                    "ELECTRODE_GCS_VELOCITY_BUDGET"@,
                    u32::MAX as int,
                    defaults.policy.velocity_budget as int,
                ) as u32,
            ),
            velocity_budget_json: setting_or(
                vars,
                "ELECTRODE_GCS_VELOCITY_BUDGET_DB"@,
                defaults.policy.velocity_budget_json,
            ),
            velocity_budget_csv: setting_or(
                vars,
                "ELECTRODE_GCS_VELOCITY_BUDGET_CSV"@,
                defaults.policy.velocity_budget_csv,
            ),
            raw_max_bytes: defaults.policy.raw_max_bytes,
        },
    }
}

proof fn variable_is(vars: Seq<(Seq<char>, Seq<char>)>, key: Seq<char>, at: int)
    requires
        0 <= at <= vars.len(),
        forall|j: int| 0 <= j < at ==> (#[trigger] vars[j]).0 != key,
        at < vars.len() ==> vars[at].0 == key,
    ensures
        variable(vars, key) == (if at < vars.len() {
            Some(vars[at].1)
        } else {
            None
        }),
    decreases at,
{
    if at > 0 {
        assert(vars[0].0 != key);
        let rest = vars.drop_first();
        assert forall|j: int| 0 <= j < at - 1 implies (#[trigger] rest[j]).0 != key by {
            assert(vars[j + 1].0 != key);
        }
        variable_is(rest, key, at - 1);
    }
}

/// The value of the variable `key`, where it is set.
fn lookup(vars: &Vec<(String, String)>, key: &str) -> (value: Option<String>)
    ensures
        text_view(value) == variable(variable_views(vars@), key@),
{
    let ghost all = variable_views(vars@);
    for i in 0..vars.len()
        invariant
            all == variable_views(vars@),
            forall|j: int| 0 <= j < i ==> (#[trigger] all[j]).0 != key@,
    {
        assert(all[i as int] == (vars@[i as int].0@, vars@[i as int].1@));
        if same_text(vars[i].0.as_str(), key) {
            proof {
                variable_is(all, key@, i as int);
            }
            return Some(vars[i].1.clone());
        }
    }
    proof {
        variable_is(all, key@, all.len() as int);
    }
    None
}

/// The setting `key`, where it is set to more than white space.
pub fn optional(vars: &Vec<(String, String)>, key: &str) -> (value: Option<String>)
    ensures
        text_view(value) == setting(variable_views(vars@), key@),
{
    match lookup(vars, key) {
        Some(value) => {
            if is_blank(&chars_of(value.as_str())) {
                None
            } else {
                Some(value)
            }
        },
        None => None,
    }
}

/// The setting `key`, or `default` where it is not set.
pub fn value_or(vars: &Vec<(String, String)>, key: &str, default: String) -> (value: String)
    ensures
        value@ == setting_or(variable_views(vars@), key@, default@),
{
    match optional(vars, key) {
        Some(value) => value,
        None => default,
    }
}

/// The path in the setting `key`, or `default` where it is not set.
pub fn path_or(vars: &Vec<(String, String)>, key: &str, default: String) -> (path: String)
    ensures
        path@ == setting_or(variable_views(vars@), key@, default@),
{
    value_or(vars, key, default)
}

impl CommandAuthorityConfig {
    /// The configuration that the environment variables `vars` ask for.
    pub fn from_env(vars: &Vec<(String, String)>) -> (config: Self)
        ensures
            config@ == config_from(variable_views(vars@)),
    {
        let defaults = CommandAuthorityConfig::default();
        let timeout: u64 = match lookup(vars, "ELECTRODE_GCS_QUERY_TIMEOUT_MS") {
            Some(value) => match parse_u64(value.as_str()) {
                Some(number) => number,
                None => 2_000,
            },
            None => 2_000,
        };
        let budget: u32 = match lookup(vars, "ELECTRODE_GCS_VELOCITY_BUDGET") {
            Some(value) => match parse_u32(value.as_str()) {
                Some(number) => number,
                None => defaults.policy.velocity_budget,
            },
            None => defaults.policy.velocity_budget,
        };
        CommandAuthorityConfig {
            browser_listen: value_or(
                vars,
                "ELECTRODE_GCS_ZENOH_WS_LISTEN",
                defaults.browser_listen,
            ),
            browser_connect: optional(vars, "ELECTRODE_GCS_BROWSER_ZENOH_CONNECT"),
            vehicle_listen: value_or(vars, "ELECTRODE_GCS_ZENOH_LISTEN", defaults.vehicle_listen),
            vehicle_connect: optional(vars, "ELECTRODE_GCS_ZENOH_CONNECT"),
            query_timeout_ms: if timeout < 100 {
                100
            } else if timeout > 60_000 {
                60_000
            } else {
                timeout
            },
            policy: PolicyConfig {
                intent_prefix: value_or(
                    vars,
                    "ELECTRODE_GCS_INTENT_PREFIX",
                    defaults.policy.intent_prefix,
                ),
                vehicle_topic_prefix: value_or(
                    vars,
                    "ELECTRODE_GCS_VEHICLE_TOPIC_PREFIX",
                    defaults.policy.vehicle_topic_prefix,
                ),
                parameter_key: value_or(
                    vars,
                    "ELECTRODE_GCS_PARAMETER_KEY",
                    defaults.policy.parameter_key,
                ),
                firmware_key_prefix: value_or(
                    vars,
                    "ELECTRODE_GCS_FIRMWARE_KEY_PREFIX",
                    defaults.policy.firmware_key_prefix,
                ),
                velocity_min_mps_bits: 0x3f80_0000,
                velocity_max_mps_bits: 0x4080_0000,
                velocity_budget: clamp_limit(budget),
                velocity_budget_json: path_or(
                    vars,
                    "ELECTRODE_GCS_VELOCITY_BUDGET_DB",
                    defaults.policy.velocity_budget_json,
                ),
                velocity_budget_csv: path_or(
                    vars,
                    "ELECTRODE_GCS_VELOCITY_BUDGET_CSV",
                    defaults.policy.velocity_budget_csv,
                ),
                raw_max_bytes: defaults.policy.raw_max_bytes,
            },
        }
    }

    /// The endpoints that the runtime listens on: the vehicle's and the
    /// browser's, as far as they are not blank.
    pub fn listeners(&self) -> (endpoints: Vec<String>)
        ensures
            endpoints@.map_values(|endpoint: String| endpoint@) == listeners_of(self@),
    {
        let mut endpoints: Vec<String> = Vec::new();
        if !is_blank(&chars_of(self.vehicle_listen.as_str())) {
            endpoints.push(self.vehicle_listen.clone());
        }
        if !is_blank(&chars_of(self.browser_listen.as_str())) {
            endpoints.push(self.browser_listen.clone());
        }
        assert(endpoints@.map_values(|endpoint: String| endpoint@) =~= listeners_of(self@));
        endpoints
    }
}

/// `text` as a list of one, or of none where it is blank.
pub open spec fn unless_blank(text: Seq<char>) -> Seq<Seq<char>> {
    if blank(text) {
        Seq::empty()
    } else {
        seq![text]
    }
}

/// The endpoints that the runtime listens on.
pub open spec fn listeners_of(config: AuthorityConfigView) -> Seq<Seq<char>> {
    unless_blank(config.vehicle_listen) + unless_blank(config.browser_listen)
}

/// A list with the one string `endpoint`, in JSON.
pub open spec fn endpoint_list(endpoint: Seq<char>) -> Seq<char> {
    "[\""@ + endpoint + "\"]"@
}

/// The settings of one of the two sessions, in the order in which they are
/// made: a peer that listens and connects where it is told to and never looks
/// for others.
pub open spec fn session_settings_of(listen: Seq<char>, connect: Option<Seq<char>>) -> Seq<
    (Seq<char>, Seq<char>),
> {
    let listening = if blank(listen) {
        Seq::empty()
    } else {
        seq![("listen/endpoints"@, endpoint_list(trimmed(listen)))]
    };
    let connecting = if connect is None || blank(connect->0) {
        Seq::empty()
    } else {
        seq![("connect/endpoints"@, endpoint_list(trimmed(connect->0)))]
    };
    seq![("mode"@, "\"peer\""@)] + listening + connecting + seq![
        ("scouting/multicast/enabled"@, "false"@),
    ]
}

/// One setting with a list of one endpoint.
fn endpoint_setting(name: &str, endpoint: &str) -> (made: (String, String))
    ensures
        made.0@ == name@,
        made.1@ == endpoint_list(trimmed(endpoint@)),
{
    let mut value = concat("[\"", trim(endpoint).as_str());
    value.append("\"]");
    (name.to_owned(), value)
}

/// The settings of one of the two sessions.
pub fn session_settings(listen: &str, connect: &Option<String>) -> (settings: Vec<
    (String, String),
>)
    ensures
        variable_views(settings@) == session_settings_of(listen@, text_view(*connect)),
{
    let mut settings: Vec<(String, String)> = Vec::new();
    settings.push(("mode".to_owned(), "\"peer\"".to_owned()));
    if !is_blank(&chars_of(listen)) {
        settings.push(endpoint_setting("listen/endpoints", listen));
    }
    match connect {
        Some(connect) => {
            if !is_blank(&chars_of(connect.as_str())) {
                settings.push(endpoint_setting("connect/endpoints", connect.as_str()));
            }
        },
        None => {},
    }
    settings.push(("scouting/multicast/enabled".to_owned(), "false".to_owned()));
    assert(variable_views(settings@) =~= session_settings_of(listen@, text_view(*connect)));
    settings
}

} // verus!
