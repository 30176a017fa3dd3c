use std::cell::{Cell, RefCell};

use electrode_command_authority::csv::serialize_csv;
use electrode_command_authority::velocity_budget::{BudgetFiles, BudgetState, CsvFile};
use electrode_command_authority::{
    AuthorizedCommand, CommandAuthorityConfig, CommandPolicy, Delivery, PolicyConfig,
    CANONICAL_FIRMWARE_QUERY_KEYS,
};
use flatbuffers::FlatBufferBuilder;
use sha2::{Digest, Sha256};
use synapse_fbs::cmd::{
    ParamKind, ParamSetRequest, ParamSetRequestArgs, ParamValue, ParamValueArgs,
};

const TEAM_A: &str = "team-alpha";
const TEAM_B: &str = "team-beta";

/// A policy with its budget files in memory and a clock that ticks.
struct PolicyFixture {
    policy: CommandPolicy,
    config: PolicyConfig,
    files: RefCell<BudgetFiles>,
    clock: Cell<u128>,
    team: String,
}

impl PolicyFixture {
    fn with_config(config: PolicyConfig, files: BudgetFiles) -> PolicyFixture {
        PolicyFixture {
            policy: CommandPolicy::new(config.clone()),
            config,
            files: RefCell::new(files),
            clock: Cell::new(1_700_000_000_000_000_000),
            team: TEAM_A.to_string(),
        }
    }

    fn tick(&self) -> Option<u128> {
        self.clock.set(self.clock.get() + 1_000);
        Some(self.clock.get())
    }

    fn authorize(&self, key: &str, payload: &[u8]) -> Result<AuthorizedCommand, String> {
        let now = self.tick();
        let outcome = self
            .policy
            .authorize(&self.files.borrow(), now, key, payload);
        let authorization = outcome.map_err(|error| error.to_string())?;
        if let Some(database) = authorization.saved {
            self.write_csv(serialize_csv(&database));
        }
        Ok(authorization.command)
    }

    fn refund(&self, device: &str, credential_id: &str) -> Result<BudgetState, String> {
        let now = self.tick();
        let outcome =
            self.policy
                .refund_velocity(&self.files.borrow(), now, device, credential_id)?;
        if let Some(database) = outcome.saved {
            self.write_csv(serialize_csv(&database));
        }
        Ok(outcome.state)
    }

    fn state_for(&self, payload: &[u8]) -> Result<BudgetState, String> {
        let now = self.tick();
        self.policy
            .velocity_state_for_payload(&self.files.borrow(), now, payload)
            .map(|outcome| outcome.state)
    }

    fn write_csv(&self, contents: String) {
        *self.files.borrow_mut() = BudgetFiles {
            csv: CsvFile::Contents(contents),
            mirror_exists: true,
        };
    }

    fn csv(&self) -> Option<String> {
        match &self.files.borrow().csv {
            CsvFile::Contents(contents) => Some(contents.clone()),
            _ => None,
        }
    }
}

fn fresh() -> BudgetFiles {
    BudgetFiles {
        csv: CsvFile::Missing,
        mirror_exists: false,
    }
}

fn policy() -> PolicyFixture {
    PolicyFixture::with_config(PolicyConfig::default(), fresh())
}

/// The public 16-hex credential id the authority derives from a team name.
fn credential_id(team: &str) -> String {
    let full: String = Sha256::digest(team.as_bytes())
        .iter()
        .map(|byte| format!("{byte:02x}"))
        .collect();
    full[..16].to_string()
}

#[test]
fn default_runtime_uses_distinct_browser_and_vehicle_transports() {
    let config = CommandAuthorityConfig::default();
    assert!(config.browser_listen.starts_with("ws/"));
    assert!(config.vehicle_listen.starts_with("udp/"));
    assert_ne!(config.browser_listen, config.vehicle_listen);
}

fn velocity(x: f32, y: f32, z: f32) -> Vec<u8> {
    let mut payload = vec![0_u8; 56];
    payload[20..24].copy_from_slice(&x.to_le_bytes());
    payload[24..28].copy_from_slice(&y.to_le_bytes());
    payload[28..32].copy_from_slice(&z.to_le_bytes());
    payload[52..54].copy_from_slice(&3527_u16.to_le_bytes());
    payload
}

fn velocity_intent(team: &str, x: f32, y: f32, z: f32) -> Vec<u8> {
    envelope(b"EVC1", team, &velocity(x, y, z))
}

fn velocity_budget_request(team: &str) -> Vec<u8> {
    envelope(b"EVB1", team, &[])
}

fn raw_velocity_intent(team: &str, payload: &[u8]) -> Vec<u8> {
    envelope(b"EVR1", team, payload)
}

/// Team-name credential envelope: `magic(4) | name_len(1) | name | payload`.
fn envelope(magic: &[u8; 4], team: &str, payload: &[u8]) -> Vec<u8> {
    let name = team.as_bytes();
    let mut envelope = Vec::with_capacity(5 + name.len() + payload.len());
    envelope.extend_from_slice(magic);
    envelope.push(name.len() as u8);
    envelope.extend_from_slice(name);
    envelope.extend_from_slice(payload);
    envelope
}

fn manual(flags: u8) -> Vec<u8> {
    let mut payload = vec![0_u8; 40];
    payload[12..14].copy_from_slice(&15_u16.to_le_bytes());
    payload[18..20].copy_from_slice(&700_i16.to_le_bytes());
    payload[35] = flags;
    payload
}

fn radio(channel: u16) -> Vec<u8> {
    let mut payload = vec![0_u8; 48];
    payload[8] = 5;
    payload[9] = 100;
    for index in 0..5 {
        let offset = 10 + index * 2;
        payload[offset..offset + 2].copy_from_slice(&channel.to_le_bytes());
    }
    payload
}

fn parameter(name: &str, value: f64) -> Vec<u8> {
    let mut builder = FlatBufferBuilder::new();
    let name = builder.create_string(name);
    let parameter = ParamValue::create(
        &mut builder,
        &ParamValueArgs {
            name: Some(name),
            kind: ParamKind::Float,
            float_value: value,
            ..Default::default()
        },
    );
    let request = ParamSetRequest::create(
        &mut builder,
        &ParamSetRequestArgs {
            value: Some(parameter),
        },
    );
    builder.finish(request, None);
    builder.finished_data().to_vec()
}

#[test]
fn maps_only_valid_x_velocity_and_enforces_budget() {
    let policy = policy();
    let bare = velocity(2.5, 0.0, 0.0);
    let command = policy
        .authorize(
            "gcs/v1/cmd/velocity",
            &velocity_intent(&policy.team, 2.5, 0.0, 0.0),
        )
        .unwrap();
    assert_eq!(command.delivery, Delivery::Publish);
    assert_eq!(command.target, "synapse/v1/topic/local_position_command");
    assert_eq!(command.payload, bare);
    assert_eq!(command.velocity_used, Some(1));
    assert_eq!(command.velocity_remaining, Some(4));
    let first_version = command
        .velocity_budget_version
        .as_deref()
        .unwrap()
        .parse::<u128>()
        .unwrap();
    let expected_credential = credential_id(&policy.team);
    assert_eq!(
        command.velocity_credential_id.as_deref(),
        Some(expected_credential.as_str())
    );
    assert!(policy
        .authorize(
            "gcs/v1/cmd/velocity",
            &velocity_intent(&policy.team, 2.5, 0.1, 0.0),
        )
        .is_err());
    for _ in 0..4 {
        policy
            .authorize(
                "gcs/v1/cmd/velocity",
                &velocity_intent(&policy.team, 1.0, 0.0, 0.0),
            )
            .unwrap();
    }
    assert!(policy
        .authorize(
            "gcs/v1/cmd/velocity",
            &velocity_intent(&policy.team, 1.0, 0.0, 0.0),
        )
        .is_err());
    let state = policy
        .authorize(
            "gcs/v1/cmd/velocity_budget",
            &velocity_budget_request(&policy.team),
        )
        .unwrap();
    assert_eq!(state.delivery, Delivery::Budget);
    assert_eq!(state.velocity_used, Some(5));
    assert_eq!(state.velocity_remaining, Some(0));
    assert!(
        state
            .velocity_budget_version
            .as_deref()
            .unwrap()
            .parse::<u128>()
            .unwrap()
            > first_version
    );
}

#[test]
fn typed_manual_and_radio_have_exact_mappings_and_ranges() {
    let policy = policy();
    assert_eq!(
        policy
            .authorize("gcs/v1/cmd/manual", &manual(12))
            .unwrap()
            .target,
        "synapse/v1/topic/manual_control_command"
    );
    assert!(policy.authorize("gcs/v1/cmd/manual", &manual(0)).is_err());
    assert_eq!(
        policy
            .authorize("gcs/v1/cmd/radio", &radio(1500))
            .unwrap()
            .target,
        "synapse/v1/topic/radio_control"
    );
    assert!(policy.authorize("gcs/v1/cmd/radio", &radio(899)).is_err());
    assert!(policy.authorize("gcs/v1/cmd/radio", &radio(2101)).is_err());
}

#[test]
fn gain_is_schema_verified_and_allowlisted() {
    let policy = policy();
    let command = policy
        .authorize("gcs/v1/cmd/gain", &parameter("attitude.headingPid.kp", 1.2))
        .unwrap();
    assert_eq!(command.delivery, Delivery::Query);
    assert_eq!(command.target, "synapse/v1/cmd/param_set");
    assert!(policy
        .authorize(
            "gcs/v1/cmd/gain",
            &parameter("attitude.headingPid.trim", 1.0),
        )
        .is_err());
    assert!(policy
        .authorize(
            "gcs/v1/cmd/config",
            &parameter("attitude.headingPid.kp", 1.2),
        )
        .is_err());
}

#[test]
fn raw_path_is_one_bounded_leaf_and_preserves_selected_topics() {
    let policy = policy();
    assert_eq!(
        policy
            .authorize("gcs/v1/cmd/raw/text_status", b"operator bytes")
            .unwrap()
            .target,
        "synapse/v1/topic/text_status"
    );
    let payload = (0_u8..40).collect::<Vec<_>>();
    let command = policy
        .authorize("gcs/v1/cmd/raw/manual_control_command", &payload)
        .unwrap();
    assert_eq!(command.target, "synapse/v1/topic/manual_control_command");
    assert_eq!(command.payload, payload);
    assert!(policy
        .authorize(
            "gcs/v1/cmd/raw/local_position_command",
            &velocity(2.0, 0.0, 0.0),
        )
        .is_err());
    let arbitrary = (0_u8..37).collect::<Vec<_>>();
    let command = policy
        .authorize(
            "gcs/v1/cmd/raw/local_position_command",
            &raw_velocity_intent(&policy.team, &arbitrary),
        )
        .unwrap();
    assert_eq!(command.payload, arbitrary);
    assert_eq!(command.status_leaf, "velocity");
    assert_eq!(command.velocity_remaining, Some(4));
    assert!(policy
        .authorize("gcs/v1/cmd/raw/nested/channel", &[0; 16])
        .is_err());
    assert!(policy
        .authorize("gcs/v1/cmd/raw/text_status", &vec![0; 4097])
        .is_err());
}

#[test]
fn bare_velocity_and_invalid_team_names_fail_while_new_teams_auto_enroll() {
    let policy = policy();
    // No credential envelope at all.
    assert!(policy
        .authorize("gcs/v1/cmd/velocity", &velocity(2.0, 0.0, 0.0))
        .is_err());
    // A syntactically invalid team name (contains a space) is rejected.
    assert!(policy
        .authorize(
            "gcs/v1/cmd/velocity",
            &velocity_intent("bad team", 2.0, 0.0, 0.0),
        )
        .is_err());
    // A brand-new valid team auto-enrolls, creating its budget row on first use.
    let command = policy
        .authorize(
            "gcs/v1/cmd/velocity",
            &velocity_intent("team-newcomer", 2.0, 0.0, 0.0),
        )
        .unwrap();
    assert_eq!(command.velocity_used, Some(1));
    assert_eq!(command.velocity_remaining, Some(4));
    assert!(policy.csv().is_some());
}

#[test]
fn budget_survives_policy_restart() {
    let policy = policy();
    for _ in 0..2 {
        policy
            .authorize(
                "gcs/v1/cmd/velocity",
                &velocity_intent(&policy.team, 2.0, 0.0, 0.0),
            )
            .unwrap();
    }
    let restarted = PolicyFixture::with_config(policy.config.clone(), policy.files.take_files());
    let state = restarted
        .authorize(
            "gcs/v1/cmd/velocity_budget",
            &velocity_budget_request(&policy.team),
        )
        .unwrap();
    assert_eq!(state.velocity_used, Some(2));
    assert_eq!(state.velocity_remaining, Some(3));
}

/// Hands the files of one fixture to another.
trait TakeFiles {
    fn take_files(&self) -> BudgetFiles;
}

impl TakeFiles for RefCell<BudgetFiles> {
    fn take_files(&self) -> BudgetFiles {
        self.replace(fresh())
    }
}

#[test]
fn json_without_csv_and_empty_csv_fail_closed() {
    let policy = policy();
    policy.files.borrow_mut().mirror_exists = true;
    let missing_csv = policy
        .authorize(
            "gcs/v1/cmd/velocity_budget",
            &velocity_budget_request(&policy.team),
        )
        .unwrap_err()
        .to_string();
    assert!(missing_csv.contains("authoritative velocity budget CSV"));
    assert!(policy.csv().is_none());

    policy.write_csv(String::new());
    let empty_csv = policy
        .authorize(
            "gcs/v1/cmd/velocity_budget",
            &velocity_budget_request(&policy.team),
        )
        .unwrap_err()
        .to_string();
    assert!(empty_csv.contains("empty or has an invalid header"));
}

#[test]
fn programmatic_budget_above_five_is_normalized_in_authorized_state() {
    let mut config = PolicyConfig::default();
    config.velocity_budget = 99;
    let policy = PolicyFixture::with_config(config, fresh());
    let state = policy
        .authorize(
            "gcs/v1/cmd/velocity_budget",
            &velocity_budget_request(&policy.team),
        )
        .unwrap();
    assert_eq!(state.velocity_limit, Some(5));
    assert_eq!(state.velocity_remaining, Some(5));
}

#[test]
fn a_budget_check_alone_does_not_register_a_team() {
    let policy = policy();
    // Checking the budget for a never-used team returns a full 5/5 without
    // writing any CSV row: registration happens only on the first command.
    let state = policy
        .authorize(
            "gcs/v1/cmd/velocity_budget",
            &velocity_budget_request("team-checking"),
        )
        .unwrap();
    assert_eq!(state.velocity_used, Some(0));
    assert_eq!(state.velocity_remaining, Some(5));
    assert!(policy.csv().is_none());

    // The first velocity command registers the team by creating its row.
    policy
        .authorize(
            "gcs/v1/cmd/velocity",
            &velocity_intent("team-checking", 2.0, 0.0, 0.0),
        )
        .unwrap();
    let csv = policy.csv().unwrap();
    assert!(csv.contains("team-checking,1,5"));
}

#[test]
fn csv_is_authoritative_and_only_deleted_team_row_resets() {
    let policy = policy();
    for _ in 0..2 {
        policy
            .authorize("gcs/v1/cmd/velocity", &velocity_intent(TEAM_A, 2.0, 0.0, 0.0))
            .unwrap();
    }
    policy
        .authorize("gcs/v1/cmd/velocity", &velocity_intent(TEAM_B, 2.0, 0.0, 0.0))
        .unwrap();

    let csv_preserved = policy
        .authorize("gcs/v1/cmd/velocity_budget", &velocity_budget_request(TEAM_A))
        .unwrap();
    assert_eq!(csv_preserved.velocity_used, Some(2));

    let csv = policy.csv().unwrap();
    let without_team_a = csv
        .lines()
        .filter(|line| !line.starts_with("team-alpha,"))
        .collect::<Vec<_>>()
        .join("\n")
        + "\n";
    policy.write_csv(without_team_a);

    let reset_a = policy
        .authorize("gcs/v1/cmd/velocity_budget", &velocity_budget_request(TEAM_A))
        .unwrap();
    let unchanged_b = policy
        .authorize("gcs/v1/cmd/velocity_budget", &velocity_budget_request(TEAM_B))
        .unwrap();
    assert_eq!(reset_a.velocity_used, Some(0));
    assert_eq!(reset_a.velocity_remaining, Some(5));
    assert_eq!(unchanged_b.velocity_used, Some(1));
    assert_eq!(unchanged_b.velocity_remaining, Some(4));
}

#[test]
fn duplicate_csv_team_rows_fail_closed() {
    let policy = policy();
    // Consume one command so the team's CSV row exists (a budget read alone
    // creates no row).
    policy
        .authorize(
            "gcs/v1/cmd/velocity",
            &velocity_intent(&policy.team, 2.0, 0.0, 0.0),
        )
        .unwrap();
    let csv = policy.csv().unwrap();
    let team_row = csv.lines().nth(1).unwrap().to_string();
    policy.write_csv(format!("{csv}{team_row}\n"));

    let error = policy
        .authorize(
            "gcs/v1/cmd/velocity_budget",
            &velocity_budget_request(&policy.team),
        )
        .unwrap_err()
        .to_string();
    assert!(error.contains("duplicate device id"));
}

#[test]
fn firmware_upload_uses_staged_authority_delivery() {
    let policy = policy();
    assert_eq!(
        PolicyConfig::default().firmware_key_prefix,
        "synapse/v1/cmd/firmware"
    );
    assert!(CANONICAL_FIRMWARE_QUERY_KEYS.contains(&"synapse/v1/cmd/firmware_abort"));
    let command = policy
        .authorize("gcs/v1/cmd/firmware/update-1/start", &[0; 32])
        .unwrap();
    assert_eq!(command.delivery, Delivery::Firmware);
    assert_eq!(command.target, "update-1/start");
    assert_eq!(command.status_leaf, "firmware/update-1");
    assert_eq!(command.payload, vec![0; 32]);
    assert!(policy
        .authorize("gcs/v1/cmd/firmware/update-1/chunk/2", &[1; 64])
        .is_ok());
    assert!(policy
        .authorize(
            "gcs/v1/cmd/firmware/update-1/chunk/2",
            &vec![1; 68 * 1024 + 1]
        )
        .is_err());
    assert!(policy
        .authorize("gcs/v1/cmd/firmware/../commit", &[0; 32])
        .is_err());
    assert!(policy
        .authorize("gcs/v1/cmd/firmware_info", &[0; 32])
        .is_err());
}

#[test]
fn of_twelve_commands_five_get_through() {
    let policy = policy();
    let mut accepted = 0;
    for round in 0..12 {
        // The policy is a new one each time: only the files remember.
        let fixture = PolicyFixture::with_config(policy.config.clone(), policy.files.take_files());
        let outcome = fixture.authorize(
            "gcs/v1/cmd/velocity",
            &velocity_intent(TEAM_A, 2.0, 0.0, 0.0),
        );
        if outcome.is_ok() {
            accepted += 1;
        } else {
            assert!(round >= 5);
            assert_eq!(outcome.unwrap_err(), "velocity command budget exhausted");
        }
        *policy.files.borrow_mut() = fixture.files.take_files();
    }
    assert_eq!(accepted, 5);
    let state = policy
        .authorize("gcs/v1/cmd/velocity_budget", &velocity_budget_request(TEAM_A))
        .unwrap();
    assert_eq!(state.velocity_used, Some(5));
    assert_eq!(state.velocity_remaining, Some(0));
    // The raw path draws on the same allowance, another team on its own.
    assert!(policy
        .authorize(
            "gcs/v1/cmd/raw/local_position_command",
            &raw_velocity_intent(TEAM_A, &[1, 2, 3]),
        )
        .is_err());
    assert!(policy
        .authorize("gcs/v1/cmd/velocity", &velocity_intent(TEAM_B, 4.0, -0.0, 0.0))
        .is_ok());
}

#[test]
fn a_refund_gives_the_command_back() {
    let policy = policy();
    let command = policy
        .authorize("gcs/v1/cmd/velocity", &velocity_intent(TEAM_A, 2.0, 0.0, 0.0))
        .unwrap();
    let state = policy
        .refund(
            command.velocity_device.as_deref().unwrap(),
            command.velocity_credential_id.as_deref().unwrap(),
        )
        .unwrap();
    assert_eq!(state.used, 0);
    assert_eq!(state.remaining, 5);
    assert_eq!(state.device_id, TEAM_A);
    assert_eq!(state.credential_id, credential_id(TEAM_A));
    assert!(
        state.budget_version.parse::<u128>().unwrap()
            > command
                .velocity_budget_version
                .unwrap()
                .parse::<u128>()
                .unwrap()
    );
    // A refund beyond what was used stops at nothing used.
    assert_eq!(policy.refund(TEAM_A, &state.credential_id).unwrap().used, 0);
}

#[test]
fn the_velocity_range_is_inclusive() {
    let policy = policy();
    let near = |x: f32| {
        let mut config = PolicyConfig::default();
        config.velocity_budget = 5;
        PolicyFixture::with_config(config, fresh())
            .authorize("gcs/v1/cmd/velocity", &velocity_intent(TEAM_A, x, 0.0, 0.0))
    };
    assert!(near(1.0).is_ok());
    assert!(near(4.0).is_ok());
    assert!(near(0.999_999_9).is_err());
    assert!(near(4.000_000_5).is_err());
    assert!(near(-2.0).is_err());
    assert!(near(f32::NAN).is_err());
    assert!(near(f32::INFINITY).is_err());
    assert!(near(0.0).is_err());
    assert_eq!(
        near(9.0).unwrap_err(),
        "velocity command requires an X velocity within range and no other"
    );
    let mut long = velocity(2.0, 0.0, 0.0);
    long.push(0);
    assert!(policy
        .authorize("gcs/v1/cmd/velocity", &envelope(b"EVC1", TEAM_A, &long))
        .is_err());
    assert_eq!(policy.config.velocity_min_mps_bits, 1.0_f32.to_bits());
    assert_eq!(policy.config.velocity_max_mps_bits, 4.0_f32.to_bits());
}

#[test]
fn the_commanded_speed_is_recorded() {
    let policy = policy();
    policy
        .authorize("gcs/v1/cmd/velocity", &velocity_intent(TEAM_A, 2.5, 0.0, 0.0))
        .unwrap();
    assert_eq!(
        policy.csv().unwrap(),
        "device_id,used,limit,created_at,updated_at,last_velocity_mps,last_applied_at\n\
         team-alpha,1,5,1700000000000001000,1700000000000001001,2.5,1700000000000001000\n"
    );
    // A raw command counts but leaves the recorded speed alone.
    policy
        .authorize(
            "gcs/v1/cmd/raw/local_position_command",
            &raw_velocity_intent(TEAM_A, &[]),
        )
        .unwrap();
    assert!(policy
        .csv()
        .unwrap()
        .ends_with("team-alpha,2,5,1700000000000001000,1700000000000002000,2.5,1700000000000002000\n"));
}

#[test]
fn each_refusal_says_why() {
    let policy = policy();
    let refused = |key: &str, payload: &[u8]| policy.authorize(key, payload).unwrap_err();
    assert_eq!(
        refused("gcs/v1/cmd/velocity", &velocity(2.0, 0.0, 0.0)),
        "velocity command requires a team credential envelope"
    );
    assert_eq!(
        refused("gcs/v1/cmd/velocity", &velocity_intent("bad team", 2.0, 0.0, 0.0)),
        "team name must be 1-128 characters of letters, numbers, dot, underscore, colon, or hyphen"
    );
    assert_eq!(
        refused("gcs/v1/cmd/velocity_budget", b"EVB1"),
        "velocity budget request requires a team credential envelope"
    );
    assert_eq!(
        refused("gcs/v1/cmd/velocity_budget", &envelope(b"EVB1", TEAM_A, &[7])),
        "velocity budget request carries no payload"
    );
    assert_eq!(
        refused("gcs/v1/cmd/manual", &[0; 39]),
        "manual control command is invalid"
    );
    assert_eq!(
        refused("gcs/v1/cmd/radio", &[0; 48]),
        "radio control command is invalid"
    );
    assert!(refused("gcs/v1/cmd/gain", &[1, 2, 3]).starts_with("invalid ParamSetRequest: "));
    assert_eq!(
        refused("gcs/v1/cmd/gain", &parameter("attitude.mode", 1.0)),
        "parameter is not a tunable gain"
    );
    assert_eq!(
        refused("gcs/v1/cmd/gain", &parameter("rate.rollPid.kd", f64::NAN)),
        "gain must be a finite floating-point value"
    );
    assert_eq!(
        refused("gcs/v1/cmd/raw/a/b", &[]),
        "raw topic must be one safe segment"
    );
    assert_eq!(
        refused("gcs/v1/cmd/raw/text_status", &[0; 4097]),
        "raw payload is too large"
    );
    assert_eq!(
        refused("gcs/v1/cmd/raw/local_position_command", &[0; 8]),
        "raw velocity command requires a team credential envelope"
    );
    assert_eq!(
        refused(
            "gcs/v1/cmd/raw/local_position_command",
            &raw_velocity_intent(TEAM_A, &[0; 4097])
        ),
        "raw payload is too large"
    );
    assert_eq!(
        refused("gcs/v1/cmd/firmware/update-1/erase", &[]),
        "firmware intent is not a staged update step"
    );
    assert_eq!(
        refused("gcs/v1/cmd/firmware/update-1/start", &vec![0; 69_633]),
        "firmware payload is too large"
    );
    assert_eq!(refused("gcs/v1/cmd/other", &[]), "intent is not mapped");
    assert_eq!(refused("elsewhere/velocity", &[]), "intent is not mapped");
    assert!(policy.csv().is_none());
}

#[test]
fn a_gain_request_without_a_value_is_refused() {
    let mut builder = FlatBufferBuilder::new();
    let request = ParamSetRequest::create(&mut builder, &ParamSetRequestArgs { value: None });
    builder.finish(request, None);
    let policy = policy();
    let error = policy
        .authorize("gcs/v1/cmd/gain", builder.finished_data())
        .unwrap_err();
    assert_eq!(error, "gain request carries no value");
}

#[test]
fn a_slash_at_the_end_of_a_prefix_changes_nothing() {
    let mut config = PolicyConfig::default();
    config.intent_prefix = "gcs/v1/cmd//".to_string();
    config.vehicle_topic_prefix = "synapse/v1/topic/".to_string();
    let policy = PolicyFixture::with_config(config, fresh());
    let command = policy
        .authorize("gcs/v1/cmd/manual", &manual(12))
        .unwrap();
    assert_eq!(command.target, "synapse/v1/topic/manual_control_command");
    assert_eq!(command.status_leaf, "manual");
    assert_eq!(command.velocity_device, None);
    assert_eq!(command.velocity_remaining, None);
}

#[test]
fn a_payload_names_its_team_in_any_envelope() {
    let policy = policy();
    policy
        .authorize("gcs/v1/cmd/velocity", &velocity_intent(TEAM_A, 2.0, 0.0, 0.0))
        .unwrap();
    for payload in [
        velocity_intent(TEAM_A, 9.0, 9.0, 9.0),
        velocity_budget_request(TEAM_A),
        raw_velocity_intent(TEAM_A, &[0; 3]),
    ] {
        let state = policy.state_for(&payload).unwrap();
        assert_eq!(state.used, 1);
        assert_eq!(state.limit, 5);
        assert_eq!(
            CommandPolicy::credential_id_for_payload(&payload),
            Some(credential_id(TEAM_A))
        );
    }
    assert_eq!(
        policy.state_for(b"XXXX\x01aa").unwrap_err(),
        "payload carries no team credential envelope"
    );
    assert_eq!(CommandPolicy::credential_id_for_payload(&[]), None);
    assert_eq!(
        CommandPolicy::credential_id_for_payload(&velocity_budget_request("bad team")),
        None
    );
    assert!(policy.state_for(&velocity_budget_request("bad team")).is_err());
}

#[test]
fn the_policy_says_where_its_files_are() {
    let mut config = PolicyConfig::default();
    config.velocity_budget_csv = "a.csv".to_string();
    config.velocity_budget_json = "a.json".to_string();
    assert_eq!(
        CommandPolicy::new(config).budget_paths(),
        ("a.csv".to_string(), "a.json".to_string())
    );
}

#[test]
fn an_unreadable_csv_fails_closed() {
    let policy = policy();
    policy.files.borrow_mut().csv = CsvFile::Unreadable("permission denied".to_string());
    let error = policy
        .authorize("gcs/v1/cmd/velocity", &velocity_intent(TEAM_A, 2.0, 0.0, 0.0))
        .unwrap_err();
    assert_eq!(
        error,
        format!(
            "read velocity budget CSV {}: permission denied",
            policy.config.velocity_budget_csv
        )
    );
}
