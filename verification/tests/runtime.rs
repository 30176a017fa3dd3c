use electrode_command_authority::dispatch::{
    enqueue_query, execute_publish, execute_query, intent_subscription, publish_policy_error,
    refused_intent, relay_verified_mocap, report_refund, route_command, worker_task, IntentStep,
    PublishStep, QueryReply, QueueOutcome, RefusedIntent, WorkerTask,
};
use electrode_command_authority::runtime::{
    optional, path_or, session_settings, value_or, PARAMETER_QUEUE_CAPACITY, PRIVATE_MOCAP_TOPIC,
    RELAYED_TOPICS,
};
use electrode_command_authority::status::{
    parameter_reply_status, publish_status, publish_unknown_velocity_status,
    publish_velocity_status, publish_velocity_status_fields, reply_status, status_prefix,
    Publication, VelocityFields,
};
use electrode_command_authority::velocity_budget::{BudgetFiles, BudgetState, CsvFile};
use electrode_command_authority::wire::BUFFER_MAX_BYTES;
use electrode_command_authority::{
    AuthorizedCommand, CommandAuthorityConfig, CommandPolicy, Delivery, PolicyConfig,
};
use flatbuffers::FlatBufferBuilder;
use serde_json::Value;
use synapse_fbs::cmd::{ParamSetReply, ParamSetReplyArgs};
use synapse_fbs::topic::{MocapFrame, MocapFrameArgs};
use synapse_fbs::types::CommandResultCode;

fn reply(result: CommandResultCode, result_detail: i32) -> Vec<u8> {
    let mut builder = FlatBufferBuilder::new();
    let reply = ParamSetReply::create(
        &mut builder,
        &ParamSetReplyArgs {
            result,
            result_detail,
            ..Default::default()
        },
    );
    builder.finish(reply, None);
    builder.finished_data().to_vec()
}

#[test]
fn parameter_reply_result_controls_browser_status() {
    assert_eq!(
        parameter_reply_status(&reply(CommandResultCode::Accepted, 0))
            .unwrap()
            .0,
        "accepted"
    );
    assert_eq!(
        parameter_reply_status(&reply(CommandResultCode::InProgress, 0))
            .unwrap()
            .0,
        "in_progress"
    );
    let denied = parameter_reply_status(&reply(CommandResultCode::Denied, 7))
        .unwrap_err()
        .to_string();
    assert!(denied.contains("Denied"));
    assert!(denied.contains("detail 7"));
}

#[test]
fn every_result_code_has_its_status() {
    let status = |code: u8, detail: i32| reply_status(&Ok((code, detail)));
    assert_eq!(
        status(0, 3),
        Ok(("accepted", "target service accepted the gain".to_string()))
    );
    assert_eq!(
        status(5, 3),
        Ok((
            "in_progress",
            "target service is applying the gain".to_string()
        ))
    );
    for (code, name) in [
        (1, "TemporarilyRejected"),
        (2, "Denied"),
        (3, "Unsupported"),
        (4, "Failed"),
        (6, "Cancelled"),
        (7, "unknown result"),
        (255, "unknown result"),
    ] {
        let message = format!("target service returned {name} (detail -12)");
        assert_eq!(status(code, -12), Err(message.clone()));
        assert_eq!(
            parameter_reply_status(&reply(CommandResultCode(code), -12)),
            Err(message)
        );
    }
    assert_eq!(
        reply_status(&Err("too short".to_string())),
        Err("invalid ParamSetReply: too short".to_string())
    );
    assert!(parameter_reply_status(&[0, 1])
        .unwrap_err()
        .starts_with("invalid ParamSetReply: "));
}

#[test]
fn a_buffer_beyond_the_bound_is_refused_unread() {
    let long = vec![0_u8; BUFFER_MAX_BYTES + 1];
    assert_eq!(
        parameter_reply_status(&long),
        Err("invalid ParamSetReply: buffer is longer than a FlatBuffer can be".to_string())
    );
    let policy = CommandPolicy::new(PolicyConfig::default());
    let files = BudgetFiles {
        csv: CsvFile::Missing,
        mirror_exists: false,
    };
    let refused = policy
        .authorize(&files, None, "gcs/v1/cmd/gain", &long)
        .unwrap_err();
    assert_eq!(
        refused.to_string(),
        "invalid ParamSetRequest: buffer is longer than a FlatBuffer can be"
    );
}

fn json(publication: &Publication) -> Value {
    serde_json::from_slice(&publication.payload).unwrap()
}

fn fields(publication: &Publication) -> (String, String) {
    let value = json(publication);
    (
        value["status"].as_str().unwrap().to_string(),
        value["message"].as_str().unwrap().to_string(),
    )
}

fn budget() -> BudgetState {
    BudgetState {
        device_id: "team-alpha".to_string(),
        credential_id: "00112233aabbccdd".to_string(),
        limit: 5,
        used: 2,
        remaining: 3,
        budget_version: "17".to_string(),
    }
}

fn command(delivery: Delivery) -> AuthorizedCommand {
    AuthorizedCommand {
        delivery,
        target: "synapse/v1/topic/x".to_string(),
        payload: vec![1, 2],
        status_leaf: "leaf".to_string(),
        velocity_device: None,
        velocity_credential_id: None,
        velocity_limit: None,
        velocity_used: None,
        velocity_remaining: None,
        velocity_budget_version: None,
    }
}

fn charged() -> AuthorizedCommand {
    AuthorizedCommand {
        velocity_device: Some("team-alpha".to_string()),
        velocity_credential_id: Some("00112233aabbccdd".to_string()),
        velocity_limit: Some(5),
        velocity_used: Some(2),
        velocity_remaining: Some(3),
        velocity_budget_version: Some("17".to_string()),
        status_leaf: "velocity".to_string(),
        ..command(Delivery::Publish)
    }
}

#[test]
fn the_status_prefix_drops_the_command_segment() {
    assert_eq!(status_prefix("gcs/v1/cmd"), "gcs/v1");
    assert_eq!(status_prefix("gcs/v1/cmd/"), "gcs/v1/cmd/");
    assert_eq!(status_prefix("cmd"), "cmd");
    assert_eq!(status_prefix("/cmd"), "");
}

#[test]
fn a_status_is_json_under_its_leaf() {
    let config = CommandAuthorityConfig::default();
    let publication = publish_status(&config, "gain", "rejected", "say \"no\"\n");
    assert_eq!(publication.key, "gcs/v1/status/gain");
    assert_eq!(
        String::from_utf8(publication.payload).unwrap(),
        "{\"message\":\"say \\\"no\\\"\\n\",\"status\":\"rejected\"}"
    );
}

#[test]
fn a_velocity_status_is_scoped_to_its_credential() {
    let config = CommandAuthorityConfig::default();
    let publication = publish_velocity_status(&config, "state", &budget(), "hello");
    assert_eq!(publication.key, "gcs/v1/status/velocity/00112233aabbccdd");
    assert_eq!(
        String::from_utf8(publication.payload).unwrap(),
        "{\"budgetVersion\":\"17\",\"credentialId\":\"00112233aabbccdd\",\
         \"deviceId\":\"team-alpha\",\"limit\":5,\"message\":\"hello\",\"remaining\":3,\
         \"status\":\"state\",\"used\":2}"
    );
    let unknown = publish_unknown_velocity_status(&config, &None, "no");
    assert_eq!(unknown.key, "gcs/v1/status/velocity");
    let value = json(&unknown);
    assert_eq!(value["limit"], 5);
    assert_eq!(value["used"], 5);
    assert_eq!(value["remaining"], 0);
    assert_eq!(value["deviceId"], Value::Null);
    assert_eq!(value["credentialId"], Value::Null);
    assert_eq!(value["budgetVersion"], Value::Null);
    let named = publish_unknown_velocity_status(&config, &Some("ab".to_string()), "no");
    assert_eq!(named.key, "gcs/v1/status/velocity/ab");
    let free = publish_velocity_status_fields(
        &config,
        "x",
        &VelocityFields {
            device_id: None,
            credential_id: Some("cd".to_string()),
            limit: 1,
            used: 7,
            remaining: 9,
            budget_version: None,
        },
        "m",
    );
    assert_eq!(json(&free)["used"], 7);
}

#[test]
fn accepted_commands_go_where_they_are_delivered() {
    let mut config = CommandAuthorityConfig::default();
    config.policy.velocity_budget = 9;
    assert_eq!(
        route_command(&config, &command(Delivery::Publish)),
        IntentStep::Publish
    );
    for delivery in [Delivery::Query, Delivery::Firmware] {
        assert_eq!(route_command(&config, &command(delivery)), IntentStep::Enqueue);
    }
    match route_command(&config, &command(Delivery::Budget)) {
        IntentStep::Answer(publication) => {
            assert_eq!(publication.key, "gcs/v1/status/velocity");
            assert_eq!(
                fields(&publication),
                ("state".to_string(), "authoritative velocity budget".to_string())
            );
            // Without a budget of its own: the limit clamped, the count not.
            assert_eq!(json(&publication)["limit"], 5);
            assert_eq!(json(&publication)["used"], 9);
            assert_eq!(json(&publication)["remaining"], 0);
        }
        other => panic!("{other:?}"),
    }
    assert_eq!(worker_task(Delivery::Query), WorkerTask::Query);
    assert_eq!(worker_task(Delivery::Firmware), WorkerTask::Firmware);
    assert_eq!(worker_task(Delivery::Publish), WorkerTask::Drop);
    assert_eq!(worker_task(Delivery::Budget), WorkerTask::Drop);
}

#[test]
fn a_failed_velocity_command_is_refunded_and_reported() {
    let config = CommandAuthorityConfig::default();
    let failure = Some("session closed".to_string());
    assert_eq!(
        execute_publish(&config, &charged(), &failure),
        PublishStep::Refund {
            device: "team-alpha".to_string(),
            credential_id: "00112233aabbccdd".to_string(),
        }
    );
    let refunded = report_refund(&config, &charged(), "session closed", &Ok(budget()));
    assert_eq!(refunded.key, "gcs/v1/status/velocity/00112233aabbccdd");
    assert_eq!(
        fields(&refunded),
        ("failed".to_string(), "session closed".to_string())
    );
    let stuck = report_refund(
        &config,
        &charged(),
        "session closed",
        &Err("disk full".to_string()),
    );
    assert_eq!(
        fields(&stuck),
        (
            "failed".to_string(),
            "session closed; velocity budget refund failed: disk full".to_string()
        )
    );
    match execute_publish(&config, &command(Delivery::Publish), &failure) {
        PublishStep::Report(publication) => {
            assert_eq!(publication.key, "gcs/v1/status/leaf");
            assert_eq!(
                fields(&publication),
                ("failed".to_string(), "session closed".to_string())
            );
        }
        other => panic!("{other:?}"),
    }
}

#[test]
fn a_published_command_is_reported_as_accepted() {
    let config = CommandAuthorityConfig::default();
    let forwarded = (
        "accepted".to_string(),
        "command forwarded to the vehicle session".to_string(),
    );
    match execute_publish(&config, &charged(), &None) {
        PublishStep::Report(publication) => {
            assert_eq!(publication.key, "gcs/v1/status/velocity/00112233aabbccdd");
            assert_eq!(fields(&publication), forwarded);
            assert_eq!(json(&publication)["used"], 2);
            assert_eq!(json(&publication)["budgetVersion"], "17");
        }
        other => panic!("{other:?}"),
    }
    match execute_publish(&config, &command(Delivery::Publish), &None) {
        PublishStep::Report(publication) => {
            assert_eq!(publication.key, "gcs/v1/status/leaf");
            assert_eq!(fields(&publication), forwarded);
        }
        other => panic!("{other:?}"),
    }
}

#[test]
fn a_full_queue_is_reported() {
    let config = CommandAuthorityConfig::default();
    assert_eq!(PARAMETER_QUEUE_CAPACITY, 8);
    assert_eq!(enqueue_query(&config, "gain", QueueOutcome::Queued), None);
    let full = enqueue_query(&config, "gain", QueueOutcome::Full).unwrap();
    assert_eq!(full.key, "gcs/v1/status/gain");
    assert_eq!(
        fields(&full),
        ("rejected".to_string(), "command query queue is full".to_string())
    );
    let gone = enqueue_query(&config, "gain", QueueOutcome::Disconnected).unwrap();
    assert_eq!(
        fields(&gone),
        (
            "rejected".to_string(),
            "command query worker is unavailable".to_string()
        )
    );
}

#[test]
fn a_query_is_answered_whatever_came_back() {
    let config = CommandAuthorityConfig::default();
    let query = command(Delivery::Query);
    let bytes = reply(CommandResultCode::Accepted, 0);
    let reports = execute_query(&config, &query, &QueryReply::Sample(bytes.clone()));
    assert_eq!(reports.len(), 2);
    assert_eq!(reports[0].key, "gcs/v1/reply/leaf");
    assert_eq!(reports[0].payload, bytes);
    assert_eq!(reports[1].key, "gcs/v1/status/leaf");
    assert_eq!(fields(&reports[1]).0, "accepted");

    let denied = reply(CommandResultCode::Denied, 4);
    let reports = execute_query(&config, &query, &QueryReply::Sample(denied));
    assert_eq!(
        fields(&reports[1]),
        (
            "rejected".to_string(),
            "target service returned Denied (detail 4)".to_string()
        )
    );

    let reports = execute_query(&config, &query, &QueryReply::Nothing);
    assert_eq!(reports.len(), 1);
    assert_eq!(
        fields(&reports[0]),
        (
            "rejected".to_string(),
            "target service returned no reply".to_string()
        )
    );
    let reports = execute_query(&config, &query, &QueryReply::Failed("timeout".to_string()));
    assert_eq!(
        fields(&reports[0]),
        ("rejected".to_string(), "timeout".to_string())
    );
}

fn budget_request(team: &str) -> Vec<u8> {
    let mut payload = b"EVB1".to_vec();
    payload.push(team.len() as u8);
    payload.extend_from_slice(team.as_bytes());
    payload
}

#[test]
fn a_refused_intent_is_answered_where_it_belongs() {
    let config = CommandAuthorityConfig::default();
    let kind = |key: &str| refused_intent(&config, key);
    assert_eq!(kind("gcs/v1/cmd/velocity"), RefusedIntent::Velocity);
    assert_eq!(kind("gcs/v1/cmd/velocity_budget"), RefusedIntent::Velocity);
    assert_eq!(
        kind("gcs/v1/cmd/raw/local_position_command"),
        RefusedIntent::Velocity
    );
    assert_eq!(kind("gcs/v1/cmd/raw/text_status"), RefusedIntent::Other);
    assert_eq!(kind("gcs/v1/cmd/gain"), RefusedIntent::Gain);
    assert_eq!(
        kind("gcs/v1/cmd/firmware/update-1/start"),
        RefusedIntent::Firmware("update-1".to_string())
    );
    assert_eq!(
        kind("gcs/v1/cmd/firmware/"),
        RefusedIntent::Firmware(String::new())
    );
    assert_eq!(kind("gcs/v1/cmd/manual"), RefusedIntent::Other);
    assert_eq!(kind("other/velocity"), RefusedIntent::Other);

    let policy = CommandPolicy::new(config.policy.clone());
    let files = BudgetFiles {
        csv: CsvFile::Contents(
            "device_id,used,limit,created_at,updated_at,last_velocity_mps,last_applied_at\n\
             abc,5,5,1,2,,\n"
                .to_string(),
        ),
        mirror_exists: true,
    };
    let refuse = |files: &BudgetFiles, key: &str, payload: &[u8]| {
        publish_policy_error(&config, &policy, files, Some(3), key, payload, "because")
    };
    let exhausted = refuse(&files, "gcs/v1/cmd/velocity", &budget_request("abc"));
    assert_eq!(exhausted.report.key, "gcs/v1/status/velocity/ba7816bf8f01cfea");
    assert_eq!(json(&exhausted.report)["deviceId"], "abc");
    assert_eq!(json(&exhausted.report)["budgetVersion"], "2");
    assert_eq!(json(&exhausted.unsaved_report)["deviceId"], Value::Null);
    assert!(exhausted.saved.is_some());
    assert_eq!(exhausted.firmware_update, None);

    let broken = BudgetFiles {
        csv: CsvFile::Missing,
        mirror_exists: true,
    };
    let unknown = refuse(&broken, "gcs/v1/cmd/velocity_budget", &budget_request("abc"));
    assert_eq!(unknown.report.key, "gcs/v1/status/velocity/ba7816bf8f01cfea");
    assert_eq!(json(&unknown.report)["remaining"], 0);
    assert_eq!(json(&unknown.report)["used"], 5);
    assert_eq!(unknown.report, unknown.unsaved_report);

    let bare = refuse(&files, "gcs/v1/cmd/velocity", &[]);
    assert_eq!(bare.report.key, "gcs/v1/status/velocity");
    let gain = refuse(&files, "gcs/v1/cmd/gain", &budget_request("abc"));
    assert_eq!(gain.report.key, "gcs/v1/status/gain");
    assert_eq!(gain.saved, None);
    let firmware = refuse(&files, "gcs/v1/cmd/firmware/update-1/x", &[]);
    assert_eq!(firmware.firmware_update.as_deref(), Some("update-1"));
    assert_eq!(firmware.report.key, "gcs/v1/status/command");
    for refusal in [exhausted, unknown, bare, gain, firmware] {
        for report in [refusal.report, refusal.unsaved_report] {
            assert_eq!(
                fields(&report),
                ("rejected".to_string(), "because".to_string())
            );
        }
    }
}

#[test]
fn only_valid_mocap_frames_are_relayed() {
    let mut builder = FlatBufferBuilder::new();
    let frame = MocapFrame::create(
        &mut builder,
        &MocapFrameArgs {
            frame_number: 7,
            ..Default::default()
        },
    );
    builder.finish(frame, None);
    let bytes = builder.finished_data().to_vec();
    let relayed = relay_verified_mocap(&bytes).unwrap();
    assert_eq!(relayed.key, PRIVATE_MOCAP_TOPIC);
    assert_eq!(relayed.key, "electrode/sim/rumoca/mocap_frame");
    assert_eq!(relayed.payload, bytes);
    assert_eq!(relay_verified_mocap(&[]), None);
    assert_eq!(relay_verified_mocap(&[0xff; 16]), None);
    assert_eq!(
        RELAYED_TOPICS,
        [
            "synapse/v1/topic/**",
            "synapse/mocap/**",
            "electrode/sim/rumoca/radio_pwm_signal_outputs",
        ]
    );
}

#[test]
fn intents_are_subscribed_under_the_prefix() {
    let mut config = CommandAuthorityConfig::default();
    assert_eq!(intent_subscription(&config), "gcs/v1/cmd/**");
    config.policy.intent_prefix = "a/b///".to_string();
    assert_eq!(intent_subscription(&config), "a/b/**");
}

fn vars(pairs: &[(&str, &str)]) -> Vec<(String, String)> {
    pairs
        .iter()
        .map(|(key, value)| (key.to_string(), value.to_string()))
        .collect()
}

#[test]
fn settings_come_from_the_environment() {
    assert_eq!(
        CommandAuthorityConfig::from_env(&Vec::new()),
        CommandAuthorityConfig::default()
    );
    let config = CommandAuthorityConfig::from_env(&vars(&[
        ("ELECTRODE_GCS_ZENOH_WS_LISTEN", "ws/127.0.0.1:9000"),
        ("ELECTRODE_GCS_BROWSER_ZENOH_CONNECT", " "),
        ("ELECTRODE_GCS_ZENOH_LISTEN", "   "),
        ("ELECTRODE_GCS_ZENOH_CONNECT", "udp/10.0.0.2:7447"),
        ("ELECTRODE_GCS_QUERY_TIMEOUT_MS", "50"),
        ("ELECTRODE_GCS_INTENT_PREFIX", "x/cmd"),
        ("ELECTRODE_GCS_VEHICLE_TOPIC_PREFIX", "v/topic"),
        ("ELECTRODE_GCS_PARAMETER_KEY", "v/param"),
        ("ELECTRODE_GCS_FIRMWARE_KEY_PREFIX", "v/fw"),
        ("ELECTRODE_GCS_VELOCITY_BUDGET", "9"),
        ("ELECTRODE_GCS_VELOCITY_BUDGET_DB", "/tmp/b.json"),
        ("ELECTRODE_GCS_VELOCITY_BUDGET_CSV", "/tmp/b.csv"),
    ]));
    assert_eq!(config.browser_listen, "ws/127.0.0.1:9000");
    assert_eq!(config.browser_connect, None);
    assert_eq!(config.vehicle_listen, "udp/0.0.0.0:7447");
    assert_eq!(config.vehicle_connect.as_deref(), Some("udp/10.0.0.2:7447"));
    assert_eq!(config.query_timeout_ms, 100);
    assert_eq!(config.policy.intent_prefix, "x/cmd");
    assert_eq!(config.policy.vehicle_topic_prefix, "v/topic");
    assert_eq!(config.policy.parameter_key, "v/param");
    assert_eq!(config.policy.firmware_key_prefix, "v/fw");
    assert_eq!(config.policy.velocity_budget, 5);
    assert_eq!(config.policy.velocity_budget_json, "/tmp/b.json");
    assert_eq!(config.policy.velocity_budget_csv, "/tmp/b.csv");
    assert_eq!(config.policy.raw_max_bytes, PolicyConfig::default().raw_max_bytes);
    let timeout = |text: &str| {
        CommandAuthorityConfig::from_env(&vars(&[("ELECTRODE_GCS_QUERY_TIMEOUT_MS", text)]))
            .query_timeout_ms
    };
    assert_eq!(timeout("90000"), 60_000);
    assert_eq!(timeout("250"), 250);
    assert_eq!(timeout("soon"), 2_000);
    let limit = |text: &str| {
        CommandAuthorityConfig::from_env(&vars(&[("ELECTRODE_GCS_VELOCITY_BUDGET", text)]))
            .policy
            .velocity_budget
    };
    assert_eq!(limit("0"), 1);
    assert_eq!(limit("3"), 3);
    assert_eq!(limit("-3"), 5);
}

#[test]
fn blank_variables_count_as_unset() {
    let set = vars(&[("A", " a "), ("B", "\t")]);
    assert_eq!(optional(&set, "A").as_deref(), Some(" a "));
    assert_eq!(optional(&set, "B"), None);
    assert_eq!(optional(&set, "C"), None);
    assert_eq!(value_or(&set, "B", "b".to_string()), "b");
    assert_eq!(path_or(&set, "A", "b".to_string()), " a ");
}

#[test]
fn sessions_are_peers_without_discovery() {
    let off = ("scouting/multicast/enabled", "false");
    assert_eq!(
        session_settings(" ws/0.0.0.0:7447 ", &Some("ws/host:1".to_string())),
        vars(&[
            ("mode", "\"peer\""),
            ("listen/endpoints", "[\"ws/0.0.0.0:7447\"]"),
            ("connect/endpoints", "[\"ws/host:1\"]"),
            off,
        ])
    );
    assert_eq!(
        session_settings("  ", &Some(String::new())),
        vars(&[("mode", "\"peer\""), off])
    );
    assert_eq!(
        session_settings("", &None),
        vars(&[("mode", "\"peer\""), off])
    );
}

#[test]
fn listeners_are_the_endpoints_that_are_set() {
    let mut config = CommandAuthorityConfig::default();
    assert_eq!(config.listeners(), ["udp/0.0.0.0:7447", "ws/0.0.0.0:7447"]);
    config.vehicle_listen = " ".to_string();
    assert_eq!(config.listeners(), ["ws/0.0.0.0:7447"]);
}
