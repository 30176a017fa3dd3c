use electrode_command_authority::credential::{
    credential_id, hex_text, name_hash, safe_device_id, Credential,
};
use electrode_command_authority::csv::{
    optional_string, parse_csv, parse_optional_speed, record_line, serialize_csv, validate_version,
    CSV_HEADER,
};
use electrode_command_authority::ledger::{version_one, BudgetDatabase, DeviceRecord};
use electrode_command_authority::velocity_budget::{
    clamp_limit, epoch_nanoseconds, next_version, temporary_file_name, BudgetFiles, BudgetState,
    BudgetUpdate, CsvFile, VelocityBudgetStore,
};

fn store(limit: u32) -> VelocityBudgetStore {
    VelocityBudgetStore::new("budget.json".to_string(), "budget.csv".to_string(), limit)
}

fn keep(files: &mut BudgetFiles, outcome: BudgetUpdate) -> BudgetState {
    if let Some(database) = outcome.saved {
        *files = BudgetFiles {
            csv: CsvFile::Contents(serialize_csv(&database)),
            mirror_exists: true,
        };
    }
    outcome.state
}

fn fresh() -> BudgetFiles {
    BudgetFiles {
        csv: CsvFile::Missing,
        mirror_exists: false,
    }
}

fn version(state: &BudgetState) -> u128 {
    state.budget_version.parse::<u128>().unwrap()
}

#[test]
fn refund_is_persisted_to_the_authoritative_csv() {
    let credential = Credential {
        device_id: "device:refund".to_string(),
        credential_id: "0123456789abcdef".to_string(),
    };
    let mut files = fresh();
    let first = store(5);
    let now = Some(1_000);
    let outcome = first
        .consume(&files, &credential, Some("2".to_string()), now)
        .unwrap();
    let consumed = keep(&mut files, outcome);
    let consumed_version = version(&consumed);
    assert_eq!(consumed.used, 1);
    let outcome = first.state(&files, &credential, now).unwrap();
    let read_version = version(&keep(&mut files, outcome));
    assert_eq!(read_version, consumed_version);
    let outcome = first
        .consume(&files, &credential, Some("2.5".to_string()), now)
        .unwrap();
    let consumed_again = keep(&mut files, outcome);
    let second_version = version(&consumed_again);
    assert!(
        second_version > consumed_version,
        "each consume must advance the persisted version"
    );
    drop(first);
    let restarted = store(5);
    let outcome = restarted.refund(&files, &credential, now).unwrap();
    let refunded = keep(&mut files, outcome);
    assert_eq!(refunded.used, 1);
    assert!(
        version(&refunded) > second_version,
        "refund must advance the persisted version"
    );
    let outcome = restarted.state(&files, &credential, now).unwrap();
    assert_eq!(keep(&mut files, outcome).remaining, 4);
}

fn row(id: &str, used: u32) -> DeviceRecord {
    DeviceRecord {
        device_id: id.to_string(),
        used,
        limit: 5,
        created_at: "1".to_string(),
        updated_at: "2".to_string(),
        last_velocity_mps: None,
        last_applied_at: None,
    }
}

fn csv(rows: &str) -> String {
    format!("{CSV_HEADER}{rows}")
}

#[test]
fn rows_are_written_in_the_order_of_their_ids() {
    let database = BudgetDatabase::default()
        .with(row("b", 1))
        .with(row("a:z", 2))
        .with(row("a", 3))
        .with(row("b", 4));
    assert_eq!(database.version(), version_one());
    assert_eq!(database.devices().len(), 3);
    assert_eq!(
        serialize_csv(&database),
        csv("a,3,5,1,2,,\na:z,2,5,1,2,,\nb,4,5,1,2,,\n")
    );
    assert!(database.contains("b"));
    assert!(!database.contains("c"));
    assert_eq!(database.get("a").unwrap().used, 3);
    assert_eq!(database.get("c"), None);
    assert_eq!(database.clone(), database);
}

#[test]
fn a_written_csv_reads_back() {
    let mut full = row("team.1", 4);
    full.last_velocity_mps = Some("2.5".to_string());
    full.last_applied_at = Some("1700".to_string());
    let database = BudgetDatabase::default().with(full).with(row("team_2", 0));
    let text = serialize_csv(&database);
    assert_eq!(parse_csv(&text, 5).unwrap(), database);
}

#[test]
fn counts_above_the_limit_are_capped_on_reading() {
    let database = parse_csv(&csv("a,9,9,1,2,,\n"), 3).unwrap();
    let row = database.get("a").unwrap();
    assert_eq!((row.used, row.limit), (3, 3));
}

#[test]
fn blank_lines_and_return_characters_are_passed_over() {
    let database = parse_csv(&csv("\r\n  \t\na,1,5,1,2,,\r\n\nb,2,5,,2,-.5e3,x"), 5).unwrap();
    assert_eq!(database.devices().len(), 2);
    assert_eq!(database.get("a").unwrap().last_applied_at, None);
    let b = database.get("b").unwrap();
    assert_eq!(b.last_velocity_mps.as_deref(), Some("-.5e3"));
    assert_eq!(b.last_applied_at.as_deref(), Some("x"));
    assert_eq!(b.created_at, "");
}

#[test]
fn each_broken_csv_is_refused_with_its_row() {
    let refused = |text: &str| parse_csv(text, 5).unwrap_err();
    let header = "velocity budget CSV is empty or has an invalid header";
    assert_eq!(refused(""), header);
    assert_eq!(refused("device_id,used\n"), header);
    assert_eq!(refused(CSV_HEADER.trim_end()), header);
    assert_eq!(refused(&csv("a,1,5,1,2,\n")), "invalid velocity budget CSV row 2");
    assert_eq!(
        refused(&csv("a,1,5,1,2,,\nb b,1,5,1,2,,\n")),
        "invalid velocity budget CSV row 3"
    );
    assert_eq!(refused(&csv("\na,-1,5,1,2,,\n")), "invalid used count in CSV row 3");
    assert_eq!(
        refused(&csv("a,4294967296,5,1,2,,\n")),
        "invalid used count in CSV row 2"
    );
    assert_eq!(refused(&csv("a,1,5,1,2,fast,\n")), "invalid velocity in CSV row 2");
    assert_eq!(
        refused(&csv("a,1,5,1,soon,,\n")),
        "invalid updated_at version in CSV row 2"
    );
    // The velocity is looked at before the version.
    assert_eq!(refused(&csv("a,1,5,1,soon,fast,\n")), "invalid velocity in CSV row 2");
    assert_eq!(
        refused(&csv("a,1,5,1,2,,\na,1,5,1,2,,\n")),
        "duplicate device id in velocity budget CSV row 3"
    );
}

#[test]
fn only_the_csv_counts() {
    let store = store(5);
    assert_eq!(store.load(&fresh()).unwrap(), BudgetDatabase::default());
    let lost = BudgetFiles {
        csv: CsvFile::Missing,
        mirror_exists: true,
    };
    assert_eq!(
        store.load(&lost).unwrap_err(),
        "authoritative velocity budget CSV budget.csv is missing while JSON mirror exists"
    );
    let bare = BudgetFiles {
        csv: CsvFile::Contents(csv("a,2,5,1,2,,\n")),
        mirror_exists: false,
    };
    assert_eq!(store.load(&bare).unwrap().get("a").unwrap().used, 2);
    assert_eq!(
        store.load_csv(&csv("a,2,5,1,2,,\n")).unwrap(),
        store.load(&bare).unwrap()
    );
    assert_eq!(
        store.paths(),
        ("budget.csv".to_string(), "budget.json".to_string())
    );
}

#[test]
fn versions_follow_the_clock_but_never_fall_back() {
    assert_eq!(next_version("5", "100").unwrap(), "100");
    assert_eq!(next_version("100", "100").unwrap(), "101");
    assert_eq!(next_version("100", "5").unwrap(), "101");
    assert_eq!(next_version("+007", "5").unwrap(), "8");
    assert_eq!(
        next_version("soon", "5").unwrap_err(),
        "velocity budget updated_at is not an epoch-nanosecond version"
    );
    let last = u128::MAX.to_string();
    assert_eq!(
        next_version(&last, "5").unwrap_err(),
        "velocity budget version is exhausted"
    );
    assert_eq!(epoch_nanoseconds(None), "0");
    assert_eq!(epoch_nanoseconds(Some(u128::MAX)), last);
}

#[test]
fn an_exhausted_version_refuses_the_command() {
    let store = store(5);
    let team = store.resolve("team").unwrap();
    let files = BudgetFiles {
        csv: CsvFile::Contents(csv(&format!("team,1,5,1,{},,\n", u128::MAX))),
        mirror_exists: true,
    };
    let exhausted = "velocity budget version is exhausted";
    assert_eq!(store.consume(&files, &team, None, Some(1)).unwrap_err(), exhausted);
    assert_eq!(store.refund(&files, &team, Some(1)).unwrap_err(), exhausted);
    assert_eq!(store.state(&files, &team, Some(1)).unwrap().state.used, 1);
}

#[test]
fn other_teams_are_left_alone() {
    let store = store(5);
    let mut files = BudgetFiles {
        csv: CsvFile::Contents(csv("a,1,5,1,2,1.25,x\nc,3,5,1,2,,\n")),
        mirror_exists: true,
    };
    let team = store.resolve("b").unwrap();
    let outcome = store
        .consume(&files, &team, Some("3".to_string()), Some(10))
        .unwrap();
    let state = keep(&mut files, outcome);
    assert_eq!((state.used, state.remaining, state.limit), (1, 4, 5));
    assert_eq!(
        files.csv,
        CsvFile::Contents(csv("a,1,5,1,2,1.25,x\nb,1,5,10,11,3,10\nc,3,5,1,2,,\n"))
    );
}

#[test]
fn only_a_command_creates_a_row() {
    let store = store(5);
    let text = csv("a,1,5,1,2,,\n");
    for files in [
        fresh(),
        BudgetFiles {
            csv: CsvFile::Contents(text.clone()),
            mirror_exists: true,
        },
    ] {
        let team = store.resolve("d").unwrap();
        for outcome in [
            store.state(&files, &team, Some(9)).unwrap(),
            store.refund(&files, &team, Some(9)).unwrap(),
        ] {
            assert_eq!(outcome.saved, None);
            assert_eq!((outcome.state.used, outcome.state.remaining), (0, 5));
            assert_eq!(outcome.state.limit, 5);
            assert_eq!(outcome.state.budget_version, "0");
            assert_eq!(outcome.state.device_id, "d");
        }
        let outcome = store.consume(&files, &team, None, Some(9)).unwrap();
        assert!(outcome.saved.unwrap().contains("d"));
    }
}

#[test]
fn refunds_that_succeed_make_room() {
    let store = store(5);
    let team = store.resolve("a").unwrap();
    let mut files = fresh();
    // Nothing to give back yet: this one makes no room.
    let outcome = store.refund(&files, &team, Some(7)).unwrap();
    keep(&mut files, outcome);
    let mut accepted = 0;
    for round in 0..12 {
        if let Ok(outcome) = store.consume(&files, &team, None, Some(7)) {
            keep(&mut files, outcome);
            accepted += 1;
        }
        if round == 8 {
            let outcome = store.refund(&files, &team, Some(7)).unwrap();
            keep(&mut files, outcome);
        }
    }
    assert_eq!(accepted, 6);
}

#[test]
fn versions_and_reports_hold_over_a_course_of_calls() {
    let store = store(5);
    let a = store.resolve("a").unwrap();
    let b = store.resolve("b").unwrap();
    let c = store.resolve("c").unwrap();
    let mut files = BudgetFiles {
        csv: CsvFile::Contents(csv("c,5,5,1,1,,\n")),
        mirror_exists: true,
    };
    let outcome = store.state(&files, &a, Some(100)).unwrap();
    let unread = keep(&mut files, outcome);
    assert_eq!(version(&unread), 0);
    let mut last = 0;
    for now in [0, 50, 20, 20, 3] {
        let outcome = store.consume(&files, &a, None, Some(now)).unwrap();
        let consumed = keep(&mut files, outcome);
        assert!(version(&consumed) > last);
        last = version(&consumed);
        // Another team's calls, a failing call and reads change no report.
        let outcome = store.consume(&files, &b, None, Some(1_000)).unwrap();
        keep(&mut files, outcome);
        assert!(store.consume(&files, &c, None, Some(1)).is_err());
        for later in [0, 9_999] {
            let outcome = store.state(&files, &a, Some(later)).unwrap();
            assert_eq!(keep(&mut files, outcome), consumed);
        }
    }
    assert!(store.consume(&files, &a, None, Some(5)).is_err());
    let outcome = store.state(&files, &a, Some(5)).unwrap();
    let before = keep(&mut files, outcome);
    assert_eq!((before.used, version(&before)), (5, last));
    let outcome = store.refund(&files, &a, Some(0)).unwrap();
    let refunded = keep(&mut files, outcome);
    assert_eq!(refunded.used, 4);
    assert!(version(&refunded) > last);
}

#[test]
fn a_line_can_be_deleted_from_any_csv() {
    let store = store(5);
    let files = |text: &str| BudgetFiles {
        csv: CsvFile::Contents(csv(text)),
        mirror_exists: true,
    };
    let used = |files: &BudgetFiles, team: &str| {
        let team = store.resolve(team).unwrap();
        store.state(files, &team, None).unwrap().state.used
    };
    // Neither the order nor the texts are those that the library writes.
    let whole = files("z,3,9,then,+07,2.50,x\r\n\na,2,1,,0,,\r\n");
    let without_z = files("\na,2,1,,0,,\r\n");
    let without_a = files("z,3,9,then,+07,2.50,x\r\n\n");
    assert_eq!((used(&whole, "z"), used(&whole, "a")), (3, 2));
    assert_eq!((used(&without_z, "z"), used(&without_z, "a")), (0, 2));
    assert_eq!((used(&without_a, "z"), used(&without_a, "a")), (3, 0));
}

#[test]
fn a_return_at_the_end_of_a_last_cell_is_all_that_writing_changes() {
    let database = parse_csv(&csv("t,1,5,1,1,,x\r\r\n"), 5).unwrap();
    assert_eq!(database.get("t").unwrap().last_applied_at.as_deref(), Some("x\r"));
    let again = parse_csv(&serialize_csv(&database), 5).unwrap();
    let mut row = database.get("t").unwrap();
    row.last_applied_at = Some("x".to_string());
    assert_eq!(again, BudgetDatabase::default().with(row));
}

#[test]
fn speeds_are_written_in_their_shortest_text() {
    for (text, shortest) in [
        ("2.50", "2.5"),
        ("+2", "2"),
        ("1e1", "10"),
        ("-.5e3", "-500"),
        ("0.10000000149", "0.1"),
        ("16777217", "16777216"),
        ("-0.0", "-0"),
        ("INF", "inf"),
        ("nan", "NaN"),
        ("2.5", "2.5"),
    ] {
        assert_eq!(text.parse::<f32>().unwrap().to_string(), shortest);
        let database = parse_csv(&csv(&format!("a,1,5,1,2,{text},\n")), 5).unwrap();
        let written = csv(&format!("a,1,5,1,2,{shortest},\n"));
        assert_eq!(serialize_csv(&database), written);
        // What has been written stays as it is.
        assert_eq!(serialize_csv(&parse_csv(&written, 5).unwrap()), written);
    }
}

#[test]
fn a_line_holds_the_speed_that_it_is_given() {
    let mut record = row("a", 1);
    record.last_velocity_mps = Some("2.50".to_string());
    assert_eq!(
        record_line(&record, &Some("2.5".to_string())),
        "a,1,5,1,2,2.5,"
    );
    assert_eq!(record_line(&record, &None), "a,1,5,1,2,,");
    // Text that writes no number is written as it is.
    record.last_velocity_mps = Some("fast".to_string());
    assert_eq!(
        serialize_csv(&BudgetDatabase::default().with(record)),
        csv("a,1,5,1,2,fast,\n")
    );
}

#[test]
fn bytes_are_written_in_lower_case_hexadecimal() {
    assert_eq!(hex_text(&vec![0x00, 0x0f, 0xa5, 0xff]), "000fa5ff");
    assert_eq!(hex_text(&Vec::new()), "");
}

#[test]
fn reading_a_registered_team_saves_the_same_rows() {
    let store = store(5);
    let text = csv("a,1,5,1,2,1.25,x\n");
    let files = BudgetFiles {
        csv: CsvFile::Contents(text.clone()),
        mirror_exists: true,
    };
    let outcome = store
        .state(&files, &store.resolve("a").unwrap(), Some(99))
        .unwrap();
    assert_eq!(serialize_csv(&outcome.saved.unwrap()), text);
    assert_eq!(outcome.state.budget_version, "2");
    let outcome = store
        .state(&files, &store.resolve("b").unwrap(), Some(99))
        .unwrap();
    assert_eq!(outcome.saved, None);
    assert_eq!(outcome.state.budget_version, "0");
}

#[test]
fn a_limit_is_between_one_and_five() {
    assert_eq!(clamp_limit(0), 1);
    assert_eq!(clamp_limit(3), 3);
    assert_eq!(clamp_limit(6), 5);
    let one = store(0);
    let team = one.resolve("t").unwrap();
    let state = one.state(&fresh(), &team, None).unwrap().state;
    assert_eq!((state.limit, state.remaining), (1, 1));
}

#[test]
fn team_names_are_checked() {
    assert!(safe_device_id("Team-1_a.b:c"));
    assert!(safe_device_id(&"x".repeat(128)));
    assert!(!safe_device_id(&"x".repeat(129)));
    assert!(!safe_device_id(""));
    assert!(!safe_device_id("bad team"));
    assert!(!safe_device_id("a,b"));
    assert!(!safe_device_id("t\u{e9}am"));
    assert!(store(5).resolve("a/b").is_err());
    let resolved = store(5).resolve("team-alpha").unwrap();
    assert_eq!(resolved.device_id, "team-alpha");
    assert_eq!(resolved.credential_id, credential_id("team-alpha"));
}

#[test]
fn the_hash_of_a_name_is_its_sha_256() {
    assert_eq!(
        name_hash("abc"),
        "ba7816bf8f01cfea414140de5dae2223b00361a396177a9cb410ff61f20015ad"
    );
    assert_eq!(credential_id("abc"), "ba7816bf8f01cfea");
}

#[test]
fn csv_cells_are_checked_one_by_one() {
    assert_eq!(optional_string(""), None);
    assert_eq!(optional_string(" "), Some(" ".to_string()));
    assert_eq!(parse_optional_speed("", 4), Ok(None));
    assert_eq!(parse_optional_speed("2.50", 4), Ok(Some("2.50".to_string())));
    assert_eq!(
        parse_optional_speed("2,5", 4),
        Err("invalid velocity in CSV row 4".to_string())
    );
    assert_eq!(validate_version("17", 3), Ok(()));
    assert_eq!(
        validate_version("-17", 3),
        Err("invalid updated_at version in CSV row 3".to_string())
    );
}

#[test]
fn a_temporary_file_stands_beside_its_target() {
    assert_eq!(
        temporary_file_name(&Some("budget.csv".to_string()), 4021),
        ".budget.csv.4021.tmp"
    );
    assert_eq!(temporary_file_name(&None, 0), ".velocity-budget.0.tmp");
}
