use multinode_controller::ids::{JobId, LeaseId, NodeId, TaskId};
use multinode_controller::paths::{file_name, join_path};
use multinode_controller::protocol::{
    copy_env, extend_env, DecisionKind, DurationSpec, EnvMap, LogStream, NetworkMode, NodeInfo,
    OperationRequest, PolicyDecision, RiskLevel, RunSpec,
};
use multinode_controller::shell::{quote_words, shell_quote};
use multinode_controller::table::Table;
use multinode_controller::time::{parse_datetime, parse_optional_datetime, Timestamp};

fn at(secs: i64, nanos: u32) -> Timestamp {
    Timestamp::from_parts(secs, nanos).unwrap()
}

#[test]
fn fresh_identifiers_have_their_prefix_and_differ() {
    let job = JobId::new();
    let other = JobId::new();
    assert!(job.as_str().starts_with("job_"));
    assert_eq!(job.as_str().len(), 4 + 32);
    assert!(job.as_str()[4..].chars().all(|c| c.is_ascii_hexdigit() && !c.is_ascii_uppercase()));
    assert_eq!(&job.as_str()[16..17], "4");
    assert!(!job.is(&other));
    assert!(TaskId::new().as_str().starts_with("task_"));
    assert!(NodeId::new().as_str().starts_with("node_"));
    assert!(LeaseId::new().as_str().starts_with("lease_"));
}

#[test]
fn identifiers_are_their_text() {
    let node = NodeId::from("node-a");
    assert_eq!(node.as_str(), "node-a");
    assert_eq!(node.to_string(), "node-a");
    assert!(node.is(&NodeId::from("node-a".to_owned())));
    assert_eq!(node.clone(), node);
}

#[test]
fn table_keeps_one_value_per_key_in_order() {
    let mut table: Table<u32> = Table::new();
    assert_eq!(table.insert("b".to_owned(), 1), None);
    assert_eq!(table.insert("a".to_owned(), 2), None);
    assert_eq!(table.insert("b".to_owned(), 3), Some(1));
    assert_eq!(table.len(), 2);
    assert_eq!(table.key_at(0), "b");
    assert_eq!(*table.value_at(0), 3);
    assert_eq!(table.get("a"), Some(&2));
    assert_eq!(table.get("c"), None);
    assert_eq!(table.find("a"), Some(1));
    *table.get_mut("a").unwrap() += 5;
    assert_eq!(table.remove("a"), Some(7));
    assert_eq!(table.remove("a"), None);
    assert!(table.contains_key("b"));
    assert!(!table.contains_key("a"));
}

#[test]
fn later_variables_win() {
    let mut env: EnvMap = Table::new();
    env.insert("A".to_owned(), "1".to_owned());
    env.insert("B".to_owned(), "2".to_owned());
    let mut more: EnvMap = Table::new();
    more.insert("B".to_owned(), "3".to_owned());
    more.insert("C".to_owned(), "4".to_owned());
    extend_env(&mut env, &more);
    let copy = copy_env(&env);
    assert_eq!(copy.get("A").unwrap(), "1");
    assert_eq!(copy.get("B").unwrap(), "3");
    assert_eq!(copy.get("C").unwrap(), "4");
    assert_eq!(copy.len(), 3);
}

#[test]
fn points_in_time_are_written_and_read() {
    let t = at(1_700_000_000, 0);
    assert_eq!(t.to_rfc3339(), "2023-11-14T22:13:20+00:00");
    assert_eq!(at(1_700_000_000, 500_000_000).to_rfc3339(), "2023-11-14T22:13:20.500+00:00");
    assert_eq!(parse_datetime("2023-11-14T22:13:20+00:00").unwrap(), t);
    assert_eq!(parse_datetime("2023-11-14T23:13:20+01:00").unwrap(), t);
    for time in [at(0, 1), at(-62_167_219_200, 0), at(253_402_300_799, 999_999_999), at(59, 1_500_000_000)] {
        assert_eq!(parse_datetime(&time.to_rfc3339()).unwrap(), time);
    }
    let far = at(253_402_300_800, 0);
    assert_eq!(far.to_rfc3339(), "+10000-01-01T00:00:00+00:00");
    let error = parse_datetime("yesterday").unwrap_err();
    assert_eq!(error.value, "yesterday");
    assert_eq!(parse_optional_datetime(Some(&"nothing".to_owned())), None);
    assert_eq!(parse_optional_datetime(None), None);
    assert_eq!(parse_optional_datetime(Some(&"2023-11-14T22:13:20Z".to_owned())), Some(t));
}

#[test]
fn points_in_time_have_bounds_and_an_order() {
    assert!(Timestamp::from_parts(0, 1_000_000_000).is_none());
    assert!(Timestamp::from_parts(59, 1_000_000_000).is_some());
    assert!(Timestamp::from_parts(-1, 1_999_999_999).is_some());
    assert!(Timestamp::from_parts(59, 2_000_000_000).is_none());
    assert!(Timestamp::from_parts(i64::MAX, 0).is_none());
    assert!(Timestamp::from_parts(8_210_266_876_799, 0).is_some());
    assert!(Timestamp::from_parts(8_210_266_876_800, 0).is_none());
    assert!(Timestamp::from_parts(-8_334_601_228_800, 0).is_some());
    assert!(Timestamp::from_parts(-8_334_601_228_801, 0).is_none());
    assert!(at(1, 0).is_before(&at(2, 0)));
    assert!(at(1, 1).is_before(&at(1, 2)));
    assert!(!at(1, 2).is_before(&at(1, 2)));
    let now = Timestamp::now();
    assert!(at(1_700_000_000, 0).is_before(&now));
    assert_eq!(Timestamp::from_parts(now.secs(), now.nanos()), Some(now));
}

#[test]
fn bounds_of_time_are_those_of_chrono() {
    assert!(chrono::DateTime::from_timestamp(8_210_266_876_799, 0).is_some());
    assert!(chrono::DateTime::from_timestamp(8_210_266_876_800, 0).is_none());
    assert!(chrono::DateTime::from_timestamp(-8_334_601_228_800, 0).is_some());
    assert!(chrono::DateTime::from_timestamp(-8_334_601_228_801, 0).is_none());
    assert!(chrono::DateTime::from_timestamp(-1, 1_999_999_999).is_some());
    assert!(chrono::DateTime::from_timestamp(0, 1_000_000_000).is_none());
}

#[test]
fn paths_are_joined_like_std() {
    for base in ["", "/", "a", "a/", "/home/u", ".", "a//"] {
        for part in ["b", "/b", "", "b/c", "."] {
            let expected = std::path::Path::new(base).join(part);
            assert_eq!(join_path(base, part), expected.to_str().unwrap(), "{base:?} {part:?}");
        }
    }
}

#[test]
fn names_of_paths_are_those_of_std() {
    for path in [
        "", "/", ".", "..", "a", "/bin/rm", "rm/", "rm//", "rm/.", "rm/./", "./rm", "a/..", "a/../",
        "a/../b", "/.", "/..", "...", "a/...", ".hidden", "a/.hidden/.", "//", "./.", "./..", "a b/c d",
    ] {
        let expected = std::path::Path::new(path)
            .file_name()
            .map(|name| name.to_str().unwrap().to_owned());
        assert_eq!(file_name(path), expected, "{path:?}");
    }
}

#[test]
fn shell_words_are_quoted() {
    assert_eq!(shell_quote("plain"), "'plain'");
    assert_eq!(shell_quote(""), "''");
    assert_eq!(shell_quote("it's"), "'it'\\''s'");
    assert_eq!(shell_quote("'"), "''\\'''");
    let words: Vec<String> = vec!["python".to_owned(), "a b.py".to_owned()];
    assert_eq!(quote_words(&words), "'python' 'a b.py'");
    assert_eq!(quote_words(&Vec::new()), "");
}

#[test]
fn plain_run_has_no_limits() {
    let run = RunSpec::simple(
        JobId::from("job_1"),
        TaskId::from("task_1"),
        NodeId::from("node-a"),
        vec!["hostname".to_owned()],
        ".".to_owned(),
        Table::new(),
    );
    assert!(run.timeout.is_none());
    assert!(run.resources.cpu_cores.is_none());
    assert!(run.resources.memory_mb.is_none());
    assert!(run.resources.gpu_count.is_none());
    assert!(run.filesystem.workspace.is_none());
    assert_eq!(run.network.mode, NetworkMode::Allow);
    assert!(run.devices.gpu && run.devices.infiniband);
    assert_eq!(run.sandbox.profile, "none");
    assert!(run.secrets.is_empty());
    assert!(run.log_policy.redact_secrets);
    assert_eq!(run.log_policy.max_line_bytes, 16 * 1024);

    let operation = OperationRequest::process_start(&run, "agent-worker");
    assert_eq!(operation.subject.subject_type, "agent");
    assert_eq!(operation.subject.name, "agent-worker");
    assert_eq!(operation.action, "process.start");
    assert_eq!(operation.resource.argv, vec!["hostname".to_owned()]);
    assert_eq!(operation.resource.cwd, ".");
    assert_eq!(operation.context.requested_by, "worker");
    assert_eq!(operation.context.job_id, JobId::from("job_1"));
}

#[test]
fn messages_have_their_defaults() {
    let decision = PolicyDecision::allow_all();
    assert_eq!(decision.decision, DecisionKind::Allow);
    assert_eq!(decision.reason, "allow_all mode");
    assert_eq!(decision.risk, RiskLevel::Medium);
    assert_eq!(decision.sandbox_profile.as_deref(), Some("none"));
    assert_eq!(DurationSpec::from(std::time::Duration::from_millis(2500)).seconds, 2);
    assert_eq!(LogStream::Stdout.to_string(), "stdout");
    assert_eq!(LogStream::Stderr.to_string(), "stderr");
    assert_eq!(LogStream::System.to_string(), "system");
    let node = NodeInfo::new("node-a".to_owned(), "host-a".to_owned(), "linux", "x86_64");
    assert_eq!(node.node_id.as_str(), "node-a");
    assert_eq!(node.node_name, "node-a");
    assert_eq!(node.hostname, "host-a");
    assert_eq!(node.os, "linux");
    assert_eq!(node.arch, "x86_64");
    assert!(node.labels.is_empty());
}
