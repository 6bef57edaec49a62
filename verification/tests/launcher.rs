use multinode_controller::protocol::EnvMap;
use multinode_controller::runtime::{
    check_child, check_children, coordinator_command, default_db_path, default_runtime_dir,
    holds_something, next_token_source, parse_mode, parse_role, require_file, session_exists,
    shell_command, start, status, stop, tmux_has_session, tmux_new_session, tmux_new_window,
    tmux_target, token_command, worker_command, worker_log_path, Config, ExitStatus, Mode,
    ResolvedRole, Role, Step, TokenSource,
};
use multinode_controller::table::Table;

fn env(pairs: &[(&str, &str)]) -> EnvMap {
    let mut env = Table::new();
    for (name, value) in pairs {
        env.insert((*name).to_owned(), (*value).to_owned());
    }
    env
}

fn config(pairs: &[(&str, &str)]) -> Config {
    Config::from_env(&env(pairs), Some("host")).unwrap()
}

fn kinds(steps: &[Step]) -> Vec<String> {
    steps
        .iter()
        .map(|step| match step {
            Step::CreateDir(path) => format!("mkdir {path}"),
            Step::EnsureToken(path) => format!("token {path}"),
            Step::RequireFile { path, label } => format!("require {label} {path}"),
            Step::WatchSignals => "signals".to_owned(),
            Step::RequireTmux => "tmux".to_owned(),
            Step::RequireNoSession(session) => format!("no session {session}"),
            Step::ResetLog(path) => format!("reset {path}"),
            Step::Spawn { label, log, .. } => format!("spawn {label} {log}"),
            Step::NewSession { session, window, .. } => format!("session {session} {window}"),
            Step::NewWindow { session, window, .. } => format!("window {session} {window}"),
            Step::Pause { seconds } => format!("pause {seconds}"),
            Step::Print(line) => format!("print {line}"),
            Step::WaitForProcesses => "wait".to_owned(),
        })
        .collect()
}

#[test]
fn configuration_has_defaults() {
    let c = config(&[("HOME", "/home/u")]);
    assert_eq!(c.rank, "0");
    assert_eq!(c.role, Role::Auto);
    assert_eq!(c.mode, Mode::Foreground);
    assert_eq!(c.port, "8765");
    assert_eq!(c.listen, "0.0.0.0:8765");
    assert_eq!(c.coordinator_url, "ws://127.0.0.1:8765");
    assert_eq!(c.runtime_dir, "/home/u/.agent-runtime");
    assert_eq!(c.worker_token_file, "/home/u/.agent-runtime/worker.token");
    assert_eq!(c.client_token_file, "/home/u/.agent-runtime/client.token");
    assert_eq!(c.db, "/home/u/.agent-runtime/coordinator.sqlite");
    assert_eq!(c.node_name, "host-rank-0");
    assert_eq!(c.policy, None);
    assert_eq!(c.session, "agent-runtime-8765");
    assert_eq!(c.coordinator_bin, "agent-coordinator");
    assert_eq!(c.worker_bin, "agent-worker");
    assert_eq!(default_runtime_dir(&env(&[])), "./.agent-runtime");
    assert_eq!(default_db_path(&env(&[("HOME", "/h")])), "/h/.agent-runtime/coordinator.sqlite");
    assert_eq!(Config::from_env(&env(&[]), None).unwrap().node_name, "node-rank-0");
}

#[test]
fn variables_override_defaults() {
    let c = config(&[
        ("RANK", "2"),
        ("MASTER_PORT", "1"),
        ("PORT", "23456"),
        ("MASTER_ADDR", "master"),
        ("RUNTIME_DIR", "/run/agent"),
        ("POLICY", "/etc/p.yaml"),
        ("WORKER_TOKEN_FILE", "/secret/w"),
        ("ROLE", "MASTER"),
        ("MODE", "Tmux"),
        ("SESSION", "s"),
    ]);
    assert_eq!(c.port, "23456");
    assert_eq!(c.coordinator_url, "ws://master:23456");
    assert_eq!(c.listen, "0.0.0.0:23456");
    assert_eq!(c.worker_token_file, "/secret/w");
    assert_eq!(c.client_token_file, "/run/agent/client.token");
    assert_eq!(c.node_name, "host-rank-2");
    assert_eq!(c.policy.as_deref(), Some("/etc/p.yaml"));
    assert_eq!(c.role, Role::Master);
    assert_eq!(c.mode, Mode::Tmux);
    assert_eq!(c.session, "s");
    assert_eq!(config(&[("MASTER_PORT", "9")]).port, "9");
    let addressed = config(&[("MASTER_ADDR", "a"), ("COORDINATOR_ADDR", "b")]);
    assert_eq!(addressed.coordinator_url, "ws://b:8765");
    assert_eq!(config(&[("COORDINATOR_URL", "wss://x")]).coordinator_url, "wss://x");
    assert_eq!(config(&[("LISTEN", "[::]:1")]).listen, "[::]:1");
    assert_eq!(config(&[("DB", "/d")]).db, "/d");
    assert_eq!(config(&[("NODE_NAME", "n")]).node_name, "n");
}

#[test]
fn unknown_roles_and_modes_are_errors() {
    let both = env(&[("ROLE", "boss"), ("MODE", "screen")]);
    assert_eq!(Config::from_env(&both, None).unwrap_err().message(), "invalid ROLE=boss");
    let mode = env(&[("MODE", "screen")]);
    assert_eq!(Config::from_env(&mode, None).unwrap_err().message(), "invalid MODE=screen");
    assert_eq!(parse_role("auto"), Some(Role::Auto));
    assert_eq!(parse_role("wOrKeR"), Some(Role::Worker));
    assert_eq!(parse_role(""), None);
    assert_eq!(parse_mode("FOREGROUND"), Some(Mode::Foreground));
    assert_eq!(parse_mode("tmux "), None);
}

#[test]
fn rank_zero_is_the_master() {
    assert_eq!(config(&[]).resolved_role(), ResolvedRole::Master);
    assert_eq!(config(&[("RANK", "0")]).resolved_role(), ResolvedRole::Master);
    assert_eq!(config(&[("RANK", "1")]).resolved_role(), ResolvedRole::Worker);
    assert_eq!(config(&[("RANK", "00")]).resolved_role(), ResolvedRole::Worker);
    assert_eq!(config(&[("ROLE", "worker")]).resolved_role(), ResolvedRole::Worker);
    assert_eq!(config(&[("RANK", "3"), ("ROLE", "master")]).resolved_role(), ResolvedRole::Master);
}

#[test]
fn commands_have_their_words() {
    let c = config(&[("RUNTIME_DIR", "/r"), ("POLICY", "/p")]);
    assert_eq!(
        coordinator_command(&c),
        vec![
            "agent-coordinator", "--listen", "0.0.0.0:8765", "--db", "/r/coordinator.sqlite",
            "--worker-token-file", "/r/worker.token", "--client-token-file", "/r/client.token",
        ]
    );
    assert_eq!(
        worker_command(&c),
        vec![
            "agent-worker", "--coordinator", "ws://127.0.0.1:8765", "--node-name", "host-rank-0",
            "--token-file", "/r/worker.token", "--policy", "/p",
        ]
    );
    assert_eq!(worker_command(&config(&[])).len(), 7);
    assert_eq!(worker_log_path(&c), "/r/worker-host-rank-0.log");
    let words: Vec<String> = vec!["run it".to_owned(), "now".to_owned()];
    assert_eq!(shell_command(&words, "/r/a b.log"), "'run it' 'now' >> '/r/a b.log' 2>&1");
}

#[test]
fn master_starts_coordinator_then_worker() {
    let steps = start(&config(&[("RUNTIME_DIR", "/r")]));
    assert_eq!(
        kinds(&steps),
        vec![
            "mkdir /r",
            "token /r/worker.token",
            "token /r/client.token",
            "signals",
            "reset /r/coordinator.log",
            "reset /r/worker-host-rank-0.log",
            "spawn coordinator /r/coordinator.log",
            "pause 1",
            "spawn worker /r/worker-host-rank-0.log",
            "print started role=master mode=foreground",
            "print coordinator: ws://127.0.0.1:8765",
            "print node: host-rank-0",
            "print runtime dir: /r",
            "print port: 8765",
            "print client token: /r/client.token",
            "wait",
        ]
    );
}

#[test]
fn worker_needs_its_token_and_starts_no_coordinator() {
    let steps = start(&config(&[("RUNTIME_DIR", "/r"), ("RANK", "1")]));
    assert_eq!(
        kinds(&steps),
        vec![
            "mkdir /r",
            "require worker token /r/worker.token",
            "signals",
            "reset /r/worker-host-rank-1.log",
            "print started role=worker mode=foreground",
            "print coordinator: ws://127.0.0.1:8765",
            "print node: host-rank-1",
            "print runtime dir: /r",
            "print port: 8765",
            "spawn worker /r/worker-host-rank-1.log",
            "wait",
        ]
    );
}

#[test]
fn tmux_runs_in_a_session_of_its_own() {
    let master = start(&config(&[("RUNTIME_DIR", "/r"), ("MODE", "tmux"), ("SESSION", "s")]));
    assert_eq!(
        kinds(&master)[3..11],
        [
            "tmux", "no session s", "reset /r/coordinator.log", "reset /r/worker-host-rank-0.log",
            "session s coordinator", "pause 1", "window s worker",
            "print started role=master mode=tmux",
        ]
    );
    let worker = start(&config(&[("RUNTIME_DIR", "/r"), ("MODE", "tmux"), ("RANK", "1")]));
    assert_eq!(
        kinds(&worker)[2..7],
        [
            "tmux", "no session agent-runtime-8765", "reset /r/worker-host-rank-1.log",
            "session agent-runtime-8765 worker", "print started role=worker mode=tmux",
        ]
    );
    match &worker[5] {
        Step::NewSession { command, .. } => {
            assert!(command.starts_with("'agent-worker' '--coordinator' "));
            assert!(command.ends_with(" >> '/r/worker-host-rank-1.log' 2>&1"));
        }
        other => panic!("{other:?}"),
    }
}

#[test]
fn stop_and_status_are_for_tmux() {
    let c = config(&[("MODE", "tmux"), ("SESSION", "s")]);
    let call = stop(&c).unwrap();
    assert_eq!(call.args, vec!["kill-session", "-t", "=s"]);
    assert_eq!(call.failure, "tmux session s was not stopped");
    let call = status(&c).unwrap();
    assert_eq!(call.args, vec!["list-windows", "-t", "=s"]);
    assert_eq!(call.failure, "tmux session s was not found");
    assert_eq!(
        stop(&config(&[])).unwrap_err().message(),
        "agent-runtime stop is only available with MODE=tmux"
    );
    assert_eq!(
        status(&config(&[])).unwrap_err().message(),
        "agent-runtime status is only available with MODE=tmux"
    );
    assert_eq!(tmux_target("s"), "=s");
    assert_eq!(tmux_has_session("s"), vec!["has-session", "-t", "=s"]);
    assert_eq!(session_exists("s"), "tmux session s already exists");
    let session = tmux_new_session("s", "w", "c");
    assert_eq!(session.args, vec!["new-session", "-d", "-s", "s", "-n", "w", "c"]);
    assert_eq!(session.failure, "failed to create tmux session s");
    let window = tmux_new_window("s", "w", "c");
    assert_eq!(window.args, vec!["new-window", "-t", "=s", "-n", "w", "c"]);
    assert_eq!(window.failure, "failed to create tmux window w");
}

#[test]
fn files_must_hold_something() {
    assert!(holds_something(Some(1)));
    assert!(!holds_something(Some(0)));
    assert!(!holds_something(None));
    assert!(require_file("/r/worker.token", "worker token", Some(9)).is_ok());
    assert_eq!(
        require_file("/r/worker.token", "worker token", None).unwrap_err(),
        "missing worker token: /r/worker.token"
    );
}

#[test]
fn launcher_ends_with_its_processes() {
    assert!(check_children(false, None, None).is_none());
    let ended = check_children(false, Some("exit status: 1"), Some("exit status: 0")).unwrap();
    assert!(!ended.stop_first && ended.stop_second);
    assert_eq!(ended.error.as_deref(), Some("coordinator exited with exit status: 1"));
    let ended = check_children(false, None, Some("signal: 9")).unwrap();
    assert!(ended.stop_first && !ended.stop_second);
    assert_eq!(ended.error.as_deref(), Some("worker exited with signal: 9"));
    let ended = check_children(true, Some("x"), None).unwrap();
    assert!(ended.stop_first && ended.stop_second);
    assert_eq!(ended.error.as_deref(), Some("received shutdown signal"));

    let exit = |success: bool| Some(ExitStatus { success, text: "exit status: 2".to_owned() });
    assert!(check_child(false, None, "worker").is_none());
    assert_eq!(check_child(false, exit(true), "worker").unwrap().error, None);
    assert_eq!(
        check_child(false, exit(false), "worker").unwrap().error.as_deref(),
        Some("worker exited with exit status: 2")
    );
    let stopped = check_child(true, None, "worker").unwrap();
    assert!(stopped.stop_first);
    assert_eq!(stopped.error.as_deref(), Some("received shutdown signal"));
}

#[test]
fn tokens_come_from_python_or_else_from_openssl() {
    assert_eq!(next_token_source(None), Some(TokenSource::Python));
    assert_eq!(next_token_source(Some(TokenSource::Python)), Some(TokenSource::OpenSsl));
    assert_eq!(next_token_source(Some(TokenSource::OpenSsl)), None);
    assert_eq!(
        token_command(TokenSource::Python),
        vec!["python3", "-c", "import secrets; print(secrets.token_urlsafe(32))"]
    );
    assert_eq!(token_command(TokenSource::OpenSsl), vec!["openssl", "rand", "-base64", "32"]);
}
