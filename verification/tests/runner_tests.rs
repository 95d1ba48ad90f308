use xtemp::errors::XtempError;
use xtemp::limits::{configured_batch_size, default_batch_size, effective_batch_size};
use xtemp::runner::{ChildEvent, Config, RunState, Runner};

fn strings(v: &[&str]) -> Vec<String> {
    v.iter().map(|s| s.to_string()).collect()
}

fn config(command: &[&str], batch: usize, replstr: Option<&str>, keep: bool, list: bool) -> Config {
    Config::new(strings(command), batch, replstr.map(|s| s.to_string()), keep, list).unwrap()
}

#[test]
fn five_records_batch_two_make_three_invocations() {
    let cfg = config(&["cat"], 2, None, false, false);
    let mut runner = Runner::new(cfg, strings(&["a", "b", "c", "d", "e"])).unwrap();
    let mut argvs: Vec<Vec<String>> = Vec::new();
    let mut contents: Vec<String> = Vec::new();
    loop {
        match runner.next_command().unwrap() {
            None => break,
            Some(argv) => {
                for i in 0..argv.len() - 1 {
                    contents.push(runner.pool.slot_content(i).unwrap());
                }
                argvs.push(argv);
                runner.report(ChildEvent::Exited(Some(0))).unwrap();
            },
        }
    }
    assert_eq!(argvs.len(), 3);
    assert_eq!(argvs[0].len(), 3); // cat + two paths
    assert_eq!(argvs[1].len(), 3);
    assert_eq!(argvs[2].len(), 2); // cat + one path for the short final batch
    for argv in &argvs {
        assert_eq!(argv[0], "cat");
    }
    assert_eq!(contents, strings(&["a", "b", "c", "d", "e"]));
    assert_eq!(runner.state, RunState::Done);
}

#[test]
fn empty_input_runs_no_batch() {
    let cfg = config(&["cat"], 3, None, false, false);
    let mut runner = Runner::new(cfg, Vec::new()).unwrap();
    assert!(runner.next_command().unwrap().is_none());
    assert_eq!(runner.state, RunState::Done);
}

#[test]
fn list_mode_passes_one_token_per_batch() {
    let cfg = config(&["wc", "-l"], 2, None, false, true);
    let mut runner = Runner::new(cfg, strings(&["a", "b", "c"])).unwrap();
    let argv = runner.next_command().unwrap().unwrap();
    // The whole template plus exactly one replacement token, whatever the
    // batch size.
    assert_eq!(argv.len(), 3);
    assert_eq!(argv[0], "wc");
    assert_eq!(argv[1], "-l");
    // The list file holds the two active slot paths, newline-joined.
    let listed = runner.list_pool.slot_content(0).unwrap();
    let paths = runner.pool.paths(2);
    assert_eq!(listed, format!("{}\n{}\n", paths[0], paths[1]));
    runner.report(ChildEvent::Exited(Some(0))).unwrap();
    let argv2 = runner.next_command().unwrap().unwrap();
    assert_eq!(argv2.len(), 3);
    let listed2 = runner.list_pool.slot_content(0).unwrap();
    assert_eq!(listed2, format!("{}\n", paths[0]));
}

#[test]
fn keep_newlines_writes_trailing_newline() {
    let cfg = config(&["cat"], 1, None, true, false);
    let mut runner = Runner::new(cfg, strings(&["only"])).unwrap();
    runner.next_command().unwrap().unwrap();
    assert_eq!(runner.pool.slot_content(0).unwrap(), "only\n");
}

#[test]
fn placeholder_position_is_respected_per_batch() {
    let cfg = config(&["sh", "-c", "X", "tail"], 1, Some("X"), false, false);
    let mut runner = Runner::new(cfg, strings(&["one"])).unwrap();
    let argv = runner.next_command().unwrap().unwrap();
    assert_eq!(argv.len(), 4);
    assert_eq!(argv[0], "sh");
    assert_eq!(argv[1], "-c");
    assert_eq!(argv[3], "tail");
}

#[test]
fn nonzero_exit_on_middle_batch_stops_the_run() {
    let cfg = config(&["cat"], 1, None, false, false);
    let mut runner = Runner::new(cfg, strings(&["a", "b", "c"])).unwrap();
    runner.next_command().unwrap().unwrap();
    runner.report(ChildEvent::Exited(Some(0))).unwrap();
    runner.next_command().unwrap().unwrap();
    let err = runner.report(ChildEvent::Exited(Some(3))).unwrap_err();
    match &err {
        XtempError::SubprocessFailed(cause) => {
            assert_eq!(cause, "command exited with code 3");
        },
        other => panic!("unexpected error: {:?}", other),
    }
    assert_eq!(err.message(), "subprocess failed: command exited with code 3");
    assert_eq!(runner.state, RunState::Failed);
    assert_eq!(runner.next_batch, 1);
}

#[test]
fn signal_termination_reports_sentinel_code() {
    let cfg = config(&["cat"], 1, None, false, false);
    let mut runner = Runner::new(cfg, strings(&["a"])).unwrap();
    runner.next_command().unwrap().unwrap();
    let err = runner.report(ChildEvent::Exited(None)).unwrap_err();
    assert_eq!(err.message(), "subprocess failed: command exited with code -1");
    assert_eq!(runner.state, RunState::Failed);
}

#[test]
fn spawn_failure_fails_the_run_at_once() {
    let cfg = config(&["no-such-program"], 1, None, false, false);
    let mut runner = Runner::new(cfg, strings(&["a", "b"])).unwrap();
    runner.next_command().unwrap().unwrap();
    let err = runner
        .report(ChildEvent::SpawnFailed("No such file or directory (os error 2)".to_string()))
        .unwrap_err();
    match &err {
        XtempError::SpawnFailed(cause) => {
            assert_eq!(cause, "No such file or directory (os error 2)");
        },
        other => panic!("unexpected error: {:?}", other),
    }
    assert_eq!(runner.state, RunState::Failed);
    assert_eq!(runner.next_batch, 0);
}

#[test]
fn batch_size_larger_than_input_runs_once() {
    let cfg = config(&["cat"], 5, None, false, false);
    let mut runner = Runner::new(cfg, strings(&["x"])).unwrap();
    assert_eq!(runner.pool.len(), 5);
    let argv = runner.next_command().unwrap().unwrap();
    assert_eq!(argv.len(), 2); // cat + the single active path
    assert_eq!(runner.pool.paths(1).len(), 1);
    runner.report(ChildEvent::Exited(Some(0))).unwrap();
    assert!(runner.next_command().unwrap().is_none());
    assert_eq!(runner.state, RunState::Done);
}

#[test]
fn missing_command_is_a_configuration_error() {
    let err = Config::new(Vec::new(), 4, None, false, false).unwrap_err();
    assert!(matches!(err, XtempError::MissingCommand));
    assert_eq!(err.message(), "missing command argument");
}

#[test]
fn same_run_twice_plans_the_same_commands() {
    let records = strings(&["a", "b", "c"]);
    let mk = || {
        let cfg = config(&["cmd", "X", "end"], 2, Some("X"), false, false);
        Runner::new(cfg, records.clone()).unwrap()
    };
    let mut r1 = mk();
    let mut r2 = mk();
    loop {
        let a1 = r1.next_command().unwrap();
        let a2 = r2.next_command().unwrap();
        match (a1, a2) {
            (None, None) => break,
            (Some(v1), Some(v2)) => {
                // The shapes agree everywhere; the only differences are the
                // temp-file path tokens themselves.
                assert_eq!(v1.len(), v2.len());
                assert_eq!(v1[0], v2[0]);
                assert_eq!(v1[v1.len() - 1], v2[v2.len() - 1]);
                r1.report(ChildEvent::Exited(Some(0))).unwrap();
                r2.report(ChildEvent::Exited(Some(0))).unwrap();
            },
            _ => panic!("runs disagree on batch count"),
        }
    }
}

#[test]
fn error_messages_name_their_kind() {
    assert_eq!(
        XtempError::InvalidUtf8("bad byte".to_string()).message(),
        "input contains invalid UTF-8: bad byte"
    );
    assert_eq!(
        XtempError::ProvisioningFailed("no space".to_string()).message(),
        "could not create temporary file: no space"
    );
    assert_eq!(
        XtempError::FailedToWrite("disk full".to_string()).message(),
        "could not write to output stream: disk full"
    );
    assert_eq!(
        XtempError::SpawnFailed("denied".to_string()).message(),
        "failed to run command: denied"
    );
}

#[test]
fn default_batch_size_applies_margin_and_floor() {
    assert_eq!(default_batch_size(Some(1024)), 992);
    assert_eq!(default_batch_size(None), 992);
    assert_eq!(default_batch_size(Some(33)), 1);
    assert_eq!(default_batch_size(Some(32)), 1);
    assert_eq!(default_batch_size(Some(10)), 1);
    assert_eq!(default_batch_size(Some(100)), 68);
}

#[test]
fn explicit_batch_size_is_trusted() {
    assert_eq!(effective_batch_size(Some(7), Some(10_000)), 7);
    assert_eq!(effective_batch_size(None, Some(100)), 68);
    assert_eq!(configured_batch_size(Some(3)), 3);
    assert!(configured_batch_size(None) >= 1);
}
