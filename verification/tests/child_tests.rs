use server_knocker::child::{
    plan_from_words, spawn_child, ChildProcess, DelayedGroupSignal, GroupSignal, LinuxChild,
    Signal, SpawnError, Stage,
};

#[test]
fn command_line_is_split_into_program_and_arguments() {
    let plan = spawn_child("docker run --rm -p 8080:80 nginx").unwrap();
    assert_eq!(plan.program, "docker");
    assert_eq!(plan.args, vec!["run", "--rm", "-p", "8080:80", "nginx"]);
    assert!(plan.new_session);
    assert_eq!(plan.parent_death_signal, Signal::Term);
    assert!(plan.relay_output);
}

#[test]
fn quotes_group_words_and_are_removed() {
    let plan = spawn_child("sh -c 'echo \"hello  world\"' \"a b\" c\\ d").unwrap();
    assert_eq!(plan.program, "sh");
    assert_eq!(plan.args, vec!["-c", "echo \"hello  world\"", "a b", "c d"]);
}

#[test]
fn single_word_command_has_no_arguments() {
    let plan = spawn_child("  server  ").unwrap();
    assert_eq!(plan.program, "server");
    assert!(plan.args.is_empty());
}

#[test]
fn unmatched_quote_is_rejected() {
    assert_eq!(spawn_child("echo 'oops"), Err(SpawnError::UnmatchedQuote));
    assert_eq!(spawn_child("echo \"oops"), Err(SpawnError::UnmatchedQuote));
}

#[test]
fn command_without_words_is_rejected() {
    assert_eq!(spawn_child(""), Err(SpawnError::EmptyCommand));
    assert_eq!(spawn_child("   \t\n"), Err(SpawnError::EmptyCommand));
    assert_eq!(spawn_child("# only a comment"), Err(SpawnError::EmptyCommand));
}

#[test]
fn plan_from_words_takes_the_first_word_as_program() {
    let plan = plan_from_words(vec![String::from("a"), String::from("b"), String::from("")])
        .unwrap();
    assert_eq!(plan.program, "a");
    assert_eq!(plan.args, vec![String::from("b"), String::new()]);
    assert_eq!(plan_from_words(Vec::new()), Err(SpawnError::EmptyCommand));
}

#[test]
fn child_leads_the_session_named_by_its_pid() {
    let child = ChildProcess::new(4321).unwrap();
    assert_eq!(child, ChildProcess { pid: 4321, session: 4321, stage: Stage::Running });
    assert_eq!(child.get_session_id(), 4321);
}

#[test]
fn pid_that_names_no_group_gives_no_child() {
    assert_eq!(ChildProcess::new(0), None);
    assert_eq!(ChildProcess::new(0x8000_0000), None);
    assert_eq!(ChildProcess::new(u32::MAX), None);
    assert!(ChildProcess::new(0x7fff_ffff).is_some());
    assert!(ChildProcess::new(1).is_some());
}

#[test]
fn signals_go_to_the_whole_group() {
    let child = ChildProcess::new(77).unwrap();
    assert_eq!(
        child.kill_process_group(Some(Signal::Term)),
        GroupSignal { group: 77, signal: Some(Signal::Term) }
    );
    assert_eq!(child.kill_process_group(None), GroupSignal { group: 77, signal: None });
    assert_eq!(
        child.try_kill_process_group_after(10_000, Signal::Kill),
        DelayedGroupSignal { group: 77, signal: Signal::Kill, delay_ms: 10_000 }
    );
}

#[test]
fn terminate_escalates_and_reaps() {
    let mut child = ChildProcess::new(900).unwrap();
    let plan = child.terminate(2_500);
    assert_eq!(plan.terminate, GroupSignal { group: 900, signal: Some(Signal::Term) });
    assert_eq!(
        plan.escalate,
        DelayedGroupSignal { group: 900, signal: Signal::Kill, delay_ms: 2_500 }
    );
    assert_eq!(plan.reap, 900);
    assert_eq!(child.stage, Stage::Reaped);
    assert_eq!(child.pid, 900);
}
