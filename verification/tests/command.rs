use microbox::command::{looks_like_shell_command, shell_escape, CommandPlan};
use microbox::duration::Duration;
use microbox::errors::SandboxError;
use microbox::request::{ExecutionResult, ProcessOutput};

#[test]
fn shell_detection_is_reasonable() {
    assert!(looks_like_shell_command("npm install && npm start"));
    assert!(!looks_like_shell_command("python"));
}

#[test]
fn shell_detection_knows_every_sign() {
    for line in ["a b", "a\tb", "a\nb", "a&&b", "a||b", "a|b", "a;b", "a>b", "a<b"] {
        assert!(looks_like_shell_command(line), "{line}");
    }
    for word in ["", "a&b", "a-b", "$x", "(a)", "\u{a0}"] {
        assert!(!looks_like_shell_command(word), "{word}");
    }
}

#[test]
fn direct_command_plan_keeps_args() {
    let plan = CommandPlan::from_raw(vec!["python".into(), "agent.py".into()]).unwrap();
    match plan {
        CommandPlan::Direct { argv } => assert_eq!(argv.len(), 2),
        CommandPlan::Shell { .. } => panic!("expected direct command"),
    }
}

#[test]
fn one_word_may_be_a_shell_line() {
    let plan = CommandPlan::from_raw(vec!["ls -l".into()]).unwrap();
    assert_eq!(plan, CommandPlan::Shell { command: "ls -l".to_string() });
    let plan = CommandPlan::from_raw(vec!["ls".into()]).unwrap();
    assert_eq!(plan, CommandPlan::Direct { argv: vec!["ls".to_string()] });
    let plan = CommandPlan::from_raw(vec!["a b".into(), "c".into()]).unwrap();
    assert!(matches!(plan, CommandPlan::Direct { .. }));
    assert!(matches!(CommandPlan::from_raw(vec![]), Err(SandboxError::EmptyCommand)));
}

#[test]
fn display_quotes_arguments_with_spaces() {
    let plan = CommandPlan::Direct {
        argv: vec!["echo".into(), "hello world".into()],
    };

    assert_eq!(plan.display(), "echo \"hello world\"");
}

#[test]
fn shell_escape_is_stable_for_simple_inputs() {
    assert_eq!(shell_escape("python"), "python");
    assert_eq!(shell_escape(""), "\"\"");
    assert_eq!(shell_escape("a b"), "\"a b\"");
}

#[test]
fn shell_escape_guards_quotes_and_backslashes() {
    assert_eq!(shell_escape("a\\b"), "a\\b");
    assert_eq!(shell_escape("a\\ b"), "\"a\\\\ b\"");
    assert_eq!(shell_escape("say \"x\""), "\"say \\\"x\\\"\"");
    assert_eq!(shell_escape("a_b-c.d/e:f"), "a_b-c.d/e:f");
    assert_eq!(shell_escape("ä"), "\"ä\"");
}

#[test]
fn written_commands_tell_their_arguments_apart() {
    let show = |argv: &[&str]| {
        CommandPlan::Direct { argv: argv.iter().map(|s| s.to_string()).collect() }.display()
    };
    assert_ne!(show(&["a b"]), show(&["a", "b"]));
    assert_ne!(show(&["a", ""]), show(&["a"]));
    assert_ne!(show(&["a\" \"b"]), show(&["a", "b"]));
    assert_eq!(show(&["a\" \"b", ""]), "\"a\\\" \\\"b\" \"\"");
    let shell = CommandPlan::Shell { command: "a | b".to_string() };
    assert_eq!(shell.display(), "a | b");
}

#[test]
fn exit_codes_follow_status_and_timeout() {
    let result = |status: Option<i32>, timed_out: bool| {
        ExecutionResult::from_status(status, vec![], vec![], Duration::from_secs(1), timed_out)
    };
    assert_eq!(result(Some(3), false).exit_code(), 3);
    assert_eq!(result(None, false).exit_code(), 1);
    assert_eq!(result(Some(0), true).exit_code(), 124);
}

#[test]
fn output_is_decoded() {
    let output = ProcessOutput {
        status: Some(0),
        stdout: "grüß\n".as_bytes().to_vec(),
        stderr: vec![0x61, 0xff, 0x62],
    };
    let result = ExecutionResult::from_output(output, Duration::from_millis(5));
    assert_eq!(result.stdout, "grüß\n");
    assert_eq!(result.stderr, "a\u{fffd}b");
    assert_eq!(result.duration, Duration::from_millis(5));
    assert!(!result.timed_out);
}
