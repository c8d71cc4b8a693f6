use std::sync::mpsc::channel;
use std::sync::mpsc::Receiver;
use std::sync::mpsc::Sender;

use rupert::utils::BuildUpdates;
use rupert::utils::TextOutput;
use rupert::BuildInstruction;
use rupert::BuildResult;
use rupert::BuildSession;
use rupert::BuildStatus;
use rupert::BuildStep;
use rupert::BuildStepResult;

fn instruction(cmds: &[&str]) -> BuildInstruction {
    BuildInstruction {
        steps: cmds.iter().map(|c| BuildStep { cmd: String::from(*c) }).collect(),
    }
}

fn session(instr: &BuildInstruction, tx: Option<Sender<BuildUpdates>>) -> BuildSession {
    BuildSession::new(instr, String::from("/tmp/b"), String::from("/tmp/c"), tx)
}

/// Drives a whole build with scripted step behaviour: for each started step,
/// one stdout chunk and one exit code.
fn drive(
    instr: &BuildInstruction,
    script: &[(&[u8], i32)],
    tx: Option<Sender<BuildUpdates>>,
) -> BuildResult {
    let mut s = session(instr, tx);
    let mut i = 0;
    while let Some(_cmd) = s.next_cmd() {
        let (chunk, exit) = script[i];
        s.start_step();
        s.push_stdout(&chunk.to_vec());
        s.finish_step(exit, &Vec::new());
        i += 1;
    }
    s.finish()
}

fn drain(rx: &Receiver<BuildUpdates>) -> Vec<BuildUpdates> {
    let mut out = Vec::new();
    while let Ok(u) = rx.try_recv() {
        out.push(u);
    }
    out
}

#[test]
fn all_success_keeps_every_step() {
    let instr = instruction(&["echo a", "echo b", "echo c"]);
    let script: &[(&[u8], i32)] = &[(b"a\n", 0), (b"b\n", 0), (b"c\n", 0)];
    let res = drive(&instr, script, None);
    assert_eq!(res.steps.len(), 3);
    for step in &res.steps {
        assert_eq!(step.status, BuildStatus::Successful);
    }
    assert!(res.successful());
}

#[test]
fn stop_on_first_failure_truncates() {
    let instr = instruction(&["one", "two", "three", "four"]);
    let script: &[(&[u8], i32)] = &[(b"", 0), (b"", 3), (b"", 0), (b"", 0)];
    let res = drive(&instr, script, None);
    assert_eq!(res.steps.len(), 2);
    assert_eq!(res.steps[0].status, BuildStatus::Successful);
    assert_eq!(res.steps[1].status, BuildStatus::Failed);
    assert!(!res.successful());
}

#[test]
fn order_of_commands_is_preserved() {
    let instr = instruction(&["first", "second", "third"]);
    let script: &[(&[u8], i32)] = &[(b"", 0), (b"", 0), (b"", 1)];
    let res = drive(&instr, script, None);
    assert_eq!(res.steps.len(), 3);
    assert_eq!(res.steps[0].cmd, "first");
    assert_eq!(res.steps[1].cmd, "second");
    assert_eq!(res.steps[2].cmd, "third");
}

#[test]
fn no_listener_gives_identical_result() {
    let instr = instruction(&["one", "two", "three"]);
    let script: &[(&[u8], i32)] = &[(b"x\n", 0), (b"y\npartial", 2), (b"", 0)];
    let (tx, rx) = channel();
    let with_listener = drive(&instr, script, Some(tx));
    let without = drive(&instr, script, None);
    assert_eq!(with_listener.steps.len(), without.steps.len());
    for (a, b) in with_listener.steps.iter().zip(without.steps.iter()) {
        assert_eq!(a.status, b.status);
        assert_eq!(a.cmd, b.cmd);
        assert_eq!(a.output, b.output);
    }
    assert_eq!(with_listener.successful(), without.successful());
    drop(rx);
}

#[test]
fn dropped_listener_does_not_fail_the_build() {
    let instr = instruction(&["one"]);
    let script: &[(&[u8], i32)] = &[(b"hello\n", 0)];
    let (tx, rx) = channel();
    drop(rx);
    let res = drive(&instr, script, Some(tx));
    assert!(res.successful());
}

#[test]
fn line_buffered_streaming() {
    let instr = instruction(&["emit"]);
    let (tx, rx) = channel();
    let mut s = session(&instr, Some(tx));
    s.start_step();
    let emitted = s.push_stdout(&b"a\nb\nc".to_vec());
    assert_eq!(emitted, vec![String::from("a"), String::from("b")]);
    s.finish_step(0, &Vec::new());
    let res = s.finish();
    assert_eq!(res.steps.len(), 1);
    assert_eq!(res.steps[0].output, "abc");
    assert!(res.steps[0].output.contains('c'));
    let updates = drain(&rx);
    let new_output: Vec<&BuildUpdates> = updates
        .iter()
        .filter(|u| matches!(u, BuildUpdates::StepNewOutput(_)))
        .collect();
    assert_eq!(new_output.len(), 2);
    match (new_output[0], new_output[1]) {
        (
            BuildUpdates::StepNewOutput(TextOutput::Stdout(a)),
            BuildUpdates::StepNewOutput(TextOutput::Stdout(b)),
        ) => {
            assert_eq!(a, "a");
            assert_eq!(b, "b");
        },
        _ => panic!("expected stdout output events"),
    }
}

#[test]
fn split_lines_across_chunks() {
    let instr = instruction(&["emit"]);
    let mut s = session(&instr, None);
    s.start_step();
    let first = s.push_stdout(&b"hel".to_vec());
    assert!(first.is_empty());
    let second = s.push_stdout(&b"lo\nwo".to_vec());
    assert_eq!(second, vec![String::from("hello")]);
    s.finish_step(0, &Vec::new());
    let res = s.finish();
    assert_eq!(res.steps[0].output, "hellowo");
}

#[test]
fn lines_are_trimmed() {
    let instr = instruction(&["emit"]);
    let mut s = session(&instr, None);
    s.start_step();
    let emitted = s.push_stdout(&b"  spaced out  \n\ttabbed\t\n".to_vec());
    assert_eq!(emitted, vec![String::from("spaced out"), String::from("tabbed")]);
    s.finish_step(0, &Vec::new());
    let res = s.finish();
    assert_eq!(res.steps[0].output, "spaced outtabbed");
}

#[test]
fn progress_events_in_order() {
    let instr = instruction(&["one", "two"]);
    let script: &[(&[u8], i32)] = &[(b"out\n", 0), (b"", 5)];
    let (tx, rx) = channel();
    drive(&instr, script, Some(tx));
    let updates = drain(&rx);
    assert!(matches!(updates.first(), Some(BuildUpdates::Started)));
    assert!(matches!(updates.last(), Some(BuildUpdates::Finished)));
    let starts: Vec<String> = updates
        .iter()
        .filter_map(|u| match u {
            BuildUpdates::StepStarted(c) => Some(c.clone()),
            _ => None,
        })
        .collect();
    assert_eq!(starts, vec![String::from("one"), String::from("two")]);
    let finished: Vec<BuildStatus> = updates
        .iter()
        .filter_map(|u| match u {
            BuildUpdates::StepFinished(r) => Some(r.status),
            _ => None,
        })
        .collect();
    assert_eq!(finished, vec![BuildStatus::Successful, BuildStatus::Failed]);
}

#[test]
fn stderr_arrives_as_one_delayed_block() {
    let instr = instruction(&["noisy"]);
    let (tx, rx) = channel();
    let mut s = session(&instr, Some(tx));
    s.start_step();
    s.finish_step(0, &b"  boom  \n".to_vec());
    s.finish();
    let updates = drain(&rx);
    let blocks: Vec<String> = updates
        .iter()
        .filter_map(|u| match u {
            BuildUpdates::StepNewOutput(TextOutput::Stderr(t)) => Some(t.clone()),
            _ => None,
        })
        .collect();
    assert_eq!(blocks.len(), 1);
    assert_eq!(
        blocks[0],
        "------------- Rupert: Delayed stderr:\nboom\n------------- End of delayed stderr"
    );
}

#[test]
fn quiet_stderr_sends_no_block() {
    let instr = instruction(&["quiet"]);
    let (tx, rx) = channel();
    let mut s = session(&instr, Some(tx));
    s.start_step();
    s.finish_step(0, &Vec::new());
    s.finish();
    let updates = drain(&rx);
    assert!(updates
        .iter()
        .all(|u| !matches!(u, BuildUpdates::StepNewOutput(TextOutput::Stderr(_)))));
}

#[test]
fn update_descriptions() {
    assert_eq!(BuildUpdates::Started.describe(), "Starting build");
    assert_eq!(
        BuildUpdates::StepStarted(String::from("make")).describe(),
        "Starting step: make"
    );
    assert_eq!(
        BuildUpdates::StepNewOutput(TextOutput::Stdout(String::from("hi"))).describe(),
        "hi"
    );
    let good = BuildStepResult {
        status: BuildStatus::Successful,
        cmd: String::from("make"),
        output: String::new(),
    };
    assert_eq!(BuildUpdates::StepFinished(good).describe(), "Finished build-step");
    let bad = BuildStepResult {
        status: BuildStatus::Failed,
        cmd: String::from("make"),
        output: String::new(),
    };
    assert_eq!(
        BuildUpdates::StepFinished(bad).describe(),
        "Finished build-step with failure"
    );
    assert_eq!(BuildUpdates::Finished.describe(), "Finished  build");
    assert_eq!(TextOutput::Stderr(String::from("red")).text(), "red");
}

#[test]
fn successful_on_plain_results() {
    let empty = BuildResult { steps: Vec::new() };
    assert!(empty.successful());
    let mixed = BuildResult {
        steps: vec![
            BuildStepResult {
                status: BuildStatus::Successful,
                cmd: String::from("a"),
                output: String::new(),
            },
            BuildStepResult {
                status: BuildStatus::Stopped,
                cmd: String::from("b"),
                output: String::new(),
            },
        ],
    };
    assert!(!mixed.successful());
    let transient = BuildResult {
        steps: vec![BuildStepResult {
            status: BuildStatus::InProgress,
            cmd: String::from("a"),
            output: String::new(),
        }],
    };
    assert!(!transient.successful());
}
