use shado::builtin::{Builtin, ErrCode};
use shado::command::tokenize_commands;
use shado::pipeline::{classify_line, Event, Executor, Line, StdinSource, StdoutTarget, Step};

fn executor_for(line: &str) -> Executor {
    Executor::new(&tokenize_commands(line))
}

#[test]
fn blank_lines_run_nothing() {
    assert!(matches!(classify_line("\n"), Line::Blank));
    assert!(matches!(classify_line(""), Line::Blank));
    assert!(matches!(classify_line("  \t \n"), Line::Blank));
}

#[test]
fn exit_line_ends_the_loop() {
    assert!(matches!(classify_line("exit\n"), Line::Exit));
    assert!(matches!(classify_line("exit"), Line::Exit));
    assert!(matches!(classify_line("exit now\n"), Line::Run(_)));
    assert!(matches!(classify_line(" exit\n"), Line::Run(_)));
}

#[test]
fn empty_segment_is_reported() {
    assert!(matches!(classify_line("ls |  | wc\n"), Line::BlankSegment));
}

#[test]
fn run_line_holds_its_pipeline() {
    match classify_line("ls -l | wc\n") {
        Line::Run(p) => {
            assert_eq!(p.splits.len(), 2);
            assert_eq!(p.splits[0].keyword, "ls");
            assert_eq!(p.splits[1].keyword, "wc");
        }
        _ => panic!("expected a pipeline"),
    }
}

#[test]
fn two_stage_pipeline_is_wired_and_joined() {
    let mut e = executor_for("producer | consumer");
    assert_eq!(
        e.next_step(),
        Step::Spawn { index: 0, stdin: StdinSource::Inherit, stdout: StdoutTarget::Piped }
    );
    e.on_event(Event::Spawned);
    assert_eq!(
        e.next_step(),
        Step::Spawn { index: 1, stdin: StdinSource::PreviousOutput, stdout: StdoutTarget::Inherit }
    );
    e.on_event(Event::Spawned);
    assert_eq!(e.next_step(), Step::WaitLast);
    e.on_event(Event::Waited);
    assert_eq!(e.next_step(), Step::Done);
    assert_eq!(e.statuses(), &vec![ErrCode::Success, ErrCode::Success]);
}

#[test]
fn builtin_runs_in_shell_and_drops_the_live_process() {
    let mut e = executor_for("ls | echo hi | wc");
    e.on_event(Event::Spawned);
    assert_eq!(e.next_step(), Step::RunBuiltin { index: 1, kind: Builtin::Echo });
    e.on_event(Event::BuiltinFinished(ErrCode::Success));
    assert_eq!(
        e.next_step(),
        Step::Spawn { index: 2, stdin: StdinSource::Inherit, stdout: StdoutTarget::Inherit }
    );
}

#[test]
fn failed_spawn_does_not_stop_the_pipeline() {
    let mut e = executor_for("nosuchprog | wc");
    e.on_event(Event::SpawnFailed);
    assert_eq!(
        e.next_step(),
        Step::Spawn { index: 1, stdin: StdinSource::Inherit, stdout: StdoutTarget::Inherit }
    );
    e.on_event(Event::SpawnFailed);
    assert_eq!(e.next_step(), Step::Done);
    assert_eq!(e.statuses(), &vec![ErrCode::Error, ErrCode::Error]);
}

#[test]
fn single_builtin_line() {
    let mut e = executor_for("echo one two three\n");
    assert_eq!(e.next_step(), Step::RunBuiltin { index: 0, kind: Builtin::Echo });
    e.on_event(Event::BuiltinFinished(ErrCode::Success));
    assert_eq!(e.next_step(), Step::Done);
}
