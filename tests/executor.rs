use minishell::builtins::{command_kind, dispatch, exit_status, negate_status, parse_i32, CommandKind, Dispatch};
use minishell::command::{CommandList, CommandListItem, RunConditions};
use minishell::executor::{
    launch_status, runnable_command, should_run, status_of, Launch, ListRun, ListStep, Termination,
    FAILURE_STATUS,
};
use minishell::parser::CommandParser;
use minishell::paths::{cd_target, command_candidates, first_existing, get_path_list, standardize_path};
use minishell::tokenizer::tokenize;

fn parse(input: &str) -> CommandList {
    let mut p = CommandParser::new();
    p.parse_input(tokenize(input));
    p.get_next_command_list().unwrap()
}

fn words_at(list: &CommandList, i: usize) -> Vec<String> {
    match &list[i] {
        CommandListItem::Pipeline(p) => runnable_command(p).unwrap().arguments.clone(),
        CommandListItem::Subshell(_) => panic!("expected a pipeline"),
    }
}

fn strings(v: &[&str]) -> Vec<String> {
    v.iter().map(|s| s.to_string()).collect()
}

#[test]
fn and_skips_after_failure() {
    let l = parse("false && echo should_not_print\n");
    let mut run = ListRun::new();
    let mut invoked = Vec::new();
    let step = run.step(&l);
    assert_eq!(step, ListStep::RunPipeline(0));
    invoked.push(words_at(&l, 0));
    assert_eq!(command_kind(&words_at(&l, 0)), CommandKind::External);
    run.record(1);
    assert_eq!(run.step(&l), ListStep::Finished(1));
    assert_eq!(invoked, vec![strings(&["false"])]);
}

#[test]
fn or_skips_after_success() {
    let l = parse("true || echo should_not_print\n");
    let mut run = ListRun::new();
    assert_eq!(run.step(&l), ListStep::RunPipeline(0));
    assert_eq!(words_at(&l, 0), strings(&["true"]));
    run.record(0);
    assert_eq!(run.step(&l), ListStep::Finished(0));
}

#[test]
fn chains_compose_left_to_right() {
    let l = parse("a || b && c; d\n");
    let mut run = ListRun::new();
    assert_eq!(run.step(&l), ListStep::RunPipeline(0));
    run.record(0);
    // b is skipped and the status 0 is carried to c.
    assert_eq!(run.step(&l), ListStep::RunPipeline(2));
    run.record(4);
    assert_eq!(run.step(&l), ListStep::RunPipeline(3));
    run.record(0);
    assert_eq!(run.step(&l), ListStep::Finished(0));
}

#[test]
fn skipped_last_item_keeps_status() {
    let l = parse("a && b\n");
    let mut run = ListRun::new();
    assert_eq!(run.step(&l), ListStep::RunPipeline(0));
    run.record(7);
    assert_eq!(run.step(&l), ListStep::Finished(7));
    assert_eq!(run.status, 7);
}

#[test]
fn empty_list_finishes_with_zero() {
    let l: CommandList = Vec::new();
    let mut run = ListRun::new();
    assert_eq!(run.step(&l), ListStep::Finished(0));
}

#[test]
fn two_command_pipeline_fails() {
    let l = parse("a | b\n");
    let mut run = ListRun::new();
    assert_eq!(run.step(&l), ListStep::RunPipeline(0));
    match &l[0] {
        CommandListItem::Pipeline(p) => {
            assert_eq!(p.len(), 2);
            assert_eq!(runnable_command(p).err(), Some(FAILURE_STATUS));
        }
        CommandListItem::Subshell(_) => panic!("expected a pipeline"),
    }
    assert_eq!(FAILURE_STATUS, 1);
    run.record(FAILURE_STATUS);
    assert_eq!(run.step(&l), ListStep::Finished(1));
}

#[test]
fn subshell_exit_status_reaches_parent() {
    let l = parse("(exit 3); echo after\n");
    let mut run = ListRun::new();
    assert_eq!(run.step(&l), ListStep::RunSubshell(0));
    let body = match &l[0] {
        CommandListItem::Subshell(b) => b,
        CommandListItem::Pipeline(_) => panic!("expected a subshell"),
    };
    // What the child does.
    let mut child = ListRun::new();
    assert_eq!(child.step(body), ListStep::RunPipeline(0));
    let argv = words_at(body, 0);
    assert_eq!(command_kind(&argv), CommandKind::Exit);
    let code = exit_status(&argv).unwrap();
    assert_eq!(code, 3);
    // What the parent sees.
    let status = status_of(Termination::Exited(code as u8));
    assert_eq!(status, 3);
    run.record(status);
    assert_eq!(run.step(&l), ListStep::RunPipeline(1));
    assert_eq!(words_at(&l, 1), strings(&["echo", "after"]));
}

#[test]
fn run_conditions() {
    assert!(should_run(RunConditions::Always, 5));
    assert!(should_run(RunConditions::IfTrue, 0));
    assert!(!should_run(RunConditions::IfTrue, 1));
    assert!(should_run(RunConditions::IfFalse, -1));
    assert!(!should_run(RunConditions::IfFalse, 0));
}

#[test]
fn termination_statuses() {
    assert_eq!(status_of(Termination::Exited(0)), 0);
    assert_eq!(status_of(Termination::Exited(127)), 127);
    assert_eq!(status_of(Termination::Exited(255)), -1);
    assert_eq!(status_of(Termination::Exited(128)), -128);
    assert_eq!(status_of(Termination::Signaled), -1);
    assert_eq!(status_of(Termination::Stopped), -2);
    assert_eq!(status_of(Termination::Other), -3);
}

#[test]
fn command_kinds() {
    assert_eq!(command_kind(&Vec::new()), CommandKind::Empty);
    assert_eq!(command_kind(&strings(&["cd", "/tmp"])), CommandKind::ChangeDirectory);
    assert_eq!(command_kind(&strings(&["cd"])), CommandKind::ChangeDirectory);
    assert_eq!(command_kind(&strings(&["exit"])), CommandKind::Exit);
    assert_eq!(command_kind(&strings(&["!", "false"])), CommandKind::Negate);
    assert_eq!(command_kind(&strings(&["exec", "ls"])), CommandKind::Exec);
    assert_eq!(command_kind(&strings(&["exec"])), CommandKind::Empty);
    assert_eq!(command_kind(&strings(&["CD"])), CommandKind::External);
    assert_eq!(command_kind(&strings(&["ls", "-l"])), CommandKind::External);
}

#[test]
fn negation() {
    assert_eq!(negate_status(0), 1);
    assert_eq!(negate_status(1), 0);
    assert_eq!(negate_status(-3), 0);
}

#[test]
fn exit_statuses() {
    assert_eq!(exit_status(&strings(&["exit"])), Some(0));
    assert_eq!(exit_status(&strings(&["exit", "42"])), Some(42));
    assert_eq!(exit_status(&strings(&["exit", "x"])), None);
}

#[test]
fn decimal_parsing() {
    let p = |s: &str| parse_i32(&s.to_string());
    assert_eq!(p("0"), Some(0));
    assert_eq!(p("+7"), Some(7));
    assert_eq!(p("-12"), Some(-12));
    assert_eq!(p("007"), Some(7));
    assert_eq!(p("2147483647"), Some(i32::MAX));
    assert_eq!(p("-2147483648"), Some(i32::MIN));
    assert_eq!(p("2147483648"), None);
    assert_eq!(p("-2147483649"), None);
    assert_eq!(p("99999999999999999999"), None);
    assert_eq!(p(""), None);
    assert_eq!(p("-"), None);
    assert_eq!(p("+"), None);
    assert_eq!(p("1a"), None);
    assert_eq!(p(" 1"), None);
}

#[test]
fn cd_parent_is_segment_removal() {
    assert_eq!(standardize_path("..", "/a/b"), "/a");
}

#[test]
fn standardize_paths() {
    assert_eq!(standardize_path("c", "/a/b"), "/a/b/c");
    assert_eq!(standardize_path("/x/./y/../z", "/w"), "/x/z");
    assert_eq!(standardize_path("../../..", "/a"), "/");
    assert_eq!(standardize_path(".", "/a/b/"), "/a/b");
    assert_eq!(standardize_path("//x//y/", "/"), "/x/y");
    assert_eq!(standardize_path("d/..", "rel"), "rel");
}

#[test]
fn path_lists() {
    assert_eq!(get_path_list(None), strings(&["/bin", "/usr/bin"]));
    assert_eq!(get_path_list(Some("/x::/y")), strings(&["/x", "", "/y"]));
    assert_eq!(get_path_list(Some("")), strings(&[""]));
    assert_eq!(get_path_list(Some("/usr/local/bin")), strings(&["/usr/local/bin"]));
}

#[test]
fn candidate_paths() {
    let dirs = strings(&["/bin", "/usr/bin/", ""]);
    assert_eq!(
        command_candidates(&"ls".to_string(), &dirs),
        strings(&["/bin/ls", "/usr/bin/ls", "ls"])
    );
    assert_eq!(command_candidates(&"./prog".to_string(), &dirs), strings(&["./prog"]));
    assert_eq!(command_candidates(&"ls".to_string(), &Vec::new()), Vec::<String>::new());
}

#[test]
fn fork_failure_ends_the_list() {
    let l = parse("(a); b\n");
    let mut run = ListRun::new();
    assert_eq!(run.step(&l), ListStep::RunSubshell(0));
    assert_eq!(run.fail(&l), FAILURE_STATUS);
    assert_eq!(run.step(&l), ListStep::Finished(1));
}

#[test]
fn cd_targets() {
    assert_eq!(cd_target(&strings(&["cd", ".."]), "/a/b", Some("/home/u")), Some("/a".to_string()));
    assert_eq!(cd_target(&strings(&["cd"]), "/a/b", Some("/home/u")), Some("/home/u".to_string()));
    assert_eq!(cd_target(&strings(&["cd"]), "/a/b", None), None);
}

#[test]
fn first_existing_candidate() {
    assert_eq!(first_existing(&vec![false, true, true]), Some(1));
    assert_eq!(first_existing(&vec![true]), Some(0));
    assert_eq!(first_existing(&vec![false, false]), None);
    assert_eq!(first_existing(&Vec::new()), None);
}

#[test]
fn launch_statuses() {
    assert_eq!(launch_status(Launch::NotFound), 1);
    assert_eq!(launch_status(Launch::ForkFailed), 1);
    assert_eq!(launch_status(Launch::Waited(Termination::Exited(0))), 0);
    assert_eq!(launch_status(Launch::Waited(Termination::Exited(3))), 3);
    assert_eq!(launch_status(Launch::Waited(Termination::Signaled)), -1);
    assert_eq!(launch_status(Launch::Waited(Termination::Stopped)), -2);
    assert_eq!(launch_status(Launch::Waited(Termination::Other)), -3);
}

#[test]
fn dispatch_statuses() {
    let home = Some("/home/u");
    assert!(matches!(dispatch(&Vec::new(), "/a", home), Dispatch::Done(0)));
    assert!(matches!(dispatch(&strings(&["exec"]), "/a", home), Dispatch::Done(0)));
    assert!(matches!(dispatch(&strings(&["cd"]), "/a", None), Dispatch::Done(1)));
    match dispatch(&strings(&["cd"]), "/a", home) {
        Dispatch::ChangeDirectory { target, update_pwd } => {
            assert_eq!(target, "/home/u");
            assert!(!update_pwd);
        }
        other => panic!("unexpected {:?}", other),
    }
    match dispatch(&strings(&["cd", ".."]), "/a/b", home) {
        Dispatch::ChangeDirectory { target, update_pwd } => {
            assert_eq!(target, "/a");
            assert!(update_pwd);
        }
        other => panic!("unexpected {:?}", other),
    }
    assert!(matches!(dispatch(&strings(&["exit"]), "/a", home), Dispatch::Exit(0)));
    assert!(matches!(dispatch(&strings(&["exit", "3"]), "/a", home), Dispatch::Exit(3)));
    assert!(matches!(dispatch(&strings(&["exit", "x"]), "/a", home), Dispatch::Done(1)));
    assert!(matches!(dispatch(&strings(&["!", "ls"]), "/a", home), Dispatch::Negate));
    assert!(matches!(dispatch(&strings(&["exec", "ls"]), "/a", home), Dispatch::Exec));
    assert!(matches!(dispatch(&strings(&["ls"]), "/a", home), Dispatch::External));
}
