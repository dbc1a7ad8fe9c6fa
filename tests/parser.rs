use minishell::command::{CommandList, CommandListItem, Pipeline, RunConditions};
use minishell::parser::{CommandParser, ParserStatus};
use minishell::tokenizer::tokenize;

fn parse(input: &str) -> CommandList {
    let mut p = CommandParser::new();
    assert_eq!(p.parse_input(tokenize(input)), ParserStatus::Parsed);
    let l = p.get_next_command_list().unwrap();
    assert!(p.get_next_command_list().is_none());
    l
}

fn pipeline(item: &CommandListItem) -> &Pipeline {
    match item {
        CommandListItem::Pipeline(p) => p,
        CommandListItem::Subshell(_) => panic!("expected a pipeline"),
    }
}

fn words(p: &Pipeline) -> Vec<Vec<String>> {
    p.commands.iter().map(|c| c.arguments.clone()).collect()
}

fn one(s: &str) -> Vec<Vec<String>> {
    vec![vec![s.to_string()]]
}

#[test]
fn conditions_follow_separators() {
    let l = parse("a; b && c || d\n");
    assert_eq!(l.len(), 4);
    let conds: Vec<RunConditions> = l.iter().map(|i| pipeline(i).run_conditions).collect();
    assert_eq!(
        conds,
        vec![RunConditions::Always, RunConditions::Always, RunConditions::IfTrue, RunConditions::IfFalse]
    );
    for (item, name) in l.iter().zip(["a", "b", "c", "d"]) {
        assert_eq!(words(pipeline(item)), one(name));
    }
}

#[test]
fn subshell_then_pipeline() {
    let l = parse("(a; b) && c\n");
    assert_eq!(l.len(), 2);
    match &l[0] {
        CommandListItem::Subshell(body) => {
            assert_eq!(body.len(), 2);
            assert_eq!(words(pipeline(&body[0])), one("a"));
            assert_eq!(pipeline(&body[0]).run_conditions, RunConditions::Always);
            assert_eq!(words(pipeline(&body[1])), one("b"));
            assert_eq!(pipeline(&body[1]).run_conditions, RunConditions::Always);
        }
        CommandListItem::Pipeline(_) => panic!("expected a subshell"),
    }
    assert_eq!(words(pipeline(&l[1])), one("c"));
    assert_eq!(pipeline(&l[1]).run_conditions, RunConditions::IfTrue);
}

#[test]
fn condition_before_subshell_passes_to_next_pipeline() {
    let l = parse("a && (b) c\n");
    assert_eq!(l.len(), 3);
    assert_eq!(pipeline(&l[0]).run_conditions, RunConditions::Always);
    assert!(matches!(&l[1], CommandListItem::Subshell(_)));
    assert_eq!(pipeline(&l[2]).run_conditions, RunConditions::IfTrue);
}

#[test]
fn pipeline_of_two_commands() {
    let l = parse("a x | b y\n");
    assert_eq!(l.len(), 1);
    let p = pipeline(&l[0]);
    assert_eq!(p.len(), 2);
    assert_eq!(
        words(p),
        vec![vec!["a".to_string(), "x".to_string()], vec!["b".to_string(), "y".to_string()]]
    );
}

#[test]
fn ampersand_is_ignored() {
    let l = parse("a & b\n");
    assert_eq!(l.len(), 2);
    assert_eq!(words(pipeline(&l[0])), one("a"));
    assert_eq!(words(pipeline(&l[1])), one("b"));
    assert_eq!(pipeline(&l[1]).run_conditions, RunConditions::Always);
}

#[test]
fn nested_subshells() {
    let l = parse("((a) b)\n");
    assert_eq!(l.len(), 1);
    match &l[0] {
        CommandListItem::Subshell(outer) => {
            assert_eq!(outer.len(), 2);
            match &outer[0] {
                CommandListItem::Subshell(inner) => {
                    assert_eq!(inner.len(), 1);
                    assert_eq!(words(pipeline(&inner[0])), one("a"));
                }
                CommandListItem::Pipeline(_) => panic!("expected a subshell"),
            }
            assert_eq!(words(pipeline(&outer[1])), one("b"));
        }
        CommandListItem::Pipeline(_) => panic!("expected a subshell"),
    }
}

#[test]
fn stray_close_paren_ends_the_list() {
    let l = parse("a ) b\n");
    assert_eq!(l.len(), 1);
    assert_eq!(words(pipeline(&l[0])), one("a"));
}

#[test]
fn empty_pipelines_are_absorbed() {
    let l = parse("; && a ;;\n");
    assert_eq!(l.len(), 1);
    assert_eq!(words(pipeline(&l[0])), one("a"));
    assert_eq!(pipeline(&l[0]).run_conditions, RunConditions::IfTrue);
}

#[test]
fn no_tokens_is_end_of_input() {
    let mut p = CommandParser::new();
    assert_eq!(p.parse_input(Vec::new()), ParserStatus::EOF);
    assert!(p.get_next_command_list().is_none());
}

#[test]
fn lists_are_taken_oldest_first() {
    let mut p = CommandParser::new();
    p.parse_command_line(tokenize("a\n"));
    p.parse_command_line(tokenize("b\n"));
    let first = p.get_next_command_list().unwrap();
    let second = p.get_next_command_list().unwrap();
    assert_eq!(words(pipeline(&first[0])), one("a"));
    assert_eq!(words(pipeline(&second[0])), one("b"));
    assert!(p.get_next_command_list().is_none());
}

#[test]
fn pipeline_builders() {
    assert_eq!(Pipeline::always().run_conditions, RunConditions::Always);
    assert_eq!(Pipeline::if_true().run_conditions, RunConditions::IfTrue);
    assert_eq!(Pipeline::if_false().run_conditions, RunConditions::IfFalse);
    let mut p = Pipeline::always();
    assert_eq!(p.len(), 0);
    let mut c = minishell::command::Command::new();
    c.push_argument("ls".to_string());
    p.push_command(c);
    assert_eq!(p.len(), 1);
    assert_eq!(words(&p), one("ls"));
}

#[test]
fn subshell_body_leaves_close_paren() {
    // The opener consumes the `)`, so what follows the subshell is parsed.
    let l = parse("(a) ; b\n");
    assert_eq!(l.len(), 2);
    assert!(matches!(&l[0], CommandListItem::Subshell(_)));
    assert_eq!(words(pipeline(&l[1])), one("b"));
}
