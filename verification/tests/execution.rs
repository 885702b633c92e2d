use std::rc::Rc;

use dialog::ast::{parse, AstNode, Command, Condition, Identifier, LogicOperation, Text, Variable};
use dialog::exec::{
    construct_script_from_ast, DirectExecution, DirectScript, Environment, ExecutionStep,
    StepError, Variables, Variant,
};

struct Store(Vec<(String, Variant)>);

impl Environment for Store {
    fn get(&self, name: &str) -> Option<Variant> {
        self.0.iter().rev().find(|(key, _)| key == name).map(|(_, value)| value.clone())
    }

    fn set(&mut self, name: &str, value: Variant) {
        self.0.push((name.to_string(), value));
    }
}

fn script(source: &str) -> Rc<DirectScript> {
    Rc::new(construct_script_from_ast(&parse(source).unwrap()).unwrap())
}

fn conditional() -> Vec<AstNode> {
    vec![AstNode::LabelBlock(
        Identifier::from("main"),
        vec![
            AstNode::IfBlock(
                Condition::Expr(
                    Variable::Global(Identifier::from("ready")),
                    LogicOperation::Equal,
                    Variable::Boolean(true),
                ),
                vec![AstNode::Command(Command::Trigger(Identifier::from("open")))],
                Some(vec![AstNode::Command(Command::Trigger(Identifier::from("closed")))]),
            ),
            AstNode::Command(Command::End),
        ],
    )]
}

fn triggers(ready: bool) -> Vec<String> {
    let script = Rc::new(construct_script_from_ast(&conditional()).unwrap());
    let mut env = Store(Vec::new());
    env.set("ready", Variant::Boolean(ready));
    let mut run = DirectExecution::start(&script, "main").unwrap();
    let mut seen = Vec::new();
    loop {
        match run.step(&mut env).unwrap() {
            ExecutionStep::Trigger(name) => seen.push(name.as_str().to_string()),
            ExecutionStep::End => break,
            other => panic!("unexpected effect {:?}", other),
        }
    }
    seen
}

/// The trigger that `source`, a block `a` with one `if`, reaches first.
fn taken(source: &str, env: &mut Variables) -> String {
    let script = script(source);
    let mut run = DirectExecution::start(&script, "a").unwrap();
    match run.step(env).unwrap() {
        ExecutionStep::Trigger(name) => name.as_str().to_string(),
        other => panic!("unexpected effect {:?}", other),
    }
}

fn branch(condition: &str, env: &mut Variables) -> String {
    let source = format!("a:\n  if ({condition}):\n    trigger yes\n  else:\n    trigger no\n");
    taken(&source, env)
}

#[test]
fn conditional_takes_the_if_body_when_true() {
    assert_eq!(triggers(true), vec!["open".to_string()]);
}

#[test]
fn conditional_takes_the_else_body_when_false() {
    assert_eq!(triggers(false), vec!["closed".to_string()]);
}

#[test]
fn false_condition_without_else_passes_over_the_body() {
    let mut env = Variables::new();
    let source = "a:\n  if (false):\n    trigger inside\n    trigger inside\n  trigger after\n";
    assert_eq!(taken(source, &mut env), "after");
}

#[test]
fn unbound_global_is_an_error() {
    let script = Rc::new(construct_script_from_ast(&conditional()).unwrap());
    let mut env = Store(Vec::new());
    let mut run = DirectExecution::start(&script, "main").unwrap();
    match run.step(&mut env) {
        Err(StepError::UnboundVariable(name)) => assert_eq!(name.as_str(), "ready"),
        other => panic!("unexpected result {:?}", other),
    }
    env.set("ready", Variant::Boolean(true));
    assert!(matches!(run.step(&mut env), Ok(ExecutionStep::Trigger(_))));
}

#[test]
fn dialog_keeps_speaker_text_and_stops() {
    let ast = vec![AstNode::LabelBlock(
        Identifier::from("label"),
        vec![
            AstNode::Dialog(
                Some(Identifier::from("who")),
                vec![Text::from("Hello! "), Text::from("How "), Text::from("are you?")],
            ),
            AstNode::Command(Command::End),
        ],
    )];
    let script = Rc::new(construct_script_from_ast(&ast).unwrap());
    let mut env = Store(Vec::new());
    let mut run = DirectExecution::start(&script, "label").unwrap();
    match run.step(&mut env).unwrap() {
        ExecutionStep::Text(who, text, stops) => {
            assert_eq!(who, Some(Identifier::from("who")));
            assert_eq!(text.as_str(), "Hello! How are you?");
            assert_eq!(stops, vec![7, 11]);
        }
        other => panic!("unexpected effect {:?}", other),
    }
    assert!(matches!(run.step(&mut env).unwrap(), ExecutionStep::End));
    assert!(matches!(run.step(&mut env).unwrap(), ExecutionStep::End));
}

#[test]
fn truthiness_of_values() {
    assert!(!Variant::Boolean(false).to_bool());
    assert!(Variant::Boolean(true).to_bool());
    assert!(!Variant::String("".to_string()).to_bool());
    assert!(Variant::String("x".to_string()).to_bool());
    assert!(!Variant::Int(0).to_bool());
    assert!(Variant::Int(-1).to_bool());
    assert!(Variant::Int(7).to_bool());
}

#[test]
fn values_are_equal_by_kind_and_content() {
    assert_eq!(Variant::Int(3), Variant::Int(3));
    assert_ne!(Variant::Int(3), Variant::Int(4));
    assert_eq!(Variant::String("a".to_string()), Variant::String("a".to_string()));
    assert_ne!(Variant::String("a".to_string()), Variant::String("b".to_string()));
    assert_ne!(Variant::Int(1), Variant::Boolean(true));
    assert_ne!(Variant::String("1".to_string()), Variant::Int(1));
    assert_eq!(Variant::Boolean(false).clone(), Variant::Boolean(false));
}

#[test]
fn single_operand_is_tested_for_truthiness() {
    let mut env = Variables::new();
    assert_eq!(branch("true", &mut env), "yes");
    assert_eq!(branch("false", &mut env), "no");
    assert_eq!(branch("0", &mut env), "no");
    assert_eq!(branch("-5", &mut env), "yes");
    assert_eq!(branch("\"\"", &mut env), "no");
    assert_eq!(branch("\"text\"", &mut env), "yes");
    env.set("count", Variant::Int(0));
    assert_eq!(branch("count", &mut env), "no");
    env.set("count", Variant::Int(2));
    assert_eq!(branch("count", &mut env), "yes");
}

#[test]
fn comparison_tests_kind_and_content() {
    let mut env = Variables::new();
    env.set("name", Variant::String("bob".to_string()));
    env.set("count", Variant::Int(3));
    assert_eq!(branch("name == \"bob\"", &mut env), "yes");
    assert_eq!(branch("name != \"bob\"", &mut env), "no");
    assert_eq!(branch("name == \"eve\"", &mut env), "no");
    assert_eq!(branch("count == 3", &mut env), "yes");
    assert_eq!(branch("count != 4", &mut env), "yes");
    assert_eq!(branch("count == true", &mut env), "no");
    assert_eq!(branch("count != true", &mut env), "yes");
    assert_eq!(branch("count == count", &mut env), "yes");
    assert_eq!(branch("1 == 1", &mut env), "yes");
}

#[test]
fn start_needs_a_declared_label() {
    let script = script("a:\n  end\n");
    assert!(DirectExecution::start(&script, "a").is_some());
    assert!(DirectExecution::start(&script, "b").is_none());
    assert!(DirectExecution::start(&script, "").is_none());
}

#[test]
fn start_at_a_nested_label_resumes_there() {
    let script = script("a:\n  trigger first\n  inner:\n  trigger second\n  end\n");
    let mut env = Variables::new();
    let mut run = DirectExecution::start(&script, "inner").unwrap();
    assert!(matches!(run.step(&mut env).unwrap(), ExecutionStep::Trigger(name) if name.as_str() == "second"));
    assert!(matches!(run.step(&mut env).unwrap(), ExecutionStep::End));
}

#[test]
fn executions_share_a_script_and_keep_their_own_cursor() {
    let script = script("a:\n  trigger one\n  trigger two\n  end\n");
    let mut env = Variables::new();
    let mut first = DirectExecution::start(&script, "a").unwrap();
    let mut second = DirectExecution::start(&script, "a").unwrap();
    assert_eq!(Rc::strong_count(&script), 3);
    assert!(matches!(first.step(&mut env).unwrap(), ExecutionStep::Trigger(name) if name.as_str() == "one"));
    assert!(matches!(first.step(&mut env).unwrap(), ExecutionStep::Trigger(name) if name.as_str() == "two"));
    assert!(matches!(second.step(&mut env).unwrap(), ExecutionStep::Trigger(name) if name.as_str() == "one"));
}

#[test]
fn running_past_the_last_instruction_is_an_error() {
    let script = script("a:\n  trigger one\n");
    let mut env = Variables::new();
    let mut run = DirectExecution::start(&script, "a").unwrap();
    assert!(matches!(run.step(&mut env), Ok(ExecutionStep::Trigger(_))));
    assert!(matches!(run.step(&mut env), Err(StepError::OutOfCode)));
    assert!(matches!(run.step(&mut env), Err(StepError::OutOfCode)));
}

#[test]
fn loop_without_an_effect_stalls() {
    let script = script("a:\n  jump a\n");
    let mut env = Variables::new();
    let mut run = DirectExecution::start(&script, "a").unwrap();
    assert!(matches!(run.step(&mut env), Err(StepError::Stalled)));
}

#[test]
fn loop_through_a_condition_stalls() {
    let script = script("a:\n  if (x):\n    jump a\n  jump a\n");
    let mut env = Variables::new();
    env.set("x", Variant::Boolean(false));
    let mut run = DirectExecution::start(&script, "a").unwrap();
    assert!(matches!(run.step(&mut env), Err(StepError::Stalled)));
}

#[test]
fn loop_with_an_effect_goes_on() {
    let script = script("a:\n  trigger tick\n  jump a\n");
    let mut env = Variables::new();
    let mut run = DirectExecution::start(&script, "a").unwrap();
    for _ in 0..100 {
        assert!(matches!(run.step(&mut env), Ok(ExecutionStep::Trigger(_))));
    }
}

#[test]
fn long_chain_of_jumps_reaches_its_effect() {
    let mut source = String::from("l0:\n  trigger done\n  end\n");
    for i in 1..200 {
        source.push_str(&format!("l{}:\n  jump l{}\n", i, i - 1));
    }
    let script = script(&source);
    let mut env = Variables::new();
    let mut run = DirectExecution::start(&script, "l199").unwrap();
    assert!(matches!(run.step(&mut env), Ok(ExecutionStep::Trigger(_))));
}

#[test]
fn store_returns_what_was_set_last() {
    let mut env = Variables::new();
    assert_eq!(env.get("a"), None);
    env.set("a", Variant::Int(1));
    env.set("b", Variant::String("x".to_string()));
    assert_eq!(env.get("a"), Some(Variant::Int(1)));
    env.set("a", Variant::Boolean(true));
    assert_eq!(env.get("a"), Some(Variant::Boolean(true)));
    assert_eq!(env.get("b"), Some(Variant::String("x".to_string())));
    assert_eq!(env.get("c"), None);
}
