use std::rc::Rc;

use dialog::ast::{parse, AstNode, Command, Condition, Identifier, Text, Variable};
use dialog::exec::{
    construct_script_from_ast, CompileError, DirectExecution, DirectScript, ExecutionStep,
    Variables,
};

fn compiled(source: &str) -> DirectScript {
    construct_script_from_ast(&parse(source).unwrap()).unwrap()
}

fn shown(script: &DirectScript) -> String {
    format!("{:?}", script)
}

#[test]
fn if_without_else_skips_its_body() {
    let script = compiled("a:\n  if (x):\n    trigger one\n    trigger two\n  end\n");
    let text = shown(&script);
    assert!(text.contains(
        "code: [EvalCondition(Var(Name(1))), If(2), Trigger(2), Trigger(3), End]"
    ));
}

#[test]
fn if_with_else_skips_past_the_jump_and_jumps_past_the_else() {
    let script =
        compiled("a:\n  if (x):\n    trigger one\n    trigger two\n  else:\n    trigger three\n  end\n");
    let text = shown(&script);
    assert!(text.contains(
        "code: [EvalCondition(Var(Name(1))), If(3), Trigger(2), Trigger(3), Jump(6), Trigger(4), End]"
    ));
}

#[test]
fn nested_if_counts_the_instructions_of_its_bodies() {
    let script = compiled(
        "a:\n  if (x):\n    inner:\n    if (y):\n      end\n    else:\n      end\n    end\n  else:\n    end\n  end\n",
    );
    let text = shown(&script);
    assert!(text.contains(
        "code: [EvalCondition(Var(Name(1))), If(7), EvalCondition(Var(Name(2))), If(2), End, Jump(7), End, End, Jump(10), End, End]"
    ));
    assert!(text.contains("labels: [(Identifier(\"a\"), 0), (Identifier(\"inner\"), 2)]"));
}

#[test]
fn names_are_interned_once_after_the_sentinel() {
    let script = compiled("a:\n  trigger one\n  trigger two\n  trigger one\n  one -> \"x\"\n");
    let text = shown(&script);
    assert!(text.contains("code: [Trigger(1), Trigger(2), Trigger(1), Text(Some(1), 0)]"));
    assert!(text.contains(
        "strings: [Identifier(\"safe-guard: probably a bug!\"), Identifier(\"one\"), Identifier(\"two\")]"
    ));
}

#[test]
fn name_that_reads_like_the_sentinel_gets_an_entry_of_its_own() {
    let ast = vec![AstNode::LabelBlock(
        Identifier::from("a"),
        vec![AstNode::Command(Command::Trigger(Identifier::from(
            "safe-guard: probably a bug!",
        )))],
    )];
    let text = shown(&construct_script_from_ast(&ast).unwrap());
    assert!(text.contains("code: [Trigger(1)]"));
}

#[test]
fn equal_texts_are_interned_once() {
    let script = compiled("a:\n  \"same\"\n  \"other\"\n  \"same\"\n  \"sa\" \"me\"\n");
    let text = shown(&script);
    assert!(text.contains("code: [Text(None, 0), Text(None, 1), Text(None, 0), Text(None, 2)]"));
}

#[test]
fn string_operand_is_interned_as_a_name() {
    let script = compiled("a:\n  if (who == \"bob\"):\n    end\n");
    let text = shown(&script);
    assert!(text.contains("code: [EvalCondition(Expr(Name(1), Equal, Text(2))), If(1), End]"));
}

#[test]
fn choice_refers_to_its_set_by_position() {
    let script = compiled("one: a -> \"A\"\nmain:\n  choice x two\ntwo: b -> \"B\"\n");
    let text = shown(&script);
    assert!(text.contains("code: [Choice(1, 1)]"));
}

#[test]
fn labels_record_where_execution_resumes() {
    let script = compiled("a:\n  end\nb:\n  c:\n  end\n  d:\n");
    let text = shown(&script);
    assert!(text.contains(
        "labels: [(Identifier(\"a\"), 0), (Identifier(\"b\"), 1), (Identifier(\"c\"), 1), (Identifier(\"d\"), 2)]"
    ));
}

#[test]
fn jump_goes_to_a_label_declared_before_it() {
    let script = compiled("a:\n  end\n  back:\n  trigger t\n  jump back\n");
    assert!(shown(&script).contains("code: [End, Trigger(1), Jump(1)]"));
}

#[test]
fn jump_to_a_label_declared_after_it_fails() {
    let ast = parse("a:\n  jump later\n  later:\n  end\n").unwrap();
    match construct_script_from_ast(&ast) {
        Err(CompileError::UnresolvedJump(name)) => assert_eq!(name.as_str(), "later"),
        other => panic!("unexpected result {:?}", other),
    }
}

#[test]
fn choice_of_an_unknown_set_fails() {
    let ast = vec![AstNode::LabelBlock(
        Identifier::from("a"),
        vec![AstNode::Command(Command::Choice(Identifier::from("x"), Identifier::from("m")))],
    )];
    match construct_script_from_ast(&ast) {
        Err(CompileError::UnknownChoice(name)) => assert_eq!(name.as_str(), "m"),
        other => panic!("unexpected result {:?}", other),
    }
}

#[test]
fn node_out_of_place_fails() {
    let bare = vec![AstNode::Command(Command::End)];
    assert!(matches!(construct_script_from_ast(&bare), Err(CompileError::UnexpectedNode)));
    let nested_set = vec![AstNode::LabelBlock(
        Identifier::from("a"),
        vec![AstNode::Choices(Identifier::from("m"), vec![])],
    )];
    assert!(matches!(construct_script_from_ast(&nested_set), Err(CompileError::UnexpectedNode)));
    let nested_block = vec![AstNode::LabelBlock(
        Identifier::from("a"),
        vec![AstNode::IfBlock(
            Condition::Variable(Variable::Boolean(true)),
            vec![AstNode::LabelBlock(Identifier::from("b"), vec![])],
            None,
        )],
    )];
    assert!(matches!(construct_script_from_ast(&nested_block), Err(CompileError::UnexpectedNode)));
}

#[test]
fn empty_tree_compiles_to_an_empty_script() {
    let script = construct_script_from_ast(&[]).unwrap();
    let text = shown(&script);
    assert!(text.contains("code: []"));
    assert!(DirectExecution::start(&Rc::new(script), "a").is_none());
}

fn stops_of(fragments: usize) -> Vec<usize> {
    let says: Vec<Text> = (0..fragments).map(|i| Text::from(if i % 2 == 0 { "ab" } else { "c" })).collect();
    let ast = vec![AstNode::LabelBlock(
        Identifier::from("a"),
        vec![AstNode::Dialog(None, says)],
    )];
    let script = Rc::new(construct_script_from_ast(&ast).unwrap());
    let mut env = Variables::new();
    let mut run = DirectExecution::start(&script, "a").unwrap();
    match run.step(&mut env).unwrap() {
        ExecutionStep::Text(_, _, stops) => stops,
        other => panic!("unexpected effect {:?}", other),
    }
}

#[test]
fn one_fragment_has_no_stop() {
    assert_eq!(stops_of(1), Vec::<usize>::new());
}

#[test]
fn no_fragment_has_no_stop() {
    assert_eq!(stops_of(0), Vec::<usize>::new());
}

#[test]
fn thirteen_fragments_have_twelve_stops() {
    assert_eq!(stops_of(13), vec![2, 3, 5, 6, 8, 9, 11, 12, 14, 15, 17, 18]);
}

#[test]
fn later_stops_than_the_twelfth_are_dropped() {
    assert_eq!(stops_of(14), vec![2, 3, 5, 6, 8, 9, 11, 12, 14, 15, 17, 18]);
    assert_eq!(stops_of(40), vec![2, 3, 5, 6, 8, 9, 11, 12, 14, 15, 17, 18]);
}

#[test]
fn stops_count_characters() {
    let ast = vec![AstNode::LabelBlock(
        Identifier::from("a"),
        vec![AstNode::Dialog(None, vec![Text::from("é"), Text::from("ü")])],
    )];
    let script = Rc::new(construct_script_from_ast(&ast).unwrap());
    let mut env = Variables::new();
    let mut run = DirectExecution::start(&script, "a").unwrap();
    match run.step(&mut env).unwrap() {
        ExecutionStep::Text(_, text, stops) => {
            assert_eq!(text.as_str(), "éü");
            assert_eq!(stops, vec![1]);
        }
        other => panic!("unexpected effect {:?}", other),
    }
}
