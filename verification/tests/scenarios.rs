use std::rc::Rc;

use dialog::ast::{parse, AstNode, Identifier, ParseError, Rule, Text};
use dialog::exec::{
    construct_script_from_ast, CompileError, DirectExecution, Environment, ExecutionStep, Variant,
};

struct Globals(Vec<(String, Variant)>);

impl Environment for Globals {
    fn get(&self, name: &str) -> Option<Variant> {
        self.0.iter().rev().find(|(key, _)| key == name).map(|(_, value)| value.clone())
    }

    fn set(&mut self, name: &str, value: Variant) {
        self.0.push((name.to_string(), value));
    }
}

fn effects(source: &str, label: &str, env: &mut Globals) -> Vec<String> {
    let ast = parse(source).unwrap();
    let script = Rc::new(construct_script_from_ast(&ast).unwrap());
    let mut run = DirectExecution::start(&script, label).unwrap();
    let mut seen = Vec::new();
    loop {
        let step = run.step(env).unwrap();
        seen.push(format!("{:?}", step));
        if matches!(step, ExecutionStep::End) {
            break;
        }
    }
    seen
}

#[test]
fn parse_label_block() {
    let source = "label:\n  who->\"Hello!\"\n  jump doom\n  end\n";
    let pairs = dialog::lexer::tokenize(source).unwrap();
    println!("Pairs: {pairs:#?}");
    let nodes = dialog::grammar::build_ast(&pairs).unwrap();
    assert_eq!(nodes.len(), 1);
    match &nodes[0] {
        AstNode::LabelBlock(name, body) => {
            assert_eq!(name.as_str(), "label");
            assert_eq!(body.len(), 3);
        }
        other => panic!("unexpected node {:?}", other),
    }
}

#[test]
fn greeting_then_jump_to_an_earlier_block() {
    let source = "doom:\n  end\nlabel:\n  who->\"Hello!\"\n  jump doom\n  end\n";
    let ast = parse(source).unwrap();
    let script = Rc::new(construct_script_from_ast(&ast).unwrap());
    let mut env = Globals(Vec::new());
    let mut run = DirectExecution::start(&script, "label").unwrap();
    match run.step(&mut env).unwrap() {
        ExecutionStep::Text(who, text, stops) => {
            assert_eq!(who, Some(Identifier::from("who")));
            assert_eq!(text, Text::from("Hello!"));
            assert_eq!(stops, Vec::<usize>::new());
        }
        other => panic!("unexpected effect {:?}", other),
    }
    assert!(matches!(run.step(&mut env).unwrap(), ExecutionStep::End));
}

#[test]
fn jump_to_a_later_block_does_not_compile() {
    let source = "label:\n  who->\"Hello!\"\n  jump doom\n  end\ndoom:\n  end\n";
    let ast = parse(source).unwrap();
    match construct_script_from_ast(&ast) {
        Err(CompileError::UnresolvedJump(name)) => assert_eq!(name.as_str(), "doom"),
        other => panic!("unexpected result {:?}", other),
    }
}

#[test]
fn conditional_script_triggers_open_when_ready() {
    let source = "main:\n  if (ready == true):\n    trigger open\n  else:\n    trigger closed\n  end\n";
    let mut env = Globals(Vec::new());
    env.set("ready", Variant::Boolean(true));
    let seen = effects(source, "main", &mut env);
    assert_eq!(seen.len(), 2);
    assert!(seen[0].contains("Trigger") && seen[0].contains("open"));
    assert!(!seen[0].contains("closed"));
}

#[test]
fn conditional_script_triggers_closed_when_not_ready() {
    let source = "main:\n  if (ready == true):\n    trigger open\n  else:\n    trigger closed\n  end\n";
    let mut env = Globals(Vec::new());
    env.set("ready", Variant::Boolean(false));
    let seen = effects(source, "main", &mut env);
    assert_eq!(seen.len(), 2);
    assert!(seen[0].contains("Trigger") && seen[0].contains("closed"));
}

#[test]
fn choice_keeps_the_order_of_its_options() {
    let source = "mood: a -> \"A\" b -> \"B\"\nmain:\n  choice answer mood\n  end\n";
    let ast = parse(source).unwrap();
    let script = Rc::new(construct_script_from_ast(&ast).unwrap());
    let mut env = Globals(Vec::new());
    let mut run = DirectExecution::start(&script, "main").unwrap();
    match run.step(&mut env).unwrap() {
        ExecutionStep::Choice(store, options) => {
            assert_eq!(store.as_str(), "answer");
            let listed: Vec<(&str, &str)> =
                options.iter().map(|(name, text)| (name.as_str(), text.as_str())).collect();
            assert_eq!(listed, vec![("a", "A"), ("b", "B")]);
        }
        other => panic!("unexpected effect {:?}", other),
    }
}

#[test]
fn duplicate_label_is_refused() {
    let source = "a:\n  end\na:\n  end\n";
    match parse(source) {
        Err(ParseError::DuplicateLabel(name)) => assert_eq!(name.as_str(), "a"),
        other => panic!("unexpected result {:?}", other),
    }
}

#[test]
fn duplicate_nested_label_is_refused() {
    let source = "a:\n  b:\n  end\nb:\n  end\n";
    match parse(source) {
        Err(ParseError::DuplicateLabel(name)) => assert_eq!(name.as_str(), "b"),
        other => panic!("unexpected result {:?}", other),
    }
}

#[test]
fn duplicate_choice_set_is_refused() {
    let source = "m: a -> \"A\"\nm: b -> \"B\"\n";
    match parse(source) {
        Err(ParseError::DuplicateChoice(name)) => assert_eq!(name.as_str(), "m"),
        other => panic!("unexpected result {:?}", other),
    }
}

#[test]
fn jump_to_an_undeclared_label_is_refused() {
    let source = "a:\n  jump nowhere\n";
    match parse(source) {
        Err(ParseError::UnresolvedLabel(name)) => assert_eq!(name.as_str(), "nowhere"),
        other => panic!("unexpected result {:?}", other),
    }
}

#[test]
fn choice_of_an_undeclared_set_is_refused() {
    let source = "a:\n  choice x nothing\n";
    match parse(source) {
        Err(ParseError::UnresolvedChoice(name)) => assert_eq!(name.as_str(), "nothing"),
        other => panic!("unexpected result {:?}", other),
    }
}

#[test]
fn open_string_is_a_syntax_error() {
    match parse("a:\n  \"open\n") {
        Err(ParseError::Syntax(error)) => {
            assert_eq!(error.rule, Rule::String);
            assert_eq!(error.line, 2);
            assert_eq!(error.column, 3);
        }
        other => panic!("unexpected result {:?}", other),
    }
}

#[test]
fn second_else_is_a_syntax_error() {
    let source = "a:\n  if (x):\n    end\n  else:\n    end\n  else:\n    end\n";
    match parse(source) {
        Err(ParseError::Syntax(error)) => {
            assert_eq!(error.rule, Rule::ElsePart);
            assert_eq!(error.line, 6);
        }
        other => panic!("unexpected result {:?}", other),
    }
}

#[test]
fn dialog_continues_over_deeper_lines() {
    let source = "a:\n  who -> \"one\" \"two\"\n         \"three\"\n  end\n";
    let ast = parse(source).unwrap();
    let script = Rc::new(construct_script_from_ast(&ast).unwrap());
    let mut env = Globals(Vec::new());
    let mut run = DirectExecution::start(&script, "a").unwrap();
    match run.step(&mut env).unwrap() {
        ExecutionStep::Text(_, text, stops) => {
            assert_eq!(text.as_str(), "onetwo\nthree");
            assert_eq!(stops, vec![3, 7]);
        }
        other => panic!("unexpected effect {:?}", other),
    }
}

#[test]
fn script_with_every_feature_plays_through() {
    let source = "mood: happy -> \"I am happy\" sad -> \"Not so good…\"\r\n\r\nintro:\r\n\tnarrator -> \"Grüß dich!\" \"Wie geht's?\"\r\n\t            \"(wähle)\"\r\n\tchoice feeling mood\r\n\tif (feeling == \"happy\"):\r\n\t\ttrigger cheer\r\n\telse:\r\n\t\tif (tries != 0):\r\n\t\t\t\"Again?\"\r\n\t\ttrigger comfort\r\n\tagain:\r\n\tif (done):\r\n\t\tend\r\n\ttrigger wait\r\n\tjump again\r\n";
    let ast = parse(source).unwrap();
    let script = Rc::new(construct_script_from_ast(&ast).unwrap());
    let mut env = Globals(Vec::new());
    env.set("feeling", Variant::String("sad".to_string()));
    env.set("tries", Variant::Int(2));
    env.set("done", Variant::Boolean(false));
    let mut run = DirectExecution::start(&script, "intro").unwrap();
    match run.step(&mut env).unwrap() {
        ExecutionStep::Text(who, text, stops) => {
            assert_eq!(who.unwrap().as_str(), "narrator");
            assert_eq!(text.as_str(), "Grüß dich!Wie geht's?\n(wähle)");
            assert_eq!(stops, vec![10, 22]);
        }
        other => panic!("unexpected effect {:?}", other),
    }
    match run.step(&mut env).unwrap() {
        ExecutionStep::Choice(store, options) => {
            assert_eq!(store.as_str(), "feeling");
            assert_eq!(options.len(), 2);
            assert_eq!(options[1].1.as_str(), "Not so good…");
        }
        other => panic!("unexpected effect {:?}", other),
    }
    assert!(matches!(run.step(&mut env).unwrap(), ExecutionStep::Text(None, text, _) if text.as_str() == "Again?"));
    assert!(matches!(run.step(&mut env).unwrap(), ExecutionStep::Trigger(name) if name.as_str() == "comfort"));
    assert!(matches!(run.step(&mut env).unwrap(), ExecutionStep::Trigger(name) if name.as_str() == "wait"));
    assert!(matches!(run.step(&mut env).unwrap(), ExecutionStep::Trigger(name) if name.as_str() == "wait"));
    env.set("done", Variant::Boolean(true));
    assert!(matches!(run.step(&mut env).unwrap(), ExecutionStep::End));
    assert!(matches!(run.step(&mut env).unwrap(), ExecutionStep::End));
}

#[test]
fn answer_to_a_choice_decides_the_branch() {
    let source = "mood: fine -> \"Fine.\" tired -> \"Tired.\"\n\ngreeting:\n  guide -> \"Welcome back!\"\n           \"How are you?\"\n  choice answer mood\n  if (answer == \"tired\"):\n    trigger rest\n  else:\n    trigger walk\n  end\n";
    let ast = parse(source).unwrap();
    let script = Rc::new(construct_script_from_ast(&ast).unwrap());
    let mut env = Globals(Vec::new());
    let mut run = DirectExecution::start(&script, "greeting").unwrap();
    assert!(matches!(run.step(&mut env).unwrap(), ExecutionStep::Text(Some(_), text, stops)
        if text.as_str() == "Welcome back!\nHow are you?" && stops == vec![14]));
    let store = match run.step(&mut env).unwrap() {
        ExecutionStep::Choice(store, options) => {
            assert_eq!(options[1].0.as_str(), "tired");
            store
        }
        other => panic!("unexpected effect {:?}", other),
    };
    env.set(store.as_str(), Variant::String("tired".to_string()));
    assert!(matches!(run.step(&mut env).unwrap(), ExecutionStep::Trigger(name) if name.as_str() == "rest"));
    assert!(matches!(run.step(&mut env).unwrap(), ExecutionStep::End));
}
