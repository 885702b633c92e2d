use dialog::ast::{parse, AstNode, Command, Identifier, ParseError};
use dialog::context::{validate, ParserContext};

#[test]
fn label_is_declared_once() {
    let mut context = ParserContext::new();
    assert_eq!(context.declare_label(&Identifier::from("a")), Ok(()));
    assert_eq!(context.declare_label(&Identifier::from("b")), Ok(()));
    assert_eq!(context.declare_label(&Identifier::from("a")), Err(()));
}

#[test]
fn choice_set_is_declared_once() {
    let mut context = ParserContext::new();
    assert_eq!(context.declare_choice(&Identifier::from("a")), Ok(()));
    assert_eq!(context.declare_choice(&Identifier::from("a")), Err(()));
}

#[test]
fn labels_and_choice_sets_have_separate_names() {
    let mut context = ParserContext::new();
    assert_eq!(context.declare_label(&Identifier::from("a")), Ok(()));
    assert_eq!(context.declare_choice(&Identifier::from("a")), Ok(()));
    assert!(parse("a: x -> \"X\"\na:\n  choice v a\n").is_ok());
}

#[test]
fn context_is_complete_when_every_reference_is_declared() {
    let mut context = ParserContext::new();
    assert!(context.finalize());
    context.demand_label(&Identifier::from("later"));
    context.demand_label(&Identifier::from("later"));
    assert!(!context.finalize());
    context.declare_label(&Identifier::from("later")).unwrap();
    assert!(context.finalize());
    context.demand_choice(&Identifier::from("mood"));
    assert!(!context.finalize());
    context.declare_choice(&Identifier::from("mood")).unwrap();
    assert!(context.finalize());
}

#[test]
fn invocations_need_no_declaration() {
    let mut context = ParserContext::new();
    context.declare_invocation(&Identifier::from("open"));
    context.declare_invocation(&Identifier::from("open"));
    assert!(context.finalize());
    assert!(format!("{:?}", context).contains("invoked_ident: [Identifier(\"open\")]"));
}

#[test]
fn missing_label_is_named_before_a_missing_choice_set() {
    let mut context = ParserContext::new();
    context.demand_choice(&Identifier::from("mood"));
    context.demand_label(&Identifier::from("there"));
    match context.missing() {
        Some(ParseError::UnresolvedLabel(name)) => assert_eq!(name.as_str(), "there"),
        other => panic!("unexpected result {:?}", other),
    }
}

#[test]
fn reference_may_come_before_its_declaration() {
    assert!(parse("a:\n  jump b\n  choice x m\nb:\n  end\nm: y -> \"Y\"\n").is_ok());
}

#[test]
fn first_duplicate_of_the_walk_is_reported() {
    match parse("m: a -> \"A\"\nx:\n  y:\nm: b -> \"B\"\ny:\n  end\n") {
        Err(ParseError::DuplicateChoice(name)) => assert_eq!(name.as_str(), "m"),
        other => panic!("unexpected result {:?}", other),
    }
}

#[test]
fn duplicate_is_reported_before_a_missing_reference() {
    match parse("a:\n  jump nowhere\na:\n  end\n") {
        Err(ParseError::DuplicateLabel(name)) => assert_eq!(name.as_str(), "a"),
        other => panic!("unexpected result {:?}", other),
    }
}

#[test]
fn tree_built_by_hand_is_validated_too() {
    let tree = vec![
        AstNode::LabelBlock(
            Identifier::from("a"),
            vec![AstNode::Command(Command::Jump(Identifier::from("b")))],
        ),
        AstNode::LabelBlock(Identifier::from("b"), vec![AstNode::Label(Identifier::from("a"))]),
    ];
    match validate(&tree) {
        Err(ParseError::DuplicateLabel(name)) => assert_eq!(name.as_str(), "a"),
        other => panic!("unexpected result {:?}", other),
    }
    assert!(validate(&tree[..1]).is_err());
    assert!(validate(&[]).is_ok());
}
