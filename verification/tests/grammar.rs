use dialog::ast::{
    parse, AstNode, Command, Condition, Identifier, LogicOperation, ParseError, Rule, SyntaxError,
    Variable,
};
use dialog::grammar::{build_ast, parse_command, parse_logic_op, parse_variable};
use dialog::lexer::{tokenize, Token};

fn syntax_error(source: &str) -> SyntaxError {
    match parse(source) {
        Err(ParseError::Syntax(error)) => error,
        other => panic!("unexpected result {:?}", other),
    }
}

fn shown(tokens: &[Token]) -> String {
    format!("{:?}", tokens)
}

#[test]
fn is_the_same() {
    let a: Identifier = "who!".into();
    let b: Identifier = "who!".into();
    assert_eq!(a, b);
    assert_eq!(&a, &b);
}

#[test]
fn identifiers_with_other_text_differ() {
    let a: Identifier = "who".into();
    let b: Identifier = "whom".into();
    assert_ne!(a, b);
}

#[test]
fn identifier_and_text_convert_both_ways() {
    let name = Identifier::from("mood");
    let text = name.to_text();
    assert_eq!(text.as_str(), "mood");
    let back = text.to_ident();
    assert_eq!(back.as_str(), "mood");
}

#[test]
fn lexer_reads_every_kind_of_token() {
    let lines = tokenize("  if (n_1 == -12): \"a b\" -> != )\n").unwrap();
    assert_eq!(lines.len(), 1);
    assert_eq!(lines[0].number, 1);
    assert_eq!(lines[0].indent, 2);
    assert_eq!(
        shown(&lines[0].tokens),
        "[Name(\"if\"), Open, Name(\"n_1\"), Equal, Number(\"-12\"), Close, Colon, Str(\"a b\"), Arrow, NotEqual, Close]"
    );
}

#[test]
fn lexer_leaves_blank_lines_out_and_keeps_line_numbers() {
    let lines = tokenize("a:\n\n   \t\r\n\tend").unwrap();
    assert_eq!(lines.len(), 2);
    assert_eq!((lines[0].number, lines[0].indent), (1, 0));
    assert_eq!((lines[1].number, lines[1].indent), (4, 1));
    assert_eq!(shown(&lines[1].tokens), "[Name(\"end\")]");
}

#[test]
fn lexer_counts_columns_in_characters() {
    match tokenize("a:\n  \"é\" ?") {
        Err(error) => {
            assert_eq!(error, SyntaxError { rule: Rule::Token, line: 2, column: 7 });
        }
        other => panic!("unexpected result {:?}", other),
    }
}

#[test]
fn lexer_reads_an_empty_text() {
    assert_eq!(tokenize("").unwrap().len(), 0);
    assert_eq!(parse("").unwrap().len(), 0);
}

#[test]
fn lone_minus_is_no_number() {
    assert_eq!(
        syntax_error("a:\n  if (x == -):\n"),
        SyntaxError { rule: Rule::Number, line: 2, column: 12 }
    );
}

#[test]
fn lone_equals_sign_is_no_comparison() {
    assert_eq!(
        syntax_error("a:\n  if (x = 1):\n"),
        SyntaxError { rule: Rule::LogicOperation, line: 2, column: 9 }
    );
}

#[test]
fn statement_in_column_one_is_no_declaration() {
    assert_eq!(syntax_error("end\n"), SyntaxError { rule: Rule::Declaration, line: 1, column: 0 });
}

#[test]
fn indented_first_line_is_no_declaration() {
    assert_eq!(
        syntax_error("  a:\n    end\n"),
        SyntaxError { rule: Rule::Declaration, line: 1, column: 0 }
    );
}

#[test]
fn statements_of_a_block_share_their_indentation() {
    assert_eq!(
        syntax_error("a:\n    end\n  end\n"),
        SyntaxError { rule: Rule::Block, line: 3, column: 0 }
    );
    assert_eq!(
        syntax_error("a:\n  end\n    end\n"),
        SyntaxError { rule: Rule::Block, line: 3, column: 0 }
    );
}

#[test]
fn choice_set_inside_a_block_is_refused() {
    assert_eq!(
        syntax_error("a:\n  m: x -> \"X\"\n"),
        SyntaxError { rule: Rule::Block, line: 2, column: 0 }
    );
}

#[test]
fn line_that_starts_with_a_mark_is_no_statement() {
    assert_eq!(syntax_error("a:\n  ) end\n"), SyntaxError { rule: Rule::Block, line: 2, column: 0 });
}

#[test]
fn malformed_option_is_refused() {
    assert_eq!(
        syntax_error("m: x -> \"X\" y ->\n"),
        SyntaxError { rule: Rule::ChoiceDecl, line: 1, column: 0 }
    );
}

#[test]
fn dialog_needs_strings_only() {
    assert_eq!(syntax_error("a:\n  who ->\n"), SyntaxError { rule: Rule::Dialog, line: 2, column: 0 });
    assert_eq!(
        syntax_error("a:\n  \"one\" two\n"),
        SyntaxError { rule: Rule::Dialog, line: 2, column: 0 }
    );
    assert_eq!(
        syntax_error("a:\n  \"one\"\n    \"two\" three\n"),
        SyntaxError { rule: Rule::Dialog, line: 3, column: 0 }
    );
}

#[test]
fn unknown_command_is_refused() {
    assert_eq!(syntax_error("a:\n  leap b\n"), SyntaxError { rule: Rule::Command, line: 2, column: 0 });
    assert_eq!(syntax_error("a:\n  jump\n"), SyntaxError { rule: Rule::Command, line: 2, column: 0 });
    assert_eq!(
        syntax_error("a:\n  end now\n"),
        SyntaxError { rule: Rule::Command, line: 2, column: 0 }
    );
}

#[test]
fn malformed_if_head_is_refused() {
    assert_eq!(
        syntax_error("a:\n  if x:\n    end\n"),
        SyntaxError { rule: Rule::IfBlock, line: 2, column: 0 }
    );
}

#[test]
fn if_without_a_body_is_refused() {
    assert_eq!(
        syntax_error("a:\n  if (x):\n  end\n"),
        SyntaxError { rule: Rule::IfBlock, line: 2, column: 0 }
    );
}

#[test]
fn mark_is_no_operand() {
    assert_eq!(
        syntax_error("a:\n  if (x == :):\n    end\n"),
        SyntaxError { rule: Rule::Variable, line: 2, column: 0 }
    );
}

#[test]
fn name_is_no_comparison() {
    assert_eq!(
        syntax_error("a:\n  if (x is y):\n    end\n"),
        SyntaxError { rule: Rule::LogicOperation, line: 2, column: 0 }
    );
}

#[test]
fn number_that_does_not_fit_is_refused() {
    assert_eq!(
        syntax_error("a:\n  if (x == 2147483648):\n    end\n"),
        SyntaxError { rule: Rule::Number, line: 2, column: 0 }
    );
    assert_eq!(
        syntax_error("a:\n  if (x == -2147483649):\n    end\n"),
        SyntaxError { rule: Rule::Number, line: 2, column: 0 }
    );
}

#[test]
fn else_without_an_if_is_refused() {
    assert_eq!(
        syntax_error("a:\n  else:\n    end\n"),
        SyntaxError { rule: Rule::ElsePart, line: 2, column: 0 }
    );
}

#[test]
fn else_without_a_body_is_refused() {
    assert_eq!(
        syntax_error("a:\n  if (x):\n    end\n  else:\n  end\n"),
        SyntaxError { rule: Rule::ElsePart, line: 4, column: 0 }
    );
}

#[test]
fn else_with_more_on_its_line_is_refused() {
    assert_eq!(
        syntax_error("a:\n  if (x):\n    end\n  else: end\n"),
        SyntaxError { rule: Rule::ElsePart, line: 4, column: 0 }
    );
}

#[test]
fn syntax_error_comes_before_validation() {
    assert_eq!(
        syntax_error("a:\n  end\na:\n  leap\n"),
        SyntaxError { rule: Rule::Command, line: 4, column: 0 }
    );
}

#[test]
fn operands_are_read_by_their_kind() {
    assert!(matches!(
        parse_variable(&Token::Name("true".to_string())),
        Ok(Variable::Boolean(true))
    ));
    assert!(matches!(
        parse_variable(&Token::Name("false".to_string())),
        Ok(Variable::Boolean(false))
    ));
    match parse_variable(&Token::Name("ready".to_string())) {
        Ok(Variable::Global(name)) => assert_eq!(name.as_str(), "ready"),
        other => panic!("unexpected result {:?}", other),
    }
    match parse_variable(&Token::Str("hi".to_string())) {
        Ok(Variable::String(text)) => assert_eq!(text.as_str(), "hi"),
        other => panic!("unexpected result {:?}", other),
    }
    assert!(matches!(
        parse_variable(&Token::Number("2147483647".to_string())),
        Ok(Variable::Int(2147483647))
    ));
    assert!(matches!(
        parse_variable(&Token::Number("-2147483648".to_string())),
        Ok(Variable::Int(-2147483648))
    ));
    assert!(matches!(parse_variable(&Token::Number("007".to_string())), Ok(Variable::Int(7))));
    assert!(matches!(parse_variable(&Token::Number("-".to_string())), Err(Rule::Number)));
    assert!(matches!(parse_variable(&Token::Number("1x".to_string())), Err(Rule::Number)));
    assert!(matches!(parse_variable(&Token::Number("".to_string())), Err(Rule::Number)));
    assert!(matches!(parse_variable(&Token::Colon), Err(Rule::Variable)));
}

#[test]
fn comparisons_are_read_from_their_marks() {
    assert_eq!(parse_logic_op(&Token::Equal), Some(LogicOperation::Equal));
    assert_eq!(parse_logic_op(&Token::NotEqual), Some(LogicOperation::NotEqual));
    assert_eq!(parse_logic_op(&Token::Arrow), None);
}

#[test]
fn commands_are_read_from_their_words() {
    let word = |text: &str| text.to_string();
    let name = |text: &str| Token::Name(text.to_string());
    assert!(matches!(parse_command(&word("end"), &vec![name("end")]), Ok(Command::End)));
    match parse_command(&word("jump"), &vec![name("jump"), name("there")]) {
        Ok(Command::Jump(target)) => assert_eq!(target.as_str(), "there"),
        other => panic!("unexpected result {:?}", other),
    }
    match parse_command(&word("choice"), &vec![name("choice"), name("answer"), name("mood")]) {
        Ok(Command::Choice(store, set)) => {
            assert_eq!(store.as_str(), "answer");
            assert_eq!(set.as_str(), "mood");
        }
        other => panic!("unexpected result {:?}", other),
    }
    match parse_command(&word("trigger"), &vec![name("trigger"), name("open")]) {
        Ok(Command::Trigger(what)) => assert_eq!(what.as_str(), "open"),
        other => panic!("unexpected result {:?}", other),
    }
    assert!(matches!(
        parse_command(&word("jump"), &vec![name("jump"), Token::Colon]),
        Err(Rule::Command)
    ));
}

#[test]
fn tree_keeps_the_shape_of_the_script() {
    let source = "mood: a -> \"A\" b -> \"B\"\nmain:\n  inner:\n  \"plain\"\n  if (\"x\" != 3):\n    if (flag):\n      end\n    else:\n      jump inner\n  choice answer mood\n";
    let nodes = build_ast(&tokenize(source).unwrap()).unwrap();
    assert_eq!(nodes.len(), 2);
    match &nodes[0] {
        AstNode::Choices(name, options) => {
            assert_eq!(name.as_str(), "mood");
            assert_eq!(options.len(), 2);
            assert_eq!((options[0].0.as_str(), options[0].1.as_str()), ("a", "A"));
            assert_eq!((options[1].0.as_str(), options[1].1.as_str()), ("b", "B"));
        }
        other => panic!("unexpected node {:?}", other),
    }
    let body = match &nodes[1] {
        AstNode::LabelBlock(name, body) => {
            assert_eq!(name.as_str(), "main");
            body
        }
        other => panic!("unexpected node {:?}", other),
    };
    assert_eq!(body.len(), 4);
    assert!(matches!(&body[0], AstNode::Label(name) if name.as_str() == "inner"));
    match &body[1] {
        AstNode::Dialog(None, says) => {
            assert_eq!(says.len(), 1);
            assert_eq!(says[0].as_str(), "plain");
        }
        other => panic!("unexpected node {:?}", other),
    }
    match &body[2] {
        AstNode::IfBlock(Condition::Expr(lhs, LogicOperation::NotEqual, rhs), inner, None) => {
            assert!(matches!(lhs, Variable::String(text) if text.as_str() == "x"));
            assert!(matches!(rhs, Variable::Int(3)));
            assert_eq!(inner.len(), 1);
            match &inner[0] {
                AstNode::IfBlock(Condition::Variable(Variable::Global(flag)), yes, Some(no)) => {
                    assert_eq!(flag.as_str(), "flag");
                    assert!(matches!(&yes[..], [AstNode::Command(Command::End)]));
                    assert!(matches!(&no[..], [AstNode::Command(Command::Jump(_))]));
                }
                other => panic!("unexpected node {:?}", other),
            }
        }
        other => panic!("unexpected node {:?}", other),
    }
    assert!(matches!(&body[3], AstNode::Command(Command::Choice(_, _))));
}

#[test]
fn label_block_may_be_empty() {
    let nodes = parse("a:\nb:\n  end\n").unwrap();
    assert!(matches!(&nodes[0], AstNode::LabelBlock(_, body) if body.is_empty()));
}

#[test]
fn keyword_before_a_colon_is_a_label() {
    let nodes = parse("end:\n  jump end\n").unwrap();
    assert!(matches!(&nodes[0], AstNode::LabelBlock(name, _) if name.as_str() == "end"));
}
