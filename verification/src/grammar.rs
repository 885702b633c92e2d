//! The grammar's second layer: lines of tokens become a syntax tree.

use vstd::prelude::*;
use vstd::string::StrSliceExecFns;
use vstd::string::StringExecFns;
use crate::ast::{
    nodes_model, options_model, speaker_model, texts_model, AstNode, Command, CommandModel,
    Condition, ConditionModel, LogicOperation, NodeModel, Variable, VariableModel,
};
use crate::context::{check, validate, ParseError, ParseFailure};
use crate::lexer::{
    is_digit, lines_model, tokens_model, Line, Rule, SyntaxError, Token, TokenModel,
};
use crate::symbols::{Identifier, Text};
use crate::syntax::{
    all_strings, block, command_of, condition_of, decimal, declarations, deeper,
    dialog_fragments, fault, is_else, logic_op_of, number_value, options_from, shape_of,
    starts_with_string, statement_end, statement_node, strings_of, tree, variable_of, ShapeModel,
};

verus! {

/// Whether `name` is the word `word`.
fn is_word(name: &String, word: &str) -> (yes: bool)
    ensures
        yes == (name@ == word@),
{
    *name == String::from_str(word)
}

/// A longer run of digits has no smaller value.
proof fn lemma_decimal_grows(digits: Seq<char>, count: int)
    requires
        0 <= count <= digits.len(),
    ensures
        decimal(digits.subrange(0, count)) <= decimal(digits),
    decreases digits.len() - count,
{
    if count < digits.len() {
        let longer = digits.subrange(0, count + 1);
        assert(longer.drop_last() =~= digits.subrange(0, count));
        lemma_decimal_grows(digits, count + 1);
    } else {
        assert(digits.subrange(0, count) =~= digits);
    }
}

/// The value of a number token, where it fits 32 bits.
fn parse_number(text: &String) -> (value: Option<i32>)
    ensures
        value == number_value(text@),
{
    let chars = text.as_str();
    let len = chars.unicode_len();
    let negative = len > 0 && chars.get_char(0) == '-';
    let start: usize = if negative {
        1
    } else {
        0
    };
    let ghost digits = text@.subrange(start as int, len as int);
    proof {
        if !negative {
            assert(digits =~= text@);
        }
    }
    if start >= len {
        return None;
    }
    let mut total: u64 = 0;
    let mut i = start;
    while i < len
        invariant
            start <= i <= len,
            len == text@.len(),
            chars@ == text@,
            digits == text@.subrange(start as int, len as int),
            negative == (text@.len() > 0 && text@[0] == '-'),
            start == if negative { 1int } else { 0int },
            !negative ==> digits == text@,
            total == decimal(digits.subrange(0, i - start)),
            total <= 0x8000_0000,
            forall|j: int| 0 <= j < i - start ==> is_digit(#[trigger] digits[j]),
        decreases len - i,
    {
        let c = chars.get_char(i);
        if !('0' <= c && c <= '9') {
            proof {
                assert(!is_digit(digits[i - start]));
            }
            return None;
        }
        let d = (c as u32 - '0' as u32) as u64;
        proof {
            let longer = digits.subrange(0, i + 1 - start);
            assert(longer.drop_last() =~= digits.subrange(0, i - start));
            assert(longer.last() == c);
        }
        total = total * 10 + d;
        if total > 0x8000_0000 {
            proof {
                lemma_decimal_grows(digits, i + 1 - start);
            }
            return None;
        }
        i += 1;
    }
    proof {
        assert(digits.subrange(0, i - start) =~= digits);
    }
    if negative {
        if total == 0x8000_0000 {
            Some(i32::MIN)
        } else {
            Some(-(total as i32))
        }
    } else if total <= 0x7fff_ffff {
        Some(total as i32)
    } else {
        None
    }
}

/// The operand that a token stands for: `true` and `false` are booleans,
/// another name is a global, a string and a number are literals.
pub fn parse_variable(token: &Token) -> (var: Result<Variable, Rule>)
    ensures
        match var {
            Ok(v) => variable_of(token@) == Ok::<VariableModel, Rule>(v@),
            Err(rule) => variable_of(token@) == Err::<VariableModel, Rule>(rule),
        },
{
    match token {
        Token::Name(name) => {
            if is_word(name, "true") {
                Ok(Variable::Boolean(true))
            } else if is_word(name, "false") {
                Ok(Variable::Boolean(false))
            } else {
                Ok(Variable::Global(Identifier::from(name.as_str())))
            }
        },
        Token::Str(text) => Ok(Variable::String(Text::from(text.as_str()))),
        Token::Number(text) => match parse_number(text) {
            Some(value) => Ok(Variable::Int(value)),
            None => Err(Rule::Number),
        },
        _ => Err(Rule::Variable),
    }
}

/// The comparison that a token stands for.
pub fn parse_logic_op(token: &Token) -> (op: Option<LogicOperation>)
    ensures
        op == logic_op_of(token@),
{
    match token {
        Token::Equal => Some(LogicOperation::Equal),
        Token::NotEqual => Some(LogicOperation::NotEqual),
        _ => None,
    }
}

fn is_colon(token: &Token) -> (yes: bool)
    ensures
        yes == (token@ is Colon),
{
    match token {
        Token::Colon => true,
        _ => false,
    }
}

fn is_arrow(token: &Token) -> (yes: bool)
    ensures
        yes == (token@ is Arrow),
{
    match token {
        Token::Arrow => true,
        _ => false,
    }
}

fn is_open(token: &Token) -> (yes: bool)
    ensures
        yes == (token@ is Open),
{
    match token {
        Token::Open => true,
        _ => false,
    }
}

fn is_close(token: &Token) -> (yes: bool)
    ensures
        yes == (token@ is Close),
{
    match token {
        Token::Close => true,
        _ => false,
    }
}

/// The name that a token holds.
fn name_of(token: &Token) -> (name: Option<Identifier>)
    ensures
        match name {
            Some(n) => token@ == TokenModel::Name(n@),
            None => !(token@ is Name),
        },
{
    match token {
        Token::Name(name) => Some(Identifier::from(name.as_str())),
        _ => None,
    }
}

/// The string that a token holds.
fn text_of(token: &Token) -> (text: Option<Text>)
    ensures
        match text {
            Some(t) => token@ == TokenModel::Str(t@),
            None => !(token@ is Str),
        },
{
    match token {
        Token::Str(text) => Some(Text::from(text.as_str())),
        _ => None,
    }
}

/// The condition of a line that starts with `if`.
fn parse_condition(tokens: &Vec<Token>) -> (condition: Result<Condition, Rule>)
    ensures
        match condition {
            Ok(c) => condition_of(tokens_model(tokens@)) == Ok::<ConditionModel, Rule>(c@),
            Err(rule) => condition_of(tokens_model(tokens@)) == Err::<ConditionModel, Rule>(rule),
        },
{
    if tokens.len() == 5 && is_open(&tokens[1]) && is_close(&tokens[3]) && is_colon(&tokens[4]) {
        match parse_variable(&tokens[2]) {
            Ok(var) => Ok(Condition::Variable(var)),
            Err(rule) => Err(rule),
        }
    } else if tokens.len() == 7 && is_open(&tokens[1]) && is_close(&tokens[5]) && is_colon(
        &tokens[6],
    ) {
        let lhs = match parse_variable(&tokens[2]) {
            Ok(var) => var,
            Err(rule) => {
                return Err(rule);
            },
        };
        let op = match parse_logic_op(&tokens[3]) {
            Some(op) => op,
            None => {
                return Err(Rule::LogicOperation);
            },
        };
        match parse_variable(&tokens[4]) {
            Ok(rhs) => Ok(Condition::Expr(lhs, op, rhs)),
            Err(rule) => Err(rule),
        }
    } else {
        Err(Rule::IfBlock)
    }
}

/// The command of a line that starts with the name `word`: `end`,
/// `jump name`, `choice name name` or `trigger name`.
pub fn parse_command(word: &String, tokens: &Vec<Token>) -> (command: Result<Command, Rule>)
    ensures
        match command {
            Ok(c) => command_of(word@, tokens_model(tokens@)) == Ok::<CommandModel, Rule>(c@),
            Err(rule) => command_of(word@, tokens_model(tokens@)) == Err::<CommandModel, Rule>(
                rule,
            ),
        },
{
    if is_word(word, "end") && tokens.len() == 1 {
        return Ok(Command::End);
    }
    if is_word(word, "jump") && tokens.len() == 2 {
        match name_of(&tokens[1]) {
            Some(target) => {
                return Ok(Command::Jump(target));
            },
            None => {},
        }
    }
    if is_word(word, "choice") && tokens.len() == 3 {
        match name_of(&tokens[1]) {
            Some(store) => match name_of(&tokens[2]) {
                Some(set) => {
                    return Ok(Command::Choice(store, set));
                },
                None => {},
            },
            None => {},
        }
    }
    if is_word(word, "trigger") && tokens.len() == 2 {
        match name_of(&tokens[1]) {
            Some(name) => {
                return Ok(Command::Trigger(name));
            },
            None => {},
        }
    }
    Err(Rule::Command)
}

/// What one line is.
enum Shape {
    Label(Identifier),
    Choices(Identifier, Vec<(Identifier, Text)>),
    Says(Option<Identifier>, Vec<Text>),
    Command(Command),
    If(Condition),
    Else,
}

impl View for Shape {
    type V = ShapeModel;

    closed spec fn view(&self) -> ShapeModel {
        match self {
            Shape::Label(name) => ShapeModel::Label(name@),
            Shape::Choices(name, options) => ShapeModel::Choices(name@, options_model(options@)),
            Shape::Says(who, says) => ShapeModel::Says(speaker_model(*who), texts_model(says@)),
            Shape::Command(command) => ShapeModel::Command(command@),
            Shape::If(condition) => ShapeModel::If(condition@),
            Shape::Else => ShapeModel::Else,
        }
    }
}

/// The strings that the tokens from `from` on hold, where they are
/// strings and at least one.
fn collect_strings(tokens: &Vec<Token>, from: usize) -> (texts: Option<Vec<Text>>)
    ensures
        match texts {
            Some(found) => all_strings(tokens_model(tokens@), from as int) && texts_model(found@)
                == strings_of(tokens_model(tokens@), from as int),
            None => !all_strings(tokens_model(tokens@), from as int),
        },
{
    if from >= tokens.len() {
        return None;
    }
    let ghost model = tokens_model(tokens@);
    let mut found: Vec<Text> = Vec::new();
    let mut i = from;
    while i < tokens.len()
        invariant
            from <= i <= tokens.len(),
            model == tokens_model(tokens@),
            found.len() == i - from,
            forall|j: int| from <= j < i ==> model[j] is Str,
            forall|j: int| 0 <= j < i - from ==> found[j]@ == model[from + j]->Str_0,
        decreases tokens.len() - i,
    {
        match text_of(&tokens[i]) {
            Some(text) => {
                found.push(text);
            },
            None => {
                proof {
                    assert(!(model[i as int] is Str));
                }
                return None;
            },
        }
        i += 1;
    }
    proof {
        assert(texts_model(found@) =~= strings_of(model, from as int));
    }
    Some(found)
}

/// The choice set that a line `name : option ...` declares: its options
/// are the tokens after the colon, `name -> "text"` each.
fn build_ast_from_choice_decl(name: Identifier, tokens: &Vec<Token>) -> (shape: Result<Shape, Rule>)
    requires
        tokens.len() >= 2,
    ensures
        match shape {
            Ok(s) => options_from(tokens_model(tokens@), 2, Seq::empty()) matches Some(options) && s@
                == ShapeModel::Choices(name@, options),
            Err(rule) => rule == Rule::ChoiceDecl && options_from(
                tokens_model(tokens@),
                2,
                Seq::empty(),
            ) is None,
        },
{
    let ghost model = tokens_model(tokens@);
    let mut options: Vec<(Identifier, Text)> = Vec::new();
    let mut i: usize = 2;
    proof {
        assert(options_model(options@) =~= Seq::<(Seq<char>, Seq<char>)>::empty());
    }
    while i < tokens.len()
        invariant
            2 <= i,
            model == tokens_model(tokens@),
            options_from(model, 2, Seq::empty()) == options_from(
                model,
                i as int,
                options_model(options@),
            ),
        decreases tokens.len() - i,
    {
        if tokens.len() - i < 3 {
            return Err(Rule::ChoiceDecl);
        }
        let name = match name_of(&tokens[i]) {
            Some(name) => name,
            None => {
                return Err(Rule::ChoiceDecl);
            },
        };
        if !is_arrow(&tokens[i + 1]) {
            return Err(Rule::ChoiceDecl);
        }
        let text = match text_of(&tokens[i + 2]) {
            Some(text) => text,
            None => {
                return Err(Rule::ChoiceDecl);
            },
        };
        proof {
            assert(options_model(options@.push((name, text))) =~= options_model(options@).push(
                (name@, text@),
            ));
        }
        options.push((name, text));
        i += 3;
    }
    Ok(Shape::Choices(name, options))
}

/// What a line `word : ...` is: `else`, a label, or a choice set.
fn parse_label(word: &String, tokens: &Vec<Token>) -> (shape: Result<Shape, Rule>)
    requires
        tokens.len() >= 2,
        tokens[0]@ == TokenModel::Name(word@),
        tokens[1]@ is Colon,
    ensures
        match shape {
            Ok(s) => shape_of(tokens_model(tokens@)) == Ok::<ShapeModel, Rule>(s@),
            Err(rule) => shape_of(tokens_model(tokens@)) == Err::<ShapeModel, Rule>(rule),
        },
{
    if is_word(word, "else") {
        if tokens.len() == 2 {
            Ok(Shape::Else)
        } else {
            Err(Rule::ElsePart)
        }
    } else if tokens.len() == 2 {
        Ok(Shape::Label(Identifier::from(word.as_str())))
    } else {
        build_ast_from_choice_decl(Identifier::from(word.as_str()), tokens)
    }
}

/// What a line of the given tokens is.
fn classify(tokens: &Vec<Token>) -> (shape: Result<Shape, Rule>)
    ensures
        match shape {
            Ok(s) => shape_of(tokens_model(tokens@)) == Ok::<ShapeModel, Rule>(s@),
            Err(rule) => shape_of(tokens_model(tokens@)) == Err::<ShapeModel, Rule>(rule),
        },
{
    if tokens.len() == 0 {
        return Err(Rule::Block);
    }
    match &tokens[0] {
        Token::Str(_) => match collect_strings(tokens, 0) {
            Some(says) => Ok(Shape::Says(None, says)),
            None => Err(Rule::Dialog),
        },
        Token::Name(word) => {
            if tokens.len() >= 2 && is_colon(&tokens[1]) {
                parse_label(word, tokens)
            } else if tokens.len() >= 2 && is_arrow(&tokens[1]) {
                match collect_strings(tokens, 2) {
                    Some(says) => Ok(Shape::Says(Some(Identifier::from(word.as_str())), says)),
                    None => Err(Rule::Dialog),
                }
            } else if is_word(word, "if") {
                match parse_condition(tokens) {
                    Ok(condition) => Ok(Shape::If(condition)),
                    Err(rule) => Err(rule),
                }
            } else {
                match parse_command(word, tokens) {
                    Ok(command) => Ok(Shape::Command(command)),
                    Err(rule) => Err(rule),
                }
            }
        },
        _ => Err(Rule::Block),
    }
}

/// Whether a line is `else :`.
fn else_line(line: &Line) -> (yes: bool)
    ensures
        yes == is_else(line@),
{
    if line.tokens.len() != 2 {
        return false;
    }
    match &line.tokens[0] {
        Token::Name(word) => is_word(word, "else") && is_colon(&line.tokens[1]),
        _ => false,
    }
}

/// Whether a line starts with a string.
fn string_line(line: &Line) -> (yes: bool)
    ensures
        yes == starts_with_string(line@),
{
    if line.tokens.len() == 0 {
        return false;
    }
    match &line.tokens[0] {
        Token::Str(_) => true,
        _ => false,
    }
}

/// The number of lines that follow one another from `from` on, before
/// `hi`, and are indented deeper than `indent`.
fn count_deeper(lines: &Vec<Line>, from: usize, hi: usize, indent: usize, strings: bool) -> (count:
    usize)
    requires
        from <= hi <= lines.len(),
    ensures
        count == deeper(lines_model(lines@), from as int, hi as int, indent, strings),
        from + count <= hi,
{
    let ghost model = lines_model(lines@);
    let mut i = from;
    while i < hi && lines[i].indent > indent && (!strings || string_line(&lines[i]))
        invariant
            from <= i <= hi <= lines.len(),
            model == lines_model(lines@),
            (i - from) + deeper(model, i as int, hi as int, indent, strings) == deeper(
                model,
                from as int,
                hi as int,
                indent,
                strings,
            ),
        decreases hi - i,
    {
        i += 1;
    }
    i - from
}

/// The error that `rule` fails on `line`.
fn fault_at(rule: Rule, line: &Line) -> (error: SyntaxError)
    ensures
        error == fault(rule, line@),
{
    SyntaxError { rule, line: line.number, column: 0 }
}

/// The line of dialogue that starts at `at` with the fragments `first`,
/// and the index after it. The lines of strings that follow it and are
/// indented deeper continue it.
fn parse_dialog(
    lines: &Vec<Line>,
    at: usize,
    hi: usize,
    indent: usize,
    who: Option<Identifier>,
    first: Vec<Text>,
) -> (parsed: Result<(AstNode, usize), SyntaxError>)
    requires
        at < hi <= lines.len(),
        shape_of(lines_model(lines@)[at as int].tokens) == Ok::<ShapeModel, Rule>(
            ShapeModel::Says(speaker_model(who), texts_model(first@)),
        ),
    ensures
        match parsed {
            Ok((node, next)) => {
                &&& statement_node(lines_model(lines@), at as int, hi as int, indent) == Ok::<
                    NodeModel,
                    SyntaxError,
                >(node@)
                &&& next == statement_end(lines_model(lines@), at as int, hi as int, indent)
                &&& at < next <= hi
            },
            Err(error) => statement_node(lines_model(lines@), at as int, hi as int, indent) == Err::<
                NodeModel,
                SyntaxError,
            >(error),
        },
{
    let ghost model = lines_model(lines@);
    let count = count_deeper(lines, at + 1, hi, indent, true);
    let mut says = first;
    let mut k: usize = 0;
    proof {
        assert(all_strings(model[at as int].tokens, 0) || all_strings(model[at as int].tokens, 2));
        assert(texts_model(says@).len() >= 1);
    }
    while k < count
        invariant
            k <= count,
            at + 1 + count <= hi <= lines.len(),
            model == lines_model(lines@),
            says.len() >= 1,
            count == deeper(model, at + 1, hi as int, indent, true),
            shape_of(model[at as int].tokens) == Ok::<ShapeModel, Rule>(
                ShapeModel::Says(speaker_model(who), texts_model(first@)),
            ),
            dialog_fragments(model, at + 1, count as nat, texts_model(first@)) == dialog_fragments(
                model,
                at + 1 + k,
                (count - k) as nat,
                texts_model(says@),
            ),
        decreases count - k,
    {
        let line = &lines[at + 1 + k];
        match classify(&line.tokens) {
            Ok(Shape::Says(None, more)) => {
                let ghost before = texts_model(says@);
                let last = says.pop().unwrap();
                says.push(last.with_break());
                let mut more = more;
                let ghost added = texts_model(more@);
                says.append(&mut more);
                proof {
                    assert(texts_model(says@) =~= before.drop_last().push(
                        before.last().push('\n'),
                    ) + added);
                }
            },
            Ok(_) => {
                return Err(fault_at(Rule::Dialog, line));
            },
            Err(rule) => {
                return Err(fault_at(rule, line));
            },
        }
        k += 1;
    }
    Ok((AstNode::Dialog(who, says), at + 1 + count))
}

/// The `if` whose head stands at `at`, and the index after it. Its body is
/// the run of deeper lines after the head. An `else` at the indentation of
/// the head after that body belongs to it, with the run of deeper lines
/// after it as the else-body. Neither body may be empty.
fn parse_if_block(lines: &Vec<Line>, at: usize, hi: usize, indent: usize, condition: Condition) -> (parsed:
    Result<(AstNode, usize), SyntaxError>)
    requires
        at < hi <= lines.len(),
        shape_of(lines_model(lines@)[at as int].tokens) == Ok::<ShapeModel, Rule>(
            ShapeModel::If(condition@),
        ),
    ensures
        match parsed {
            Ok((node, next)) => {
                &&& statement_node(lines_model(lines@), at as int, hi as int, indent) == Ok::<
                    NodeModel,
                    SyntaxError,
                >(node@)
                &&& next == statement_end(lines_model(lines@), at as int, hi as int, indent)
                &&& at < next <= hi
            },
            Err(error) => statement_node(lines_model(lines@), at as int, hi as int, indent) == Err::<
                NodeModel,
                SyntaxError,
            >(error),
        },
    decreases hi - at, 0nat,
{
    let count = count_deeper(lines, at + 1, hi, indent, false);
    if count == 0 {
        return Err(fault_at(Rule::IfBlock, &lines[at]));
    }
    let other = at + 1 + count;
    let body = match parse_block(lines, at + 1, other, lines[at + 1].indent) {
        Ok(body) => body,
        Err(error) => {
            return Err(error);
        },
    };
    if other < hi && lines[other].indent == indent && else_line(&lines[other]) {
        let rest = count_deeper(lines, other + 1, hi, indent, false);
        if rest == 0 {
            return Err(fault_at(Rule::ElsePart, &lines[other]));
        }
        match parse_block(lines, other + 1, other + 1 + rest, lines[other + 1].indent) {
            Ok(nodes) => Ok((AstNode::IfBlock(condition, body, Some(nodes)), other + 1 + rest)),
            Err(error) => Err(error),
        }
    } else {
        Ok((AstNode::IfBlock(condition, body, None), other))
    }
}

/// The statement that starts at `at` with the indentation `indent`, in a
/// block that ends at `hi`, and the index after it.
fn parse_block_content(lines: &Vec<Line>, at: usize, hi: usize, indent: usize) -> (parsed: Result<
    (AstNode, usize),
    SyntaxError,
>)
    requires
        at < hi <= lines.len(),
    ensures
        match parsed {
            Ok((node, next)) => {
                &&& statement_node(lines_model(lines@), at as int, hi as int, indent) == Ok::<
                    NodeModel,
                    SyntaxError,
                >(node@)
                &&& next == statement_end(lines_model(lines@), at as int, hi as int, indent)
                &&& at < next <= hi
            },
            Err(error) => statement_node(lines_model(lines@), at as int, hi as int, indent) == Err::<
                NodeModel,
                SyntaxError,
            >(error),
        },
    decreases hi - at, 1nat,
{
    let line = &lines[at];
    match classify(&line.tokens) {
        Ok(Shape::Label(name)) => Ok((AstNode::Label(name), at + 1)),
        Ok(Shape::Command(command)) => Ok((AstNode::Command(command), at + 1)),
        Ok(Shape::Says(who, first)) => parse_dialog(lines, at, hi, indent, who, first),
        Ok(Shape::If(condition)) => parse_if_block(lines, at, hi, indent, condition),
        Ok(Shape::Choices(_, _)) => Err(fault_at(Rule::Block, line)),
        Ok(Shape::Else) => Err(fault_at(Rule::ElsePart, line)),
        Err(rule) => Err(fault_at(rule, line)),
    }
}

/// The statements between `lo` and `hi`, which all have the indentation
/// `indent`.
fn parse_block(lines: &Vec<Line>, lo: usize, hi: usize, indent: usize) -> (parsed: Result<
    Vec<AstNode>,
    SyntaxError,
>)
    requires
        lo <= hi <= lines.len(),
    ensures
        match parsed {
            Ok(nodes) => block(lines_model(lines@), lo as int, hi as int, indent, Seq::empty())
                == Ok::<Seq<NodeModel>, SyntaxError>(nodes_model(nodes@)),
            Err(error) => block(lines_model(lines@), lo as int, hi as int, indent, Seq::empty())
                == Err::<Seq<NodeModel>, SyntaxError>(error),
        },
    decreases hi - lo, 2nat,
{
    let ghost model = lines_model(lines@);
    let mut nodes: Vec<AstNode> = Vec::new();
    let mut at = lo;
    proof {
        assert(nodes_model(nodes@) =~= Seq::<NodeModel>::empty());
    }
    while at < hi
        invariant
            lo <= at <= hi <= lines.len(),
            model == lines_model(lines@),
            block(model, lo as int, hi as int, indent, Seq::empty()) == block(
                model,
                at as int,
                hi as int,
                indent,
                nodes_model(nodes@),
            ),
        decreases hi - at,
    {
        if lines[at].indent != indent {
            return Err(fault_at(Rule::Block, &lines[at]));
        }
        match parse_block_content(lines, at, hi, indent) {
            Ok((node, next)) => {
                proof {
                    assert(nodes_model(nodes@.push(node)) =~= nodes_model(nodes@).push(node@));
                }
                nodes.push(node);
                at = next;
            },
            Err(error) => {
                return Err(error);
            },
        }
    }
    Ok(nodes)
}

/// The label block whose label stands at `at`, and the index after it. Its
/// body is the run of indented lines after the label.
fn build_ast_from_label_block(lines: &Vec<Line>, at: usize, name: Identifier) -> (parsed: Result<
    (AstNode, usize),
    SyntaxError,
>)
    requires
        at < lines.len(),
    ensures
        ({
            let model = lines_model(lines@);
            let count = deeper(model, at + 1, model.len() as int, 0, false);
            let body = block(model, at + 1, at + 1 + count, model[at + 1].indent, Seq::empty());
            match parsed {
                Ok((node, next)) => {
                    &&& body matches Ok(nodes)
                    &&& node@ == NodeModel::LabelBlock(name@, nodes)
                    &&& next == at + 1 + count
                    &&& next <= lines.len()
                },
                Err(error) => body == Err::<Seq<NodeModel>, SyntaxError>(error),
            }
        }),
{
    let count = count_deeper(lines, at + 1, lines.len(), 0, false);
    let indent = if count > 0 {
        lines[at + 1].indent
    } else {
        0
    };
    match parse_block(lines, at + 1, at + 1 + count, indent) {
        Ok(body) => Ok((AstNode::LabelBlock(name, body), at + 1 + count)),
        Err(error) => Err(error),
    }
}

/// Builds the syntax tree of a script's lines.
///
/// The result is `tree` of the lines: the declarations in order, or the
/// first line that fits no rule, with the rule that it fails.
pub fn build_ast(lines: &Vec<Line>) -> (built: Result<Vec<AstNode>, SyntaxError>)
    ensures
        match built {
            Ok(nodes) => tree(lines_model(lines@)) == Ok::<Seq<NodeModel>, SyntaxError>(
                nodes_model(nodes@),
            ),
            Err(error) => tree(lines_model(lines@)) == Err::<Seq<NodeModel>, SyntaxError>(error),
        },
{
    let ghost model = lines_model(lines@);
    let mut nodes: Vec<AstNode> = Vec::new();
    let mut at: usize = 0;
    proof {
        assert(nodes_model(nodes@) =~= Seq::<NodeModel>::empty());
    }
    while at < lines.len()
        invariant
            at <= lines.len(),
            model == lines_model(lines@),
            tree(model) == declarations(model, at as int, nodes_model(nodes@)),
        decreases lines.len() - at,
    {
        let line = &lines[at];
        if line.indent != 0 {
            return Err(fault_at(Rule::Declaration, line));
        }
        let (node, next) = match classify(&line.tokens) {
            Ok(Shape::Label(name)) => match build_ast_from_label_block(lines, at, name) {
                Ok(built) => built,
                Err(error) => {
                    return Err(error);
                },
            },
            Ok(Shape::Choices(name, options)) => (AstNode::Choices(name, options), at + 1),
            Ok(_) => {
                return Err(fault_at(Rule::Declaration, line));
            },
            Err(rule) => {
                return Err(fault_at(rule, line));
            },
        };
        proof {
            assert(nodes_model(nodes@.push(node)) =~= nodes_model(nodes@).push(node@));
        }
        nodes.push(node);
        at = next;
    }
    Ok(nodes)
}

/// What parsing a text means: its lines, their tree, and the validation of
/// the tree. A text that fails the grammar fails with that error; one that
/// follows it and fails validation fails with the error of the validation.
pub open spec fn parsed(source: Seq<char>) -> Result<Seq<NodeModel>, ParseFailure> {
    match crate::lexer::lex(source) {
        Ok(lines) => match tree(lines) {
            Ok(nodes) => match check(nodes) {
                Ok(_) => Ok(nodes),
                Err(failure) => Err(failure),
            },
            Err(error) => Err(ParseFailure::Syntax(error)),
        },
        Err(error) => Err(ParseFailure::Syntax(error)),
    }
}

/// Parses a script into its syntax tree and validates it.
///
/// The result is `parsed` of the text. No tree comes back for a text that
/// declares a label or a choice set twice, or that refers to one that it
/// does not declare.
pub fn parse(source: &str) -> (result: Result<Vec<AstNode>, ParseError>)
    ensures
        match result {
            Ok(nodes) => parsed(source@) == Ok::<Seq<NodeModel>, ParseFailure>(nodes_model(nodes@)),
            Err(error) => parsed(source@) == Err::<Seq<NodeModel>, ParseFailure>(error@),
        },
{
    let lines = match crate::lexer::tokenize(source) {
        Ok(lines) => lines,
        Err(error) => {
            return Err(ParseError::Syntax(error));
        },
    };
    let nodes = match build_ast(&lines) {
        Ok(nodes) => nodes,
        Err(error) => {
            return Err(ParseError::Syntax(error));
        },
    };
    match validate(nodes.as_slice()) {
        Ok(()) => Ok(nodes),
        Err(error) => Err(error),
    }
}

} // verus!
