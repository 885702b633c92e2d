//! The grammar of a script over its lines of tokens: what each line is,
//! and how indentation nests lines into blocks.
//!
//! A line is one of
//! - a label: `name :`
//! - a choice set: `name :` and, on the same line, one or more options
//!   `name -> "text"`
//! - a line of dialogue: an optional `name ->`, then one or more strings
//! - a command: `end`, `jump name`, `choice name name`, `trigger name`
//! - the head of an `if`: `if ( operand ) :` or
//!   `if ( operand == operand ) :`, with `!=` for `==`
//! - `else :`
//!
//! An operand is `true`, `false`, a string, a number, or the name of a
//! global.
//!
//! A script is a sequence of declarations that start in column one: label
//! blocks and choice sets. The body of a label block, of an `if` and of an
//! `else` is the run of lines that follow it and are indented deeper than
//! it; the statements of a body share the indentation of its first line.
//! An `else` belongs to the `if` before it at the same indentation. Lines
//! of strings that follow a line of dialogue and are indented deeper than
//! it continue it: each such line puts a line break at the end of the
//! fragment before it.

use vstd::prelude::*;
use crate::ast::{CommandModel, ConditionModel, LogicOperation, NodeModel, VariableModel};
use crate::lexer::{is_digit, LineModel, Rule, SyntaxError, TokenModel};

verus! {

/// What one line is.
pub enum ShapeModel {
    Label(Seq<char>),
    Choices(Seq<char>, Seq<(Seq<char>, Seq<char>)>),
    Says(Option<Seq<char>>, Seq<Seq<char>>),
    Command(CommandModel),
    If(ConditionModel),
    Else,
}

/// The value of a run of decimal digits.
pub open spec fn decimal(digits: Seq<char>) -> nat
    decreases digits.len(),
{
    if digits.len() == 0 {
        0
    } else {
        decimal(digits.drop_last()) * 10 + (digits.last() as nat - '0' as nat) as nat
    }
}

/// Whether `digits` is one decimal digit or more.
pub open spec fn all_digits(digits: Seq<char>) -> bool {
    &&& digits.len() > 0
    &&& forall|i: int| 0 <= i < digits.len() ==> is_digit(#[trigger] digits[i])
}

/// The value of a number token: an optional `-` and decimal digits, where
/// the value fits 32 bits.
pub open spec fn number_value(text: Seq<char>) -> Option<i32> {
    let negative = text.len() > 0 && text[0] == '-';
    let digits = if negative {
        text.subrange(1, text.len() as int)
    } else {
        text
    };
    let value = if negative {
        -(decimal(digits) as int)
    } else {
        decimal(digits) as int
    };
    if all_digits(digits) && i32::MIN <= value <= i32::MAX {
        Some(value as i32)
    } else {
        None
    }
}

/// The operand that a token stands for.
pub open spec fn variable_of(token: TokenModel) -> Result<VariableModel, Rule> {
    match token {
        TokenModel::Name(name) => if name == "true"@ {
            Ok(VariableModel::Boolean(true))
        } else if name == "false"@ {
            Ok(VariableModel::Boolean(false))
        } else {
            Ok(VariableModel::Global(name))
        },
        TokenModel::Str(text) => Ok(VariableModel::String(text)),
        TokenModel::Number(text) => match number_value(text) {
            Some(value) => Ok(VariableModel::Int(value)),
            None => Err(Rule::Number),
        },
        _ => Err(Rule::Variable),
    }
}

/// The comparison that a token stands for.
pub open spec fn logic_op_of(token: TokenModel) -> Option<LogicOperation> {
    match token {
        TokenModel::Equal => Some(LogicOperation::Equal),
        TokenModel::NotEqual => Some(LogicOperation::NotEqual),
        _ => None,
    }
}

/// The condition of a line that starts with `if`.
pub open spec fn condition_of(tokens: Seq<TokenModel>) -> Result<ConditionModel, Rule> {
    if tokens.len() == 5 && tokens[1] is Open && tokens[3] is Close && tokens[4] is Colon {
        match variable_of(tokens[2]) {
            Ok(var) => Ok(ConditionModel::Variable(var)),
            Err(rule) => Err(rule),
        }
    } else if tokens.len() == 7 && tokens[1] is Open && tokens[5] is Close && tokens[6] is Colon {
        match variable_of(tokens[2]) {
            Ok(lhs) => match logic_op_of(tokens[3]) {
                Some(op) => match variable_of(tokens[4]) {
                    Ok(rhs) => Ok(ConditionModel::Expr(lhs, op, rhs)),
                    Err(rule) => Err(rule),
                },
                None => Err(Rule::LogicOperation),
            },
            Err(rule) => Err(rule),
        }
    } else {
        Err(Rule::IfBlock)
    }
}

/// The command of a line that starts with the name `word`.
pub open spec fn command_of(word: Seq<char>, tokens: Seq<TokenModel>) -> Result<CommandModel, Rule> {
    if word == "end"@ && tokens.len() == 1 {
        Ok(CommandModel::End)
    } else if word == "jump"@ && tokens.len() == 2 && tokens[1] is Name {
        Ok(CommandModel::Jump(tokens[1]->Name_0))
    } else if word == "choice"@ && tokens.len() == 3 && tokens[1] is Name && tokens[2] is Name {
        Ok(CommandModel::Choice(tokens[1]->Name_0, tokens[2]->Name_0))
    } else if word == "trigger"@ && tokens.len() == 2 && tokens[1] is Name {
        Ok(CommandModel::Trigger(tokens[1]->Name_0))
    } else {
        Err(Rule::Command)
    }
}

/// Whether the tokens from `from` on are strings, and at least one.
pub open spec fn all_strings(tokens: Seq<TokenModel>, from: int) -> bool {
    &&& from < tokens.len()
    &&& forall|i: int| from <= i < tokens.len() ==> tokens[i] is Str
}

/// The strings that the tokens from `from` on hold.
pub open spec fn strings_of(tokens: Seq<TokenModel>, from: int) -> Seq<Seq<char>> {
    Seq::new((tokens.len() - from) as nat, |i: int| tokens[from + i]->Str_0)
}

/// The options `name -> "text"` that the tokens from `from` on hold, after
/// those of `found`; `None` where the tokens are not a run of options.
pub open spec fn options_from(
    tokens: Seq<TokenModel>,
    from: int,
    found: Seq<(Seq<char>, Seq<char>)>,
) -> Option<Seq<(Seq<char>, Seq<char>)>>
    decreases tokens.len() - from,
{
    if from >= tokens.len() || from < 0 {
        Some(found)
    } else if from + 3 <= tokens.len() && tokens[from] is Name && tokens[from + 1] is Arrow
        && tokens[from + 2] is Str {
        options_from(
            tokens,
            from + 3,
            found.push((tokens[from]->Name_0, tokens[from + 2]->Str_0)),
        )
    } else {
        None
    }
}

/// What a line of the given tokens is.
pub open spec fn shape_of(tokens: Seq<TokenModel>) -> Result<ShapeModel, Rule> {
    if tokens.len() == 0 {
        Err(Rule::Block)
    } else {
        match tokens[0] {
            TokenModel::Str(_) => if all_strings(tokens, 0) {
                Ok(ShapeModel::Says(None, strings_of(tokens, 0)))
            } else {
                Err(Rule::Dialog)
            },
            TokenModel::Name(word) => if tokens.len() >= 2 && tokens[1] is Colon {
                if word == "else"@ {
                    if tokens.len() == 2 {
                        Ok(ShapeModel::Else)
                    } else {
                        Err(Rule::ElsePart)
                    }
                } else if tokens.len() == 2 {
                    Ok(ShapeModel::Label(word))
                } else {
                    match options_from(tokens, 2, Seq::empty()) {
                        Some(options) => Ok(ShapeModel::Choices(word, options)),
                        None => Err(Rule::ChoiceDecl),
                    }
                }
            } else if tokens.len() >= 2 && tokens[1] is Arrow {
                if all_strings(tokens, 2) {
                    Ok(ShapeModel::Says(Some(word), strings_of(tokens, 2)))
                } else {
                    Err(Rule::Dialog)
                }
            } else if word == "if"@ {
                match condition_of(tokens) {
                    Ok(condition) => Ok(ShapeModel::If(condition)),
                    Err(rule) => Err(rule),
                }
            } else {
                match command_of(word, tokens) {
                    Ok(command) => Ok(ShapeModel::Command(command)),
                    Err(rule) => Err(rule),
                }
            },
            _ => Err(Rule::Block),
        }
    }
}

/// The error that `rule` fails on the line `line`.
pub open spec fn fault(rule: Rule, line: LineModel) -> SyntaxError {
    SyntaxError { rule, line: line.number, column: 0 }
}

/// Whether a line is `else :`.
pub open spec fn is_else(line: LineModel) -> bool {
    shape_of(line.tokens) == Ok::<ShapeModel, Rule>(ShapeModel::Else)
}

/// Whether a line starts with a string.
pub open spec fn starts_with_string(line: LineModel) -> bool {
    line.tokens.len() > 0 && line.tokens[0] is Str
}

/// The number of lines that follow one another from `from` on, before
/// `hi`, and are indented deeper than `indent`; with `strings`, those of
/// them that start with a string.
pub open spec fn deeper(lines: Seq<LineModel>, from: int, hi: int, indent: usize, strings: bool) -> nat
    decreases hi - from,
{
    if 0 <= from < hi && hi <= lines.len() && lines[from].indent > indent && (strings
        ==> starts_with_string(lines[from])) {
        1 + deeper(lines, from + 1, hi, indent, strings)
    } else {
        0
    }
}

/// A run of deeper lines ends before `hi`.
pub proof fn lemma_deeper_bound(lines: Seq<LineModel>, from: int, hi: int, indent: usize, strings: bool)
    requires
        from <= hi,
    ensures
        from + deeper(lines, from, hi, indent, strings) <= hi,
    decreases hi - from,
{
    if 0 <= from < hi && hi <= lines.len() && lines[from].indent > indent && (strings
        ==> starts_with_string(lines[from])) {
        lemma_deeper_bound(lines, from + 1, hi, indent, strings);
    }
}

/// The fragments of a line of dialogue: those of its first line, `first`,
/// and then those of the `count` lines from `from` on that continue it.
/// Each continuing line puts a line break at the end of the fragment before
/// it.
pub open spec fn dialog_fragments(lines: Seq<LineModel>, from: int, count: nat, first: Seq<Seq<char>>) -> Result<
    Seq<Seq<char>>,
    SyntaxError,
>
    decreases count,
{
    if count == 0 {
        Ok(first)
    } else {
        match shape_of(lines[from].tokens) {
            Ok(ShapeModel::Says(None, more)) => dialog_fragments(
                lines,
                from + 1,
                (count - 1) as nat,
                first.drop_last().push(first.last().push('\n')) + more,
            ),
            Ok(_) => Err(fault(Rule::Dialog, lines[from])),
            Err(rule) => Err(fault(rule, lines[from])),
        }
    }
}

/// The index after the statement that starts at `at` with the indentation
/// `indent`, in a block that ends at `hi`.
pub open spec fn statement_end(lines: Seq<LineModel>, at: int, hi: int, indent: usize) -> int {
    match shape_of(lines[at].tokens) {
        Ok(ShapeModel::Says(_, _)) => at + 1 + deeper(lines, at + 1, hi, indent, true),
        Ok(ShapeModel::If(_)) => {
            let other = at + 1 + deeper(lines, at + 1, hi, indent, false);
            if other < hi && lines[other].indent == indent && is_else(lines[other]) {
                other + 1 + deeper(lines, other + 1, hi, indent, false)
            } else {
                other
            }
        },
        _ => at + 1,
    }
}

/// A statement ends after its first line and within its block.
pub proof fn lemma_statement_end(lines: Seq<LineModel>, at: int, hi: int, indent: usize)
    requires
        at < hi,
    ensures
        at < statement_end(lines, at, hi, indent) <= hi,
{
    lemma_deeper_bound(lines, at + 1, hi, indent, true);
    lemma_deeper_bound(lines, at + 1, hi, indent, false);
    let other = at + 1 + deeper(lines, at + 1, hi, indent, false);
    if other < hi {
        lemma_deeper_bound(lines, other + 1, hi, indent, false);
    }
}

/// The node of the statement that starts at `at` with the indentation
/// `indent`, in a block that ends at `hi`.
pub open spec fn statement_node(lines: Seq<LineModel>, at: int, hi: int, indent: usize) -> Result<
    NodeModel,
    SyntaxError,
>
    decreases hi - at, 0nat,
{
    match shape_of(lines[at].tokens) {
        Ok(ShapeModel::Label(name)) => Ok(NodeModel::Label(name)),
        Ok(ShapeModel::Command(command)) => Ok(NodeModel::Command(command)),
        Ok(ShapeModel::Says(who, first)) => match dialog_fragments(
            lines,
            at + 1,
            deeper(lines, at + 1, hi, indent, true),
            first,
        ) {
            Ok(says) => Ok(NodeModel::Dialog(who, says)),
            Err(error) => Err(error),
        },
        Ok(ShapeModel::If(condition)) => {
            let count = deeper(lines, at + 1, hi, indent, false);
            let other = at + 1 + count;
            if at >= hi || count == 0 {
                Err(fault(Rule::IfBlock, lines[at]))
            } else {
                proof {
                    lemma_deeper_bound(lines, at + 1, hi, indent, false);
                }
                match block(lines, at + 1, other, lines[at + 1].indent, Seq::empty()) {
                    Ok(body) => if other < hi && lines[other].indent == indent && is_else(
                        lines[other],
                    ) {
                        let rest = deeper(lines, other + 1, hi, indent, false);
                        if rest == 0 {
                            Err(fault(Rule::ElsePart, lines[other]))
                        } else {
                            proof {
                                lemma_deeper_bound(lines, other + 1, hi, indent, false);
                            }
                            match block(
                                lines,
                                other + 1,
                                other + 1 + rest,
                                lines[other + 1].indent,
                                Seq::empty(),
                            ) {
                                Ok(nodes) => Ok(NodeModel::IfBlock(condition, body, Some(nodes))),
                                Err(error) => Err(error),
                            }
                        }
                    } else {
                        Ok(NodeModel::IfBlock(condition, body, None))
                    },
                    Err(error) => Err(error),
                }
            }
        },
        Ok(ShapeModel::Choices(_, _)) => Err(fault(Rule::Block, lines[at])),
        Ok(ShapeModel::Else) => Err(fault(Rule::ElsePart, lines[at])),
        Err(rule) => Err(fault(rule, lines[at])),
    }
}

/// The nodes of the statements between `lo` and `hi`, which all have the
/// indentation `indent`, after those of `found`.
pub open spec fn block(lines: Seq<LineModel>, lo: int, hi: int, indent: usize, found: Seq<NodeModel>) -> Result<
    Seq<NodeModel>,
    SyntaxError,
>
    decreases hi - lo, 1nat,
{
    if lo >= hi {
        Ok(found)
    } else if lines[lo].indent != indent {
        Err(fault(Rule::Block, lines[lo]))
    } else {
        match statement_node(lines, lo, hi, indent) {
            Ok(node) => {
                proof {
                    lemma_statement_end(lines, lo, hi, indent);
                }
                block(lines, statement_end(lines, lo, hi, indent), hi, indent, found.push(node))
            },
            Err(error) => Err(error),
        }
    }
}

/// The declarations from `lo` on, after those of `found`.
pub open spec fn declarations(lines: Seq<LineModel>, lo: int, found: Seq<NodeModel>) -> Result<
    Seq<NodeModel>,
    SyntaxError,
>
    decreases lines.len() - lo,
{
    if lo >= lines.len() || lo < 0 {
        Ok(found)
    } else if lines[lo].indent != 0 {
        Err(fault(Rule::Declaration, lines[lo]))
    } else {
        match shape_of(lines[lo].tokens) {
            Ok(ShapeModel::Label(name)) => {
                let count = deeper(lines, lo + 1, lines.len() as int, 0, false);
                proof {
                    lemma_deeper_bound(lines, lo + 1, lines.len() as int, 0, false);
                }
                match block(lines, lo + 1, lo + 1 + count, lines[lo + 1].indent, Seq::empty()) {
                    Ok(body) => declarations(
                        lines,
                        lo + 1 + count,
                        found.push(NodeModel::LabelBlock(name, body)),
                    ),
                    Err(error) => Err(error),
                }
            },
            Ok(ShapeModel::Choices(name, options)) => declarations(
                lines,
                lo + 1,
                found.push(NodeModel::Choices(name, options)),
            ),
            Ok(_) => Err(fault(Rule::Declaration, lines[lo])),
            Err(rule) => Err(fault(rule, lines[lo])),
        }
    }
}

/// The syntax tree of a script's lines.
pub open spec fn tree(lines: Seq<LineModel>) -> Result<Seq<NodeModel>, SyntaxError> {
    declarations(lines, 0, Seq::empty())
}

} // verus!
