//! The syntax tree of a script, and the mathematical model of each node.

use vstd::prelude::*;
pub use crate::context::ParseError;
pub use crate::grammar::parse;
pub use crate::lexer::{Rule, SyntaxError};
pub use crate::symbols::{Identifier, Text};

verus! {

/// A statement that moves the cursor or hands control to the host.
#[derive(Debug)]
pub enum Command {
    End,
    Jump(Identifier),
    Choice(Identifier, Identifier),
    Trigger(Identifier),
}

/// An operand of a condition.
#[derive(Debug)]
pub enum Variable {
    Global(Identifier),
    Boolean(bool),
    String(Text),
    Int(i32),
}

/// The comparison of a binary condition.
#[derive(Clone, Copy, Debug, PartialEq, Eq, Structural)]
pub enum LogicOperation {
    Equal,
    NotEqual,
}

/// What an `if` tests: the truthiness of one operand, or a comparison.
#[derive(Debug)]
pub enum Condition {
    Variable(Variable),
    Expr(Variable, LogicOperation, Variable),
}

/// One node of the syntax tree.
#[derive(Debug)]
pub enum AstNode {
    Label(Identifier),
    Command(Command),
    Dialog(Option<Identifier>, Vec<Text>),
    Choices(Identifier, Vec<(Identifier, Text)>),
    LabelBlock(Identifier, Vec<AstNode>),
    IfBlock(Condition, Vec<AstNode>, Option<Vec<AstNode>>),
}

/// Model of a [`Command`].
pub enum CommandModel {
    End,
    Jump(Seq<char>),
    Choice(Seq<char>, Seq<char>),
    Trigger(Seq<char>),
}

/// Model of a [`Variable`].
pub enum VariableModel {
    Global(Seq<char>),
    Boolean(bool),
    String(Seq<char>),
    Int(i32),
}

/// Model of a [`Condition`].
pub enum ConditionModel {
    Variable(VariableModel),
    Expr(VariableModel, LogicOperation, VariableModel),
}

/// Model of an [`AstNode`].
pub enum NodeModel {
    Label(Seq<char>),
    Command(CommandModel),
    Dialog(Option<Seq<char>>, Seq<Seq<char>>),
    Choices(Seq<char>, Seq<(Seq<char>, Seq<char>)>),
    LabelBlock(Seq<char>, Seq<NodeModel>),
    IfBlock(ConditionModel, Seq<NodeModel>, Option<Seq<NodeModel>>),
}

impl View for Command {
    type V = CommandModel;

    open spec fn view(&self) -> CommandModel {
        match self {
            Command::End => CommandModel::End,
            Command::Jump(target) => CommandModel::Jump(target@),
            Command::Choice(store, set) => CommandModel::Choice(store@, set@),
            Command::Trigger(name) => CommandModel::Trigger(name@),
        }
    }
}

impl View for Variable {
    type V = VariableModel;

    open spec fn view(&self) -> VariableModel {
        match self {
            Variable::Global(name) => VariableModel::Global(name@),
            Variable::Boolean(value) => VariableModel::Boolean(*value),
            Variable::String(text) => VariableModel::String(text@),
            Variable::Int(value) => VariableModel::Int(*value),
        }
    }
}

impl View for Condition {
    type V = ConditionModel;

    open spec fn view(&self) -> ConditionModel {
        match self {
            Condition::Variable(var) => ConditionModel::Variable(var@),
            Condition::Expr(lhs, op, rhs) => ConditionModel::Expr(lhs@, *op, rhs@),
        }
    }
}

/// The name of an optional speaker.
pub open spec fn speaker_model(who: Option<Identifier>) -> Option<Seq<char>> {
    match who {
        Some(name) => Some(name@),
        None => None,
    }
}

/// The texts of a list, in order.
pub open spec fn texts_model(texts: Seq<Text>) -> Seq<Seq<char>> {
    Seq::new(texts.len(), |i: int| texts[i]@)
}

/// The options of a choice set, in order.
pub open spec fn options_model(options: Seq<(Identifier, Text)>) -> Seq<(Seq<char>, Seq<char>)> {
    Seq::new(options.len(), |i: int| (options[i].0@, options[i].1@))
}

/// The models of a list of nodes, in order.
pub open spec fn nodes_model(nodes: Seq<AstNode>) -> Seq<NodeModel>
    decreases nodes, 1nat,
{
    Seq::new(nodes.len(), |i: int| if 0 <= i < nodes.len() { node_model(nodes[i]) } else { arbitrary() })
}

/// The model of one node.
pub open spec fn node_model(node: AstNode) -> NodeModel
    decreases node, 0nat,
{
    match node {
        AstNode::Label(name) => NodeModel::Label(name@),
        AstNode::Command(command) => NodeModel::Command(command@),
        AstNode::Dialog(who, says) => NodeModel::Dialog(speaker_model(who), texts_model(says@)),
        AstNode::Choices(name, options) => NodeModel::Choices(name@, options_model(options@)),
        AstNode::LabelBlock(name, body) => NodeModel::LabelBlock(name@, nodes_model(body@)),
        AstNode::IfBlock(condition, body, other) => NodeModel::IfBlock(
            condition@,
            nodes_model(body@),
            match other {
                Some(nodes) => Some(nodes_model(nodes@)),
                None => None,
            },
        ),
    }
}

impl View for AstNode {
    type V = NodeModel;

    open spec fn view(&self) -> NodeModel {
        node_model(*self)
    }
}

} // verus!
