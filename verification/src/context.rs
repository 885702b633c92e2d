//! The validation of a syntax tree: every name is declared once, and every
//! name that is referred to is declared.

use vstd::prelude::*;
use crate::ast::{nodes_model, AstNode, Command, CommandModel, NodeModel};
use crate::bytecode::strings_model;
use crate::lexer::SyntaxError;
use crate::symbols::Identifier;

verus! {

/// Why a text is not a valid script.
#[derive(Debug)]
pub enum ParseError {
    /// The text does not follow the grammar.
    Syntax(SyntaxError),
    /// A label is declared a second time.
    DuplicateLabel(Identifier),
    /// A choice set is declared a second time.
    DuplicateChoice(Identifier),
    /// A `jump` names a label that the script does not declare.
    UnresolvedLabel(Identifier),
    /// A `choice` names a choice set that the script does not declare.
    UnresolvedChoice(Identifier),
}

/// Model of a [`ParseError`].
pub enum ParseFailure {
    Syntax(SyntaxError),
    DuplicateLabel(Seq<char>),
    DuplicateChoice(Seq<char>),
    UnresolvedLabel(Seq<char>),
    UnresolvedChoice(Seq<char>),
}

impl View for ParseError {
    type V = ParseFailure;

    open spec fn view(&self) -> ParseFailure {
        match self {
            ParseError::Syntax(error) => ParseFailure::Syntax(*error),
            ParseError::DuplicateLabel(name) => ParseFailure::DuplicateLabel(name@),
            ParseError::DuplicateChoice(name) => ParseFailure::DuplicateChoice(name@),
            ParseError::UnresolvedLabel(name) => ParseFailure::UnresolvedLabel(name@),
            ParseError::UnresolvedChoice(name) => ParseFailure::UnresolvedChoice(name@),
        }
    }
}

/// Model of a [`ParserContext`]: five lists of names, each in the order in
/// which the names were first met.
pub struct ContextModel {
    /// The labels that are declared.
    pub decl_labels: Seq<Seq<char>>,
    /// The choice sets that are declared.
    pub decl_choices: Seq<Seq<char>>,
    /// The labels that a `jump` names.
    pub expected_labels: Seq<Seq<char>>,
    /// The choice sets that a `choice` names.
    pub expected_choices: Seq<Seq<char>>,
    /// The names that a `trigger` invokes.
    pub invoked_ident: Seq<Seq<char>>,
}

/// The context before anything is walked.
pub open spec fn empty_context() -> ContextModel {
    ContextModel {
        decl_labels: Seq::empty(),
        decl_choices: Seq::empty(),
        expected_labels: Seq::empty(),
        expected_choices: Seq::empty(),
        invoked_ident: Seq::empty(),
    }
}

/// `names` with `name` at its end, unless it holds `name` already.
pub open spec fn with_unique(names: Seq<Seq<char>>, name: Seq<char>) -> Seq<Seq<char>> {
    if names.contains(name) {
        names
    } else {
        names.push(name)
    }
}

/// The context after a command.
pub open spec fn visit_command(command: CommandModel, context: ContextModel) -> ContextModel {
    match command {
        CommandModel::End => context,
        CommandModel::Jump(target) => ContextModel {
            expected_labels: with_unique(context.expected_labels, target),
            ..context
        },
        CommandModel::Choice(_, set) => ContextModel {
            expected_choices: with_unique(context.expected_choices, set),
            ..context
        },
        CommandModel::Trigger(name) => ContextModel {
            invoked_ident: with_unique(context.invoked_ident, name),
            ..context
        },
    }
}

/// The context after a label is declared, or the failure where it is
/// declared already.
pub open spec fn with_label(context: ContextModel, name: Seq<char>) -> Result<
    ContextModel,
    ParseFailure,
> {
    if context.decl_labels.contains(name) {
        Err(ParseFailure::DuplicateLabel(name))
    } else {
        Ok(ContextModel { decl_labels: context.decl_labels.push(name), ..context })
    }
}

/// The context after a choice set is declared, or the failure where it is
/// declared already.
pub open spec fn with_choice(context: ContextModel, name: Seq<char>) -> Result<
    ContextModel,
    ParseFailure,
> {
    if context.decl_choices.contains(name) {
        Err(ParseFailure::DuplicateChoice(name))
    } else {
        Ok(ContextModel { decl_choices: context.decl_choices.push(name), ..context })
    }
}

/// The context after a node and all below it are walked, depth first.
pub open spec fn visit_node(node: NodeModel, context: ContextModel) -> Result<
    ContextModel,
    ParseFailure,
>
    decreases node, 0nat,
{
    match node {
        NodeModel::Label(name) => with_label(context, name),
        NodeModel::Command(command) => Ok(visit_command(command, context)),
        NodeModel::Dialog(_, _) => Ok(context),
        NodeModel::Choices(name, _) => with_choice(context, name),
        NodeModel::LabelBlock(name, body) => match with_label(context, name) {
            Ok(declared) => visit_nodes(body, 0, declared),
            Err(failure) => Err(failure),
        },
        NodeModel::IfBlock(_, body, other) => match visit_nodes(body, 0, context) {
            Ok(walked) => match other {
                Some(nodes) => visit_nodes(nodes, 0, walked),
                None => Ok(walked),
            },
            Err(failure) => Err(failure),
        },
    }
}

/// The context after the nodes from `from` on are walked in order.
pub open spec fn visit_nodes(nodes: Seq<NodeModel>, from: nat, context: ContextModel) -> Result<
    ContextModel,
    ParseFailure,
>
    decreases nodes, nodes.len() - from,
{
    if from >= nodes.len() {
        Ok(context)
    } else {
        match visit_node(nodes[from as int], context) {
            Ok(next) => visit_nodes(nodes, from + 1, next),
            Err(failure) => Err(failure),
        }
    }
}

/// The first name of `expected`, from `from` on, that `declared` lacks.
pub open spec fn first_missing(expected: Seq<Seq<char>>, declared: Seq<Seq<char>>, from: nat) -> Option<
    Seq<char>,
>
    decreases expected.len() - from,
{
    if from >= expected.len() {
        None
    } else if !declared.contains(expected[from as int]) {
        Some(expected[from as int])
    } else {
        first_missing(expected, declared, from + 1)
    }
}

/// The reference of a walked context that is not resolved: the first
/// missing label, or else the first missing choice set.
pub open spec fn unresolved(context: ContextModel) -> Option<ParseFailure> {
    match first_missing(context.expected_labels, context.decl_labels, 0) {
        Some(name) => Some(ParseFailure::UnresolvedLabel(name)),
        None => match first_missing(context.expected_choices, context.decl_choices, 0) {
            Some(name) => Some(ParseFailure::UnresolvedChoice(name)),
            None => None,
        },
    }
}

/// Validation: the tree is walked depth first, and then every reference
/// must be resolved. The first duplicate declaration fails the walk.
pub open spec fn check(nodes: Seq<NodeModel>) -> Result<ContextModel, ParseFailure> {
    match visit_nodes(nodes, 0, empty_context()) {
        Ok(context) => match unresolved(context) {
            Some(failure) => Err(failure),
            None => Ok(context),
        },
        Err(failure) => Err(failure),
    }
}

/// Whether `names` holds `name`.
fn contains(names: &Vec<Identifier>, name: &Identifier) -> (found: bool)
    ensures
        found == strings_model(names@).contains(name@),
{
    let mut i: usize = 0;
    while i < names.len()
        invariant
            i <= names.len(),
            forall|j: int| 0 <= j < i ==> strings_model(names@)[j] != name@,
        decreases names.len() - i,
    {
        if names[i] == *name {
            proof {
                assert(strings_model(names@)[i as int] == name@);
            }
            return true;
        }
        i += 1;
    }
    false
}

/// Appends `name` to `names` unless they hold it already.
pub(crate) fn push_unique(names: &mut Vec<Identifier>, name: &Identifier)
    ensures
        strings_model(final(names)@) == with_unique(strings_model(old(names)@), name@),
{
    if !contains(names, name) {
        names.push(name.clone());
        proof {
            assert(strings_model(names@) =~= strings_model(old(names)@).push(name@));
        }
    }
}

/// What the walk of a syntax tree has met so far: the names declared, the
/// names referred to, and the names invoked.
#[derive(Debug)]
pub struct ParserContext {
    decl_labels: Vec<Identifier>,
    decl_choices: Vec<Identifier>,
    expected_labels: Vec<Identifier>,
    expected_choices: Vec<Identifier>,
    invoked_ident: Vec<Identifier>,
}

impl View for ParserContext {
    type V = ContextModel;

    closed spec fn view(&self) -> ContextModel {
        ContextModel {
            decl_labels: strings_model(self.decl_labels@),
            decl_choices: strings_model(self.decl_choices@),
            expected_labels: strings_model(self.expected_labels@),
            expected_choices: strings_model(self.expected_choices@),
            invoked_ident: strings_model(self.invoked_ident@),
        }
    }
}

/// The first name of `expected` that `declared` lacks.
fn find_missing(expected: &Vec<Identifier>, declared: &Vec<Identifier>) -> (missing: Option<
    Identifier,
>)
    ensures
        match missing {
            Some(name) => first_missing(strings_model(expected@), strings_model(declared@), 0)
                == Some(name@),
            None => first_missing(strings_model(expected@), strings_model(declared@), 0) is None,
        },
{
    let mut i: usize = 0;
    while i < expected.len()
        invariant
            first_missing(strings_model(expected@), strings_model(declared@), 0) == first_missing(
                strings_model(expected@),
                strings_model(declared@),
                i as nat,
            ),
        decreases expected.len() - i,
    {
        if !contains(declared, &expected[i]) {
            return Some(expected[i].clone());
        }
        i += 1;
    }
    None
}

impl ParserContext {
    /// A context that has met nothing.
    pub fn new() -> (context: Self)
        ensures
            context@ == empty_context(),
    {
        let context = ParserContext {
            decl_labels: Vec::new(),
            decl_choices: Vec::new(),
            expected_labels: Vec::new(),
            expected_choices: Vec::new(),
            invoked_ident: Vec::new(),
        };
        proof {
            assert(context@.decl_labels =~= Seq::<Seq<char>>::empty());
            assert(context@.decl_choices =~= Seq::<Seq<char>>::empty());
            assert(context@.expected_labels =~= Seq::<Seq<char>>::empty());
            assert(context@.expected_choices =~= Seq::<Seq<char>>::empty());
            assert(context@.invoked_ident =~= Seq::<Seq<char>>::empty());
        }
        context
    }

    /// Declares a label. A label that is declared already is refused, and
    /// the context stays as it is.
    pub fn declare_label(&mut self, label: &Identifier) -> (declared: Result<(), ()>)
        ensures
            match declared {
                Ok(()) => with_label(old(self)@, label@) == Ok::<ContextModel, ParseFailure>(
                    final(self)@,
                ),
                Err(()) => with_label(old(self)@, label@) is Err && final(self)@ == old(self)@,
            },
    {
        if contains(&self.decl_labels, label) {
            Err(())
        } else {
            self.decl_labels.push(label.clone());
            proof {
                assert(strings_model(self.decl_labels@) =~= strings_model(
                    old(self).decl_labels@,
                ).push(label@));
            }
            Ok(())
        }
    }

    /// Declares a choice set. One that is declared already is refused, and
    /// the context stays as it is.
    pub fn declare_choice(&mut self, choice: &Identifier) -> (declared: Result<(), ()>)
        ensures
            match declared {
                Ok(()) => with_choice(old(self)@, choice@) == Ok::<ContextModel, ParseFailure>(
                    final(self)@,
                ),
                Err(()) => with_choice(old(self)@, choice@) is Err && final(self)@ == old(self)@,
            },
    {
        if contains(&self.decl_choices, choice) {
            Err(())
        } else {
            self.decl_choices.push(choice.clone());
            proof {
                assert(strings_model(self.decl_choices@) =~= strings_model(
                    old(self).decl_choices@,
                ).push(choice@));
            }
            Ok(())
        }
    }

    /// Records that a `trigger` invokes `invoked`.
    pub fn declare_invocation(&mut self, invoked: &Identifier)
        ensures
            final(self)@ == visit_command(CommandModel::Trigger(invoked@), old(self)@),
    {
        push_unique(&mut self.invoked_ident, invoked);
    }

    /// Records that a `jump` names `label`.
    pub fn demand_label(&mut self, label: &Identifier)
        ensures
            final(self)@ == visit_command(CommandModel::Jump(label@), old(self)@),
    {
        push_unique(&mut self.expected_labels, label);
    }

    /// Records that a `choice` names the choice set `choice`.
    pub fn demand_choice(&mut self, choice: &Identifier)
        ensures
            final(self)@ == (ContextModel {
                expected_choices: with_unique(old(self)@.expected_choices, choice@),
                ..old(self)@
            }),
    {
        push_unique(&mut self.expected_choices, choice);
    }

    /// The first reference that is not resolved: a label before a choice
    /// set.
    pub fn missing(&self) -> (failure: Option<ParseError>)
        ensures
            match failure {
                Some(error) => unresolved(self@) == Some(error@),
                None => unresolved(self@) is None,
            },
    {
        match find_missing(&self.expected_labels, &self.decl_labels) {
            Some(name) => Some(ParseError::UnresolvedLabel(name)),
            None => match find_missing(&self.expected_choices, &self.decl_choices) {
                Some(name) => Some(ParseError::UnresolvedChoice(name)),
                None => None,
            },
        }
    }

    /// Whether every label and every choice set that is referred to is
    /// declared.
    pub fn finalize(&self) -> (complete: bool)
        ensures
            complete == (unresolved(self@) is None),
    {
        match self.missing() {
            Some(_) => false,
            None => true,
        }
    }
}

/// Walks one node and all below it.
fn visit(node: &AstNode, context: &mut ParserContext) -> (walked: Result<(), ParseError>)
    ensures
        match walked {
            Ok(()) => visit_node(node@, old(context)@) == Ok::<ContextModel, ParseFailure>(
                final(context)@,
            ),
            Err(error) => visit_node(node@, old(context)@) == Err::<ContextModel, ParseFailure>(
                error@,
            ),
        },
    decreases node, 0nat,
{
    match node {
        AstNode::Label(name) => match context.declare_label(name) {
            Ok(()) => Ok(()),
            Err(()) => Err(ParseError::DuplicateLabel(name.clone())),
        },
        AstNode::Command(command) => {
            match command {
                Command::End => {},
                Command::Jump(target) => context.demand_label(target),
                Command::Choice(_, set) => context.demand_choice(set),
                Command::Trigger(name) => context.declare_invocation(name),
            }
            Ok(())
        },
        AstNode::Dialog(_, _) => Ok(()),
        AstNode::Choices(name, _) => match context.declare_choice(name) {
            Ok(()) => Ok(()),
            Err(()) => Err(ParseError::DuplicateChoice(name.clone())),
        },
        AstNode::LabelBlock(name, body) => match context.declare_label(name) {
            Ok(()) => visit_all(body, context),
            Err(()) => Err(ParseError::DuplicateLabel(name.clone())),
        },
        AstNode::IfBlock(_, body, other) => {
            match visit_all(body, context) {
                Ok(()) => {},
                Err(error) => {
                    return Err(error);
                },
            }
            match other {
                Some(nodes) => visit_all(nodes, context),
                None => Ok(()),
            }
        },
    }
}

/// Walks the nodes of a block in order.
fn visit_all(nodes: &Vec<AstNode>, context: &mut ParserContext) -> (walked: Result<(), ParseError>)
    ensures
        match walked {
            Ok(()) => visit_nodes(nodes_model(nodes@), 0, old(context)@) == Ok::<
                ContextModel,
                ParseFailure,
            >(final(context)@),
            Err(error) => visit_nodes(nodes_model(nodes@), 0, old(context)@) == Err::<
                ContextModel,
                ParseFailure,
            >(error@),
        },
    decreases nodes, 1nat,
{
    let ghost model = nodes_model(nodes@);
    let mut i: usize = 0;
    while i < nodes.len()
        invariant
            i <= nodes.len(),
            model == nodes_model(nodes@),
            visit_nodes(model, 0, old(context)@) == visit_nodes(model, i as nat, context@),
        decreases nodes.len() - i,
    {
        match visit(&nodes[i], context) {
            Ok(()) => {},
            Err(error) => {
                return Err(error);
            },
        }
        i += 1;
    }
    Ok(())
}

/// Validates a syntax tree.
///
/// The tree is walked depth first. A label or a choice set that is
/// declared a second time fails the walk at that declaration. After the
/// walk, every label that a `jump` names and every choice set that a
/// `choice` names must be declared, wherever in the tree; the first that
/// is not fails the validation, a label before a choice set.
pub fn validate(ast: &[AstNode]) -> (valid: Result<(), ParseError>)
    ensures
        match valid {
            Ok(()) => check(nodes_model(ast@)) is Ok,
            Err(error) => check(nodes_model(ast@)) == Err::<ContextModel, ParseFailure>(error@),
        },
{
    let ghost model = nodes_model(ast@);
    let mut context = ParserContext::new();
    let mut i: usize = 0;
    while i < ast.len()
        invariant
            i <= ast.len(),
            model == nodes_model(ast@),
            visit_nodes(model, 0, empty_context()) == visit_nodes(model, i as nat, context@),
        decreases ast.len() - i,
    {
        match visit(&ast[i], &mut context) {
            Ok(()) => {},
            Err(error) => {
                return Err(error);
            },
        }
        i += 1;
    }
    match context.missing() {
        Some(error) => Err(error),
        None => Ok(()),
    }
}

} // verus!
