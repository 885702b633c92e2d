//! Lowering a syntax tree into a flat script.

use std::rc::Rc;
use vstd::prelude::*;
use crate::ast::{nodes_model, options_model, texts_model, AstNode, Command, Condition, Variable};
use crate::bytecode::{
    choice_table_model, find_label, label_table_model, stops_model, strings_model, text_table_model,
    well_formed, DirectScript, Op, Operand, ScriptModel, Test, MAX_STOPS,
};
use crate::lowering::{
    collect_choices, compile, count_node, count_nodes, emit_command, emit_dialog, emit_node,
    emit_nodes, emit_operand, emit_test, emit_top, first_index, first_key, initial,
    lemma_compile_well_formed, offset_after, stop_offsets, CompileFailure,
};
use crate::symbols::{Identifier, Text};

verus! {

/// Why a tree could not be compiled.
#[derive(Debug)]
pub enum CompileError {
    /// A `jump` names a label that no earlier statement has declared.
    UnresolvedJump(Identifier),
    /// A `choice` names a choice set that the tree does not declare.
    UnknownChoice(Identifier),
    /// A node stands where the tree's shape does not allow it.
    UnexpectedNode,
    /// An index or an instruction count does not fit its machine type.
    TooLarge,
}

impl View for CompileError {
    type V = CompileFailure;

    open spec fn view(&self) -> CompileFailure {
        match self {
            CompileError::UnresolvedJump(name) => CompileFailure::UnresolvedJump(name@),
            CompileError::UnknownChoice(name) => CompileFailure::UnknownChoice(name@),
            CompileError::UnexpectedNode => CompileFailure::UnexpectedNode,
            CompileError::TooLarge => CompileFailure::TooLarge,
        }
    }
}

/// The tables of a script while it is being compiled.
struct Emitter {
    code: Vec<Op>,
    strings: Vec<Identifier>,
    texts: Vec<(Text, Vec<usize>)>,
    labels: Vec<(Identifier, usize)>,
    choices: Vec<(Identifier, Rc<Vec<(Identifier, Text)>>)>,
}

impl View for Emitter {
    type V = ScriptModel;

    closed spec fn view(&self) -> ScriptModel {
        ScriptModel {
            code: self.code@,
            strings: strings_model(self.strings@),
            texts: text_table_model(self.texts@),
            labels: label_table_model(self.labels@),
            choices: choice_table_model(self.choices@),
        }
    }
}

/// The first index at or after `from` at which `strings` holds `name`.
fn find_name(strings: &Vec<Identifier>, name: &Identifier, from: usize) -> (found: Option<usize>)
    ensures
        match found {
            Some(index) => first_index(strings_model(strings@), name@, from as nat) == Some(
                index as nat,
            ),
            None => first_index(strings_model(strings@), name@, from as nat) is None,
        },
{
    let mut i = from;
    while i < strings.len()
        invariant
            from <= i,
            first_index(strings_model(strings@), name@, from as nat) == first_index(
                strings_model(strings@),
                name@,
                i as nat,
            ),
        decreases strings.len() - i,
    {
        if strings[i] == *name {
            return Some(i);
        }
        i += 1;
    }
    None
}

/// The number of instructions that `node` compiles to, or `None` where the
/// number does not fit.
fn count_op(node: &AstNode) -> (count: Option<usize>)
    ensures
        match count {
            Some(n) => n == count_node(node@),
            None => count_node(node@) > usize::MAX,
        },
    decreases node, 0nat,
{
    match node {
        AstNode::Label(_) => Some(0),
        AstNode::Command(_) => Some(1),
        AstNode::Dialog(_, _) => Some(1),
        AstNode::Choices(_, _) => Some(0),
        AstNode::LabelBlock(_, body) => count_ops(body),
        AstNode::IfBlock(_, body, other) => {
            let inner = match count_ops(body) {
                Some(n) => n,
                None => {
                    return None;
                },
            };
            let rest: usize = match other {
                Some(nodes) => match count_ops(nodes) {
                    Some(m) => match m.checked_add(1) {
                        Some(sum) => sum,
                        None => {
                            return None;
                        },
                    },
                    None => {
                        return None;
                    },
                },
                None => 0,
            };
            match inner.checked_add(2) {
                Some(sum) => sum.checked_add(rest),
                None => None,
            }
        },
    }
}

/// The number of instructions that `nodes` compile to, or `None` where the
/// number does not fit.
fn count_ops(nodes: &Vec<AstNode>) -> (count: Option<usize>)
    ensures
        match count {
            Some(n) => n == count_nodes(nodes_model(nodes@), 0),
            None => count_nodes(nodes_model(nodes@), 0) > usize::MAX,
        },
    decreases nodes, 1nat,
{
    let ghost model = nodes_model(nodes@);
    let mut total: usize = 0;
    let mut i: usize = 0;
    while i < nodes.len()
        invariant
            i <= nodes.len(),
            model == nodes_model(nodes@),
            total + count_nodes(model, i as nat) == count_nodes(model, 0),
        decreases nodes.len() - i,
    {
        let one = match count_op(&nodes[i]) {
            Some(n) => n,
            None => {
                return None;
            },
        };
        total = match total.checked_add(one) {
            Some(sum) => sum,
            None => {
                return None;
            },
        };
        i += 1;
    }
    Some(total)
}

/// Interns `name` in the string table and returns its index.
fn intern_name(em: &mut Emitter, name: &Identifier) -> (index: Result<u32, CompileError>)
    ensures
        match index {
            Ok(i) => crate::lowering::intern_name(old(em)@, name@) == Ok::<
                (ScriptModel, u32),
                CompileFailure,
            >((final(em)@, i)),
            Err(e) => crate::lowering::intern_name(old(em)@, name@) == Err::<
                (ScriptModel, u32),
                CompileFailure,
            >(e@),
        },
{
    match find_name(&em.strings, name, 1) {
        Some(found) => {
            if found <= u32::MAX as usize {
                Ok(found as u32)
            } else {
                Err(CompileError::TooLarge)
            }
        },
        None => {
            let next = em.strings.len();
            if next <= u32::MAX as usize {
                em.strings.push(name.clone());
                proof {
                    assert(strings_model(em.strings@) =~= strings_model(old(em).strings@).push(
                        name@,
                    ));
                }
                Ok(next as u32)
            } else {
                Err(CompileError::TooLarge)
            }
        },
    }
}

/// Compiles one operand of a condition.
fn convert_var(var: &Variable, em: &mut Emitter) -> (operand: Result<Operand, CompileError>)
    ensures
        match operand {
            Ok(o) => emit_operand(var@, old(em)@) == Ok::<(ScriptModel, Operand), CompileFailure>(
                (final(em)@, o),
            ),
            Err(e) => emit_operand(var@, old(em)@) == Err::<(ScriptModel, Operand), CompileFailure>(
                e@,
            ),
        },
{
    match var {
        Variable::Global(name) => {
            match intern_name(em, name) {
                Ok(index) => Ok(Operand::Name(index)),
                Err(e) => Err(e),
            }
        },
        Variable::String(text) => {
            let name = text.clone().to_ident();
            match intern_name(em, &name) {
                Ok(index) => Ok(Operand::Text(index)),
                Err(e) => Err(e),
            }
        },
        Variable::Boolean(value) => Ok(Operand::Boolean(*value)),
        Variable::Int(value) => Ok(Operand::Int(*value)),
    }
}

/// Compiles one condition.
fn convert_condition(condition: &Condition, em: &mut Emitter) -> (test: Result<Test, CompileError>)
    ensures
        match test {
            Ok(t) => emit_test(condition@, old(em)@) == Ok::<(ScriptModel, Test), CompileFailure>(
                (final(em)@, t),
            ),
            Err(e) => emit_test(condition@, old(em)@) == Err::<(ScriptModel, Test), CompileFailure>(
                e@,
            ),
        },
{
    match condition {
        Condition::Variable(var) => {
            match convert_var(var, em) {
                Ok(operand) => Ok(Test::Var(operand)),
                Err(e) => Err(e),
            }
        },
        Condition::Expr(lhs, op, rhs) => {
            let left = match convert_var(lhs, em) {
                Ok(operand) => operand,
                Err(e) => {
                    return Err(e);
                },
            };
            match convert_var(rhs, em) {
                Ok(right) => Ok(Test::Expr(left, *op, right)),
                Err(e) => Err(e),
            }
        },
    }
}

/// The index of the first choice set under `name`.
fn find_choice(choices: &Vec<(Identifier, Rc<Vec<(Identifier, Text)>>)>, name: &Identifier) -> (found:
    Option<usize>)
    ensures
        match found {
            Some(index) => first_key(choice_table_model(choices@), name@, 0) == Some(index as nat),
            None => first_key(choice_table_model(choices@), name@, 0) is None,
        },
{
    let mut i: usize = 0;
    while i < choices.len()
        invariant
            first_key(choice_table_model(choices@), name@, 0) == first_key(
                choice_table_model(choices@),
                name@,
                i as nat,
            ),
        decreases choices.len() - i,
    {
        if choices[i].0 == *name {
            return Some(i);
        }
        i += 1;
    }
    None
}

/// Compiles one command.
fn convert_command(command: &Command, em: &mut Emitter) -> (done: Result<(), CompileError>)
    ensures
        match done {
            Ok(()) => emit_command(command@, old(em)@) == Ok::<ScriptModel, CompileFailure>(
                final(em)@,
            ),
            Err(e) => emit_command(command@, old(em)@) == Err::<ScriptModel, CompileFailure>(e@),
        },
{
    match command {
        Command::End => {
            em.code.push(Op::End);
            Ok(())
        },
        Command::Jump(target) => {
            match find_label(&em.labels, target) {
                Some(position) => {
                    em.code.push(Op::Jump(position));
                    Ok(())
                },
                None => Err(CompileError::UnresolvedJump(target.clone())),
            }
        },
        Command::Choice(store, set) => {
            let index = match intern_name(em, store) {
                Ok(index) => index,
                Err(e) => {
                    return Err(e);
                },
            };
            match find_choice(&em.choices, set) {
                Some(found) => {
                    if found <= u32::MAX as usize {
                        em.code.push(Op::Choice(index, found as u32));
                        Ok(())
                    } else {
                        Err(CompileError::TooLarge)
                    }
                },
                None => Err(CompileError::UnknownChoice(set.clone())),
            }
        },
        Command::Trigger(name) => {
            match intern_name(em, name) {
                Ok(index) => {
                    em.code.push(Op::Trigger(index));
                    Ok(())
                },
                Err(e) => Err(e),
            }
        },
    }
}

/// Whether two lists of stop offsets are the same.
fn same_stops(a: &Vec<usize>, b: &Vec<usize>) -> (same: bool)
    ensures
        same == (stops_model(a@) == stops_model(b@)),
{
    if a.len() != b.len() {
        proof {
            assert(stops_model(a@).len() != stops_model(b@).len());
        }
        return false;
    }
    let mut i: usize = 0;
    while i < a.len()
        invariant
            i <= a.len(),
            a.len() == b.len(),
            forall|j: int| 0 <= j < i ==> a[j] == b[j],
        decreases a.len() - i,
    {
        if a[i] != b[i] {
            proof {
                assert(stops_model(a@)[i as int] != stops_model(b@)[i as int]);
            }
            return false;
        }
        i += 1;
    }
    proof {
        assert(stops_model(a@) =~= stops_model(b@));
    }
    true
}

/// The first index at which the text table holds `text` with `stops`.
fn find_text(texts: &Vec<(Text, Vec<usize>)>, text: &Text, stops: &Vec<usize>) -> (found: Option<
    usize,
>)
    ensures
        match found {
            Some(index) => first_index(
                text_table_model(texts@),
                (text@, stops_model(stops@)),
                0,
            ) == Some(index as nat),
            None => first_index(text_table_model(texts@), (text@, stops_model(stops@)), 0) is None,
        },
{
    let mut i: usize = 0;
    while i < texts.len()
        invariant
            first_index(text_table_model(texts@), (text@, stops_model(stops@)), 0) == first_index(
                text_table_model(texts@),
                (text@, stops_model(stops@)),
                i as nat,
            ),
        decreases texts.len() - i,
    {
        if texts[i].0 == *text && same_stops(&texts[i].1, stops) {
            return Some(i);
        }
        i += 1;
    }
    None
}

/// Joins the fragments of a dialogue line into one text and records the
/// offset of each boundary between two fragments, twelve at most.
fn join_fragments(says: &Vec<Text>) -> (joined: (Text, Vec<usize>))
    ensures
        joined.0@ == texts_model(says@).flatten(),
        stops_model(joined.1@) == stop_offsets(texts_model(says@)),
{
    let ghost model = texts_model(says@);
    let mut text = String::new();
    let mut stops: Vec<usize> = Vec::new();
    let mut i: usize = 0;
    while i < says.len()
        invariant
            i <= says.len(),
            model == texts_model(says@),
            text@ == model.subrange(0, i as int).flatten(),
            stops.len() <= MAX_STOPS,
            i == 0 ==> stops.len() == 0,
            0 < i <= MAX_STOPS ==> stops.len() == i - 1,
            i > MAX_STOPS ==> stops.len() == MAX_STOPS,
            forall|j: int| 0 <= j < stops.len() ==> stops[j] as nat == offset_after(model, j + 1),
        decreases says.len() - i,
    {
        if i > 0 && stops.len() < MAX_STOPS {
            let at = text.as_str().unicode_len();
            stops.push(at);
        }
        text.append(says[i].as_str());
        proof {
            assert(model.subrange(0, i + 1) =~= model.subrange(0, i as int).push(model[i as int]));
            model.subrange(0, i as int).lemma_flatten_push(model[i as int]);
        }
        i += 1;
    }
    proof {
        assert(model.subrange(0, i as int) =~= model);
        assert(stops_model(stops@) =~= stop_offsets(model));
    }
    (Text::from(text.as_str()), stops)
}

/// Compiles one dialogue line.
fn convert_dialog(who: &Option<Identifier>, says: &Vec<Text>, em: &mut Emitter) -> (done: Result<
    (),
    CompileError,
>)
    ensures
        match done {
            Ok(()) => emit_dialog(crate::ast::speaker_model(*who), texts_model(says@), old(em)@)
                == Ok::<ScriptModel, CompileFailure>(final(em)@),
            Err(e) => emit_dialog(crate::ast::speaker_model(*who), texts_model(says@), old(em)@)
                == Err::<ScriptModel, CompileFailure>(e@),
        },
{
    let speaker = match who {
        Some(name) => match intern_name(em, name) {
            Ok(index) => Some(index),
            Err(e) => {
                return Err(e);
            },
        },
        None => None,
    };
    let (text, stops) = join_fragments(says);
    let index = match find_text(&em.texts, &text, &stops) {
        Some(found) => found,
        None => {
            let next = em.texts.len();
            proof {
                assert(text_table_model(em.texts@.push((text, stops))) =~= text_table_model(
                    em.texts@,
                ).push((text@, stops_model(stops@))));
            }
            em.texts.push((text, stops));
            next
        },
    };
    if index <= u32::MAX as usize {
        em.code.push(Op::Text(speaker, index as u32));
        Ok(())
    } else {
        Err(CompileError::TooLarge)
    }
}

/// Compiles one node of a block, appending to the tables.
fn convert(node: &AstNode, em: &mut Emitter) -> (done: Result<(), CompileError>)
    ensures
        match done {
            Ok(()) => emit_node(node@, old(em)@) == Ok::<ScriptModel, CompileFailure>(final(em)@),
            Err(e) => emit_node(node@, old(em)@) == Err::<ScriptModel, CompileFailure>(e@),
        },
    decreases node, 0nat,
{
    match node {
        AstNode::Label(name) => {
            let here = em.code.len();
            em.labels.push((name.clone(), here));
            proof {
                assert(label_table_model(em.labels@) =~= label_table_model(old(em).labels@).push(
                    (name@, here),
                ));
            }
            Ok(())
        },
        AstNode::Command(command) => convert_command(command, em),
        AstNode::Dialog(who, says) => convert_dialog(who, says, em),
        AstNode::IfBlock(condition, body, other) => {
            let test = match convert_condition(condition, em) {
                Ok(test) => test,
                Err(e) => {
                    return Err(e);
                },
            };
            let inner = match count_ops(body) {
                Some(n) => n,
                None => {
                    return Err(CompileError::TooLarge);
                },
            };
            let skip = if other.is_some() {
                match inner.checked_add(1) {
                    Some(sum) => sum,
                    None => {
                        return Err(CompileError::TooLarge);
                    },
                }
            } else {
                inner
            };
            em.code.push(Op::EvalCondition(test));
            em.code.push(Op::If(skip));
            match convert_all(body, em) {
                Ok(()) => {},
                Err(e) => {
                    return Err(e);
                },
            }
            match other {
                Some(nodes) => {
                    let rest = match count_ops(nodes) {
                        Some(m) => m,
                        None => {
                            return Err(CompileError::TooLarge);
                        },
                    };
                    let after = match em.code.len().checked_add(1) {
                        Some(next) => match next.checked_add(rest) {
                            Some(sum) => sum,
                            None => {
                                return Err(CompileError::TooLarge);
                            },
                        },
                        None => {
                            return Err(CompileError::TooLarge);
                        },
                    };
                    em.code.push(Op::Jump(after));
                    convert_all(nodes, em)
                },
                None => Ok(()),
            }
        },
        AstNode::Choices(_, _) => Err(CompileError::UnexpectedNode),
        AstNode::LabelBlock(_, _) => Err(CompileError::UnexpectedNode),
    }
}

/// Compiles the nodes of a block in order.
fn convert_all(nodes: &Vec<AstNode>, em: &mut Emitter) -> (done: Result<(), CompileError>)
    ensures
        match done {
            Ok(()) => emit_nodes(nodes_model(nodes@), 0, old(em)@) == Ok::<
                ScriptModel,
                CompileFailure,
            >(final(em)@),
            Err(e) => emit_nodes(nodes_model(nodes@), 0, old(em)@) == Err::<
                ScriptModel,
                CompileFailure,
            >(e@),
        },
    decreases nodes, 1nat,
{
    let ghost model = nodes_model(nodes@);
    let mut i: usize = 0;
    while i < nodes.len()
        invariant
            i <= nodes.len(),
            model == nodes_model(nodes@),
            emit_nodes(model, 0, old(em)@) == emit_nodes(model, i as nat, em@),
        decreases nodes.len() - i,
    {
        match convert(&nodes[i], em) {
            Ok(()) => {},
            Err(e) => {
                return Err(e);
            },
        }
        i += 1;
    }
    Ok(())
}

/// A copy of the options of a choice set.
fn clone_options(options: &Vec<(Identifier, Text)>) -> (copy: Vec<(Identifier, Text)>)
    ensures
        options_model(copy@) == options_model(options@),
{
    let mut copy: Vec<(Identifier, Text)> = Vec::new();
    let mut i: usize = 0;
    while i < options.len()
        invariant
            i <= options.len(),
            copy.len() == i,
            forall|j: int|
                0 <= j < i ==> copy[j].0@ == options[j].0@ && copy[j].1@ == options[j].1@,
        decreases options.len() - i,
    {
        copy.push((options[i].0.clone(), options[i].1.clone()));
        i += 1;
    }
    proof {
        assert(options_model(copy@) =~= options_model(options@));
    }
    copy
}

/// Compiles a syntax tree into a script.
///
/// The top-level choice sets are collected first. Then each label block
/// records its label and emits its body, interning names and texts as they
/// are met. A `jump` resolves only to a label that is already recorded: one
/// to a label declared later fails with
/// [`CompileError::UnresolvedJump`]. A node where the tree's shape does not
/// allow it fails with [`CompileError::UnexpectedNode`].
///
/// The result is `compile` of the tree's model, and a script that comes
/// back is well formed.
pub fn construct_script_from_ast(ast: &[AstNode]) -> (made: Result<DirectScript, CompileError>)
    ensures
        match made {
            Ok(script) => compile(nodes_model(ast@)) == Ok::<ScriptModel, CompileFailure>(script@)
                && well_formed(script@),
            Err(e) => compile(nodes_model(ast@)) == Err::<ScriptModel, CompileFailure>(e@),
        },
{
    let ghost model = nodes_model(ast@);
    let mut choices: Vec<(Identifier, Rc<Vec<(Identifier, Text)>>)> = Vec::new();
    let mut i: usize = 0;
    while i < ast.len()
        invariant
            i <= ast.len(),
            model == nodes_model(ast@),
            choice_table_model(choices@) + collect_choices(model, i as nat) == collect_choices(
                model,
                0,
            ),
        decreases ast.len() - i,
    {
        match &ast[i] {
            AstNode::Choices(name, options) => {
                let ghost before = choice_table_model(choices@);
                let shared = Rc::new(clone_options(options));
                choices.push((name.clone(), shared));
                proof {
                    assert(choice_table_model(choices@) =~= before.push(
                        (name@, options_model(options@)),
                    ));
                    assert(before.push((name@, options_model(options@))) + collect_choices(
                        model,
                        (i + 1) as nat,
                    ) =~= before + collect_choices(model, i as nat));
                }
            },
            _ => {},
        }
        i += 1;
    }
    proof {
        assert(choice_table_model(choices@) =~= collect_choices(model, 0));
    }
    let mut strings: Vec<Identifier> = Vec::new();
    strings.push(Identifier::from("safe-guard: probably a bug!"));
    let mut em = Emitter { code: Vec::new(), strings, texts: Vec::new(), labels: Vec::new(), choices };
    proof {
        assert(em@.strings =~= seq![crate::bytecode::sentinel()]);
        assert(em@.code =~= Seq::<Op>::empty());
        assert(em@.texts =~= Seq::<(Seq<char>, Seq<nat>)>::empty());
        assert(em@.labels =~= Seq::<(Seq<char>, usize)>::empty());
        assert(em@ == initial(model));
    }
    let mut k: usize = 0;
    while k < ast.len()
        invariant
            k <= ast.len(),
            model == nodes_model(ast@),
            compile(model) == emit_top(model, k as nat, em@),
        decreases ast.len() - k,
    {
        match &ast[k] {
            AstNode::Choices(_, _) => {},
            AstNode::LabelBlock(name, body) => {
                let here = em.code.len();
                let ghost before = em.labels@;
                em.labels.push((name.clone(), here));
                proof {
                    assert(label_table_model(em.labels@) =~= label_table_model(before).push(
                        (name@, here),
                    ));
                }
                match convert_all(body, &mut em) {
                    Ok(()) => {},
                    Err(e) => {
                        return Err(e);
                    },
                }
            },
            _ => {
                return Err(CompileError::UnexpectedNode);
            },
        }
        k += 1;
    }
    proof {
        lemma_compile_well_formed(model);
    }
    Ok(DirectScript::assemble(em.code, em.strings, em.texts, em.labels, em.choices))
}

} // verus!
