//! How the stages fit.
//!
//! A tree that the grammar builds and validation accepts has the shape
//! that the compiler asks for and declares every choice set that it uses.
//! Such a tree compiles if each of its jumps leads back to a label that is
//! declared before it, and fails on a jump only if one does not. In the
//! compiled script the branches of an `if` lead where its bodies start and
//! end.

use vstd::prelude::*;
use crate::ast::{CommandModel, NodeModel};
use crate::bytecode::ScriptModel;
use crate::context::check;
use crate::interpreter::Environment;
use crate::progress::control_step;
use crate::lexer::{LineModel, SyntaxError};
use crate::lowering::{
    collect_choices, compile, emit_command, emit_dialog, emit_node, emit_nodes, emit_test, emit_top,
    first_key, initial, lemma_first_key, push_op, CompileFailure,
};
use crate::syntax::{block, declarations, statement_node, tree};
use crate::validity::{
    asks_of, asks_of_node, choices_of, choices_of_node, labels_of, labels_of_node,
    lemma_contains_concat, lemma_valid_tree,
};

verus! {

/// Whether a node may stand in a block: a label, a command, a line of
/// dialogue, or an `if` whose bodies hold such nodes.
pub open spec fn block_node(node: NodeModel) -> bool
    decreases node,
{
    match node {
        NodeModel::Label(_) => true,
        NodeModel::Command(_) => true,
        NodeModel::Dialog(_, _) => true,
        NodeModel::IfBlock(_, body, other) => {
            &&& forall|i: int| 0 <= i < body.len() ==> block_node(#[trigger] body[i])
            &&& match other {
                Some(nodes) => forall|i: int| 0 <= i < nodes.len() ==> block_node(#[trigger] nodes[i]),
                None => true,
            }
        },
        NodeModel::Choices(_, _) => false,
        NodeModel::LabelBlock(_, _) => false,
    }
}

/// Whether the nodes may stand in a block.
pub open spec fn block_shape(nodes: Seq<NodeModel>) -> bool {
    forall|i: int| 0 <= i < nodes.len() ==> block_node(#[trigger] nodes[i])
}

/// Whether a node may stand at the top of a script: a choice set, or a
/// label block whose body has the shape of a block.
pub open spec fn declaration(node: NodeModel) -> bool {
    match node {
        NodeModel::Choices(_, _) => true,
        NodeModel::LabelBlock(_, body) => block_shape(body),
        _ => false,
    }
}

/// Whether the nodes are the declarations of a script.
pub open spec fn script_shape(nodes: Seq<NodeModel>) -> bool {
    forall|i: int| 0 <= i < nodes.len() ==> declaration(#[trigger] nodes[i])
}

/// A statement that the grammar reads may stand in a block.
proof fn lemma_statement_shape(lines: Seq<LineModel>, at: int, hi: int, indent: usize)
    requires
        statement_node(lines, at, hi, indent) is Ok,
    ensures
        block_node(statement_node(lines, at, hi, indent)->Ok_0),
    decreases hi - at, 0nat,
{
    let node = statement_node(lines, at, hi, indent)->Ok_0;
    match node {
        NodeModel::IfBlock(_, body, other) => {
            let count = crate::syntax::deeper(lines, at + 1, hi, indent, false);
            let end = at + 1 + count;
            crate::syntax::lemma_deeper_bound(lines, at + 1, hi, indent, false);
            lemma_block_shape(lines, at + 1, end, lines[at + 1].indent, Seq::empty());
            if other is Some {
                let rest = crate::syntax::deeper(lines, end + 1, hi, indent, false);
                crate::syntax::lemma_deeper_bound(lines, end + 1, hi, indent, false);
                lemma_block_shape(lines, end + 1, end + 1 + rest, lines[end + 1].indent, Seq::empty());
            }
        },
        _ => {},
    }
}

/// The statements that the grammar reads may stand in a block.
proof fn lemma_block_shape(lines: Seq<LineModel>, lo: int, hi: int, indent: usize, found: Seq<NodeModel>)
    requires
        block_shape(found),
        block(lines, lo, hi, indent, found) is Ok,
    ensures
        block_shape(block(lines, lo, hi, indent, found)->Ok_0),
    decreases hi - lo, 1nat,
{
    if lo < hi {
        lemma_statement_shape(lines, lo, hi, indent);
        let node = statement_node(lines, lo, hi, indent)->Ok_0;
        crate::syntax::lemma_statement_end(lines, lo, hi, indent);
        lemma_block_shape(
            lines,
            crate::syntax::statement_end(lines, lo, hi, indent),
            hi,
            indent,
            found.push(node),
        );
    }
}

proof fn lemma_declarations_shape(lines: Seq<LineModel>, lo: int, found: Seq<NodeModel>)
    requires
        script_shape(found),
        declarations(lines, lo, found) is Ok,
    ensures
        script_shape(declarations(lines, lo, found)->Ok_0),
    decreases lines.len() - lo,
{
    if 0 <= lo < lines.len() {
        match crate::syntax::shape_of(lines[lo].tokens) {
            Ok(crate::syntax::ShapeModel::Label(name)) => {
                let count = crate::syntax::deeper(lines, lo + 1, lines.len() as int, 0, false);
                crate::syntax::lemma_deeper_bound(lines, lo + 1, lines.len() as int, 0, false);
                lemma_block_shape(lines, lo + 1, lo + 1 + count, lines[lo + 1].indent, Seq::empty());
                let body = block(lines, lo + 1, lo + 1 + count, lines[lo + 1].indent, Seq::empty())->Ok_0;
                lemma_declarations_shape(
                    lines,
                    lo + 1 + count,
                    found.push(NodeModel::LabelBlock(name, body)),
                );
            },
            Ok(crate::syntax::ShapeModel::Choices(name, options)) => {
                lemma_declarations_shape(lines, lo + 1, found.push(NodeModel::Choices(name, options)));
            },
            _ => {},
        }
    }
}

/// The tree that the grammar builds has the shape of a script: choice sets
/// and label blocks at its top, and in the blocks labels, commands, lines
/// of dialogue and `if`s.
pub proof fn lemma_tree_shape(lines: Seq<LineModel>)
    requires
        tree(lines) is Ok,
    ensures
        script_shape(tree(lines)->Ok_0),
{
    lemma_declarations_shape(lines, 0, Seq::empty());
}

/// Whether `failure` is one that a block of the right shape can meet, in a
/// script with the given choice sets: a jump that does not resolve, a table
/// that outgrows its index, or the use of a choice set that the script lacks
/// and that one of `asks` names.
pub open spec fn block_failure(
    failure: CompileFailure,
    asks: Seq<Seq<char>>,
    choices: Seq<(Seq<char>, Seq<(Seq<char>, Seq<char>)>)>,
) -> bool {
    match failure {
        CompileFailure::UnresolvedJump(_) => true,
        CompileFailure::TooLarge => true,
        CompileFailure::UnknownChoice(set) => asks.contains(set) && first_key(choices, set, 0)
            is None,
        CompileFailure::UnexpectedNode => false,
    }
}

/// What compiling a node of a block can come to: it keeps the choice sets,
/// and it fails only as `block_failure` says.
pub open spec fn emit_law(
    before: ScriptModel,
    emitted: Result<ScriptModel, CompileFailure>,
    asks: Seq<Seq<char>>,
) -> bool {
    match emitted {
        Ok(after) => after.choices == before.choices,
        Err(failure) => block_failure(failure, asks, before.choices),
    }
}

proof fn lemma_emit_node_law(node: NodeModel, script: ScriptModel)
    requires
        block_node(node),
    ensures
        emit_law(script, emit_node(node, script), asks_of_node(node)),
    decreases node, 0nat,
{
    match node {
        NodeModel::Command(CommandModel::Choice(_, set)) => {
            assert(seq![set][0] == set);
        },
        NodeModel::IfBlock(condition, body, other) => {
            match emit_test(condition, script) {
                Ok((tested, test)) => {
                    let skip = crate::lowering::count_nodes(body, 0) + if other is Some {
                        1nat
                    } else {
                        0nat
                    };
                    if skip <= usize::MAX {
                        let opened = push_op(
                            push_op(tested, crate::bytecode::Op::EvalCondition(test)),
                            crate::bytecode::Op::If(skip as usize),
                        );
                        lemma_emit_nodes_law(body, 0, opened);
                        let first = asks_of(body, 0);
                        match emit_nodes(body, 0, opened) {
                            Ok(done) => match other {
                                Some(nodes) => {
                                    let after = done.code.len() + 1 + crate::lowering::count_nodes(
                                        nodes,
                                        0,
                                    );
                                    if after <= usize::MAX {
                                        let jumped = push_op(
                                            done,
                                            crate::bytecode::Op::Jump(after as usize),
                                        );
                                        lemma_emit_nodes_law(nodes, 0, jumped);
                                        match emit_nodes(nodes, 0, jumped) {
                                            Err(CompileFailure::UnknownChoice(set)) => {
                                                lemma_contains_concat(first, asks_of(nodes, 0), set);
                                            },
                                            _ => {},
                                        }
                                    }
                                },
                                None => {
                                    assert(first + Seq::<Seq<char>>::empty() =~= first);
                                },
                            },
                            Err(CompileFailure::UnknownChoice(set)) => {
                                match other {
                                    Some(nodes) => lemma_contains_concat(
                                        first,
                                        asks_of(nodes, 0),
                                        set,
                                    ),
                                    None => {
                                        assert(first + Seq::<Seq<char>>::empty() =~= first);
                                    },
                                }
                            },
                            Err(_) => {},
                        }
                    }
                },
                Err(_) => {},
            }
        },
        _ => {},
    }
}

proof fn lemma_emit_nodes_law(nodes: Seq<NodeModel>, from: nat, script: ScriptModel)
    requires
        block_shape(nodes),
    ensures
        emit_law(script, emit_nodes(nodes, from, script), asks_of(nodes, from)),
    decreases nodes, nodes.len() - from,
{
    if from < nodes.len() {
        let node = nodes[from as int];
        lemma_emit_node_law(node, script);
        match emit_node(node, script) {
            Ok(next) => {
                lemma_emit_nodes_law(nodes, from + 1, next);
                match emit_nodes(nodes, from + 1, next) {
                    Err(CompileFailure::UnknownChoice(set)) => {
                        lemma_contains_concat(asks_of_node(node), asks_of(nodes, from + 1), set);
                    },
                    _ => {},
                }
            },
            Err(CompileFailure::UnknownChoice(set)) => {
                lemma_contains_concat(asks_of_node(node), asks_of(nodes, from + 1), set);
            },
            Err(_) => {},
        }
    }
}

/// A node of a block declares no choice set.
proof fn lemma_block_declares_none(node: NodeModel)
    requires
        block_node(node),
    ensures
        choices_of_node(node) =~= Seq::<Seq<char>>::empty(),
    decreases node, 0nat,
{
    match node {
        NodeModel::IfBlock(_, body, other) => {
            lemma_blocks_declare_none(body, 0);
            match other {
                Some(nodes) => lemma_blocks_declare_none(nodes, 0),
                None => {},
            }
        },
        _ => {},
    }
}

proof fn lemma_blocks_declare_none(nodes: Seq<NodeModel>, from: nat)
    requires
        block_shape(nodes),
    ensures
        choices_of(nodes, from) =~= Seq::<Seq<char>>::empty(),
    decreases nodes, nodes.len() - from,
{
    if from < nodes.len() {
        lemma_block_declares_none(nodes[from as int]);
        lemma_blocks_declare_none(nodes, from + 1);
    }
}

/// Every choice set that a script declares stands in the table that the
/// compiler collects.
proof fn lemma_declared_is_collected(ast: Seq<NodeModel>, from: nat, name: Seq<char>)
    requires
        script_shape(ast),
        choices_of(ast, from).contains(name),
    ensures
        exists|k: int|
            0 <= k < collect_choices(ast, from).len() && (#[trigger] collect_choices(
                ast,
                from,
            )[k]).0 == name,
    decreases ast.len() - from,
{
    if from < ast.len() {
        let node = ast[from as int];
        assert(declaration(node));
        assert(choices_of(ast, from) == choices_of_node(node) + choices_of(ast, from + 1));
        lemma_contains_concat(choices_of_node(node), choices_of(ast, from + 1), name);
        match node {
            NodeModel::Choices(own, options) => {
                assert(collect_choices(ast, from) == seq![(own, options)] + collect_choices(
                    ast,
                    from + 1,
                ));
                if choices_of_node(node).contains(name) {
                    let i = choose|i: int| 0 <= i < seq![own].len() && seq![own][i] == name;
                    assert(own == name);
                    assert(collect_choices(ast, from)[0].0 == name);
                } else {
                    lemma_declared_is_collected(ast, from + 1, name);
                    let k = choose|k: int|
                        0 <= k < collect_choices(ast, from + 1).len() && (#[trigger] collect_choices(
                            ast,
                            from + 1,
                        )[k]).0 == name;
                    assert(collect_choices(ast, from)[k + 1].0 == name);
                }
            },
            NodeModel::LabelBlock(_, body) => {
                lemma_blocks_declare_none(body, 0);
                assert(!choices_of_node(node).contains(name));
                lemma_declared_is_collected(ast, from + 1, name);
                let k = choose|k: int|
                    0 <= k < collect_choices(ast, from + 1).len() && (#[trigger] collect_choices(
                        ast,
                        from + 1,
                    )[k]).0 == name;
                assert(collect_choices(ast, from)[k].0 == name);
            },
            _ => {},
        }
    }
}

proof fn lemma_emit_top_law(ast: Seq<NodeModel>, from: nat, script: ScriptModel)
    requires
        script_shape(ast),
        forall|set: Seq<char>|
            asks_of(ast, from).contains(set) ==> first_key(script.choices, set, 0) is Some,
    ensures
        emit_top(ast, from, script) matches Err(failure) ==> failure is UnresolvedJump || failure
            is TooLarge,
    decreases ast.len() - from,
{
    if from < ast.len() {
        let node = ast[from as int];
        assert(declaration(node));
        assert(asks_of(ast, from) == asks_of_node(node) + asks_of(ast, from + 1));
        assert forall|set: Seq<char>| asks_of(ast, from + 1).contains(set) implies first_key(
            script.choices,
            set,
            0,
        ) is Some by {
            lemma_contains_concat(asks_of_node(node), asks_of(ast, from + 1), set);
            assert(asks_of(ast, from).contains(set));
        }
        match node {
            NodeModel::Choices(_, _) => lemma_emit_top_law(ast, from + 1, script),
            NodeModel::LabelBlock(name, body) => {
                let labelled = ScriptModel {
                    labels: script.labels.push((name, script.code.len() as usize)),
                    ..script
                };
                lemma_emit_nodes_law(body, 0, labelled);
                match emit_nodes(body, 0, labelled) {
                    Ok(next) => lemma_emit_top_law(ast, from + 1, next),
                    Err(CompileFailure::UnknownChoice(set)) => {
                        lemma_contains_concat(asks_of_node(node), asks_of(ast, from + 1), set);
                        assert(asks_of_node(node) == asks_of(body, 0));
                        assert(asks_of(ast, from).contains(set));
                    },
                    Err(_) => {},
                }
            },
            _ => {},
        }
    }
}

/// A tree that the grammar has built and validation has accepted compiles,
/// unless a `jump` in it names a label that is declared later, or a table
/// outgrows its index. Its shape is never refused, and no choice set that
/// it uses is unknown.
pub proof fn lemma_valid_tree_compiles(lines: Seq<LineModel>)
    requires
        tree(lines) is Ok,
        check(tree(lines)->Ok_0) is Ok,
    ensures
        compile(tree(lines)->Ok_0) matches Err(failure) ==> failure is UnresolvedJump || failure
            is TooLarge,
{
    let ast = tree(lines)->Ok_0;
    lemma_tree_shape(lines);
    lemma_valid_tree(ast);
    assert forall|set: Seq<char>| asks_of(ast, 0).contains(set) implies first_key(
        initial(ast).choices,
        set,
        0,
    ) is Some by {
        lemma_declared_is_collected(ast, 0, set);
        lemma_first_key(collect_choices(ast, 0), set, 0);
    }
    lemma_emit_top_law(ast, 0, initial(ast));
}

/// The names of a label table, in order.
pub open spec fn label_names(labels: Seq<(Seq<char>, usize)>) -> Seq<Seq<char>> {
    Seq::new(labels.len(), |i: int| labels[i].0)
}

/// Whether every `jump` of a node, and of all below it, names a label that
/// is declared before the jump, in the order of a walk depth first;
/// `declared` are the labels that are declared before the node. A label
/// counts from its declaration on, in whichever body it stands.
pub open spec fn jumps_back_node(node: NodeModel, declared: Seq<Seq<char>>) -> bool
    decreases node, 0nat,
{
    match node {
        NodeModel::Command(CommandModel::Jump(target)) => declared.contains(target),
        NodeModel::LabelBlock(name, body) => jumps_back(body, 0, declared.push(name)),
        NodeModel::IfBlock(_, body, other) => jumps_back(body, 0, declared) && match other {
            Some(nodes) => jumps_back(nodes, 0, declared + labels_of(body, 0)),
            None => true,
        },
        _ => true,
    }
}

/// Whether every `jump` of the nodes from `from` on names a label that is
/// declared before the jump.
pub open spec fn jumps_back(nodes: Seq<NodeModel>, from: nat, declared: Seq<Seq<char>>) -> bool
    decreases nodes, nodes.len() - from,
{
    if from >= nodes.len() {
        true
    } else {
        jumps_back_node(nodes[from as int], declared) && jumps_back(
            nodes,
            from + 1,
            declared + labels_of_node(nodes[from as int]),
        )
    }
}

/// What compiling does to the labels: a node that compiles has jumped back
/// only, and has recorded its labels in order; a node that fails on a jump
/// does not jump back only.
pub open spec fn jump_law(
    before: ScriptModel,
    emitted: Result<ScriptModel, CompileFailure>,
    labels: Seq<Seq<char>>,
    back: bool,
) -> bool {
    match emitted {
        Ok(after) => back && label_names(after.labels) == label_names(before.labels) + labels,
        Err(CompileFailure::UnresolvedJump(_)) => !back,
        Err(_) => true,
    }
}

proof fn lemma_label_found(labels: Seq<(Seq<char>, usize)>, name: Seq<char>)
    ensures
        first_key(labels, name, 0) is Some <==> label_names(labels).contains(name),
{
    lemma_first_key(labels, name, 0);
    if first_key(labels, name, 0) is Some {
        let index = first_key(labels, name, 0)->Some_0 as int;
        assert(label_names(labels)[index] == name);
    }
    if label_names(labels).contains(name) {
        let i = choose|i: int| 0 <= i < label_names(labels).len() && label_names(labels)[i] == name;
        assert(labels[i].0 == name);
    }
}

proof fn lemma_jump_node(node: NodeModel, script: ScriptModel)
    requires
        block_node(node),
    ensures
        jump_law(
            script,
            emit_node(node, script),
            labels_of_node(node),
            jumps_back_node(node, label_names(script.labels)),
        ),
    decreases node, 0nat,
{
    let names = label_names(script.labels);
    let none = Seq::<Seq<char>>::empty();
    match node {
        NodeModel::Label(name) => {
            assert(label_names(script.labels.push((name, script.code.len() as usize))) =~= names
                + seq![name]);
        },
        NodeModel::Command(command) => {
            assert(names + none =~= names);
            match command {
                CommandModel::Jump(target) => lemma_label_found(script.labels, target),
                _ => {},
            }
        },
        NodeModel::Dialog(_, _) => {
            assert(names + none =~= names);
        },
        NodeModel::IfBlock(condition, body, other) => {
            match emit_test(condition, script) {
                Ok((tested, test)) => {
                    let skip = crate::lowering::count_nodes(body, 0) + if other is Some {
                        1nat
                    } else {
                        0nat
                    };
                    if skip <= usize::MAX {
                        let opened = push_op(
                            push_op(tested, crate::bytecode::Op::EvalCondition(test)),
                            crate::bytecode::Op::If(skip as usize),
                        );
                        assert(opened.labels == script.labels);
                        lemma_jump_nodes(body, 0, opened);
                        match emit_nodes(body, 0, opened) {
                            Ok(done) => match other {
                                Some(nodes) => {
                                    let after = done.code.len() + 1 + crate::lowering::count_nodes(
                                        nodes,
                                        0,
                                    );
                                    if after <= usize::MAX {
                                        let jumped = push_op(
                                            done,
                                            crate::bytecode::Op::Jump(after as usize),
                                        );
                                        assert(jumped.labels == done.labels);
                                        lemma_jump_nodes(nodes, 0, jumped);
                                        assert(names + (labels_of(body, 0) + labels_of(nodes, 0))
                                            =~= (names + labels_of(body, 0)) + labels_of(nodes, 0));
                                    }
                                },
                                None => {
                                    assert(labels_of(body, 0) + none =~= labels_of(body, 0));
                                },
                            },
                            Err(_) => {},
                        }
                    }
                },
                Err(_) => {},
            }
        },
        _ => {},
    }
}

proof fn lemma_jump_nodes(nodes: Seq<NodeModel>, from: nat, script: ScriptModel)
    requires
        block_shape(nodes),
    ensures
        jump_law(
            script,
            emit_nodes(nodes, from, script),
            labels_of(nodes, from),
            jumps_back(nodes, from, label_names(script.labels)),
        ),
    decreases nodes, nodes.len() - from,
{
    let names = label_names(script.labels);
    if from < nodes.len() {
        let node = nodes[from as int];
        lemma_jump_node(node, script);
        match emit_node(node, script) {
            Ok(next) => {
                lemma_jump_nodes(nodes, from + 1, next);
                assert(names + (labels_of_node(node) + labels_of(nodes, from + 1)) =~= (names
                    + labels_of_node(node)) + labels_of(nodes, from + 1));
            },
            Err(_) => {},
        }
    } else {
        assert(names + Seq::<Seq<char>>::empty() =~= names);
    }
}

proof fn lemma_jump_top(ast: Seq<NodeModel>, from: nat, script: ScriptModel)
    requires
        script_shape(ast),
    ensures
        match emit_top(ast, from, script) {
            Ok(_) => jumps_back(ast, from, label_names(script.labels)),
            Err(CompileFailure::UnresolvedJump(_)) => !jumps_back(
                ast,
                from,
                label_names(script.labels),
            ),
            Err(_) => true,
        },
    decreases ast.len() - from,
{
    let names = label_names(script.labels);
    if from < ast.len() {
        let node = ast[from as int];
        assert(declaration(node));
        assert(jumps_back(ast, from, names) == (jumps_back_node(node, names) && jumps_back(
            ast,
            from + 1,
            names + labels_of_node(node),
        )));
        match node {
            NodeModel::Choices(_, _) => {
                assert(names + labels_of_node(node) =~= names);
                lemma_jump_top(ast, from + 1, script);
            },
            NodeModel::LabelBlock(name, body) => {
                let labelled = ScriptModel {
                    labels: script.labels.push((name, script.code.len() as usize)),
                    ..script
                };
                assert(label_names(labelled.labels) =~= names.push(name));
                lemma_jump_nodes(body, 0, labelled);
                match emit_nodes(body, 0, labelled) {
                    Ok(next) => {
                        assert(names.push(name) + labels_of(body, 0) =~= names + labels_of_node(
                            node,
                        ));
                        lemma_jump_top(ast, from + 1, next);
                    },
                    Err(_) => {},
                }
            },
            _ => {},
        }
    }
}

/// When a tree compiles. A tree that the grammar has built and validation
/// has accepted compiles if each of its `jump`s names a label that is
/// declared before it, unless a table outgrows its index; and it fails on a
/// jump only if some `jump` names a label that is declared after it.
pub proof fn lemma_backward_jumps_compile(lines: Seq<LineModel>)
    requires
        tree(lines) is Ok,
        check(tree(lines)->Ok_0) is Ok,
    ensures
        ({
            let ast = tree(lines)->Ok_0;
            let back = jumps_back(ast, 0, Seq::empty());
            match compile(ast) {
                Ok(_) => back,
                Err(failure) => if back {
                    failure is TooLarge
                } else {
                    failure is TooLarge || failure is UnresolvedJump
                },
            }
        }),
{
    let ast = tree(lines)->Ok_0;
    lemma_valid_tree_compiles(lines);
    lemma_tree_shape(lines);
    assert(label_names(initial(ast).labels) =~= Seq::<Seq<char>>::empty());
    lemma_jump_top(ast, 0, initial(ast));
}

/// Where the branches of a compiled `if` lead. Let the block be compiled
/// at position `p`, with an if-body of `n` instructions. The `If` stands
/// at `p + 1`. With a true condition it goes on to `p + 2`, where the
/// if-body starts. With a false condition it lands past the if-body: at the
/// end of the block where there is no else-body, and behind the `Jump`, on
/// the first instruction of the else-body, where there is one. That `Jump`
/// closes the if-body and leads to the end of the block.
pub proof fn lemma_if_branches<E: Environment + ?Sized>(
    condition: crate::ast::ConditionModel,
    body: Seq<NodeModel>,
    other: Option<Seq<NodeModel>>,
    script: ScriptModel,
    env: &E,
)
    requires
        emit_node(NodeModel::IfBlock(condition, body, other), script) is Ok,
    ensures
        ({
            let out = emit_node(NodeModel::IfBlock(condition, body, other), script)->Ok_0;
            let p = script.code.len();
            let n = crate::lowering::count_nodes(body, 0);
            let end = out.code.len();
            &&& control_step(out, env, p + 1, true) == Some((p + 2, true))
            &&& match other {
                None => {
                    &&& end == p + 2 + n
                    &&& control_step(out, env, p + 1, false) == Some((end, false))
                },
                Some(nodes) => {
                    &&& end == p + 2 + n + 1 + crate::lowering::count_nodes(nodes, 0)
                    &&& control_step(out, env, p + 1, false) == Some((p + 2 + n + 1, false))
                    &&& control_step(out, env, p + 2 + n, true) == Some((end, true))
                    &&& control_step(out, env, p + 2 + n, false) == Some((end, false))
                },
            }
        }),
{
    crate::lowering::lemma_if_offsets(condition, body, other, script);
}

} // verus!
