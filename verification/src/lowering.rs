//! What compiling a syntax tree means: the compiled script as a function of
//! the tree, and the laws that this function obeys.

use vstd::prelude::*;
use crate::ast::{CommandModel, ConditionModel, NodeModel, VariableModel};
use crate::bytecode::{bounded, sentinel, well_formed, Op, Operand, ScriptModel, Test, MAX_STOPS};

verus! {

/// Why a tree cannot be compiled.
pub enum CompileFailure {
    /// A `jump` names a label that no earlier statement has declared.
    UnresolvedJump(Seq<char>),
    /// A `choice` names a choice set that the tree does not declare.
    UnknownChoice(Seq<char>),
    /// A node stands where the tree's shape does not allow it.
    UnexpectedNode,
    /// An index or an instruction count does not fit its machine type.
    TooLarge,
}

/// The first index at or after `from` at which `items` holds `item`.
pub open spec fn first_index<T>(items: Seq<T>, item: T, from: nat) -> Option<nat>
    decreases items.len() - from,
{
    if from >= items.len() {
        None
    } else if items[from as int] == item {
        Some(from)
    } else {
        first_index(items, item, from + 1)
    }
}

/// The first index at or after `from` at which `entries` holds an entry
/// under `key`.
pub open spec fn first_key<V>(entries: Seq<(Seq<char>, V)>, key: Seq<char>, from: nat) -> Option<nat>
    decreases entries.len() - from,
{
    if from >= entries.len() {
        None
    } else if entries[from as int].0 == key {
        Some(from)
    } else {
        first_key(entries, key, from + 1)
    }
}

/// Interning: the index that `item` has in `table`, searched from `from`
/// on, and the table with `item` appended where it was not found.
pub open spec fn intern<T>(table: Seq<T>, item: T, from: nat) -> Result<(Seq<T>, u32), CompileFailure> {
    match first_index(table, item, from) {
        Some(index) => if index <= u32::MAX {
            Ok((table, index as u32))
        } else {
            Err(CompileFailure::TooLarge)
        },
        None => if table.len() <= u32::MAX {
            Ok((table.push(item), table.len() as u32))
        } else {
            Err(CompileFailure::TooLarge)
        },
    }
}

/// The number of characters in the first `count` fragments together.
pub open spec fn offset_after(says: Seq<Seq<char>>, count: int) -> nat {
    says.subrange(0, count).flatten().len()
}

/// The stop offsets of a dialogue line: the offset of each boundary between
/// two fragments, the first twelve of them at most.
pub open spec fn stop_offsets(says: Seq<Seq<char>>) -> Seq<nat> {
    let boundaries = if says.len() == 0 {
        0
    } else {
        says.len() - 1
    };
    let kept = if boundaries <= MAX_STOPS {
        boundaries
    } else {
        MAX_STOPS as int
    };
    Seq::new(kept as nat, |i: int| offset_after(says, i + 1))
}

/// The number of instructions that one node compiles to.
pub open spec fn count_node(node: NodeModel) -> nat
    decreases node, 0nat,
{
    match node {
        NodeModel::Label(_) => 0,
        NodeModel::Command(_) => 1,
        NodeModel::Dialog(_, _) => 1,
        NodeModel::Choices(_, _) => 0,
        NodeModel::LabelBlock(_, body) => count_nodes(body, 0),
        NodeModel::IfBlock(_, body, other) => 2 + count_nodes(body, 0) + match other {
            Some(nodes) => 1 + count_nodes(nodes, 0),
            None => 0,
        },
    }
}

/// The number of instructions that the nodes from `from` on compile to.
pub open spec fn count_nodes(nodes: Seq<NodeModel>, from: nat) -> nat
    decreases nodes, nodes.len() - from,
{
    if from >= nodes.len() {
        0
    } else {
        count_node(nodes[from as int]) + count_nodes(nodes, from + 1)
    }
}

/// `script` with one more instruction.
pub open spec fn push_op(script: ScriptModel, op: Op) -> ScriptModel {
    ScriptModel { code: script.code.push(op), ..script }
}

/// Interns `name` in the string table of `script`. The sentinel is never
/// handed out.
pub open spec fn intern_name(script: ScriptModel, name: Seq<char>) -> Result<
    (ScriptModel, u32),
    CompileFailure,
> {
    match intern(script.strings, name, 1) {
        Ok((strings, index)) => Ok((ScriptModel { strings, ..script }, index)),
        Err(failure) => Err(failure),
    }
}

/// Compiles one operand.
pub open spec fn emit_operand(var: VariableModel, script: ScriptModel) -> Result<
    (ScriptModel, Operand),
    CompileFailure,
> {
    match var {
        VariableModel::Global(name) => match intern_name(script, name) {
            Ok((next, index)) => Ok((next, Operand::Name(index))),
            Err(failure) => Err(failure),
        },
        VariableModel::String(text) => match intern_name(script, text) {
            Ok((next, index)) => Ok((next, Operand::Text(index))),
            Err(failure) => Err(failure),
        },
        VariableModel::Boolean(value) => Ok((script, Operand::Boolean(value))),
        VariableModel::Int(value) => Ok((script, Operand::Int(value))),
    }
}

/// Compiles one condition, the left operand first.
pub open spec fn emit_test(condition: ConditionModel, script: ScriptModel) -> Result<
    (ScriptModel, Test),
    CompileFailure,
> {
    match condition {
        ConditionModel::Variable(var) => match emit_operand(var, script) {
            Ok((next, operand)) => Ok((next, Test::Var(operand))),
            Err(failure) => Err(failure),
        },
        ConditionModel::Expr(lhs, op, rhs) => match emit_operand(lhs, script) {
            Ok((first, left)) => match emit_operand(rhs, first) {
                Ok((second, right)) => Ok((second, Test::Expr(left, op, right))),
                Err(failure) => Err(failure),
            },
            Err(failure) => Err(failure),
        },
    }
}

/// Compiles one command.
pub open spec fn emit_command(command: CommandModel, script: ScriptModel) -> Result<
    ScriptModel,
    CompileFailure,
> {
    match command {
        CommandModel::End => Ok(push_op(script, Op::End)),
        CommandModel::Jump(target) => match first_key(script.labels, target, 0) {
            Some(index) => Ok(push_op(script, Op::Jump(script.labels[index as int].1))),
            None => Err(CompileFailure::UnresolvedJump(target)),
        },
        CommandModel::Choice(store, set) => match intern_name(script, store) {
            Ok((next, index)) => match first_key(script.choices, set, 0) {
                Some(found) => if found <= u32::MAX {
                    Ok(push_op(next, Op::Choice(index, found as u32)))
                } else {
                    Err(CompileFailure::TooLarge)
                },
                None => Err(CompileFailure::UnknownChoice(set)),
            },
            Err(failure) => Err(failure),
        },
        CommandModel::Trigger(name) => match intern_name(script, name) {
            Ok((next, index)) => Ok(push_op(next, Op::Trigger(index))),
            Err(failure) => Err(failure),
        },
    }
}

/// Compiles one dialogue line: the fragments become one interned text with
/// its stop offsets.
pub open spec fn emit_dialog(who: Option<Seq<char>>, says: Seq<Seq<char>>, script: ScriptModel) -> Result<
    ScriptModel,
    CompileFailure,
> {
    let named = match who {
        Some(name) => match intern_name(script, name) {
            Ok((next, index)) => Ok((next, Some(index))),
            Err(failure) => Err(failure),
        },
        None => Ok((script, None)),
    };
    match named {
        Ok((next, speaker)) => match intern(next.texts, (says.flatten(), stop_offsets(says)), 0) {
            Ok((texts, index)) => Ok(
                push_op(ScriptModel { texts, ..next }, Op::Text(speaker, index)),
            ),
            Err(failure) => Err(failure),
        },
        Err(failure) => Err(failure),
    }
}

/// Compiles one node of a block, appending to `script`.
pub open spec fn emit_node(node: NodeModel, script: ScriptModel) -> Result<ScriptModel, CompileFailure>
    decreases node, 0nat,
{
    match node {
        NodeModel::Label(name) => Ok(
            ScriptModel { labels: script.labels.push((name, script.code.len() as usize)), ..script },
        ),
        NodeModel::Command(command) => emit_command(command, script),
        NodeModel::Dialog(who, says) => emit_dialog(who, says, script),
        NodeModel::IfBlock(condition, body, other) => match emit_test(condition, script) {
            Ok((tested, test)) => {
                let skip = count_nodes(body, 0) + if other is Some {
                    1nat
                } else {
                    0nat
                };
                if skip > usize::MAX {
                    Err(CompileFailure::TooLarge)
                } else {
                    let opened = push_op(
                        push_op(tested, Op::EvalCondition(test)),
                        Op::If(skip as usize),
                    );
                    match emit_nodes(body, 0, opened) {
                        Ok(done) => match other {
                            Some(nodes) => {
                                let after = done.code.len() + 1 + count_nodes(nodes, 0);
                                if after > usize::MAX {
                                    Err(CompileFailure::TooLarge)
                                } else {
                                    emit_nodes(nodes, 0, push_op(done, Op::Jump(after as usize)))
                                }
                            },
                            None => Ok(done),
                        },
                        Err(failure) => Err(failure),
                    }
                }
            },
            Err(failure) => Err(failure),
        },
        NodeModel::Choices(_, _) => Err(CompileFailure::UnexpectedNode),
        NodeModel::LabelBlock(_, _) => Err(CompileFailure::UnexpectedNode),
    }
}

/// Compiles the nodes of a block from `from` on, in order.
pub open spec fn emit_nodes(nodes: Seq<NodeModel>, from: nat, script: ScriptModel) -> Result<
    ScriptModel,
    CompileFailure,
>
    decreases nodes, nodes.len() - from,
{
    if from >= nodes.len() {
        Ok(script)
    } else {
        match emit_node(nodes[from as int], script) {
            Ok(next) => emit_nodes(nodes, from + 1, next),
            Err(failure) => Err(failure),
        }
    }
}

/// The choice sets that the tree declares at its top level from `from` on,
/// in order.
pub open spec fn collect_choices(ast: Seq<NodeModel>, from: nat) -> Seq<
    (Seq<char>, Seq<(Seq<char>, Seq<char>)>),
>
    decreases ast.len() - from,
{
    if from >= ast.len() {
        Seq::empty()
    } else {
        match ast[from as int] {
            NodeModel::Choices(name, options) => seq![(name, options)] + collect_choices(
                ast,
                from + 1,
            ),
            _ => collect_choices(ast, from + 1),
        }
    }
}

/// Compiles the top-level declarations from `from` on: each label block
/// records its label and then its body; choice sets emit nothing.
pub open spec fn emit_top(ast: Seq<NodeModel>, from: nat, script: ScriptModel) -> Result<
    ScriptModel,
    CompileFailure,
>
    decreases ast.len() - from,
{
    if from >= ast.len() {
        Ok(script)
    } else {
        match ast[from as int] {
            NodeModel::Choices(_, _) => emit_top(ast, from + 1, script),
            NodeModel::LabelBlock(name, body) => match emit_nodes(
                body,
                0,
                ScriptModel {
                    labels: script.labels.push((name, script.code.len() as usize)),
                    ..script
                },
            ) {
                Ok(next) => emit_top(ast, from + 1, next),
                Err(failure) => Err(failure),
            },
            _ => Err(CompileFailure::UnexpectedNode),
        }
    }
}

/// The script before anything is emitted.
pub open spec fn initial(ast: Seq<NodeModel>) -> ScriptModel {
    ScriptModel {
        code: Seq::empty(),
        strings: seq![sentinel()],
        texts: Seq::empty(),
        labels: Seq::empty(),
        choices: collect_choices(ast, 0),
    }
}

/// The compiled form of a tree.
pub open spec fn compile(ast: Seq<NodeModel>) -> Result<ScriptModel, CompileFailure> {
    emit_top(ast, 0, initial(ast))
}

/// Whether `before` is a prefix of `after`.
pub open spec fn prefix_of<T>(before: Seq<T>, after: Seq<T>) -> bool {
    &&& before.len() <= after.len()
    &&& forall|i: int| 0 <= i < before.len() ==> #[trigger] after[i] == before[i]
}

/// Whether `after` is `before` with entries appended to its tables.
/// Compilation is append-only.
pub open spec fn extends(before: ScriptModel, after: ScriptModel) -> bool {
    &&& prefix_of(before.code, after.code)
    &&& prefix_of(before.strings, after.strings)
    &&& prefix_of(before.texts, after.texts)
    &&& prefix_of(before.labels, after.labels)
    &&& before.choices == after.choices
}

/// What `first_index` finds is the first occurrence at or after `from`.
pub proof fn lemma_first_index<T>(items: Seq<T>, item: T, from: nat)
    ensures
        match first_index(items, item, from) {
            Some(index) => {
                &&& from <= index < items.len()
                &&& items[index as int] == item
                &&& forall|j: int| from <= j < index ==> items[j] != item
            },
            None => forall|j: int| from <= j < items.len() ==> items[j] != item,
        },
    decreases items.len() - from,
{
    if from < items.len() && items[from as int] != item {
        lemma_first_index(items, item, from + 1);
    }
}

/// What `first_key` finds is the first entry under the key at or after
/// `from`.
pub proof fn lemma_first_key<V>(entries: Seq<(Seq<char>, V)>, key: Seq<char>, from: nat)
    ensures
        match first_key(entries, key, from) {
            Some(index) => {
                &&& from <= index < entries.len()
                &&& entries[index as int].0 == key
                &&& forall|j: int| from <= j < index ==> entries[j].0 != key
            },
            None => forall|j: int| from <= j < entries.len() ==> entries[j].0 != key,
        },
    decreases entries.len() - from,
{
    if from < entries.len() && entries[from as int].0 != key {
        lemma_first_key(entries, key, from + 1);
    }
}

/// Interning a name keeps the script within its bounds and yields a valid
/// index of an entry that holds the name. An index handed out earlier keeps
/// its entry.
pub proof fn lemma_intern_name(script: ScriptModel, name: Seq<char>, limit: int)
    requires
        bounded(script, limit),
        intern_name(script, name) is Ok,
    ensures
        ({
            let (next, index) = intern_name(script, name)->Ok_0;
            &&& bounded(next, limit)
            &&& 1 <= index < next.strings.len()
            &&& next.strings[index as int] == name
            &&& extends(script, next)
            &&& next.code == script.code
            &&& next.texts == script.texts
            &&& next.labels == script.labels
        }),
{
    lemma_first_index(script.strings, name, 1);
}

proof fn lemma_emit_operand(var: VariableModel, script: ScriptModel, limit: int)
    requires
        bounded(script, limit),
        emit_operand(var, script) is Ok,
    ensures
        ({
            let (next, operand) = emit_operand(var, script)->Ok_0;
            &&& bounded(next, limit)
            &&& crate::bytecode::operand_ok(operand, next.strings.len())
            &&& extends(script, next)
            &&& next.code == script.code
            &&& next.texts == script.texts
            &&& next.labels == script.labels
        }),
{
    match var {
        VariableModel::Global(name) => lemma_intern_name(script, name, limit),
        VariableModel::String(text) => lemma_intern_name(script, text, limit),
        _ => {},
    }
}

proof fn lemma_emit_test(condition: ConditionModel, script: ScriptModel, limit: int)
    requires
        bounded(script, limit),
        emit_test(condition, script) is Ok,
    ensures
        ({
            let (next, test) = emit_test(condition, script)->Ok_0;
            &&& bounded(next, limit)
            &&& op_ok_at(Op::EvalCondition(test), next, limit)
            &&& extends(script, next)
            &&& next.code == script.code
        }),
{
    match condition {
        ConditionModel::Variable(var) => lemma_emit_operand(var, script, limit),
        ConditionModel::Expr(lhs, op, rhs) => {
            lemma_emit_operand(lhs, script, limit);
            let (first, left) = emit_operand(lhs, script)->Ok_0;
            lemma_emit_operand(rhs, first, limit);
        },
    }
}

/// Whether `op` would be within bounds as the next instruction of `script`.
pub open spec fn op_ok_at(op: Op, script: ScriptModel, limit: int) -> bool {
    crate::bytecode::op_ok(
        op,
        script.code.len() as int,
        limit,
        script.strings.len(),
        script.texts.len(),
        script.choices.len(),
    )
}

proof fn lemma_push_op(script: ScriptModel, op: Op, limit: int)
    requires
        bounded(script, limit),
        op_ok_at(op, script, limit),
    ensures
        bounded(push_op(script, op), limit),
        extends(script, push_op(script, op)),
        push_op(script, op).code.len() == script.code.len() + 1,
{
}

proof fn lemma_emit_command(command: CommandModel, script: ScriptModel, limit: int)
    requires
        bounded(script, limit),
        script.code.len() + 1 <= limit,
        emit_command(command, script) is Ok,
    ensures
        ({
            let out = emit_command(command, script)->Ok_0;
            &&& bounded(out, limit)
            &&& out.code.len() == script.code.len() + 1
            &&& extends(script, out)
        }),
{
    match command {
        CommandModel::End => lemma_push_op(script, Op::End, limit),
        CommandModel::Jump(target) => {
            lemma_first_key(script.labels, target, 0);
            let index = first_key(script.labels, target, 0)->Some_0;
            lemma_push_op(script, Op::Jump(script.labels[index as int].1), limit);
        },
        CommandModel::Choice(store, set) => {
            lemma_intern_name(script, store, limit);
            let (next, index) = intern_name(script, store)->Ok_0;
            lemma_first_key(script.choices, set, 0);
            let found = first_key(script.choices, set, 0)->Some_0;
            lemma_push_op(next, Op::Choice(index, found as u32), limit);
        },
        CommandModel::Trigger(name) => {
            lemma_intern_name(script, name, limit);
            let (next, index) = intern_name(script, name)->Ok_0;
            lemma_push_op(next, Op::Trigger(index), limit);
        },
    }
}

/// A dialogue line keeps at most twelve stop offsets, and the offset at
/// `i` is the length of the first `i + 1` fragments together.
pub proof fn lemma_stop_offsets(says: Seq<Seq<char>>)
    ensures
        stop_offsets(says).len() <= MAX_STOPS,
        says.len() <= MAX_STOPS + 1 ==> stop_offsets(says).len() == if says.len() == 0 {
            0
        } else {
            says.len() - 1
        },
        says.len() > MAX_STOPS + 1 ==> stop_offsets(says).len() == MAX_STOPS,
        forall|i: int|
            0 <= i < stop_offsets(says).len() ==> #[trigger] stop_offsets(says)[i] == offset_after(
                says,
                i + 1,
            ),
{
}

proof fn lemma_emit_dialog(who: Option<Seq<char>>, says: Seq<Seq<char>>, script: ScriptModel, limit: int)
    requires
        bounded(script, limit),
        script.code.len() + 1 <= limit,
        emit_dialog(who, says, script) is Ok,
    ensures
        ({
            let out = emit_dialog(who, says, script)->Ok_0;
            &&& bounded(out, limit)
            &&& out.code.len() == script.code.len() + 1
            &&& extends(script, out)
        }),
{
    let (next, speaker) = match who {
        Some(name) => {
            lemma_intern_name(script, name, limit);
            let (next, index) = intern_name(script, name)->Ok_0;
            (next, Some(index))
        },
        None => (script, None),
    };
    let entry = (says.flatten(), stop_offsets(says));
    lemma_first_index(next.texts, entry, 0);
    lemma_stop_offsets(says);
    let (texts, index) = intern(next.texts, entry, 0)->Ok_0;
    let stored = ScriptModel { texts, ..next };
    assert(bounded(stored, limit));
    lemma_push_op(stored, Op::Text(speaker, index), limit);
}

/// Emission and the structural count agree: a node that compiles appends
/// exactly `count_node` instructions. It appends only, and it keeps a
/// script within its bounds.
pub proof fn lemma_emit_node(node: NodeModel, script: ScriptModel, limit: int)
    requires
        bounded(script, limit),
        script.code.len() + count_node(node) <= limit,
        emit_node(node, script) is Ok,
    ensures
        ({
            let out = emit_node(node, script)->Ok_0;
            &&& bounded(out, limit)
            &&& out.code.len() == script.code.len() + count_node(node)
            &&& extends(script, out)
        }),
    decreases node, 0nat,
{
    match node {
        NodeModel::Label(name) => {},
        NodeModel::Command(command) => lemma_emit_command(command, script, limit),
        NodeModel::Dialog(who, says) => lemma_emit_dialog(who, says, script, limit),
        NodeModel::IfBlock(condition, body, other) => {
            lemma_emit_test(condition, script, limit);
            let (tested, test) = emit_test(condition, script)->Ok_0;
            let skip = count_nodes(body, 0) + if other is Some {
                1nat
            } else {
                0nat
            };
            lemma_push_op(tested, Op::EvalCondition(test), limit);
            let evaluated = push_op(tested, Op::EvalCondition(test));
            lemma_push_op(evaluated, Op::If(skip as usize), limit);
            let opened = push_op(evaluated, Op::If(skip as usize));
            lemma_emit_nodes(body, 0, opened, limit);
            let done = emit_nodes(body, 0, opened)->Ok_0;
            match other {
                Some(nodes) => {
                    let after = done.code.len() + 1 + count_nodes(nodes, 0);
                    lemma_push_op(done, Op::Jump(after as usize), limit);
                    lemma_emit_nodes(nodes, 0, push_op(done, Op::Jump(after as usize)), limit);
                },
                None => {},
            }
        },
        NodeModel::Choices(_, _) => {},
        NodeModel::LabelBlock(_, _) => {},
    }
}

/// The law of [`lemma_emit_node`], for the nodes of a block from `from`
/// on.
pub proof fn lemma_emit_nodes(nodes: Seq<NodeModel>, from: nat, script: ScriptModel, limit: int)
    requires
        bounded(script, limit),
        script.code.len() + count_nodes(nodes, from) <= limit,
        emit_nodes(nodes, from, script) is Ok,
    ensures
        ({
            let out = emit_nodes(nodes, from, script)->Ok_0;
            &&& bounded(out, limit)
            &&& out.code.len() == script.code.len() + count_nodes(nodes, from)
            &&& extends(script, out)
        }),
    decreases nodes, nodes.len() - from,
{
    if from < nodes.len() {
        lemma_emit_node(nodes[from as int], script, limit);
        let next = emit_node(nodes[from as int], script)->Ok_0;
        lemma_emit_nodes(nodes, from + 1, next, limit);
    }
}

/// The number of instructions that the top-level declarations from `from`
/// on compile to.
pub open spec fn count_top(ast: Seq<NodeModel>, from: nat) -> nat
    decreases ast.len() - from,
{
    if from >= ast.len() {
        0
    } else {
        (match ast[from as int] {
            NodeModel::LabelBlock(_, body) => count_nodes(body, 0),
            _ => 0,
        }) + count_top(ast, from + 1)
    }
}

/// The law of [`lemma_emit_node`], for the top-level declarations from
/// `from` on.
pub proof fn lemma_emit_top(ast: Seq<NodeModel>, from: nat, script: ScriptModel, limit: int)
    requires
        bounded(script, limit),
        script.code.len() + count_top(ast, from) <= limit,
        emit_top(ast, from, script) is Ok,
    ensures
        ({
            let out = emit_top(ast, from, script)->Ok_0;
            &&& bounded(out, limit)
            &&& out.code.len() == script.code.len() + count_top(ast, from)
            &&& extends(script, out)
        }),
    decreases ast.len() - from,
{
    if from < ast.len() {
        match ast[from as int] {
            NodeModel::Choices(_, _) => lemma_emit_top(ast, from + 1, script, limit),
            NodeModel::LabelBlock(name, body) => {
                let labelled = ScriptModel {
                    labels: script.labels.push((name, script.code.len() as usize)),
                    ..script
                };
                lemma_emit_nodes(body, 0, labelled, limit);
                let next = emit_nodes(body, 0, labelled)->Ok_0;
                lemma_emit_top(ast, from + 1, next, limit);
            },
            _ => {},
        }
    }
}

/// Every script that compilation produces is well formed: each index that
/// an instruction stores is valid, and each instruction index that a
/// `Jump`, an `If` or a label refers to lies within `0..=code.len()`. The
/// script holds as many instructions as the structural count says, and its
/// choice table is the tree's choice sets in the order of their
/// declaration.
pub proof fn lemma_compile_well_formed(ast: Seq<NodeModel>)
    requires
        compile(ast) is Ok,
    ensures
        well_formed(compile(ast)->Ok_0),
        (compile(ast)->Ok_0).code.len() == count_top(ast, 0),
        (compile(ast)->Ok_0).choices == collect_choices(ast, 0),
{
    lemma_emit_top(ast, 0, initial(ast), count_top(ast, 0) as int);
}

/// The offsets of a compiled `if`. Let the block be compiled at position
/// `p`, with an if-body that compiles to `n` instructions and an else-body
/// that compiles to `m`. Then `p` holds the condition and `p + 1` holds
/// `If(n)` without an else-body, `If(n + 1)` with one. With an else-body,
/// `p + 2 + n` holds a `Jump` whose target is the position after it plus
/// `m`: the first instruction after the else-body, where the block ends.
/// That the bodies fill exactly `n` and `m` instructions is
/// [`lemma_nodes_append`].
pub proof fn lemma_if_offsets(
    condition: ConditionModel,
    body: Seq<NodeModel>,
    other: Option<Seq<NodeModel>>,
    script: ScriptModel,
)
    requires
        emit_node(NodeModel::IfBlock(condition, body, other), script) is Ok,
    ensures
        ({
            let out = emit_node(NodeModel::IfBlock(condition, body, other), script)->Ok_0;
            let p = script.code.len() as int;
            let n = count_nodes(body, 0) as int;
            &&& emit_test(condition, script) is Ok
            &&& prefix_of(script.code, out.code)
            &&& out.code[p] == Op::EvalCondition((emit_test(condition, script)->Ok_0).1)
            &&& match other {
                None => {
                    &&& out.code[p + 1] == Op::If(n as usize)
                    &&& out.code.len() == p + 2 + n
                },
                Some(nodes) => {
                    let m = count_nodes(nodes, 0) as int;
                    &&& out.code[p + 1] == Op::If((n + 1) as usize)
                    &&& n + 1 <= usize::MAX
                    &&& out.code[p + 2 + n] == Op::Jump((p + 2 + n + 1 + m) as usize)
                    &&& p + 2 + n + 1 + m <= usize::MAX
                    &&& out.code.len() == p + 2 + n + 1 + m
                },
            }
        }),
{
    let (tested, test) = emit_test(condition, script)->Ok_0;
    lemma_test_keeps_code(condition, script);
    let skip = count_nodes(body, 0) + if other is Some {
        1nat
    } else {
        0nat
    };
    let opened = push_op(push_op(tested, Op::EvalCondition(test)), Op::If(skip as usize));
    lemma_nodes_append(body, 0, opened);
    let done = emit_nodes(body, 0, opened)->Ok_0;
    match other {
        Some(nodes) => {
            let after = done.code.len() + 1 + count_nodes(nodes, 0);
            lemma_nodes_append(nodes, 0, push_op(done, Op::Jump(after as usize)));
        },
        None => {},
    }
}

/// Compiling a condition emits no instruction.
proof fn lemma_test_keeps_code(condition: ConditionModel, script: ScriptModel)
    requires
        emit_test(condition, script) is Ok,
    ensures
        (emit_test(condition, script)->Ok_0).0.code == script.code,
{
}

/// A node that compiles appends exactly `count_node` instructions to the
/// code and changes none that stood there.
pub proof fn lemma_node_appends(node: NodeModel, script: ScriptModel)
    requires
        emit_node(node, script) is Ok,
    ensures
        ({
            let out = emit_node(node, script)->Ok_0;
            &&& out.code.len() == script.code.len() + count_node(node)
            &&& prefix_of(script.code, out.code)
        }),
    decreases node, 0nat,
{
    match node {
        NodeModel::IfBlock(condition, body, other) => {
            lemma_test_keeps_code(condition, script);
            let (tested, test) = emit_test(condition, script)->Ok_0;
            let skip = count_nodes(body, 0) + if other is Some {
                1nat
            } else {
                0nat
            };
            let opened = push_op(push_op(tested, Op::EvalCondition(test)), Op::If(skip as usize));
            lemma_nodes_append(body, 0, opened);
            let done = emit_nodes(body, 0, opened)->Ok_0;
            match other {
                Some(nodes) => {
                    let after = done.code.len() + 1 + count_nodes(nodes, 0);
                    lemma_nodes_append(nodes, 0, push_op(done, Op::Jump(after as usize)));
                },
                None => {},
            }
        },
        _ => {},
    }
}

/// The law of [`lemma_node_appends`], for the nodes of a block from `from`
/// on.
pub proof fn lemma_nodes_append(nodes: Seq<NodeModel>, from: nat, script: ScriptModel)
    requires
        emit_nodes(nodes, from, script) is Ok,
    ensures
        ({
            let out = emit_nodes(nodes, from, script)->Ok_0;
            &&& out.code.len() == script.code.len() + count_nodes(nodes, from)
            &&& prefix_of(script.code, out.code)
        }),
    decreases nodes, nodes.len() - from,
{
    if from < nodes.len() {
        lemma_node_appends(nodes[from as int], script);
        let next = emit_node(nodes[from as int], script)->Ok_0;
        lemma_nodes_append(nodes, from + 1, next);
    }
}

/// What a compiled dialogue line refers to, in a script whose string table
/// holds its sentinel: its one instruction names an
/// entry of the text table that holds the fragments joined into one text
/// and their stop offsets, twelve at most, and names the speaker, where
/// there is one, by an entry of the string table that holds the speaker's
/// name. However many fragments there are, the line compiles unless a table
/// outgrows its index.
pub proof fn lemma_dialog_entry(who: Option<Seq<char>>, says: Seq<Seq<char>>, script: ScriptModel)
    requires
        script.strings.len() >= 1,
    ensures
        match emit_dialog(who, says, script) {
            Ok(out) => {
                &&& out.code.len() == script.code.len() + 1
                &&& out.code.last() matches Op::Text(speaker, index)
                &&& index < out.texts.len()
                &&& out.texts[index as int] == (says.flatten(), stop_offsets(says))
                &&& out.texts[index as int].1.len() <= MAX_STOPS
                &&& match who {
                    Some(name) => speaker matches Some(at) && 1 <= at < out.strings.len()
                        && out.strings[at as int] == name,
                    None => speaker is None,
                }
            },
            Err(failure) => failure is TooLarge,
        },
{
    let entry = (says.flatten(), stop_offsets(says));
    lemma_first_index(script.texts, entry, 0);
    match who {
        Some(name) => {
            lemma_first_index(script.strings, name, 1);
            match intern_name(script, name) {
                Ok((next, at)) => {
                    assert(next.texts == script.texts);
                    match intern(next.texts, entry, 0) {
                        Ok((texts, index)) => {
                            assert(texts[index as int] == entry);
                            let out = push_op(
                                ScriptModel { texts, ..next },
                                Op::Text(Some(at), index),
                            );
                            assert(out.code.last() == Op::Text(Some(at), index));
                        },
                        Err(_) => {},
                    }
                },
                Err(_) => {},
            }
        },
        None => {
            match intern(script.texts, entry, 0) {
                Ok((texts, index)) => {
                    assert(texts[index as int] == entry);
                    let out = push_op(ScriptModel { texts, ..script }, Op::Text(None, index));
                    assert(out.code.last() == Op::Text(None, index));
                },
                Err(_) => {},
            }
        },
    }
}

/// What a compiled `choice` refers to, in a script whose string table holds
/// its sentinel: its instruction names the first
/// choice set of the script under the set's name, and an entry of the
/// string table that holds the name of the variable that takes the answer.
pub proof fn lemma_choice_entry(store: Seq<char>, set: Seq<char>, script: ScriptModel)
    requires
        script.strings.len() >= 1,
    ensures
        match emit_command(CommandModel::Choice(store, set), script) {
            Ok(out) => {
                &&& out.code.len() == script.code.len() + 1
                &&& out.choices == script.choices
                &&& out.code.last() matches Op::Choice(variable, index)
                &&& 1 <= variable < out.strings.len()
                &&& out.strings[variable as int] == store
                &&& first_key(script.choices, set, 0) == Some(index as nat)
                &&& index < out.choices.len()
                &&& out.choices[index as int].0 == set
            },
            Err(failure) => failure is TooLarge || (failure == CompileFailure::UnknownChoice(set)
                && first_key(script.choices, set, 0) is None),
        },
{
    lemma_first_index(script.strings, store, 1);
    lemma_first_key(script.choices, set, 0);
    match intern_name(script, store) {
        Ok((next, variable)) => {
            match first_key(script.choices, set, 0) {
                Some(found) => {
                    if found <= u32::MAX {
                        let out = push_op(next, Op::Choice(variable, found as u32));
                        assert(out.code.last() == Op::Choice(variable, found as u32));
                    }
                },
                None => {},
            }
        },
        Err(_) => {},
    }
}

} // verus!
