//! What validation guarantees, stated over the names that a syntax tree
//! declares and refers to.

use vstd::prelude::*;
use crate::ast::{CommandModel, NodeModel};
use crate::context::{
    check, empty_context, first_missing, visit_node, visit_nodes, with_unique,
    ContextModel, ParseFailure,
};

verus! {

/// The labels that a node and all below it declare, in the order of a walk
/// depth first.
pub open spec fn labels_of_node(node: NodeModel) -> Seq<Seq<char>>
    decreases node, 0nat,
{
    match node {
        NodeModel::Label(name) => seq![name],
        NodeModel::LabelBlock(name, body) => seq![name] + labels_of(body, 0),
        NodeModel::IfBlock(_, body, other) => labels_of(body, 0) + match other {
            Some(nodes) => labels_of(nodes, 0),
            None => Seq::empty(),
        },
        _ => Seq::empty(),
    }
}

/// The labels that the nodes from `from` on declare.
pub open spec fn labels_of(nodes: Seq<NodeModel>, from: nat) -> Seq<Seq<char>>
    decreases nodes, nodes.len() - from,
{
    if from >= nodes.len() {
        Seq::empty()
    } else {
        labels_of_node(nodes[from as int]) + labels_of(nodes, from + 1)
    }
}

/// The choice sets that a node and all below it declare.
pub open spec fn choices_of_node(node: NodeModel) -> Seq<Seq<char>>
    decreases node, 0nat,
{
    match node {
        NodeModel::Choices(name, _) => seq![name],
        NodeModel::LabelBlock(_, body) => choices_of(body, 0),
        NodeModel::IfBlock(_, body, other) => choices_of(body, 0) + match other {
            Some(nodes) => choices_of(nodes, 0),
            None => Seq::empty(),
        },
        _ => Seq::empty(),
    }
}

/// The choice sets that the nodes from `from` on declare.
pub open spec fn choices_of(nodes: Seq<NodeModel>, from: nat) -> Seq<Seq<char>>
    decreases nodes, nodes.len() - from,
{
    if from >= nodes.len() {
        Seq::empty()
    } else {
        choices_of_node(nodes[from as int]) + choices_of(nodes, from + 1)
    }
}

/// The labels that the `jump`s of a node and of all below it name.
pub open spec fn jumps_of_node(node: NodeModel) -> Seq<Seq<char>>
    decreases node, 0nat,
{
    match node {
        NodeModel::Command(CommandModel::Jump(target)) => seq![target],
        NodeModel::LabelBlock(_, body) => jumps_of(body, 0),
        NodeModel::IfBlock(_, body, other) => jumps_of(body, 0) + match other {
            Some(nodes) => jumps_of(nodes, 0),
            None => Seq::empty(),
        },
        _ => Seq::empty(),
    }
}

/// The labels that the `jump`s of the nodes from `from` on name.
pub open spec fn jumps_of(nodes: Seq<NodeModel>, from: nat) -> Seq<Seq<char>>
    decreases nodes, nodes.len() - from,
{
    if from >= nodes.len() {
        Seq::empty()
    } else {
        jumps_of_node(nodes[from as int]) + jumps_of(nodes, from + 1)
    }
}

/// The choice sets that the `choice`s of a node and of all below it name.
pub open spec fn asks_of_node(node: NodeModel) -> Seq<Seq<char>>
    decreases node, 0nat,
{
    match node {
        NodeModel::Command(CommandModel::Choice(_, set)) => seq![set],
        NodeModel::LabelBlock(_, body) => asks_of(body, 0),
        NodeModel::IfBlock(_, body, other) => asks_of(body, 0) + match other {
            Some(nodes) => asks_of(nodes, 0),
            None => Seq::empty(),
        },
        _ => Seq::empty(),
    }
}

/// The choice sets that the `choice`s of the nodes from `from` on name.
pub open spec fn asks_of(nodes: Seq<NodeModel>, from: nat) -> Seq<Seq<char>>
    decreases nodes, nodes.len() - from,
{
    if from >= nodes.len() {
        Seq::empty()
    } else {
        asks_of_node(nodes[from as int]) + asks_of(nodes, from + 1)
    }
}

/// Whether two lists hold the same names.
pub open spec fn same_names(a: Seq<Seq<char>>, b: Seq<Seq<char>>) -> bool {
    forall|name: Seq<char>| a.contains(name) <==> b.contains(name)
}

/// Whether a failure is a duplicate declaration.
pub open spec fn is_duplicate(failure: ParseFailure) -> bool {
    failure is DuplicateLabel || failure is DuplicateChoice
}

/// A name stands in two lists put together exactly when it stands in one
/// of them.
pub proof fn lemma_contains_concat(a: Seq<Seq<char>>, b: Seq<Seq<char>>, name: Seq<char>)
    ensures
        (a + b).contains(name) <==> a.contains(name) || b.contains(name),
{
    if a.contains(name) {
        let i = choose|i: int| 0 <= i < a.len() && a[i] == name;
        assert((a + b)[i] == name);
    }
    if b.contains(name) {
        let i = choose|i: int| 0 <= i < b.len() && b[i] == name;
        assert((a + b)[a.len() + i] == name);
    }
    if (a + b).contains(name) {
        let i = choose|i: int| 0 <= i < (a + b).len() && (a + b)[i] == name;
        if i < a.len() {
            assert(a[i] == name);
        } else {
            assert(b[i - a.len()] == name);
        }
    }
}

proof fn lemma_duplicate_stays(a: Seq<Seq<char>>, b: Seq<Seq<char>>)
    requires
        !a.no_duplicates(),
    ensures
        !(a + b).no_duplicates(),
{
    let (i, j) = choose|i: int, j: int| 0 <= i < a.len() && 0 <= j < a.len() && i != j && a[i] == a[j];
    assert((a + b)[i] == (a + b)[j]);
}

proof fn lemma_push_name(a: Seq<Seq<char>>, name: Seq<char>)
    ensures
        a.contains(name) ==> !a.push(name).no_duplicates(),
        a.no_duplicates() && !a.contains(name) ==> a.push(name).no_duplicates(),
{
    if a.contains(name) {
        let i = choose|i: int| 0 <= i < a.len() && a[i] == name;
        assert(a.push(name)[i] == a.push(name)[a.len() as int]);
    }
    if a.no_duplicates() && !a.contains(name) {
        assert forall|i: int, j: int|
            0 <= i < a.push(name).len() && 0 <= j < a.push(name).len() && i != j implies a.push(
            name,
        )[i] != a.push(name)[j] by {
            if i < a.len() && j < a.len() {
            } else if i < a.len() {
                assert(a[i] != name);
            } else {
                assert(a[j] != name);
            }
        }
    }
}

proof fn lemma_with_unique(names: Seq<Seq<char>>, name: Seq<char>)
    ensures
        same_names(with_unique(names, name), names + seq![name]),
{
    assert forall|other: Seq<char>|
        with_unique(names, name).contains(other) <==> (names + seq![name]).contains(
            other,
        ) by {
        lemma_contains_concat(names, seq![name], other);
        assert(seq![name][0] == name);
        if names.contains(name) {
        } else {
            assert(names.push(name) =~= names + seq![name]);
        }
    }
}

/// What the walk of a node makes of a context whose declarations are
/// distinct.
pub open spec fn walk_law(
    before: ContextModel,
    walked: Result<ContextModel, ParseFailure>,
    labels: Seq<Seq<char>>,
    choices: Seq<Seq<char>>,
    jumps: Seq<Seq<char>>,
    asks: Seq<Seq<char>>,
) -> bool {
    match walked {
        Ok(after) => {
            &&& after.decl_labels == before.decl_labels + labels
            &&& after.decl_choices == before.decl_choices + choices
            &&& after.decl_labels.no_duplicates()
            &&& after.decl_choices.no_duplicates()
            &&& same_names(after.expected_labels, before.expected_labels + jumps)
            &&& same_names(after.expected_choices, before.expected_choices + asks)
        },
        Err(failure) => {
            &&& is_duplicate(failure)
            &&& !(before.decl_labels + labels).no_duplicates() || !(before.decl_choices
                + choices).no_duplicates()
        },
    }
}

proof fn lemma_same_names_concat(
    a: Seq<Seq<char>>,
    b: Seq<Seq<char>>,
    c: Seq<Seq<char>>,
    x: Seq<Seq<char>>,
    y: Seq<Seq<char>>,
)
    requires
        same_names(b, a + x),
        same_names(c, b + y),
    ensures
        same_names(c, a + (x + y)),
{
    assert forall|name: Seq<char>| c.contains(name) <==> (a + (x + y)).contains(name) by {
        lemma_contains_concat(b, y, name);
        lemma_contains_concat(a, x, name);
        lemma_contains_concat(a, x + y, name);
        lemma_contains_concat(x, y, name);
    }
}

/// Chains the law of two walks that follow one another.
proof fn lemma_chain(
    before: ContextModel,
    middle: Result<ContextModel, ParseFailure>,
    after: Result<ContextModel, ParseFailure>,
    first: (Seq<Seq<char>>, Seq<Seq<char>>, Seq<Seq<char>>, Seq<Seq<char>>),
    second: (Seq<Seq<char>>, Seq<Seq<char>>, Seq<Seq<char>>, Seq<Seq<char>>),
)
    requires
        walk_law(before, middle, first.0, first.1, first.2, first.3),
        match middle {
            Ok(context) => walk_law(context, after, second.0, second.1, second.2, second.3),
            Err(failure) => after == Err::<ContextModel, ParseFailure>(failure),
        },
    ensures
        walk_law(
            before,
            after,
            first.0 + second.0,
            first.1 + second.1,
            first.2 + second.2,
            first.3 + second.3,
        ),
{
    assert(before.decl_labels + (first.0 + second.0) =~= (before.decl_labels + first.0) + second.0);
    assert(before.decl_choices + (first.1 + second.1) =~= (before.decl_choices + first.1)
        + second.1);
    match middle {
        Ok(context) => {
            match after {
                Ok(last) => {
                    lemma_same_names_concat(
                        before.expected_labels,
                        context.expected_labels,
                        last.expected_labels,
                        first.2,
                        second.2,
                    );
                    lemma_same_names_concat(
                        before.expected_choices,
                        context.expected_choices,
                        last.expected_choices,
                        first.3,
                        second.3,
                    );
                },
                Err(_) => {},
            }
        },
        Err(_) => {
            if !(before.decl_labels + first.0).no_duplicates() {
                lemma_duplicate_stays(before.decl_labels + first.0, second.0);
            } else {
                lemma_duplicate_stays(before.decl_choices + first.1, second.1);
            }
        },
    }
}

proof fn lemma_no_change(before: ContextModel)
    requires
        before.decl_labels.no_duplicates(),
        before.decl_choices.no_duplicates(),
    ensures
        walk_law(
            before,
            Ok(before),
            Seq::empty(),
            Seq::empty(),
            Seq::empty(),
            Seq::empty(),
        ),
{
    assert(before.decl_labels + Seq::<Seq<char>>::empty() =~= before.decl_labels);
    assert(before.decl_choices + Seq::<Seq<char>>::empty() =~= before.decl_choices);
    assert(before.expected_labels + Seq::<Seq<char>>::empty() =~= before.expected_labels);
    assert(before.expected_choices + Seq::<Seq<char>>::empty() =~= before.expected_choices);
}

/// The walk of a node adds the node's declarations to the context, in
/// order, and fails exactly where that makes one of them occur twice. The
/// names that it records as referred to are the context's and the node's.
pub proof fn lemma_visit_node(node: NodeModel, before: ContextModel)
    requires
        before.decl_labels.no_duplicates(),
        before.decl_choices.no_duplicates(),
    ensures
        walk_law(
            before,
            visit_node(node, before),
            labels_of_node(node),
            choices_of_node(node),
            jumps_of_node(node),
            asks_of_node(node),
        ),
    decreases node, 0nat,
{
    let empty = Seq::<Seq<char>>::empty();
    lemma_no_change(before);
    match node {
        NodeModel::Label(name) => {
            lemma_push_name(before.decl_labels, name);
            assert(before.decl_labels + seq![name] =~= before.decl_labels.push(name));
            assert(before.decl_choices + empty =~= before.decl_choices);
            assert(before.expected_labels + empty =~= before.expected_labels);
            assert(before.expected_choices + empty =~= before.expected_choices);
        },
        NodeModel::Choices(name, _) => {
            lemma_push_name(before.decl_choices, name);
            assert(before.decl_choices + seq![name] =~= before.decl_choices.push(name));
            assert(before.decl_labels + empty =~= before.decl_labels);
            assert(before.expected_labels + empty =~= before.expected_labels);
            assert(before.expected_choices + empty =~= before.expected_choices);
        },
        NodeModel::Command(command) => {
            assert(before.decl_labels + empty =~= before.decl_labels);
            assert(before.decl_choices + empty =~= before.decl_choices);
            assert(before.expected_labels + empty =~= before.expected_labels);
            assert(before.expected_choices + empty =~= before.expected_choices);
            match command {
                CommandModel::Jump(target) => lemma_with_unique(before.expected_labels, target),
                CommandModel::Choice(_, set) => lemma_with_unique(before.expected_choices, set),
                _ => {},
            }
        },
        NodeModel::Dialog(_, _) => {},
        NodeModel::LabelBlock(name, body) => {
            let declared = crate::context::with_label(before, name);
            lemma_push_name(before.decl_labels, name);
            assert(before.decl_labels + seq![name] =~= before.decl_labels.push(name));
            assert(before.decl_choices + empty =~= before.decl_choices);
            assert(before.expected_labels + empty =~= before.expected_labels);
            assert(before.expected_choices + empty =~= before.expected_choices);
            assert(walk_law(before, declared, seq![name], empty, empty, empty));
            match declared {
                Ok(context) => lemma_visit_nodes(body, 0, context),
                Err(_) => {},
            }
            lemma_chain(
                before,
                declared,
                visit_node(node, before),
                (seq![name], empty, empty, empty),
                (labels_of(body, 0), choices_of(body, 0), jumps_of(body, 0), asks_of(body, 0)),
            );
            assert(empty + choices_of(body, 0) =~= choices_of(body, 0));
            assert(empty + jumps_of(body, 0) =~= jumps_of(body, 0));
            assert(empty + asks_of(body, 0) =~= asks_of(body, 0));
        },
        NodeModel::IfBlock(_, body, other) => {
            lemma_visit_nodes(body, 0, before);
            let walked = visit_nodes(body, 0, before);
            match other {
                Some(nodes) => {
                    match walked {
                        Ok(context) => lemma_visit_nodes(nodes, 0, context),
                        Err(_) => {},
                    }
                    lemma_chain(
                        before,
                        walked,
                        visit_node(node, before),
                        (
                            labels_of(body, 0),
                            choices_of(body, 0),
                            jumps_of(body, 0),
                            asks_of(body, 0),
                        ),
                        (
                            labels_of(nodes, 0),
                            choices_of(nodes, 0),
                            jumps_of(nodes, 0),
                            asks_of(nodes, 0),
                        ),
                    );
                },
                None => {
                    assert(labels_of(body, 0) + empty =~= labels_of(body, 0));
                    assert(choices_of(body, 0) + empty =~= choices_of(body, 0));
                    assert(jumps_of(body, 0) + empty =~= jumps_of(body, 0));
                    assert(asks_of(body, 0) + empty =~= asks_of(body, 0));
                },
            }
        },
    }
}

/// The law of [`lemma_visit_node`], for the nodes from `from` on.
pub proof fn lemma_visit_nodes(nodes: Seq<NodeModel>, from: nat, before: ContextModel)
    requires
        before.decl_labels.no_duplicates(),
        before.decl_choices.no_duplicates(),
    ensures
        walk_law(
            before,
            visit_nodes(nodes, from, before),
            labels_of(nodes, from),
            choices_of(nodes, from),
            jumps_of(nodes, from),
            asks_of(nodes, from),
        ),
    decreases nodes, nodes.len() - from,
{
    if from >= nodes.len() {
        lemma_no_change(before);
    } else {
        let node = nodes[from as int];
        lemma_visit_node(node, before);
        let walked = visit_node(node, before);
        match walked {
            Ok(context) => lemma_visit_nodes(nodes, from + 1, context),
            Err(_) => {},
        }
        lemma_chain(
            before,
            walked,
            visit_nodes(nodes, from, before),
            (labels_of_node(node), choices_of_node(node), jumps_of_node(node), asks_of_node(node)),
            (
                labels_of(nodes, from + 1),
                choices_of(nodes, from + 1),
                jumps_of(nodes, from + 1),
                asks_of(nodes, from + 1),
            ),
        );
    }
}

proof fn lemma_first_missing(expected: Seq<Seq<char>>, declared: Seq<Seq<char>>, from: nat)
    ensures
        match first_missing(expected, declared, from) {
            Some(name) => expected.contains(name) && !declared.contains(name),
            None => forall|i: int| from <= i < expected.len() ==> declared.contains(expected[i]),
        },
    decreases expected.len() - from,
{
    if from < expected.len() {
        if declared.contains(expected[from as int]) {
            lemma_first_missing(expected, declared, from + 1);
        }
    }
}

/// Uniqueness. A tree that declares a label twice, or a choice set twice,
/// anywhere, fails validation with a duplicate declaration. Nested labels
/// and the labels of blocks share one namespace.
pub proof fn lemma_duplicates_are_refused(nodes: Seq<NodeModel>)
    requires
        !labels_of(nodes, 0).no_duplicates() || !choices_of(nodes, 0).no_duplicates(),
    ensures
        check(nodes) matches Err(failure) && is_duplicate(failure),
{
    lemma_visit_nodes(nodes, 0, empty_context());
    assert(empty_context().decl_labels + labels_of(nodes, 0) =~= labels_of(nodes, 0));
    assert(empty_context().decl_choices + choices_of(nodes, 0) =~= choices_of(nodes, 0));
}

/// Reference completeness. A tree that passes validation declares every
/// label that one of its `jump`s names and every choice set that one of
/// its `choice`s names, and declares none twice. So a tree with a `jump`
/// to an undeclared label, or a `choice` of an undeclared set, fails.
pub proof fn lemma_valid_tree(nodes: Seq<NodeModel>)
    requires
        check(nodes) is Ok,
    ensures
        labels_of(nodes, 0).no_duplicates(),
        choices_of(nodes, 0).no_duplicates(),
        forall|name: Seq<char>|
            jumps_of(nodes, 0).contains(name) ==> labels_of(nodes, 0).contains(name),
        forall|name: Seq<char>|
            asks_of(nodes, 0).contains(name) ==> choices_of(nodes, 0).contains(name),
{
    lemma_visit_nodes(nodes, 0, empty_context());
    let empty = Seq::<Seq<char>>::empty();
    assert(empty_context().decl_labels + labels_of(nodes, 0) =~= labels_of(nodes, 0));
    assert(empty_context().decl_choices + choices_of(nodes, 0) =~= choices_of(nodes, 0));
    assert(empty + jumps_of(nodes, 0) =~= jumps_of(nodes, 0));
    assert(empty + asks_of(nodes, 0) =~= asks_of(nodes, 0));
    let context = visit_nodes(nodes, 0, empty_context())->Ok_0;
    lemma_first_missing(context.expected_labels, context.decl_labels, 0);
    lemma_first_missing(context.expected_choices, context.decl_choices, 0);
    assert forall|name: Seq<char>| jumps_of(nodes, 0).contains(name) implies labels_of(
        nodes,
        0,
    ).contains(name) by {
        assert(context.expected_labels.contains(name));
        let i = choose|i: int|
            0 <= i < context.expected_labels.len() && context.expected_labels[i] == name;
        assert(context.decl_labels.contains(context.expected_labels[i]));
    }
    assert forall|name: Seq<char>| asks_of(nodes, 0).contains(name) implies choices_of(
        nodes,
        0,
    ).contains(name) by {
        assert(context.expected_choices.contains(name));
        let i = choose|i: int|
            0 <= i < context.expected_choices.len() && context.expected_choices[i] == name;
        assert(context.decl_choices.contains(context.expected_choices[i]));
    }
}

} // verus!
