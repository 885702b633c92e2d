//! The flat form of a script: instructions and the tables they index.

use std::rc::Rc;
use vstd::prelude::*;
use crate::ast::{options_model, LogicOperation};
use crate::lowering::first_key;
use crate::symbols::{Identifier, Text};

verus! {

/// An operand of a compiled condition. `Name` and `Text` index the string
/// table.
#[derive(Clone, Copy, Debug)]
pub enum Operand {
    Name(u32),
    Boolean(bool),
    Text(u32),
    Int(i32),
}

/// A compiled condition.
#[derive(Clone, Copy, Debug)]
pub enum Test {
    Var(Operand),
    Expr(Operand, LogicOperation, Operand),
}

/// One instruction.
///
/// `Jump` holds an absolute instruction index. `If` holds the number of
/// instructions that follow it and are passed over when the last condition
/// was false.
#[derive(Clone, Copy, Debug)]
pub enum Op {
    /// Speaker (an index into the string table) and text (an index into the
    /// text table).
    Text(Option<u32>, u32),
    Jump(usize),
    /// Destination variable (string table) and choice set (choice table).
    Choice(u32, u32),
    Trigger(u32),
    End,
    EvalCondition(Test),
    If(usize),
}

/// The most stop offsets that one text keeps.
pub const MAX_STOPS: usize = 12;

/// The text of the reserved first entry of the string table.
pub open spec fn sentinel() -> Seq<char> {
    "safe-guard: probably a bug!"@
}

/// Model of a compiled script.
pub struct ScriptModel {
    /// The instructions.
    pub code: Seq<Op>,
    /// The interned identifiers; entry 0 is the sentinel.
    pub strings: Seq<Seq<char>>,
    /// The interned texts, each with its stop offsets.
    pub texts: Seq<(Seq<char>, Seq<nat>)>,
    /// Label names with the instruction index where each resumes.
    pub labels: Seq<(Seq<char>, usize)>,
    /// Choice sets, each an ordered list of (option name, option text).
    pub choices: Seq<(Seq<char>, Seq<(Seq<char>, Seq<char>)>)>,
}

/// Whether `index` names a real entry of a string table of `strings` entries.
pub open spec fn string_index_ok(index: u32, strings: nat) -> bool {
    1 <= index < strings
}

/// Whether an operand's index is valid.
pub open spec fn operand_ok(operand: Operand, strings: nat) -> bool {
    match operand {
        Operand::Name(index) => string_index_ok(index, strings),
        Operand::Text(index) => string_index_ok(index, strings),
        Operand::Boolean(_) => true,
        Operand::Int(_) => true,
    }
}

/// Whether the indices of a condition's operands are valid.
pub open spec fn test_ok(test: Test, strings: nat) -> bool {
    match test {
        Test::Var(operand) => operand_ok(operand, strings),
        Test::Expr(lhs, _, rhs) => operand_ok(lhs, strings) && operand_ok(rhs, strings),
    }
}

/// Whether the instruction `op`, standing at `index`, refers only to
/// entries of tables of the given sizes and to instruction indices up to
/// `limit`.
pub open spec fn op_ok(op: Op, index: int, limit: int, strings: nat, texts: nat, choices: nat) -> bool {
    match op {
        Op::Text(who, says) => {
            &&& who matches Some(speaker) ==> string_index_ok(speaker, strings)
            &&& says < texts
        },
        Op::Jump(target) => target <= limit,
        Op::Choice(store, set) => string_index_ok(store, strings) && set < choices,
        Op::Trigger(name) => string_index_ok(name, strings),
        Op::End => true,
        Op::EvalCondition(test) => test_ok(test, strings),
        Op::If(skip) => index + 1 + skip <= limit,
    }
}

/// Whether every instruction and label of `script` stays within `limit`
/// instructions and within the tables.
pub open spec fn bounded(script: ScriptModel, limit: int) -> bool {
    &&& script.strings.len() >= 1
    &&& script.strings[0] == sentinel()
    &&& forall|i: int|
        0 <= i < script.code.len() ==> op_ok(
            #[trigger] script.code[i],
            i,
            limit,
            script.strings.len(),
            script.texts.len(),
            script.choices.len(),
        )
    &&& forall|i: int| 0 <= i < script.labels.len() ==> (#[trigger] script.labels[i]).1 <= limit
    &&& forall|i: int| 0 <= i < script.texts.len() ==> (#[trigger] script.texts[i]).1.len() <= MAX_STOPS
}

/// The invariant of a compiled script: every index stored in an instruction
/// is valid, and every instruction index that a `Jump`, an `If` or a label
/// refers to lies within `0..=code.len()`.
pub open spec fn well_formed(script: ScriptModel) -> bool {
    bounded(script, script.code.len() as int)
}

/// The stop offsets of a text, as numbers.
pub open spec fn stops_model(stops: Seq<usize>) -> Seq<nat> {
    Seq::new(stops.len(), |i: int| stops[i] as nat)
}

/// The identifiers of a list, in order.
pub open spec fn strings_model(strings: Seq<Identifier>) -> Seq<Seq<char>> {
    Seq::new(strings.len(), |i: int| strings[i]@)
}

/// The entries of a text table, in order.
pub open spec fn text_table_model(texts: Seq<(Text, Vec<usize>)>) -> Seq<(Seq<char>, Seq<nat>)> {
    Seq::new(texts.len(), |i: int| (texts[i].0@, stops_model(texts[i].1@)))
}

/// The entries of a label table, in order.
pub open spec fn label_table_model(labels: Seq<(Identifier, usize)>) -> Seq<(Seq<char>, usize)> {
    Seq::new(labels.len(), |i: int| (labels[i].0@, labels[i].1))
}

/// The entries of a choice table, in order.
pub open spec fn choice_table_model(choices: Seq<(Identifier, Rc<Vec<(Identifier, Text)>>)>) -> Seq<
    (Seq<char>, Seq<(Seq<char>, Seq<char>)>),
> {
    Seq::new(choices.len(), |i: int| (choices[i].0@, options_model(choices[i].1@)))
}

/// A compiled script. It does not change once it is made, and any number of
/// executions may share it.
#[derive(Debug)]
pub struct DirectScript {
    pub(crate) code: Vec<Op>,
    pub(crate) strings: Vec<Identifier>,
    pub(crate) texts: Vec<(Text, Vec<usize>)>,
    pub(crate) labels: Vec<(Identifier, usize)>,
    pub(crate) choices: Vec<(Identifier, Rc<Vec<(Identifier, Text)>>)>,
    /// The path of the text that the script was read from, where it is
    /// known. It is kept for the reader of a debug print only.
    #[allow(dead_code)]
    pub(crate) source: Option<String>,
}

impl View for DirectScript {
    type V = ScriptModel;

    closed spec fn view(&self) -> ScriptModel {
        ScriptModel {
            code: self.code@,
            strings: strings_model(self.strings@),
            texts: text_table_model(self.texts@),
            labels: label_table_model(self.labels@),
            choices: choice_table_model(self.choices@),
        }
    }
}

impl DirectScript {
    #[verifier::type_invariant]
    pub(crate) closed spec fn inv(&self) -> bool {
        well_formed(self@)
    }

    /// Makes a script of tables that are well formed together.
    pub(crate) fn assemble(
        code: Vec<Op>,
        strings: Vec<Identifier>,
        texts: Vec<(Text, Vec<usize>)>,
        labels: Vec<(Identifier, usize)>,
        choices: Vec<(Identifier, Rc<Vec<(Identifier, Text)>>)>,
    ) -> (script: DirectScript)
        requires
            well_formed(
                ScriptModel {
                    code: code@,
                    strings: strings_model(strings@),
                    texts: text_table_model(texts@),
                    labels: label_table_model(labels@),
                    choices: choice_table_model(choices@),
                },
            ),
        ensures
            script@ == (ScriptModel {
                code: code@,
                strings: strings_model(strings@),
                texts: text_table_model(texts@),
                labels: label_table_model(labels@),
                choices: choice_table_model(choices@),
            }),
    {
        DirectScript { code, strings, texts, labels, choices, source: None }
    }
}

/// The position of the first label under `name`.
pub(crate) fn find_label(labels: &Vec<(Identifier, usize)>, name: &Identifier) -> (found: Option<
    usize,
>)
    ensures
        match found {
            Some(position) => first_key(label_table_model(labels@), name@, 0) matches Some(index)
                && index < labels.len() && label_table_model(labels@)[index as int].1 == position,
            None => first_key(label_table_model(labels@), name@, 0) is None,
        },
{
    let mut i: usize = 0;
    while i < labels.len()
        invariant
            first_key(label_table_model(labels@), name@, 0) == first_key(
                label_table_model(labels@),
                name@,
                i as nat,
            ),
        decreases labels.len() - i,
    {
        if labels[i].0 == *name {
            return Some(labels[i].1);
        }
        i += 1;
    }
    None
}

/// Another handle on a shared value.
///
/// Trusted: this is `Rc::clone`, which by its documentation makes a new
/// pointer to the same allocation, so that the copy holds the value that
/// `shared` holds.
#[verifier::external_body]
pub(crate) fn share<T>(shared: &Rc<T>) -> (copy: Rc<T>)
    ensures
        copy == *shared,
{
    Rc::clone(shared)
}

impl DirectScript {
    /// The invariant of the script, for a caller that holds one.
    pub(crate) fn sound(&self)
        ensures
            well_formed(self@),
    {
        proof {
            use_type_invariant(self);
        }
    }

    /// The number of instructions.
    pub(crate) fn code_len(&self) -> (count: usize)
        ensures
            count == self@.code.len(),
    {
        self.code.len()
    }

    /// The instruction at `at`.
    pub(crate) fn op(&self, at: usize) -> (op: Op)
        requires
            at < self@.code.len(),
        ensures
            op == self@.code[at as int],
    {
        self.code[at]
    }

    /// The entry of the string table at `at`.
    pub(crate) fn string(&self, at: u32) -> (name: &Identifier)
        requires
            at < self@.strings.len(),
        ensures
            name@ == self@.strings[at as int],
    {
        &self.strings[at as usize]
    }

    /// The entry of the text table at `at`.
    pub(crate) fn text(&self, at: u32) -> (entry: &(Text, Vec<usize>))
        requires
            at < self@.texts.len(),
        ensures
            entry.0@ == self@.texts[at as int].0,
            stops_model(entry.1@) == self@.texts[at as int].1,
    {
        &self.texts[at as usize]
    }

    /// The options of the choice set at `at`.
    pub(crate) fn options(&self, at: u32) -> (options: &Rc<Vec<(Identifier, Text)>>)
        requires
            at < self@.choices.len(),
        ensures
            options_model(options@) == self@.choices[at as int].1,
    {
        &self.choices[at as usize].1
    }

    /// The instruction index of the first label under `name`.
    pub(crate) fn label(&self, name: &Identifier) -> (found: Option<usize>)
        ensures
            match found {
                Some(position) => first_key(self@.labels, name@, 0) matches Some(index) && index
                    < self@.labels.len() && self@.labels[index as int].1 == position,
                None => first_key(self@.labels, name@, 0) is None,
            },
    {
        find_label(&self.labels, name)
    }
}

} // verus!
