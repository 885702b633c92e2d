//! Running a compiled script, one observable effect at a time.

use std::rc::Rc;
use vstd::prelude::*;
use vstd::std_specs::cmp::PartialEqSpecImpl;
use vstd::string::StringExecFns;
use crate::ast::{options_model, LogicOperation};
use crate::bytecode::{share, stops_model, DirectScript, Op, Operand, ScriptModel, Test};
use crate::lowering::first_key;
use crate::symbols::{Identifier, Text};

verus! {

/// A value of the host's variable store.
#[derive(Debug)]
pub enum Variant {
    String(String),
    Int(i32),
    Boolean(bool),
}

/// Model of a [`Variant`].
pub enum VariantModel {
    String(Seq<char>),
    Int(i32),
    Boolean(bool),
}

impl View for Variant {
    type V = VariantModel;

    open spec fn view(&self) -> VariantModel {
        match self {
            Variant::String(text) => VariantModel::String(text@),
            Variant::Int(number) => VariantModel::Int(*number),
            Variant::Boolean(flag) => VariantModel::Boolean(*flag),
        }
    }
}

/// Truthiness: a string is true unless it is empty, an integer unless it is
/// zero, and a boolean is itself.
pub open spec fn truthy(value: VariantModel) -> bool {
    match value {
        VariantModel::String(text) => text.len() != 0,
        VariantModel::Int(number) => number != 0,
        VariantModel::Boolean(flag) => flag,
    }
}

impl Clone for Variant {
    fn clone(&self) -> (copy: Self)
        ensures
            copy@ == self@,
    {
        match self {
            Variant::String(text) => Variant::String(text.clone()),
            Variant::Int(number) => Variant::Int(*number),
            Variant::Boolean(flag) => Variant::Boolean(*flag),
        }
    }
}

impl PartialEq for Variant {
    fn eq(&self, other: &Self) -> (same: bool) {
        match (self, other) {
            (Variant::String(a), Variant::String(b)) => *a == *b,
            (Variant::Int(a), Variant::Int(b)) => *a == *b,
            (Variant::Boolean(a), Variant::Boolean(b)) => *a == *b,
            _ => false,
        }
    }
}

impl PartialEqSpecImpl for Variant {
    open spec fn obeys_eq_spec() -> bool {
        true
    }

    open spec fn eq_spec(&self, other: &Self) -> bool {
        self@ == other@
    }
}

impl Variant {
    /// The truthiness of the value.
    pub fn to_bool(&self) -> (truth: bool)
        ensures
            truth == truthy(self@),
    {
        match self {
            Variant::String(text) => !text.as_str().is_empty(),
            Variant::Int(number) => *number != 0,
            Variant::Boolean(flag) => *flag,
        }
    }
}

/// The model of an optional value.
pub open spec fn value_model(value: Option<Variant>) -> Option<VariantModel> {
    match value {
        Some(v) => Some(v@),
        None => None,
    }
}

/// The host's variable store.
///
/// `lookup` is what the store holds under a name, as a function of the
/// store and the name, and `get` returns it. An implementation within this
/// crate proves that of its `get`. One outside it is trusted to answer
/// `get` from the store alone; of its `lookup` nothing more is known than
/// that it is such a function.
pub trait Environment {
    /// The value that the store holds under `name`.
    open spec fn lookup(&self, name: Seq<char>) -> Option<VariantModel> {
        arbitrary::<spec_fn(&Self, Seq<char>) -> Option<VariantModel>>()(self, name)
    }

    /// The value under `name`, or `None` where the name was never set.
    fn get(&self, name: &str) -> (value: Option<Variant>)
        ensures
            value_model(value) == self.lookup(name@),
    ;

    /// Stores `value` under `name`.
    fn set(&mut self, name: &str, value: Variant)
    ;
}

/// One observable effect of a running script.
#[derive(Debug)]
pub enum ExecutionStep {
    /// A line of dialogue: the speaker, the text, and the offsets at which
    /// its fragments meet.
    Text(Option<Identifier>, Text, Vec<usize>),
    /// A choice: the variable that takes the answer, and the options.
    Choice(Identifier, Rc<Vec<(Identifier, Text)>>),
    /// A side effect that the host defines.
    Trigger(Identifier),
    /// The script has ended.
    End,
}

/// Model of an [`ExecutionStep`].
pub enum StepModel {
    Text(Option<Seq<char>>, Seq<char>, Seq<nat>),
    Choice(Seq<char>, Seq<(Seq<char>, Seq<char>)>),
    Trigger(Seq<char>),
    End,
}

impl View for ExecutionStep {
    type V = StepModel;

    open spec fn view(&self) -> StepModel {
        match self {
            ExecutionStep::Text(who, says, stops) => StepModel::Text(
                crate::ast::speaker_model(*who),
                says@,
                stops_model(stops@),
            ),
            ExecutionStep::Choice(store, options) => StepModel::Choice(
                store@,
                options_model(options@),
            ),
            ExecutionStep::Trigger(name) => StepModel::Trigger(name@),
            ExecutionStep::End => StepModel::End,
        }
    }
}

/// Why a step produced no effect.
#[derive(Debug)]
pub enum StepError {
    /// A condition reads a global that the store does not hold.
    UnboundVariable(Identifier),
    /// The cursor stands past the last instruction.
    OutOfCode,
    /// The script ran more control instructions in a row than it has
    /// states, without reaching an effect.
    Stalled,
}

/// Model of a [`StepError`].
pub enum StepFailure {
    UnboundVariable(Seq<char>),
    OutOfCode,
    Stalled,
}

impl View for StepError {
    type V = StepFailure;

    open spec fn view(&self) -> StepFailure {
        match self {
            StepError::UnboundVariable(name) => StepFailure::UnboundVariable(name@),
            StepError::OutOfCode => StepFailure::OutOfCode,
            StepError::Stalled => StepFailure::Stalled,
        }
    }
}

/// The value of an operand: a literal, or what the store holds under a
/// global's name.
pub open spec fn operand_value<E: Environment + ?Sized>(script: ScriptModel, env: &E, operand: Operand) -> Result<
    VariantModel,
    StepFailure,
> {
    match operand {
        Operand::Name(index) => match env.lookup(script.strings[index as int]) {
            Some(value) => Ok(value),
            None => Err(StepFailure::UnboundVariable(script.strings[index as int])),
        },
        Operand::Boolean(flag) => Ok(VariantModel::Boolean(flag)),
        Operand::Text(index) => Ok(VariantModel::String(script.strings[index as int])),
        Operand::Int(number) => Ok(VariantModel::Int(number)),
    }
}

/// The value of a condition: the truthiness of its one operand, or whether
/// its two operands are equal (or differ). Values of different kinds are
/// never equal.
pub open spec fn test_value<E: Environment + ?Sized>(script: ScriptModel, env: &E, test: Test) -> Result<
    bool,
    StepFailure,
> {
    match test {
        Test::Var(operand) => match operand_value(script, env, operand) {
            Ok(value) => Ok(truthy(value)),
            Err(failure) => Err(failure),
        },
        Test::Expr(lhs, op, rhs) => match operand_value(script, env, lhs) {
            Ok(left) => match operand_value(script, env, rhs) {
                Ok(right) => Ok(
                    match op {
                        LogicOperation::Equal => left == right,
                        LogicOperation::NotEqual => left != right,
                    },
                ),
                Err(failure) => Err(failure),
            },
            Err(failure) => Err(failure),
        },
    }
}

/// What a step leaves behind: its result, and the state of the execution.
pub struct Outcome {
    pub result: Result<StepModel, StepFailure>,
    pub cursor: nat,
    pub condition: bool,
}

/// The number of control instructions that one step may run: the number of
/// states (a cursor and a condition) that a script has.
pub open spec fn budget(script: ScriptModel) -> nat {
    2 * script.code.len()
}

/// One step from the given state: control instructions run until an
/// instruction with an effect is reached, `fuel` of them at most.
///
/// - `Jump(target)` moves the cursor to `target`.
/// - `EvalCondition(test)` sets the condition and moves on by one.
/// - `If(skip)` moves on by one if the condition holds, and passes over the
///   `skip` instructions after it if not.
/// - `Text`, `Choice` and `Trigger` yield their effect and move on by one.
/// - `End` yields `End` and stays.
pub open spec fn run<E: Environment + ?Sized>(
    script: ScriptModel,
    env: &E,
    cursor: nat,
    condition: bool,
    fuel: nat,
) -> Outcome
    decreases fuel,
{
    if cursor >= script.code.len() {
        Outcome { result: Err(StepFailure::OutOfCode), cursor, condition }
    } else {
        match script.code[cursor as int] {
            Op::Jump(target) => if fuel == 0 {
                Outcome { result: Err(StepFailure::Stalled), cursor, condition }
            } else {
                run(script, env, target as nat, condition, (fuel - 1) as nat)
            },
            Op::EvalCondition(test) => match test_value(script, env, test) {
                Ok(truth) => if fuel == 0 {
                    Outcome { result: Err(StepFailure::Stalled), cursor, condition }
                } else {
                    run(script, env, cursor + 1, truth, (fuel - 1) as nat)
                },
                Err(failure) => Outcome { result: Err(failure), cursor, condition },
            },
            Op::If(skip) => if fuel == 0 {
                Outcome { result: Err(StepFailure::Stalled), cursor, condition }
            } else {
                run(
                    script,
                    env,
                    if condition {
                        cursor + 1
                    } else {
                        (cursor + 1 + skip) as nat
                    },
                    condition,
                    (fuel - 1) as nat,
                )
            },
            Op::Text(who, says) => Outcome {
                result: Ok(
                    StepModel::Text(
                        match who {
                            Some(speaker) => Some(script.strings[speaker as int]),
                            None => None,
                        },
                        script.texts[says as int].0,
                        script.texts[says as int].1,
                    ),
                ),
                cursor: cursor + 1,
                condition,
            },
            Op::Choice(store, set) => Outcome {
                result: Ok(
                    StepModel::Choice(script.strings[store as int], script.choices[set as int].1),
                ),
                cursor: cursor + 1,
                condition,
            },
            Op::Trigger(name) => Outcome {
                result: Ok(StepModel::Trigger(script.strings[name as int])),
                cursor: cursor + 1,
                condition,
            },
            Op::End => Outcome { result: Ok(StepModel::End), cursor, condition },
        }
    }
}

/// One playthrough of a script: a cursor into the script's instructions and
/// the value of the last condition.
pub struct DirectExecution {
    script: Rc<DirectScript>,
    code_ptr: usize,
    last_condition: bool,
}

/// A copy of a list of stop offsets.
fn clone_stops(stops: &Vec<usize>) -> (copy: Vec<usize>)
    ensures
        copy@ == stops@,
{
    let mut copy: Vec<usize> = Vec::new();
    let mut i: usize = 0;
    while i < stops.len()
        invariant
            i <= stops.len(),
            copy@ == stops@.subrange(0, i as int),
        decreases stops.len() - i,
    {
        copy.push(stops[i]);
        proof {
            assert(copy@ =~= stops@.subrange(0, i + 1));
        }
        i += 1;
    }
    proof {
        assert(copy@ =~= stops@);
    }
    copy
}

impl DirectExecution {
    /// The script that this execution runs.
    pub closed spec fn script(&self) -> ScriptModel {
        self.script@
    }

    /// The index of the instruction that runs next.
    pub closed spec fn cursor(&self) -> nat {
        self.code_ptr as nat
    }

    /// The value of the last condition that was evaluated.
    pub closed spec fn condition(&self) -> bool {
        self.last_condition
    }

    /// Starts an execution at the first label named `label`, with the
    /// condition false. There is none where the script has no such label.
    pub fn start(script: &Rc<DirectScript>, label: &str) -> (started: Option<DirectExecution>)
        ensures
            match started {
                Some(execution) => {
                    &&& first_key(script@.labels, label@, 0) matches Some(index)
                    &&& index < script@.labels.len()
                    &&& execution.cursor() == script@.labels[index as int].1
                    &&& !execution.condition()
                    &&& execution.script() == script@
                },
                None => first_key(script@.labels, label@, 0) is None,
            },
    {
        let name = Identifier::from(label);
        match script.label(&name) {
            Some(position) => Some(
                DirectExecution { script: share(script), code_ptr: position, last_condition: false },
            ),
            None => None,
        }
    }

    /// The value of an operand: a literal, or what `env` holds under the
    /// name of a global. A global that `env` does not hold is an error.
    fn get_variant<E: Environment + ?Sized>(&self, env: &E, var: &Operand) -> (value: Result<
        Variant,
        StepError,
    >)
        requires
            crate::bytecode::operand_ok(*var, self.script().strings.len()),
        ensures
            match value {
                Ok(v) => operand_value(self.script(), env, *var) == Ok::<VariantModel, StepFailure>(
                    v@,
                ),
                Err(e) => operand_value(self.script(), env, *var) == Err::<
                    VariantModel,
                    StepFailure,
                >(e@),
            },
    {
        match var {
            Operand::Name(index) => {
                let name = self.script.string(*index);
                match env.get(name.as_str()) {
                    Some(value) => Ok(value),
                    None => Err(StepError::UnboundVariable(name.clone())),
                }
            },
            Operand::Boolean(flag) => Ok(Variant::Boolean(*flag)),
            Operand::Text(index) => {
                let text = self.script.string(*index);
                Ok(Variant::String(String::from_str(text.as_str())))
            },
            Operand::Int(number) => Ok(Variant::Int(*number)),
        }
    }

    /// The value of a condition.
    fn evaluate<E: Environment + ?Sized>(&self, env: &E, test: &Test) -> (truth: Result<
        bool,
        StepError,
    >)
        requires
            crate::bytecode::test_ok(*test, self.script().strings.len()),
        ensures
            match truth {
                Ok(t) => test_value(self.script(), env, *test) == Ok::<bool, StepFailure>(t),
                Err(e) => test_value(self.script(), env, *test) == Err::<bool, StepFailure>(e@),
            },
    {
        match test {
            Test::Var(operand) => match self.get_variant(env, operand) {
                Ok(value) => Ok(value.to_bool()),
                Err(e) => Err(e),
            },
            Test::Expr(lhs, op, rhs) => {
                let left = match self.get_variant(env, lhs) {
                    Ok(value) => value,
                    Err(e) => {
                        return Err(e);
                    },
                };
                let right = match self.get_variant(env, rhs) {
                    Ok(value) => value,
                    Err(e) => {
                        return Err(e);
                    },
                };
                match op {
                    LogicOperation::Equal => Ok(left == right),
                    LogicOperation::NotEqual => Ok(!(left == right)),
                }
            },
        }
    }

    /// Runs the script up to its next observable effect and returns it.
    ///
    /// Control instructions (`Jump`, `EvalCondition`, `If`) run without an
    /// effect. `Text`, `Choice` and `Trigger` return their effect and leave
    /// the cursor behind them. `End` returns `End` and leaves the cursor on
    /// itself, so that every later step returns `End` too.
    ///
    /// A step fails, and leaves the execution where the failure arose, when
    /// a condition reads a global that `env` does not hold, when the cursor
    /// stands past the last instruction, and when `budget` control
    /// instructions have run in a row. `env` is only read.
    pub fn step<E: Environment + ?Sized>(&mut self, env: &mut E) -> (effect: Result<
        ExecutionStep,
        StepError,
    >)
        ensures
            ({
                let out = run(
                    old(self).script(),
                    old(env),
                    old(self).cursor(),
                    old(self).condition(),
                    budget(old(self).script()),
                );
                &&& match effect {
                    Ok(step) => out.result == Ok::<StepModel, StepFailure>(step@),
                    Err(e) => out.result == Err::<StepModel, StepFailure>(e@),
                }
                &&& final(self).cursor() == out.cursor
                &&& final(self).condition() == out.condition
                &&& final(self).script() == old(self).script()
                &&& forall|name: Seq<char>| final(env).lookup(name) == old(env).lookup(name)
            }),
    {
        self.script.sound();
        let ghost script = self.script@;
        let length = self.script.code_len();
        let mut fuel: u128 = 2 * (length as u128);
        loop
            invariant
                self.script@ == script,
                old(self).script() == script,
                crate::bytecode::well_formed(script),
                length == script.code.len(),
                run(
                    script,
                    old(env),
                    old(self).cursor(),
                    old(self).condition(),
                    budget(script),
                ) == run(script, &*env, self.cursor(), self.condition(), fuel as nat),
                forall|name: Seq<char>| env.lookup(name) == old(env).lookup(name),
            decreases fuel,
        {
            if self.code_ptr >= length {
                return Err(StepError::OutOfCode);
            }
            let op = self.script.op(self.code_ptr);
            match op {
                Op::Jump(target) => {
                    if fuel == 0 {
                        return Err(StepError::Stalled);
                    }
                    self.code_ptr = target;
                },
                Op::EvalCondition(test) => {
                    let truth = match self.evaluate(&*env, &test) {
                        Ok(truth) => truth,
                        Err(e) => {
                            return Err(e);
                        },
                    };
                    if fuel == 0 {
                        return Err(StepError::Stalled);
                    }
                    self.last_condition = truth;
                    self.code_ptr = self.code_ptr + 1;
                },
                Op::If(skip) => {
                    if fuel == 0 {
                        return Err(StepError::Stalled);
                    }
                    if self.last_condition {
                        self.code_ptr = self.code_ptr + 1;
                    } else {
                        self.code_ptr = self.code_ptr + 1 + skip;
                    }
                },
                Op::Text(who, says) => {
                    let speaker = match who {
                        Some(index) => Some(self.script.string(index).clone()),
                        None => None,
                    };
                    let entry = self.script.text(says);
                    let text = entry.0.clone();
                    let stops = clone_stops(&entry.1);
                    self.code_ptr = self.code_ptr + 1;
                    return Ok(ExecutionStep::Text(speaker, text, stops));
                },
                Op::Choice(store, set) => {
                    let name = self.script.string(store).clone();
                    let options = share(self.script.options(set));
                    self.code_ptr = self.code_ptr + 1;
                    return Ok(ExecutionStep::Choice(name, options));
                },
                Op::Trigger(name) => {
                    let what = self.script.string(name).clone();
                    self.code_ptr = self.code_ptr + 1;
                    return Ok(ExecutionStep::Trigger(what));
                },
                Op::End => {
                    return Ok(ExecutionStep::End);
                },
            }
            fuel = fuel - 1;
        }
    }
}

} // verus!
