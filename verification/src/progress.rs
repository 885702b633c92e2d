//! Where a step ends, and why a step that stalls would never have reached
//! an effect.
//!
//! A step runs control instructions until it meets an effect. Between two
//! effects the store does not change, so what a control instruction does
//! depends on the cursor and the condition alone. A script of `n`
//! instructions has `2 * n` such states. A step that has run more control
//! instructions than that has been in one state twice, and goes round for
//! ever.

use vstd::prelude::*;
use vstd::set_lib::{lemma_int_range, lemma_len_subset, set_int_range};
use crate::bytecode::{Op, ScriptModel};
use crate::interpreter::{
    budget, run, test_value, Environment, Outcome, StepFailure, StepModel,
};

verus! {

/// The state after the control instruction at `cursor`; `None` where the
/// instruction there yields an effect or a failure, or where there is none.
pub open spec fn control_step<E: Environment + ?Sized>(
    script: ScriptModel,
    env: &E,
    cursor: nat,
    condition: bool,
) -> Option<(nat, bool)> {
    if cursor >= script.code.len() {
        None
    } else {
        match script.code[cursor as int] {
            Op::Jump(target) => Some((target as nat, condition)),
            Op::EvalCondition(test) => match test_value(script, env, test) {
                Ok(truth) => Some((cursor + 1, truth)),
                Err(_) => None,
            },
            Op::If(skip) => Some(
                (
                    if condition {
                        cursor + 1
                    } else {
                        (cursor + 1 + skip) as nat
                    },
                    condition,
                ),
            ),
            _ => None,
        }
    }
}

/// The state after `count` control instructions in a row; `None` where
/// fewer than `count` run before an effect or a failure.
pub open spec fn state_after<E: Environment + ?Sized>(
    script: ScriptModel,
    env: &E,
    cursor: nat,
    condition: bool,
    count: nat,
) -> Option<(nat, bool)>
    decreases count,
{
    if count == 0 {
        Some((cursor, condition))
    } else {
        match control_step(script, env, cursor, condition) {
            Some((next, truth)) => state_after(script, env, next, truth, (count - 1) as nat),
            None => None,
        }
    }
}

/// Whether a step from the given state stalls with the given fuel.
pub open spec fn stalls<E: Environment + ?Sized>(
    script: ScriptModel,
    env: &E,
    cursor: nat,
    condition: bool,
    fuel: nat,
) -> bool {
    run(script, env, cursor, condition, fuel).result == Err::<StepModel, StepFailure>(
        StepFailure::Stalled,
    )
}

/// A step stalls with `fuel` exactly when more than `fuel` control
/// instructions run in a row.
proof fn lemma_stalls<E: Environment + ?Sized>(
    script: ScriptModel,
    env: &E,
    cursor: nat,
    condition: bool,
    fuel: nat,
)
    ensures
        stalls(script, env, cursor, condition, fuel) <==> state_after(
            script,
            env,
            cursor,
            condition,
            fuel + 1,
        ) is Some,
    decreases fuel,
{
    match control_step(script, env, cursor, condition) {
        Some((next, truth)) => {
            if fuel > 0 {
                lemma_stalls(script, env, next, truth, (fuel - 1) as nat);
            } else {
                assert(state_after(script, env, next, truth, 0) is Some);
            }
        },
        None => {},
    }
}

/// The state after `first + second` instructions is the state after
/// `second`, from the state after `first`.
proof fn lemma_state_chain<E: Environment + ?Sized>(
    script: ScriptModel,
    env: &E,
    cursor: nat,
    condition: bool,
    first: nat,
    second: nat,
)
    ensures
        state_after(script, env, cursor, condition, first + second) == match state_after(
            script,
            env,
            cursor,
            condition,
            first,
        ) {
            Some((next, truth)) => state_after(script, env, next, truth, second),
            None => None,
        },
    decreases first,
{
    if first > 0 {
        match control_step(script, env, cursor, condition) {
            Some((next, truth)) => {
                lemma_state_chain(script, env, next, truth, (first - 1) as nat, second);
            },
            None => {},
        }
    }
}

/// The number of a state, among the `2 * n` states of a script.
pub open spec fn state_number(state: (nat, bool)) -> int {
    2 * state.0 + if state.1 {
        1int
    } else {
        0int
    }
}

/// Among more numbers than a range holds, two are the same.
proof fn lemma_two_alike(numbers: Seq<int>, bound: int)
    requires
        0 <= bound < numbers.len(),
        forall|i: int| 0 <= i < numbers.len() ==> 0 <= #[trigger] numbers[i] < bound,
    ensures
        exists|i: int, j: int| 0 <= i < j < numbers.len() && numbers[i] == numbers[j],
{
    if numbers.no_duplicates() {
        numbers.unique_seq_to_set();
        lemma_int_range(0, bound);
        assert(numbers.to_set().subset_of(set_int_range(0, bound))) by {
            assert forall|n: int| numbers.to_set().contains(n) implies set_int_range(
                0,
                bound,
            ).contains(n) by {
                let i = choose|i: int| 0 <= i < numbers.len() && numbers[i] == n;
                assert(0 <= numbers[i] < bound);
            }
        }
        lemma_len_subset(numbers.to_set(), set_int_range(0, bound));
    } else {
        let (i, j) = choose|i: int, j: int|
            0 <= i < numbers.len() && 0 <= j < numbers.len() && i != j && numbers[i] == numbers[j];
        if i < j {
            assert(0 <= i < j < numbers.len() && numbers[i] == numbers[j]);
        } else {
            assert(0 <= j < i < numbers.len() && numbers[j] == numbers[i]);
        }
    }
}

/// A run that comes back to a state goes on for ever.
proof fn lemma_round<E: Environment + ?Sized>(
    script: ScriptModel,
    env: &E,
    cursor: nat,
    condition: bool,
    early: nat,
    late: nat,
    count: nat,
)
    requires
        early < late,
        state_after(script, env, cursor, condition, late) is Some,
        state_after(script, env, cursor, condition, early) == state_after(
            script,
            env,
            cursor,
            condition,
            late,
        ),
    ensures
        state_after(script, env, cursor, condition, count) is Some,
    decreases count,
{
    if count <= late {
        lemma_state_chain(script, env, cursor, condition, count, (late - count) as nat);
    } else {
        let back = (count - (late - early)) as nat;
        lemma_round(script, env, cursor, condition, early, late, back);
        lemma_state_chain(script, env, cursor, condition, late, (count - late) as nat);
        lemma_state_chain(script, env, cursor, condition, early, (count - late) as nat);
    }
}

/// A step that stalls would never have reached an effect: with any fuel
/// whatever, it stalls. So a step fails with `Stalled` only for a script
/// that, from this state and with this store, runs control instructions for
/// ever.
pub proof fn lemma_stalled_for_ever<E: Environment + ?Sized>(
    script: ScriptModel,
    env: &E,
    cursor: nat,
    condition: bool,
    fuel: nat,
)
    requires
        stalls(script, env, cursor, condition, budget(script)),
    ensures
        stalls(script, env, cursor, condition, fuel),
{
    let steps = budget(script) + 1;
    lemma_stalls(script, env, cursor, condition, budget(script));
    let numbers = Seq::new(
        steps,
        |k: int| state_number(state_after(script, env, cursor, condition, k as nat)->Some_0),
    );
    assert forall|k: int| 0 <= k < numbers.len() implies 0 <= #[trigger] numbers[k] < budget(
        script,
    ) by {
        lemma_state_chain(script, env, cursor, condition, k as nat, 1);
        lemma_state_chain(script, env, cursor, condition, (k + 1) as nat, (steps - k - 1) as nat);
        let state = state_after(script, env, cursor, condition, k as nat)->Some_0;
        assert(control_step(script, env, state.0, state.1) is Some);
    }
    lemma_two_alike(numbers, budget(script) as int);
    let (i, j) = choose|i: int, j: int| 0 <= i < j < numbers.len() && numbers[i] == numbers[j];
    lemma_state_chain(script, env, cursor, condition, i as nat, (steps - i) as nat);
    lemma_state_chain(script, env, cursor, condition, j as nat, (steps - j) as nat);
    let early = state_after(script, env, cursor, condition, i as nat)->Some_0;
    let late = state_after(script, env, cursor, condition, j as nat)->Some_0;
    assert(state_number(early) == state_number(late));
    assert(early == late);
    lemma_round(script, env, cursor, condition, i as nat, j as nat, fuel + 1);
    lemma_stalls(script, env, cursor, condition, fuel);
}

/// A step that yields `End` leaves the cursor on an `End`, and the condition
/// as it was when that `End` was reached. A step that yields another effect
/// leaves the cursor behind the instruction of the effect.
pub proof fn lemma_effect_state<E: Environment + ?Sized>(
    script: ScriptModel,
    env: &E,
    cursor: nat,
    condition: bool,
    fuel: nat,
)
    ensures
        ({
            let out = run(script, env, cursor, condition, fuel);
            match out.result {
                Ok(StepModel::End) => out.cursor < script.code.len() && script.code[out.cursor as int]
                    is End,
                Ok(StepModel::Text(_, _, _)) => 0 < out.cursor <= script.code.len()
                    && script.code[out.cursor - 1] is Text,
                Ok(StepModel::Choice(_, _)) => 0 < out.cursor <= script.code.len()
                    && script.code[out.cursor - 1] is Choice,
                Ok(StepModel::Trigger(_)) => 0 < out.cursor <= script.code.len()
                    && script.code[out.cursor - 1] is Trigger,
                Err(_) => true,
            }
        }),
    decreases fuel,
{
    match control_step(script, env, cursor, condition) {
        Some((next, truth)) => {
            if fuel > 0 {
                lemma_effect_state(script, env, next, truth, (fuel - 1) as nat);
            }
        },
        None => {},
    }
}

/// `End` is final: once a step has yielded `End`, every later step yields
/// `End` and leaves the execution as it is.
pub proof fn lemma_end_is_final<E: Environment + ?Sized>(
    script: ScriptModel,
    env: &E,
    later: &E,
    cursor: nat,
    condition: bool,
    fuel: nat,
    again: nat,
)
    requires
        run(script, env, cursor, condition, fuel).result == Ok::<StepModel, StepFailure>(
            StepModel::End,
        ),
    ensures
        ({
            let out = run(script, env, cursor, condition, fuel);
            run(script, later, out.cursor, out.condition, again) == (Outcome {
                result: Ok(StepModel::End),
                cursor: out.cursor,
                condition: out.condition,
            })
        }),
{
    lemma_effect_state(script, env, cursor, condition, fuel);
}

} // verus!
