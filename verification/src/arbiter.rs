use vstd::prelude::*;

use crate::action::Action;

verus! {

/// `execute` may answer `outcome` when asked for `action` in situation `inputs`.
pub open spec fn may_answer<C, X, F: Fn(Action, &X) -> Option<C>>(
    execute: F,
    inputs: X,
    action: Action,
    outcome: Option<C>,
) -> bool {
    call_ensures(execute, (action, &inputs), outcome)
}

/// `execute` is sure to produce a command when asked for `action`.
pub open spec fn always_commands<C, X, F: Fn(Action, &X) -> Option<C>>(
    execute: F,
    inputs: X,
    action: Action,
) -> bool {
    forall|outcome: Option<C>| may_answer(execute, inputs, action, outcome) ==> outcome is Some
}

/// `index` is where the arbitration stops on `actions`: the executor gave
/// `command` there, and declined every earlier candidate.
pub open spec fn wins_at<C, X, F: Fn(Action, &X) -> Option<C>>(
    execute: F,
    inputs: X,
    actions: Seq<Action>,
    index: int,
    command: C,
) -> bool {
    &&& 0 <= index < actions.len()
    &&& may_answer(execute, inputs, actions[index], Some(command))
    &&& forall|earlier: int|
        0 <= earlier < index ==> may_answer(execute, inputs, #[trigger] actions[earlier], None::<C>)
}

/// The executor declined every candidate of `actions`.
pub open spec fn all_declined<C, X, F: Fn(Action, &X) -> Option<C>>(
    execute: F,
    inputs: X,
    actions: Seq<Action>,
) -> bool {
    forall|index: int|
        0 <= index < actions.len() ==> may_answer(
            execute,
            inputs,
            #[trigger] actions[index],
            None::<C>,
        )
}

/// Some candidate of `actions` is sure to yield a command.
pub open spec fn some_always_commands<C, X, F: Fn(Action, &X) -> Option<C>>(
    execute: F,
    inputs: X,
    actions: Seq<Action>,
) -> bool {
    exists|index: int|
        0 <= index < actions.len() && always_commands(execute, inputs, #[trigger] actions[index])
}

/// The arbitration may end in `chosen` on `actions`: an action of the list
/// with the command that the executor gave for it, after it declined every
/// candidate before; or nothing, after it declined them all.
pub open spec fn arbitrated<C, X, F: Fn(Action, &X) -> Option<C>>(
    execute: F,
    inputs: X,
    actions: Seq<Action>,
    chosen: Option<(Action, C)>,
) -> bool {
    match chosen {
        Some(choice) => exists|index: int|
            actions[index] == choice.0 && #[trigger] wins_at(
                execute,
                inputs,
                actions,
                index,
                choice.1,
            ),
        None => all_declined(execute, inputs, actions),
    }
}

/// Walks the candidates in order and commits to the first one whose executor
/// yields a command. Later candidates are not evaluated. The result is `None`
/// only when every candidate was asked and declined, and never when some
/// candidate is sure to yield a command.
pub fn arbitrate<C, X, F: Fn(Action, &X) -> Option<C>>(
    actions: &Vec<Action>,
    inputs: &X,
    execute: &F,
) -> (chosen: Option<(Action, C)>)
    requires
        forall|index: int|
            0 <= index < actions@.len() ==> call_requires(
                *execute,
                (#[trigger] actions@[index], inputs),
            ),
    ensures
        arbitrated(*execute, *inputs, actions@, chosen),
        some_always_commands(*execute, *inputs, actions@) ==> chosen is Some,
{
    let mut position: usize = 0;
    while position < actions.len()
        invariant
            position <= actions@.len(),
            forall|index: int|
                0 <= index < actions@.len() ==> call_requires(
                    *execute,
                    (#[trigger] actions@[index], inputs),
                ),
            forall|earlier: int|
                0 <= earlier < position ==> may_answer(
                    *execute,
                    *inputs,
                    #[trigger] actions@[earlier],
                    None::<C>,
                ),
        decreases actions@.len() - position,
    {
        let action = actions[position];
        match execute(action, inputs) {
            Some(command) => {
                let chosen = Some((action, command));
                assert(wins_at(*execute, *inputs, actions@, position as int, (chosen->0).1));
                return chosen;
            },
            None => {},
        }
        position += 1;
    }
    None
}

} // verus!
