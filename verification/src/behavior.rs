use vstd::prelude::*;

use crate::action::Action;
use crate::arbiter::{all_declined, arbitrate, some_always_commands, wins_at};
use crate::candidates::{build_candidates, candidate_actions, is_look_around_due, look_around_due};
use crate::hysteresis::{
    next_active_since, next_ball_position, next_previous_role, update_active_since,
    update_ball_position, update_previous_role,
};
use crate::time::{Nanoseconds, Timestamp};
use crate::world::{Role, WorldState};

verus! {

/// What a new engine starts from. `C` is the motion command type and `P` a
/// position in field coordinates; the core looks into neither.
pub struct CreationContext<C, P> {
    /// The command that leaves all joints without stiffness.
    pub unstiff_command: C,
    /// The centre of the field.
    pub field_center: P,
}

pub struct CycleTime {
    pub start_time: Timestamp,
}

/// The tunable parameters that the core itself reads.
pub struct BehaviorParameters<C> {
    /// A command injected for debugging; while set it replaces arbitration.
    pub injected_motion_command: Option<C>,
    pub maximum_lookaround_duration: Nanoseconds,
}

/// Which optional outputs have a consumer in this cycle.
#[derive(Clone, Copy, Debug, PartialEq, Eq, Structural)]
pub struct Subscriptions {
    pub path_obstacles: bool,
    pub dribble_path_obstacles: bool,
    pub active_action: bool,
}

impl Subscriptions {
    /// The obstacles of the dribble path are worth computing: someone listens to
    /// them, or to the obstacles of whichever path is chosen.
    pub open spec fn spec_wants_dribble_path_obstacles(self) -> bool {
        self.path_obstacles || self.dribble_path_obstacles
    }

    #[verifier::when_used_as_spec(spec_wants_dribble_path_obstacles)]
    pub fn wants_dribble_path_obstacles(self) -> (wanted: bool)
        ensures
            wanted == self.spec_wants_dribble_path_obstacles(),
    {
        self.path_obstacles || self.dribble_path_obstacles
    }
}

pub struct CycleContext<C, P> {
    pub world_state: WorldState<P>,
    pub cycle_time: CycleTime,
    pub is_localization_converged: bool,
    pub parameters: BehaviorParameters<C>,
    pub subscriptions: Subscriptions,
}

/// The result of planning the dribble path: segments of type `S`, and the
/// obstacles of type `O` that the planner took into account, where asked for.
pub struct DribblePlan<S, O> {
    pub path: Option<Vec<S>>,
    pub path_obstacles: Option<Vec<O>>,
}

/// What the core hands to an executor besides the action: the debounced role,
/// the remembered ball position, and this cycle's dribble path.
pub struct Situation<P, S> {
    pub previous_role: Role,
    pub last_known_ball_position: P,
    pub dribble_path: Option<Vec<S>>,
}

pub struct MainOutputs<C, S> {
    pub motion_command: C,
    pub dribble_path: Option<Vec<S>>,
}

/// The optional outputs. A field is `None` where nothing is to be published.
pub struct AdditionalOutputs<O> {
    /// Replaces whatever the executors published as path obstacles.
    pub path_obstacles: Option<Vec<O>>,
    pub dribble_path_obstacles: Option<Vec<O>>,
    pub active_action: Option<Action>,
}

pub struct CycleOutputs<C, S, O> {
    pub main_outputs: MainOutputs<C, S>,
    pub additional_outputs: AdditionalOutputs<O>,
}

/// Why a cycle produced no command. Both are fatal to the caller: there is no
/// command to give to the actuators.
#[derive(Clone, Copy, Debug, PartialEq, Eq, Structural)]
pub enum CycleError {
    /// The cycle's time lies before the recorded start of the active stretch.
    ClockWentBackwards,
    /// Every candidate action declined.
    NoActionAvailable,
}

/// The state that survives from cycle to cycle.
pub struct Behavior<C, P> {
    last_motion_command: C,
    last_known_ball_position: P,
    active_since: Option<Timestamp>,
    previous_role: Role,
}

/// The mathematical model of a `Behavior`.
pub ghost struct BehaviorView<C, P> {
    pub last_motion_command: C,
    pub last_known_ball_position: P,
    pub active_since: Option<Timestamp>,
    pub previous_role: Role,
}

impl<C, P> BehaviorView<C, P> {
    /// The state after the world of one cycle has been taken in, before any
    /// command is committed.
    pub open spec fn observe(self, world_state: WorldState<P>, now: Timestamp) -> Self {
        BehaviorView {
            last_motion_command: self.last_motion_command,
            last_known_ball_position: next_ball_position(
                self.last_known_ball_position,
                world_state.ball,
            ),
            active_since: next_active_since(
                self.active_since,
                world_state.robot.primary_state,
                now,
            ),
            previous_role: next_previous_role(self.previous_role, world_state.robot.role),
        }
    }

    /// The recorded start of the active stretch lies after `now`.
    pub open spec fn is_ahead_of(self, now: Timestamp) -> bool {
        self.active_since is Some && now.nanos < self.active_since->0.nanos
    }

    /// What the executors are shown in this state.
    pub open spec fn situation<S>(self, dribble_path: Option<Vec<S>>) -> Situation<P, S> {
        Situation {
            previous_role: self.previous_role,
            last_known_ball_position: self.last_known_ball_position,
            dribble_path,
        }
    }
}

/// The candidate list of the cycle that `context` describes, in the state
/// `observed` that the cycle's world has already been taken into.
pub open spec fn cycle_candidates<C, P>(
    observed: BehaviorView<C, P>,
    context: CycleContext<C, P>,
) -> Seq<Action> {
    candidate_actions(
        context.world_state.robot.role,
        context.world_state.filtered_game_controller_state,
        look_around_due(
            observed.active_since,
            context.cycle_time.start_time,
            context.is_localization_converged,
            context.parameters.maximum_lookaround_duration,
        ),
    )
}

/// The state in which the candidates of the cycle that `context` describes are
/// tried: `before`, with the cycle's world taken in.
pub open spec fn observed_in<C, P>(
    before: BehaviorView<C, P>,
    context: CycleContext<C, P>,
) -> BehaviorView<C, P> {
    before.observe(context.world_state, context.cycle_time.start_time)
}

/// The cycle was bypassed by the injected command: it is emitted as it is,
/// nothing else is published, and the engine stays in the state `before`.
pub open spec fn bypassed<C, P, S, O>(
    before: BehaviorView<C, P>,
    context: CycleContext<C, P>,
    outcome: Result<CycleOutputs<C, S, O>, CycleError>,
    after: BehaviorView<C, P>,
) -> bool {
    &&& after == before
    &&& outcome is Ok
    &&& outcome->Ok_0.main_outputs.motion_command == context.parameters.injected_motion_command->0
    &&& outcome->Ok_0.main_outputs.dribble_path is None
    &&& outcome->Ok_0.additional_outputs.path_obstacles is None
    &&& outcome->Ok_0.additional_outputs.dribble_path_obstacles is None
    &&& outcome->Ok_0.additional_outputs.active_action is None
}

/// The cycle committed a command. The planner gave a plan; the executor gave
/// the emitted command for one candidate, in the state `before` with the world
/// taken in, and declined every candidate before that one; the plan's path is
/// published; the optional outputs are those of the committed action; and the
/// engine is left in that state with a clone of the command as its last one.
pub open spec fn committed<
    C: Clone,
    P,
    S,
    O: Clone,
    Plan: FnOnce(bool) -> DribblePlan<S, O>,
    Execute: Fn(Action, &Situation<P, S>) -> Option<C>,
>(
    before: BehaviorView<C, P>,
    context: CycleContext<C, P>,
    plan: Plan,
    execute: Execute,
    outputs: CycleOutputs<C, S, O>,
    after: BehaviorView<C, P>,
) -> bool {
    let observed = observed_in(before, context);
    let candidates = cycle_candidates(observed, context);
    &&& after.last_known_ball_position == observed.last_known_ball_position
    &&& after.active_since == observed.active_since
    &&& after.previous_role == observed.previous_role
    &&& cloned(outputs.main_outputs.motion_command, after.last_motion_command)
    &&& exists|planned: DribblePlan<S, O>, index: int|
        {
            &&& #[trigger] call_ensures(
                plan,
                (context.subscriptions.spec_wants_dribble_path_obstacles(),),
                planned,
            )
            &&& #[trigger] wins_at(
                execute,
                observed.situation(planned.path),
                candidates,
                index,
                outputs.main_outputs.motion_command,
            )
            &&& outputs.main_outputs.dribble_path == planned.path
            &&& additional_outputs_match(
                outputs.additional_outputs,
                context.subscriptions,
                candidates[index],
                planned.path_obstacles,
            )
        }
}

/// The executor may be asked for every candidate of the cycle, whatever the
/// planner gives. Nothing is asked of it while a command is injected.
pub open spec fn can_ask<
    C,
    P,
    S,
    O,
    Plan: FnOnce(bool) -> DribblePlan<S, O>,
    Execute: Fn(Action, &Situation<P, S>) -> Option<C>,
>(before: BehaviorView<C, P>, context: CycleContext<C, P>, plan: Plan, execute: Execute) -> bool {
    let observed = observed_in(before, context);
    let candidates = cycle_candidates(observed, context);
    context.parameters.injected_motion_command is None ==> forall|
        planned: DribblePlan<S, O>,
        index: int,
    |
        #![trigger call_ensures(
            plan,
            (context.subscriptions.spec_wants_dribble_path_obstacles(),),
            planned,
        ), candidates[index]]
        call_ensures(plan, (context.subscriptions.spec_wants_dribble_path_obstacles(),), planned)
            && 0 <= index < candidates.len() ==> call_requires(
            execute,
            (candidates[index], &observed.situation(planned.path)),
        )
}

/// The planner gave a plan, and the executor declined every candidate.
pub open spec fn declined<
    C,
    P,
    S,
    O,
    Plan: FnOnce(bool) -> DribblePlan<S, O>,
    Execute: Fn(Action, &Situation<P, S>) -> Option<C>,
>(before: BehaviorView<C, P>, context: CycleContext<C, P>, plan: Plan, execute: Execute) -> bool {
    let observed = observed_in(before, context);
    exists|planned: DribblePlan<S, O>|
        {
            &&& #[trigger] call_ensures(
                plan,
                (context.subscriptions.spec_wants_dribble_path_obstacles(),),
                planned,
            )
            &&& all_declined(
                execute,
                observed.situation(planned.path),
                cycle_candidates(observed, context),
            )
        }
}

/// Whatever the planner gives, some candidate of the cycle is sure to yield a
/// command.
pub open spec fn surely_commits<
    C,
    P,
    S,
    O,
    Plan: FnOnce(bool) -> DribblePlan<S, O>,
    Execute: Fn(Action, &Situation<P, S>) -> Option<C>,
>(before: BehaviorView<C, P>, context: CycleContext<C, P>, plan: Plan, execute: Execute) -> bool {
    let observed = observed_in(before, context);
    forall|planned: DribblePlan<S, O>| #[trigger]
        call_ensures(
            plan,
            (context.subscriptions.spec_wants_dribble_path_obstacles(),),
            planned,
        ) ==> some_always_commands(
            execute,
            observed.situation(planned.path),
            cycle_candidates(observed, context),
        )
}

/// The obstacles that a plan carries; none where it carries no list.
pub open spec fn obstacles_or_empty<O>(obstacles: Option<Vec<O>>) -> Seq<O> {
    match obstacles {
        Some(obstacles) => obstacles@,
        None => Seq::empty(),
    }
}

/// `copy` holds a clone of each element of `source`, in the same order.
pub open spec fn cloned_list<O: Clone>(source: Seq<O>, copy: Seq<O>) -> bool {
    &&& source.len() == copy.len()
    &&& forall|index: int| 0 <= index < source.len() ==> cloned(source[index], #[trigger] copy[index])
}

/// The optional outputs of a cycle that committed `action` with the obstacles
/// `planned` of the dribble path.
pub open spec fn additional_outputs_match<O: Clone>(
    outputs: AdditionalOutputs<O>,
    subscriptions: Subscriptions,
    action: Action,
    planned: Option<Vec<O>>,
) -> bool {
    &&& outputs.active_action == (if subscriptions.active_action {
        Some(action)
    } else {
        None
    })
    &&& outputs.dribble_path_obstacles is Some <==> subscriptions.dribble_path_obstacles
    &&& outputs.dribble_path_obstacles is Some ==> cloned_list(
        obstacles_or_empty(planned),
        outputs.dribble_path_obstacles->0@,
    )
    &&& outputs.path_obstacles is Some <==> subscriptions.path_obstacles && action
        == Action::Dribble
    &&& outputs.path_obstacles is Some ==> outputs.path_obstacles->0@ == obstacles_or_empty(planned)
}

/// A copy of the planned obstacles, empty where there are none.
fn copy_or_empty<O: Clone>(obstacles: &Option<Vec<O>>) -> (copy: Vec<O>)
    ensures
        cloned_list(obstacles_or_empty(*obstacles), copy@),
{
    match obstacles {
        Some(obstacles) => {
            let copy = obstacles.clone();
            assert forall|index: int| 0 <= index < obstacles@.len() implies cloned(
                obstacles@[index],
                #[trigger] copy@[index],
            ) by {
                assert(cloned(obstacles[index], copy[index]));
            }
            copy
        },
        None => Vec::new(),
    }
}

/// The planned obstacles themselves, empty where there are none.
fn take_or_empty<O>(obstacles: Option<Vec<O>>) -> (taken: Vec<O>)
    ensures
        taken@ == obstacles_or_empty(obstacles),
{
    match obstacles {
        Some(obstacles) => obstacles,
        None => Vec::new(),
    }
}

impl<C, P> View for Behavior<C, P> {
    type V = BehaviorView<C, P>;

    closed spec fn view(&self) -> BehaviorView<C, P> {
        BehaviorView {
            last_motion_command: self.last_motion_command,
            last_known_ball_position: self.last_known_ball_position,
            active_since: self.active_since,
            previous_role: self.previous_role,
        }
    }
}

impl<C: Clone, P: Copy> Behavior<C, P> {
    /// An engine that has not run yet: the last command leaves the joints
    /// unstiff, the robot is inactive, and no meaningful role is recorded.
    pub fn new(context: CreationContext<C, P>) -> (behavior: Self)
        ensures
            behavior@ == (BehaviorView {
                last_motion_command: context.unstiff_command,
                last_known_ball_position: context.field_center,
                active_since: None,
                previous_role: Role::Searcher,
            }),
    {
        Behavior {
            last_motion_command: context.unstiff_command,
            last_known_ball_position: context.field_center,
            active_since: None,
            previous_role: Role::Searcher,
        }
    }

    /// An engine in a state that was saved before.
    pub fn restore(
        last_motion_command: C,
        last_known_ball_position: P,
        active_since: Option<Timestamp>,
        previous_role: Role,
    ) -> (behavior: Self)
        ensures
            behavior@ == (BehaviorView {
                last_motion_command,
                last_known_ball_position,
                active_since,
                previous_role,
            }),
    {
        Behavior { last_motion_command, last_known_ball_position, active_since, previous_role }
    }

    pub fn last_motion_command(&self) -> (command: &C)
        ensures
            *command == self@.last_motion_command,
    {
        &self.last_motion_command
    }

    pub fn last_known_ball_position(&self) -> (position: P)
        ensures
            position == self@.last_known_ball_position,
    {
        self.last_known_ball_position
    }

    pub fn active_since(&self) -> (since: Option<Timestamp>)
        ensures
            since == self@.active_since,
    {
        self.active_since
    }

    pub fn previous_role(&self) -> (role: Role)
        ensures
            role == self@.previous_role,
    {
        self.previous_role
    }

    /// Takes the world of one cycle into the hysteresis state: the ball
    /// position, the active-since timestamp and the debounced role. The last
    /// command stays.
    pub fn observe(&mut self, world_state: &WorldState<P>, now: Timestamp)
        ensures
            final(self)@ == old(self)@.observe(*world_state, now),
    {
        self.last_known_ball_position =
        update_ball_position(self.last_known_ball_position, &world_state.ball);
        self.active_since =
        update_active_since(self.active_since, world_state.robot.primary_state, now);
        self.previous_role = update_previous_role(self.previous_role, world_state.robot.role);
    }

    /// Runs one control tick.
    ///
    /// With an injected command the cycle emits exactly that command, plans
    /// nothing, asks no executor, publishes nothing and leaves the state as it
    /// was. Otherwise it takes in the world, builds the candidate list, has the
    /// dribble path planned by `plan`, asks `execute` for each candidate in order
    /// until one yields a command, and commits that command.
    ///
    /// `plan` is told whether the obstacles of the dribble path are wanted.
    ///
    /// The cycle fails without committing a command where the clock ran
    /// backwards or every candidate declined; the world has been taken in by
    /// then.
    pub fn cycle<S, O: Clone, Plan, Execute>(
        &mut self,
        context: CycleContext<C, P>,
        plan: Plan,
        execute: &Execute,
    ) -> (outcome: Result<CycleOutputs<C, S, O>, CycleError>) where
        Plan: FnOnce(bool) -> DribblePlan<S, O>,
        Execute: Fn(Action, &Situation<P, S>) -> Option<C>,

        requires
            context.parameters.injected_motion_command is None ==> call_requires(
                plan,
                (context.subscriptions.spec_wants_dribble_path_obstacles(),),
            ),
            can_ask(old(self)@, context, plan, *execute),
        ensures
            context.parameters.injected_motion_command is Some ==> bypassed(
                old(self)@,
                context,
                outcome,
                final(self)@,
            ),
            context.world_state.ball is None ==> final(self)@.last_known_ball_position == old(
                self,
            )@.last_known_ball_position,
            context.parameters.injected_motion_command is None ==> match outcome {
                Ok(outputs) => committed(
                    old(self)@,
                    context,
                    plan,
                    *execute,
                    outputs,
                    final(self)@,
                ),
                Err(CycleError::ClockWentBackwards) => final(self)@ == observed_in(
                    old(self)@,
                    context,
                ),
                Err(CycleError::NoActionAvailable) => final(self)@ == observed_in(
                    old(self)@,
                    context,
                ) && declined(old(self)@, context, plan, *execute),
            },
            context.parameters.injected_motion_command is None ==> (outcome == Err::<
                CycleOutputs<C, S, O>,
                CycleError,
            >(CycleError::ClockWentBackwards) <==> observed_in(old(self)@, context).is_ahead_of(
                context.cycle_time.start_time,
            )),
            context.parameters.injected_motion_command is None && !observed_in(
                old(self)@,
                context,
            ).is_ahead_of(context.cycle_time.start_time) && surely_commits(
                old(self)@,
                context,
                plan,
                *execute,
            ) ==> outcome is Ok,
    {
        let CycleContext {
            world_state,
            cycle_time,
            is_localization_converged,
            parameters,
            subscriptions,
        } = context;
        if let Some(command) = parameters.injected_motion_command {
            return Ok(
                CycleOutputs {
                    main_outputs: MainOutputs { motion_command: command, dribble_path: None },
                    additional_outputs: AdditionalOutputs {
                        path_obstacles: None,
                        dribble_path_obstacles: None,
                        active_action: None,
                    },
                },
            );
        }
        let now = cycle_time.start_time;
        self.observe(&world_state, now);
        let ghost observed = self@;

        if let Some(active_since) = self.active_since {
            if now.duration_since(active_since).is_none() {
                return Err(CycleError::ClockWentBackwards);
            }
        }
        let look_around = is_look_around_due(
            self.active_since,
            now,
            is_localization_converged,
            parameters.maximum_lookaround_duration,
        );
        let actions = build_candidates(
            world_state.robot.role,
            &world_state.filtered_game_controller_state,
            look_around,
        );

        let wanted = subscriptions.wants_dribble_path_obstacles();
        let planned = plan(wanted);
        let ghost planned_before = planned;
        let DribblePlan { path, path_obstacles } = planned;
        let dribble_path_obstacles = if subscriptions.dribble_path_obstacles {
            Some(copy_or_empty(&path_obstacles))
        } else {
            None
        };

        let situation = Situation {
            previous_role: self.previous_role,
            last_known_ball_position: self.last_known_ball_position,
            dribble_path: path,
        };
        proof {
            let candidates = cycle_candidates(observed, context);
            assert(situation == observed.situation(planned_before.path));
            assert(actions@ == candidates);
            assert(call_ensures(plan, (wanted,), planned_before));
            assert forall|index: int| 0 <= index < actions@.len() implies call_requires(
                *execute,
                (#[trigger] actions@[index], &situation),
            ) by {
                assert(actions@[index] == candidates[index]);
            }
        }
        match arbitrate(&actions, &situation, execute) {
            None => Err(CycleError::NoActionAvailable),
            Some((action, motion_command)) => {
                let active_action = if subscriptions.active_action {
                    Some(action)
                } else {
                    None
                };
                self.last_motion_command = motion_command.clone();
                let path_obstacles = if subscriptions.path_obstacles && action == Action::Dribble {
                    Some(take_or_empty(path_obstacles))
                } else {
                    None
                };
                let outputs = CycleOutputs {
                    main_outputs: MainOutputs { motion_command, dribble_path: situation.dribble_path },
                    additional_outputs: AdditionalOutputs {
                        path_obstacles,
                        dribble_path_obstacles,
                        active_action,
                    },
                };
                proof {
                    let candidates = cycle_candidates(observed, context);
                    let shown = observed.situation(planned_before.path);
                    assert(actions@ == candidates);
                    let index = choose|index: int|
                        candidates[index] == action && #[trigger] wins_at(
                            *execute,
                            shown,
                            candidates,
                            index,
                            motion_command,
                        );
                    assert(call_ensures(plan, (wanted,), planned_before));
                    assert(wins_at(
                        *execute,
                        shown,
                        candidates,
                        index,
                        outputs.main_outputs.motion_command,
                    ));
                    assert(outputs.main_outputs.dribble_path == planned_before.path);
                    assert(additional_outputs_match(
                        outputs.additional_outputs,
                        context.subscriptions,
                        candidates[index],
                        planned_before.path_obstacles,
                    ));
                }
                Ok(outputs)
            },
        }
    }
}

} // verus!
