use vstd::prelude::*;

verus! {

/// The tactical assignment of a robot within its team.
#[derive(Clone, Copy, Debug, PartialEq, Eq, Structural)]
pub enum Role {
    DefenderLeft,
    DefenderRight,
    Keeper,
    Loser,
    MidfielderLeft,
    MidfielderRight,
    ReplacementKeeper,
    Searcher,
    Striker,
    StrikerSupporter,
}

/// The game-lifecycle phase a single robot is in.
#[derive(Clone, Copy, Debug, PartialEq, Eq, Structural)]
pub enum PrimaryState {
    Unstiff,
    Animation,
    Initial,
    Ready,
    /// The referee's `Set`: robots hold their positions until play starts.
    InSet,
    Playing,
    Penalized,
    Finished,
    Calibration,
    Standby,
}

impl PrimaryState {
    /// The robot takes part in play: it is in `Ready`, `InSet` or `Playing`.
    pub open spec fn spec_is_active(self) -> bool {
        self == PrimaryState::Ready || self == PrimaryState::InSet || self == PrimaryState::Playing
    }

    #[verifier::when_used_as_spec(spec_is_active)]
    pub fn is_active(self) -> (active: bool)
        ensures
            active == self.spec_is_active(),
    {
        match self {
            PrimaryState::Ready | PrimaryState::InSet | PrimaryState::Playing => true,
            _ => false,
        }
    }
}

#[derive(Clone, Copy, Debug, PartialEq, Eq, Structural)]
pub enum Team {
    Hulks,
    Opponent,
    Uncertain,
}

#[derive(Clone, Copy, Debug, PartialEq, Eq, Structural)]
pub enum GamePhase {
    Normal,
    PenaltyShootout { kicking_team: Team },
    Overtime,
    Timeout,
}

#[derive(Clone, Copy, Debug, PartialEq, Eq, Structural)]
pub enum SubState {
    CornerKick,
    GoalKick,
    KickIn,
    PenaltyKick,
    PushingFreeKick,
}

/// The game state as the referee announced it, smoothed locally.
#[derive(Clone, Copy, Debug, PartialEq, Eq, Structural)]
pub enum FilteredGameState {
    Initial,
    Ready { kicking_team: Team },
    InSet,
    Playing { ball_is_free: bool, kick_off: bool },
    Finished,
}

/// What the arbitration reads of the filtered game-controller state.
#[derive(Clone, Copy, Debug, PartialEq, Eq, Structural)]
pub struct FilteredGameControllerState {
    pub game_state: FilteredGameState,
    pub game_phase: GamePhase,
    pub kicking_team: Team,
    pub sub_state: Option<SubState>,
}

#[derive(Clone, Copy, Debug, PartialEq, Eq, Structural)]
pub struct RobotState {
    pub role: Role,
    pub primary_state: PrimaryState,
}

/// A ball observation; `P` is a position in field coordinates.
#[derive(Debug)]
pub struct BallState<P> {
    pub ball_in_field: P,
}

impl<P: Copy> Clone for BallState<P> {
    fn clone(&self) -> (copy: Self)
        ensures
            copy == *self,
    {
        *self
    }
}

impl<P: Copy> Copy for BallState<P> {

}

/// The part of the perceived world that the arbitration itself reads. Executors
/// see the full snapshot; the core never changes it.
#[derive(Debug)]
pub struct WorldState<P> {
    pub robot: RobotState,
    pub filtered_game_controller_state: Option<FilteredGameControllerState>,
    pub ball: Option<BallState<P>>,
}

impl<P: Copy> Clone for WorldState<P> {
    fn clone(&self) -> (copy: Self)
        ensures
            copy == *self,
    {
        *self
    }
}

impl<P: Copy> Copy for WorldState<P> {

}

} // verus!
