use vstd::prelude::*;

use crate::association::{
    distinct_keys, has_key, lemma_map_of, lemma_map_of_push, lemma_map_of_update, map_of,
};
use crate::time::{Nanoseconds, Timestamp};
use crate::world::{GamePhase, SubState, Team};

verus! {

/// A contact counts towards a collision while it is younger than this.
pub const CONTACT_WINDOW: Nanoseconds = 5_000_000_000;

/// After a collision warning, no other is given for this long.
pub const COLLISION_WARNING_COOLDOWN: Nanoseconds = 10_000_000_000;

/// The game state as a game controller announces it.
#[derive(Clone, Copy, Debug, PartialEq, Eq, Structural)]
pub enum GameState {
    Initial,
    Ready,
    InSet,
    Playing,
    Finished,
    Standby,
}

/// The network address that a message came from.
#[derive(Clone, Copy, Debug, PartialEq, Eq, Structural)]
pub enum SourceAddress {
    V4 { octets: u32, port: u16 },
    V6 { segments: u128, port: u16, flow_info: u32, scope_id: u32 },
}

/// What a game controller announces. `T` holds the penalties of the own
/// team's players; the filter hands it on unread.
#[derive(Debug)]
pub struct GameControllerStateMessage<T> {
    pub game_state: GameState,
    pub game_phase: GamePhase,
    pub kicking_team: Team,
    pub sub_state: Option<SubState>,
    pub penalties: T,
    pub remaining_amount_of_messages: u16,
    pub hulks_team_is_home_after_coin_toss: bool,
}

/// The state of the game as last announced.
#[derive(Debug)]
pub struct GameControllerState<T> {
    pub game_state: GameState,
    pub game_phase: GamePhase,
    pub kicking_team: Team,
    pub last_game_state_change: Timestamp,
    pub penalties: T,
    pub remaining_amount_of_messages: u16,
    pub sub_state: Option<SubState>,
    pub hulks_team_is_home_after_coin_toss: bool,
}

/// A message of a game controller, with the time and the source of its arrival.
#[derive(Debug)]
pub struct ReceivedMessage<T> {
    pub time: Timestamp,
    pub source_address: SourceAddress,
    pub message: GameControllerStateMessage<T>,
}

impl<T: Copy> Clone for GameControllerStateMessage<T> {
    fn clone(&self) -> (copy: Self)
        ensures
            copy == *self,
    {
        *self
    }
}

impl<T: Copy> Copy for GameControllerStateMessage<T> {

}

impl<T: Copy> Clone for GameControllerState<T> {
    fn clone(&self) -> (copy: Self)
        ensures
            copy == *self,
    {
        *self
    }
}

impl<T: Copy> Copy for GameControllerState<T> {

}

impl<T: Copy> Clone for ReceivedMessage<T> {
    fn clone(&self) -> (copy: Self)
        ensures
            copy == *self,
    {
        *self
    }
}

impl<T: Copy> Copy for ReceivedMessage<T> {

}

/// A message arrived with a time before one that the filter has recorded.
#[derive(Clone, Copy, Debug, PartialEq, Eq, Structural)]
pub enum FilterError {
    TimeRanBackwards,
}

pub struct CreationContext {}

pub struct CycleContext<T> {
    pub cycle_start_time: Timestamp,
    /// The messages of game controllers since the last cycle, oldest first.
    pub network_messages: Vec<ReceivedMessage<T>>,
    /// Whether someone listens to the table of contacts.
    pub last_contact_subscribed: bool,
}

pub struct MainOutputs<T> {
    pub game_controller_state: Option<GameControllerState<T>>,
    /// The address that was heard from last.
    pub game_controller_address: Option<SourceAddress>,
}

pub struct CycleOutputs<T> {
    pub main_outputs: MainOutputs<T>,
    /// The table of contacts, where someone listens to it.
    pub last_contact: Option<Vec<(SourceAddress, Timestamp)>>,
    /// How often the collision sound is to be played.
    pub collision_warnings: usize,
}

/// Follows the announcements of game controllers, and warns when more than one
/// of them is heard at a time.
pub struct GameControllerFilter<T> {
    game_controller_state: Option<GameControllerState<T>>,
    last_game_state_change: Option<Timestamp>,
    last_contact: Vec<(SourceAddress, Timestamp)>,
    last_collision_warning: Option<Timestamp>,
}

/// The mathematical model of a `GameControllerFilter`.
pub ghost struct FilterView<T> {
    pub game_controller_state: Option<GameControllerState<T>>,
    pub last_game_state_change: Option<Timestamp>,
    pub last_contact: Map<SourceAddress, Timestamp>,
    pub last_collision_warning: Option<Timestamp>,
}

/// A contact at `contact` is recent at `time`.
pub open spec fn is_recent(contact: Timestamp, time: Timestamp) -> bool {
    time.nanos - contact.nanos < CONTACT_WINDOW
}

/// Two different addresses were heard from recently.
pub open spec fn collides(contacts: Map<SourceAddress, Timestamp>, time: Timestamp) -> bool {
    exists|a: SourceAddress, b: SourceAddress|
        {
            &&& a != b
            &&& #[trigger] contacts.dom().contains(a)
            &&& #[trigger] contacts.dom().contains(b)
            &&& is_recent(contacts[a], time)
            &&& is_recent(contacts[b], time)
        }
}

/// `address` is one that was heard from last; none where no address was.
pub open spec fn is_latest(
    contacts: Map<SourceAddress, Timestamp>,
    address: Option<SourceAddress>,
) -> bool {
    match address {
        Some(address) => {
            &&& contacts.dom().contains(address)
            &&& forall|other: SourceAddress| #[trigger]
                contacts.dom().contains(other) ==> contacts[other].nanos <= contacts[address].nanos
        },
        None => forall|other: SourceAddress| !contacts.dom().contains(other),
    }
}

impl<T> FilterView<T> {
    /// The filter holds a time after the arrival of `received`: that of the
    /// last warning, or that of a contact with another address.
    pub open spec fn is_ahead_of(self, received: ReceivedMessage<T>) -> bool {
        ||| self.last_collision_warning is Some && received.time.nanos
            < self.last_collision_warning->0.nanos
        ||| exists|other: SourceAddress|
            {
                &&& other != received.source_address
                &&& #[trigger] self.last_contact.dom().contains(other)
                &&& received.time.nanos < self.last_contact[other].nanos
            }
    }

    /// The game state of `received` differs from the one on record.
    pub open spec fn game_state_changes(self, received: ReceivedMessage<T>) -> bool {
        self.game_controller_state is None || self.game_controller_state->0.game_state
            != received.message.game_state
    }

    /// The time of the last change of the game state, once `received` has been
    /// taken in during a cycle that started at `now`.
    pub open spec fn next_game_state_change(
        self,
        now: Timestamp,
        received: ReceivedMessage<T>,
    ) -> Option<Timestamp> {
        if self.game_state_changes(received) {
            Some(now)
        } else {
            self.last_game_state_change
        }
    }

    /// Whether `received` gives rise to a collision warning.
    pub open spec fn warns(self, received: ReceivedMessage<T>) -> bool {
        &&& collides(
            self.last_contact.insert(received.source_address, received.time),
            received.time,
        )
        &&& !(self.last_collision_warning is Some && received.time.nanos
            - self.last_collision_warning->0.nanos < COLLISION_WARNING_COOLDOWN)
    }

    /// The filter after `received` has been taken in.
    pub open spec fn receive(self, now: Timestamp, received: ReceivedMessage<T>) -> Self {
        FilterView {
            game_controller_state: Some(
                GameControllerState {
                    game_state: received.message.game_state,
                    game_phase: received.message.game_phase,
                    kicking_team: received.message.kicking_team,
                    last_game_state_change: self.next_game_state_change(now, received)->0,
                    penalties: received.message.penalties,
                    remaining_amount_of_messages: received.message.remaining_amount_of_messages,
                    sub_state: received.message.sub_state,
                    hulks_team_is_home_after_coin_toss:
                        received.message.hulks_team_is_home_after_coin_toss,
                },
            ),
            last_game_state_change: self.next_game_state_change(now, received),
            last_contact: self.last_contact.insert(received.source_address, received.time),
            last_collision_warning: if self.warns(received) {
                Some(received.time)
            } else {
                self.last_collision_warning
            },
        }
    }

    /// The filter after the messages have been taken in, one after the other.
    pub open spec fn receive_all(self, now: Timestamp, messages: Seq<ReceivedMessage<T>>) -> Self
        decreases messages.len(),
    {
        if messages.len() == 0 {
            self
        } else {
            self.receive_all(now, messages.drop_last()).receive(now, messages.last())
        }
    }

    /// The number of collision warnings that the messages give rise to.
    pub open spec fn count_warnings(self, now: Timestamp, messages: Seq<ReceivedMessage<T>>) -> nat
        decreases messages.len(),
    {
        if messages.len() == 0 {
            0
        } else {
            self.count_warnings(now, messages.drop_last()) + (if self.receive_all(
                now,
                messages.drop_last(),
            ).warns(messages.last()) {
                1nat
            } else {
                0nat
            })
        }
    }

    /// Time runs forward through the first `count` messages: none of them
    /// arrives before a time that the filter holds by then.
    pub open spec fn runs_forward(
        self,
        now: Timestamp,
        messages: Seq<ReceivedMessage<T>>,
        count: int,
    ) -> bool {
        forall|i: int|
            0 <= i < count ==> !(#[trigger] self.receive_all(now, messages.take(i))).is_ahead_of(
                messages[i],
            )
    }
}

impl<T> FilterView<T> {
    /// Time runs forward through the first `stop` messages, and the next one
    /// arrives before a time that the filter holds by then, which is `halted`.
    pub open spec fn stops_at(
        self,
        now: Timestamp,
        messages: Seq<ReceivedMessage<T>>,
        stop: int,
        halted: Self,
    ) -> bool {
        &&& 0 <= stop < messages.len()
        &&& self.runs_forward(now, messages, stop)
        &&& halted == self.receive_all(now, messages.take(stop))
        &&& halted.is_ahead_of(messages[stop])
    }
}

impl<T> View for GameControllerFilter<T> {
    type V = FilterView<T>;

    closed spec fn view(&self) -> FilterView<T> {
        FilterView {
            game_controller_state: self.game_controller_state,
            last_game_state_change: self.last_game_state_change,
            last_contact: map_of(self.last_contact@),
            last_collision_warning: self.last_collision_warning,
        }
    }
}

impl<T: Copy> GameControllerFilter<T> {
    /// The filter is well formed: it stores each address once, and knows when
    /// the game state on record was announced.
    pub closed spec fn wf(&self) -> bool {
        &&& distinct_keys(self.last_contact@)
        &&& self.game_controller_state is Some ==> self.last_game_state_change is Some
    }

    /// A filter that has heard nothing yet.
    pub fn new(_context: CreationContext) -> (filter: Self)
        ensures
            filter.wf(),
            filter@ == (FilterView::<T> {
                game_controller_state: None,
                last_game_state_change: None,
                last_contact: Map::empty(),
                last_collision_warning: None,
            }),
    {
        GameControllerFilter {
            game_controller_state: None,
            last_game_state_change: None,
            last_contact: Vec::new(),
            last_collision_warning: None,
        }
    }

    /// A filter in a state that was saved before; none where the saved state
    /// holds a game state but not the time of its last change. Of contacts
    /// with one address, the last one counts.
    pub fn restore(
        game_controller_state: Option<GameControllerState<T>>,
        last_game_state_change: Option<Timestamp>,
        contacts: &Vec<(SourceAddress, Timestamp)>,
        last_collision_warning: Option<Timestamp>,
    ) -> (restored: Option<Self>)
        ensures
            restored is None <==> game_controller_state is Some && last_game_state_change is None,
            restored is Some ==> restored->0.wf() && restored->0@ == (FilterView {
                game_controller_state,
                last_game_state_change,
                last_contact: map_of(contacts@),
                last_collision_warning,
            }),
    {
        if game_controller_state.is_some() && last_game_state_change.is_none() {
            return None;
        }
        let mut filter = GameControllerFilter {
            game_controller_state,
            last_game_state_change,
            last_contact: Vec::new(),
            last_collision_warning,
        };
        let mut index: usize = 0;
        assert(contacts@.take(0) =~= Seq::empty());
        while index < contacts.len()
            invariant
                index <= contacts@.len(),
                filter.wf(),
                filter@ == (FilterView {
                    game_controller_state,
                    last_game_state_change,
                    last_contact: map_of(contacts@.take(index as int)),
                    last_collision_warning,
                }),
            decreases contacts@.len() - index,
        {
            let (address, time) = contacts[index];
            proof {
                let next = contacts@.take(index + 1);
                assert(next.drop_last() =~= contacts@.take(index as int));
                assert(next.last() == (address, time));
            }
            filter.record_contact(address, time);
            index += 1;
        }
        assert(contacts@.take(index as int) =~= contacts@);
        Some(filter)
    }

    /// The time of the last collision warning.
    pub fn last_collision_warning(&self) -> (warning: Option<Timestamp>)
        ensures
            warning == self@.last_collision_warning,
    {
        self.last_collision_warning
    }

    /// The game state on record.
    pub fn game_controller_state(&self) -> (state: Option<GameControllerState<T>>)
        ensures
            state == self@.game_controller_state,
    {
        self.game_controller_state
    }

    /// The time of the last change of the game state.
    pub fn last_game_state_change(&self) -> (change: Option<Timestamp>)
        ensures
            change == self@.last_game_state_change,
    {
        self.last_game_state_change
    }

    /// Whether the filter holds a time after the arrival of `received`.
    fn holds_later_time(&self, received: &ReceivedMessage<T>) -> (later: bool)
        requires
            self.wf(),
        ensures
            later == self@.is_ahead_of(*received),
    {
        if let Some(warning) = self.last_collision_warning {
            if received.time.nanos < warning.nanos {
                return true;
            }
        }
        proof {
            lemma_map_of(self.last_contact@);
        }
        let mut index: usize = 0;
        while index < self.last_contact.len()
            invariant
                index <= self.last_contact@.len(),
                self.wf(),
                forall|i: int|
                    0 <= i < index ==> (#[trigger] self.last_contact@[i]).0
                        == received.source_address || self.last_contact@[i].1.nanos
                        <= received.time.nanos,
            decreases self.last_contact@.len() - index,
        {
            let (address, contact) = self.last_contact[index];
            if address != received.source_address && received.time.nanos < contact.nanos {
                proof {
                    lemma_map_of(self.last_contact@);
                    assert(self.last_contact@[index as int].0 == address);
                    assert(has_key(self.last_contact@, address));
                    assert(self@.last_contact.dom().contains(address));
                }
                return true;
            }
            index += 1;
        }
        proof {
            lemma_map_of(self.last_contact@);
            let contacts = self@.last_contact;
            assert forall|other: SourceAddress|
                other != received.source_address && #[trigger] contacts.dom().contains(
                    other,
                ) implies contacts[other].nanos <= received.time.nanos by {
                assert(has_key(self.last_contact@, other));
                let i = choose|i: int|
                    0 <= i < self.last_contact@.len() && (#[trigger] self.last_contact@[i]).0
                        == other;
                assert(contacts[self.last_contact@[i].0] == self.last_contact@[i].1);
            }
        }
        false
    }

    /// Where `address` stands among the contacts.
    fn position(&self, address: SourceAddress) -> (found: Option<usize>)
        ensures
            match found {
                Some(index) => index < self.last_contact@.len() && self.last_contact@[index as int].0
                    == address,
                None => !has_key(self.last_contact@, address),
            },
    {
        let mut index: usize = 0;
        while index < self.last_contact.len()
            invariant
                index <= self.last_contact@.len(),
                forall|i: int| 0 <= i < index ==> (#[trigger] self.last_contact@[i]).0 != address,
            decreases self.last_contact@.len() - index,
        {
            if self.last_contact[index].0 == address {
                return Some(index);
            }
            index += 1;
        }
        None
    }

    /// Records that `address` was heard from at `time`.
    fn record_contact(&mut self, address: SourceAddress, time: Timestamp)
        requires
            old(self).wf(),
        ensures
            final(self).wf(),
            final(self)@ == (FilterView {
                last_contact: old(self)@.last_contact.insert(address, time),
                ..old(self)@
            }),
    {
        match self.position(address) {
            Some(index) => {
                proof {
                    lemma_map_of_update(self.last_contact@, index as int, time);
                }
                self.last_contact.set(index, (address, time));
            },
            None => {
                proof {
                    lemma_map_of_push(self.last_contact@, address, time);
                }
                self.last_contact.push((address, time));
            },
        }
    }

    /// Whether two different addresses were heard from recently.
    fn hears_two(&self, time: Timestamp) -> (two: bool)
        requires
            self.wf(),
            forall|other: SourceAddress| #[trigger]
                self@.last_contact.dom().contains(other) ==> self@.last_contact[other].nanos
                    <= time.nanos,
        ensures
            two == collides(self@.last_contact, time),
    {
        let entries = &self.last_contact;
        let mut count: usize = 0;
        let mut index: usize = 0;
        let ghost mut first: int = 0;
        let ghost mut second: int = 0;
        proof {
            lemma_map_of(entries@);
            assert forall|i: int| 0 <= i < entries@.len() implies (#[trigger] entries@[i]).1.nanos
                <= time.nanos by {
                assert(has_key(entries@, entries@[i].0));
                assert(self@.last_contact.dom().contains(entries@[i].0));
            }
        }
        while index < entries.len()
            invariant
                index <= entries@.len(),
                count <= index,
                entries == &self.last_contact,
                forall|i: int|
                    0 <= i < entries@.len() ==> (#[trigger] entries@[i]).1.nanos <= time.nanos,
                count == 0 ==> forall|i: int|
                    0 <= i < index ==> !is_recent((#[trigger] entries@[i]).1, time),
                count >= 1 ==> 0 <= first < index && is_recent(entries@[first].1, time),
                count == 1 ==> forall|i: int|
                    0 <= i < index && is_recent((#[trigger] entries@[i]).1, time) ==> i == first,
                count >= 2 ==> first < second < index && is_recent(entries@[second].1, time),
            decreases entries@.len() - index,
        {
            let contact = entries[index].1;
            if time.nanos - contact.nanos < CONTACT_WINDOW {
                proof {
                    if count == 0 {
                        first = index as int;
                    } else if count == 1 {
                        second = index as int;
                    }
                }
                count += 1;
            }
            index += 1;
        }
        proof {
            lemma_map_of(entries@);
            let contacts = self@.last_contact;
            if count >= 2 {
                let a = entries@[first].0;
                let b = entries@[second].0;
                assert(has_key(entries@, a) && has_key(entries@, b));
                assert(contacts.dom().contains(a) && contacts.dom().contains(b));
                assert(contacts[a] == entries@[first].1 && contacts[b] == entries@[second].1);
                assert(a != b);
            }
            if collides(contacts, time) {
                let (a, b) = choose|a: SourceAddress, b: SourceAddress|
                    {
                        &&& a != b
                        &&& #[trigger] contacts.dom().contains(a)
                        &&& #[trigger] contacts.dom().contains(b)
                        &&& is_recent(contacts[a], time)
                        &&& is_recent(contacts[b], time)
                    };
                assert(has_key(entries@, a) && has_key(entries@, b));
                let i = choose|i: int| 0 <= i < entries@.len() && (#[trigger] entries@[i]).0 == a;
                let j = choose|j: int| 0 <= j < entries@.len() && (#[trigger] entries@[j]).0 == b;
                assert(contacts[entries@[i].0] == entries@[i].1);
                assert(contacts[entries@[j].0] == entries@[j].1);
                assert(i != j);
            }
        }
        count > 1
    }

    /// Takes in one message during a cycle that started at `now`, and says
    /// whether a collision warning is due. Where the filter holds a time after
    /// the message's arrival, it is left as it was.
    pub fn receive(&mut self, now: Timestamp, received: &ReceivedMessage<T>) -> (outcome: Result<
        bool,
        FilterError,
    >)
        requires
            old(self).wf(),
        ensures
            final(self).wf(),
            old(self)@.is_ahead_of(*received) ==> outcome == Err::<bool, FilterError>(
                FilterError::TimeRanBackwards,
            ) && final(self)@ == old(self)@,
            !old(self)@.is_ahead_of(*received) ==> outcome == Ok::<bool, FilterError>(
                old(self)@.warns(*received),
            ) && final(self)@ == old(self)@.receive(now, *received),
    {
        if self.holds_later_time(received) {
            return Err(FilterError::TimeRanBackwards);
        }
        let game_state_changed = match &self.game_controller_state {
            Some(game_controller_state) => game_controller_state.game_state
                != received.message.game_state,
            None => true,
        };
        let last_game_state_change = if game_state_changed {
            now
        } else {
            match self.last_game_state_change {
                Some(change) => change,
                None => now,
            }
        };
        self.last_game_state_change = Some(last_game_state_change);
        self.game_controller_state = Some(
            GameControllerState {
                game_state: received.message.game_state,
                game_phase: received.message.game_phase,
                kicking_team: received.message.kicking_team,
                last_game_state_change,
                penalties: received.message.penalties,
                remaining_amount_of_messages: received.message.remaining_amount_of_messages,
                sub_state: received.message.sub_state,
                hulks_team_is_home_after_coin_toss:
                    received.message.hulks_team_is_home_after_coin_toss,
            },
        );
        self.record_contact(received.source_address, received.time);
        let on_cooldown = match self.last_collision_warning {
            Some(warning) => received.time.nanos - warning.nanos < COLLISION_WARNING_COOLDOWN,
            None => false,
        };
        let collisions = self.hears_two(received.time);
        let warn = collisions && !on_cooldown;
        if warn {
            self.last_collision_warning = Some(received.time);
        }
        Ok(warn)
    }

    /// An address that was heard from last.
    pub fn latest_address(&self) -> (address: Option<SourceAddress>)
        requires
            self.wf(),
        ensures
            is_latest(self@.last_contact, address),
    {
        let entries = &self.last_contact;
        if entries.len() == 0 {
            proof {
                lemma_map_of(entries@);
                assert forall|other: SourceAddress| !self@.last_contact.dom().contains(other) by {
                    assert(!has_key(entries@, other));
                }
            }
            return None;
        }
        let mut best: usize = 0;
        let mut index: usize = 1;
        while index < entries.len()
            invariant
                entries == &self.last_contact,
                0 <= best < index <= entries@.len(),
                forall|i: int|
                    0 <= i < index ==> (#[trigger] entries@[i]).1.nanos <= entries@[best as int].1.nanos,
            decreases entries@.len() - index,
        {
            if entries[index].1.nanos >= entries[best].1.nanos {
                best = index;
            }
            index += 1;
        }
        proof {
            lemma_map_of(entries@);
            let contacts = self@.last_contact;
            let address = entries@[best as int].0;
            assert(has_key(entries@, address));
            assert(contacts[entries@[best as int].0] == entries@[best as int].1);
            assert forall|other: SourceAddress| #[trigger]
                contacts.dom().contains(other) implies contacts[other].nanos
                <= contacts[address].nanos by {
                assert(has_key(entries@, other));
                let i = choose|i: int| 0 <= i < entries@.len() && (#[trigger] entries@[i]).0 == other;
                assert(contacts[entries@[i].0] == entries@[i].1);
            }
        }
        Some(entries[best].0)
    }

    /// Takes in the messages of one cycle, oldest first.
    ///
    /// Where time runs forward through all of them, the filter has taken in
    /// each, and the outputs hold the game state on record, an address that
    /// was heard from last, the number of collision warnings that are due and,
    /// where someone listens, the table of contacts. Otherwise the cycle fails
    /// at the first message that arrives before a time on record, with the
    /// messages before it taken in.
    pub fn cycle(&mut self, context: CycleContext<T>) -> (outcome: Result<
        CycleOutputs<T>,
        FilterError,
    >)
        requires
            old(self).wf(),
        ensures
            final(self).wf(),
            outcome is Ok ==> {
                let outputs = outcome->Ok_0;
                let messages = context.network_messages@;
                &&& old(self)@.runs_forward(context.cycle_start_time, messages, messages.len() as int)
                &&& final(self)@ == old(self)@.receive_all(context.cycle_start_time, messages)
                &&& outputs.main_outputs.game_controller_state == final(self)@.game_controller_state
                &&& is_latest(
                    final(self)@.last_contact,
                    outputs.main_outputs.game_controller_address,
                )
                &&& outputs.collision_warnings == old(self)@.count_warnings(
                    context.cycle_start_time,
                    messages,
                )
                &&& outputs.last_contact is Some <==> context.last_contact_subscribed
                &&& outputs.last_contact is Some ==> map_of(outputs.last_contact->0@)
                    == final(self)@.last_contact
            },
            outcome is Err ==> exists|stop: int| #[trigger]
                old(self)@.stops_at(
                    context.cycle_start_time,
                    context.network_messages@,
                    stop,
                    final(self)@,
                ),
    {
        let now = context.cycle_start_time;
        let messages = &context.network_messages;
        let ghost before = self@;
        let mut collision_warnings: usize = 0;
        let mut index: usize = 0;
        assert(messages@.take(0) =~= Seq::empty());
        while index < messages.len()
            invariant
                index <= messages@.len(),
                messages == &context.network_messages,
                now == context.cycle_start_time,
                before == old(self)@,
                self.wf(),
                before.runs_forward(now, messages@, index as int),
                self@ == before.receive_all(now, messages@.take(index as int)),
                collision_warnings == before.count_warnings(now, messages@.take(index as int)),
                collision_warnings <= index,
            decreases messages@.len() - index,
        {
            let received = &messages[index];
            let ghost so_far = messages@.take(index as int);
            let ghost next = messages@.take(index + 1);
            proof {
                assert(next.drop_last() =~= so_far);
                assert(next.last() == messages@[index as int]);
            }
            match self.receive(now, received) {
                Ok(warn) => {
                    if warn {
                        collision_warnings += 1;
                    }
                },
                Err(error) => {
                    proof {
                        let stop = index as int;
                        let all = context.network_messages@;
                        assert(all == messages@);
                        assert(before.runs_forward(now, all, stop));
                        assert(before.receive_all(now, all.take(stop)).is_ahead_of(all[stop]));
                        assert(self@ == before.receive_all(now, all.take(stop)));
                        assert(before.stops_at(now, all, stop, self@));
                    }
                    return Err(error);
                },
            }
            proof {
                assert forall|i: int| 0 <= i < index + 1 implies !(#[trigger] before.receive_all(
                    now,
                    messages@.take(i),
                )).is_ahead_of(messages@[i]) by {
                    if i == index {
                        assert(messages@.take(i) == so_far);
                    }
                }
            }
            index += 1;
        }
        assert(messages@.take(index as int) =~= messages@);
        let game_controller_address = self.latest_address();
        let last_contact = if context.last_contact_subscribed {
            Some(self.contacts())
        } else {
            None
        };
        Ok(
            CycleOutputs {
                main_outputs: MainOutputs {
                    game_controller_state: self.game_controller_state,
                    game_controller_address,
                },
                last_contact,
                collision_warnings,
            },
        )
    }

    /// The table of contacts: each address with the time it was last heard from.
    pub fn contacts(&self) -> (contacts: Vec<(SourceAddress, Timestamp)>)
        requires
            self.wf(),
        ensures
            distinct_keys(contacts@),
            map_of(contacts@) == self@.last_contact,
    {
        let mut contacts: Vec<(SourceAddress, Timestamp)> = Vec::new();
        let mut index: usize = 0;
        while index < self.last_contact.len()
            invariant
                index <= self.last_contact@.len(),
                contacts@ == self.last_contact@.take(index as int),
            decreases self.last_contact@.len() - index,
        {
            contacts.push(self.last_contact[index]);
            assert(contacts@ =~= self.last_contact@.take(index + 1));
            index += 1;
        }
        assert(contacts@ =~= self.last_contact@);
        contacts
    }
}

} // verus!
