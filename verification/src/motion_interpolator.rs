use vstd::prelude::*;

use crate::time::Nanoseconds;

verus! {

/// One step of a motion: a spline `S` through joint positions, or a condition
/// `C` that the robot waits for.
pub enum MotionItem<S, C> {
    Spline(S),
    Condition(C),
}

/// Plays the items of a motion one after the other. The splines and
/// conditions themselves are worked by the functions that the caller hands in.
pub struct MotionInterpolator<S, C> {
    items: Vec<MotionItem<S, C>>,
    index: usize,
}

/// The mathematical model of a `MotionInterpolator`.
pub ghost struct InterpolatorView<S, C> {
    pub items: Seq<MotionItem<S, C>>,
    pub index: int,
}

/// A frame of a motion file: joint positions `J` to reach within a duration, or
/// a condition to wait for.
pub enum MotionFileFrame<J, C> {
    Joints { duration: Nanoseconds, positions: J },
    Condition(C),
}

/// A point of a spline: the positions to have at a time from the motion's start.
pub struct KeyFrame<J> {
    pub time: Nanoseconds,
    pub positions: J,
}

impl<J: Copy> Clone for KeyFrame<J> {
    fn clone(&self) -> (copy: Self)
        ensures
            copy == *self,
    {
        *self
    }
}

impl<J: Copy> Copy for KeyFrame<J> {

}

/// Why a motion has no value.
pub enum ValueError<E> {
    /// The current spline could not be computed.
    Spline(E),
    /// The motion holds no spline to take positions from.
    NoSplines,
}

/// The last spline of `items`.
pub open spec fn last_spline<S, C>(items: Seq<MotionItem<S, C>>) -> Option<S>
    decreases items.len(),
{
    if items.len() == 0 {
        None
    } else {
        match items.last() {
            MotionItem::Spline(spline) => Some(spline),
            MotionItem::Condition(_) => last_spline(items.drop_last()),
        }
    }
}

/// The first spline of `items`.
pub open spec fn first_spline<S, C>(items: Seq<MotionItem<S, C>>) -> Option<S>
    decreases items.len(),
{
    if items.len() == 0 {
        None
    } else {
        match items.first() {
            MotionItem::Spline(spline) => Some(spline),
            MotionItem::Condition(_) => first_spline(items.drop_first()),
        }
    }
}

/// `outcome` is an answer of the item's own test for being finished.
pub open spec fn item_finished<S, C, FS: Fn(&S) -> bool, FC: Fn(&C) -> bool>(
    item: MotionItem<S, C>,
    spline_is_finished: FS,
    condition_is_finished: FC,
    outcome: bool,
) -> bool {
    match item {
        MotionItem::Spline(spline) => call_ensures(spline_is_finished, (&spline,), outcome),
        MotionItem::Condition(condition) => call_ensures(
            condition_is_finished,
            (&condition,),
            outcome,
        ),
    }
}

/// `after` is `before` with its spline or condition worked by the matching
/// function.
pub open spec fn item_worked<S, C, FS: Fn(S) -> S, FC: Fn(C) -> C>(
    before: MotionItem<S, C>,
    on_spline: FS,
    on_condition: FC,
    after: MotionItem<S, C>,
) -> bool {
    match before {
        MotionItem::Spline(spline) => after is Spline && call_ensures(
            on_spline,
            (spline,),
            after->Spline_0,
        ),
        MotionItem::Condition(condition) => after is Condition && call_ensures(
            on_condition,
            (condition,),
            after->Condition_0,
        ),
    }
}

/// The time from the motion's start at which the first `count` frames end.
pub open spec fn time_after<J, C>(frames: Seq<MotionFileFrame<J, C>>, count: int) -> nat
    decreases count,
{
    if count <= 0 {
        0
    } else {
        time_after(frames, count - 1) + (match frames[count - 1] {
            MotionFileFrame::Joints { duration, .. } => duration as nat,
            MotionFileFrame::Condition(_) => 0nat,
        })
    }
}

/// The key frames that wait to become a spline after the first `count` frames:
/// the positions that the motion has come to, and behind them those of each
/// joints frame since the last condition.
pub open spec fn pending_keys<J, C>(
    initial_positions: J,
    frames: Seq<MotionFileFrame<J, C>>,
    count: int,
) -> Seq<KeyFrame<J>>
    decreases count,
{
    if count <= 0 {
        seq![KeyFrame { time: 0, positions: initial_positions }]
    } else {
        let before = pending_keys(initial_positions, frames, count - 1);
        match frames[count - 1] {
            MotionFileFrame::Joints { positions, .. } => before.push(
                KeyFrame { time: time_after(frames, count) as u128, positions },
            ),
            MotionFileFrame::Condition(_) => seq![before.last()],
        }
    }
}

/// `make_spline` may answer `outcome` when given the key frames `keys`.
pub open spec fn spline_made<S, J, E, F: Fn(Vec<KeyFrame<J>>) -> Result<S, E>>(
    make_spline: F,
    keys: Seq<KeyFrame<J>>,
    outcome: Result<S, E>,
) -> bool {
    exists|given: Vec<KeyFrame<J>>| given@ == keys && #[trigger] call_ensures(
        make_spline,
        (given,),
        outcome,
    )
}

/// `items` are what the first `count` frames turn into: for each condition, a
/// spline through the key frames that waited when it came, and the condition
/// itself. Joints frames behind the last condition turn into nothing.
pub open spec fn items_built<S, C, J, E, F: Fn(Vec<KeyFrame<J>>) -> Result<S, E>>(
    make_spline: F,
    initial_positions: J,
    frames: Seq<MotionFileFrame<J, C>>,
    count: int,
    items: Seq<MotionItem<S, C>>,
) -> bool
    decreases count,
{
    if count <= 0 {
        items.len() == 0
    } else {
        match frames[count - 1] {
            MotionFileFrame::Joints { .. } => items_built(
                make_spline,
                initial_positions,
                frames,
                count - 1,
                items,
            ),
            MotionFileFrame::Condition(condition) => {
                &&& items.len() >= 2
                &&& items_built(
                    make_spline,
                    initial_positions,
                    frames,
                    count - 1,
                    items.take(items.len() - 2),
                )
                &&& items[items.len() - 2] is Spline
                &&& spline_made(
                    make_spline,
                    pending_keys(initial_positions, frames, count - 1),
                    Ok::<S, E>(items[items.len() - 2]->Spline_0),
                )
                &&& items[items.len() - 1] == MotionItem::<S, C>::Condition(condition)
            },
        }
    }
}

impl<S, C> MotionItem<S, C> {
    /// Whether the item is finished, by its own test.
    pub fn is_finished<FS: Fn(&S) -> bool, FC: Fn(&C) -> bool>(
        &self,
        spline_is_finished: &FS,
        condition_is_finished: &FC,
    ) -> (finished: bool)
        requires
            forall|spline: S| call_requires(*spline_is_finished, (&spline,)),
            forall|condition: C| call_requires(*condition_is_finished, (&condition,)),
        ensures
            item_finished(*self, *spline_is_finished, *condition_is_finished, finished),
    {
        match self {
            MotionItem::Spline(spline) => spline_is_finished(spline),
            MotionItem::Condition(condition) => condition_is_finished(condition),
        }
    }
}

impl<S, C> View for MotionInterpolator<S, C> {
    type V = InterpolatorView<S, C>;

    closed spec fn view(&self) -> InterpolatorView<S, C> {
        InterpolatorView { items: self.items@, index: self.index as int }
    }
}

impl<S, C> InterpolatorView<S, C> {
    /// The interpolator stands at one of its items.
    pub open spec fn wf(self) -> bool {
        0 <= self.index < self.items.len()
    }

    pub open spec fn current(self) -> MotionItem<S, C> {
        self.items[self.index]
    }

    /// The last spline before the current item.
    pub open spec fn prior_spline(self) -> Option<S> {
        last_spline(self.items.take(self.index))
    }

    /// The first spline from the current item on.
    pub open spec fn next_spline(self) -> Option<S> {
        first_spline(self.items.skip(self.index))
    }
}

impl<S, C> MotionInterpolator<S, C> {
    /// An interpolator that stands at the first of `items`.
    pub fn new(items: Vec<MotionItem<S, C>>) -> (interpolator: Self)
        ensures
            interpolator@ == (InterpolatorView { items: items@, index: 0 }),
    {
        MotionInterpolator { items, index: 0 }
    }

    /// Turns the frames of a motion file into the items of a motion. Each
    /// condition closes the spline through the key frames before it; the next
    /// spline starts where that one ends. The first spline that cannot be
    /// made ends the work with its error.
    pub fn try_from<J: Copy, E, F: Fn(Vec<KeyFrame<J>>) -> Result<S, E>>(
        initial_positions: J,
        frames: Vec<MotionFileFrame<J, C>>,
        make_spline: &F,
    ) -> (outcome: Result<Self, E>)
        requires
            time_after(frames@, frames@.len() as int) <= u128::MAX,
            forall|keys: Vec<KeyFrame<J>>| call_requires(*make_spline, (keys,)),
        ensures
            match outcome {
                Ok(interpolator) => {
                    &&& interpolator@.index == 0
                    &&& items_built(
                        *make_spline,
                        initial_positions,
                        frames@,
                        frames@.len() as int,
                        interpolator@.items,
                    )
                },
                Err(error) => exists|stop: int, made: Seq<MotionItem<S, C>>|
                    {
                        &&& 0 <= stop < frames@.len()
                        &&& frames@[stop] is Condition
                        &&& #[trigger] items_built(
                            *make_spline,
                            initial_positions,
                            frames@,
                            stop,
                            made,
                        )
                        &&& spline_made(
                            *make_spline,
                            pending_keys(initial_positions, frames@, stop),
                            Err::<S, E>(error),
                        )
                    },
            },
    {
        let ghost all = frames@;
        let mut remaining = frames;
        let mut current_time: u128 = 0;
        let mut current_spline_frames: Vec<KeyFrame<J>> = Vec::new();
        current_spline_frames.push(KeyFrame { time: current_time, positions: initial_positions });
        let mut motion_items: Vec<MotionItem<S, C>> = Vec::new();
        let total = remaining.len();
        let mut count: usize = 0;
        assert(current_spline_frames@ =~= pending_keys(initial_positions, all, 0));
        while count < total
            invariant
                total == all.len(),
                count <= total,
                all == frames@,
                remaining@ == all.skip(count as int),
                time_after(all, all.len() as int) <= u128::MAX,
                current_time == time_after(all, count as int),
                current_spline_frames@ == pending_keys(initial_positions, all, count as int),
                current_spline_frames@.len() > 0,
                items_built(*make_spline, initial_positions, all, count as int, motion_items@),
                forall|keys: Vec<KeyFrame<J>>| call_requires(*make_spline, (keys,)),
            decreases total - count,
        {
            let frame = remaining.remove(0);
            proof {
                assert(frame == all[count as int]);
                assert(remaining@ =~= all.skip(count + 1));
                lemma_time_grows(all, count + 1, all.len() as int);
            }
            match frame {
                MotionFileFrame::Joints { duration, positions } => {
                    current_time = current_time + duration;
                    current_spline_frames.push(KeyFrame { time: current_time, positions });
                },
                MotionFileFrame::Condition(condition) => {
                    let last = current_spline_frames[current_spline_frames.len() - 1];
                    let ghost keys = current_spline_frames@;
                    let ghost before = motion_items@;
                    match make_spline(current_spline_frames) {
                        Ok(spline) => {
                            motion_items.push(MotionItem::Spline(spline));
                            motion_items.push(MotionItem::Condition(condition));
                            proof {
                                let after = motion_items@;
                                assert(after.take(after.len() - 2) =~= before);
                                assert(spline_made(*make_spline, keys, Ok::<S, E>(spline)));
                            }
                        },
                        Err(error) => {
                            proof {
                                assert(spline_made(*make_spline, keys, Err::<S, E>(error)));
                                assert(items_built(
                                    *make_spline,
                                    initial_positions,
                                    frames@,
                                    count as int,
                                    before,
                                ));
                                assert(frames@[count as int] is Condition);
                                assert(spline_made(
                                    *make_spline,
                                    pending_keys(initial_positions, frames@, count as int),
                                    Err::<S, E>(error),
                                ));
                            }
                            return Err(error);
                        },
                    }
                    current_spline_frames = Vec::new();
                    current_spline_frames.push(last);
                    assert(current_spline_frames@ =~= seq![keys.last()]);
                },
            }
            count += 1;
        }
        Ok(MotionInterpolator { items: motion_items, index: 0 })
    }

    /// The number of items.
    pub fn len(&self) -> (count: usize)
        ensures
            count == self@.items.len(),
    {
        self.items.len()
    }

    /// The place of the current item.
    pub fn index(&self) -> (index: usize)
        ensures
            index == self@.index,
    {
        self.index
    }

    /// The last spline before the current item.
    pub fn get_prior_spline(&self) -> (found: Option<&S>)
        requires
            self@.index <= self@.items.len(),
        ensures
            match found {
                Some(spline) => self@.prior_spline() == Some(*spline),
                None => self@.prior_spline() is None,
            },
    {
        let mut end = self.index;
        while end > 0
            invariant
                end <= self.index <= self.items@.len(),
                last_spline(self.items@.take(self.index as int)) == last_spline(
                    self.items@.take(end as int),
                ),
            decreases end,
        {
            proof {
                let front = self.items@.take(end as int);
                assert(front.last() == self.items@[end - 1]);
                assert(front.drop_last() =~= self.items@.take(end - 1));
            }
            match &self.items[end - 1] {
                MotionItem::Spline(spline) => {
                    return Some(spline);
                },
                MotionItem::Condition(_) => {},
            }
            end -= 1;
        }
        None
    }

    /// The first spline from the current item on.
    pub fn get_next_spline(&self) -> (found: Option<&S>)
        requires
            self@.index <= self@.items.len(),
        ensures
            match found {
                Some(spline) => self@.next_spline() == Some(*spline),
                None => self@.next_spline() is None,
            },
    {
        let mut start = self.index;
        while start < self.items.len()
            invariant
                self.index <= start <= self.items@.len(),
                first_spline(self.items@.skip(self.index as int)) == first_spline(
                    self.items@.skip(start as int),
                ),
            decreases self.items@.len() - start,
        {
            proof {
                let back = self.items@.skip(start as int);
                assert(back.first() == self.items@[start as int]);
                assert(back.drop_first() =~= self.items@.skip(start + 1));
            }
            match &self.items[start] {
                MotionItem::Spline(spline) => {
                    return Some(spline);
                },
                MotionItem::Condition(_) => {},
            }
            start += 1;
        }
        None
    }

    /// Lets the time step pass: a current spline is advanced by
    /// `advance_spline`, and where the current item is then finished and is not
    /// the last one, the interpolator moves on to the next.
    pub fn advance_by<FA: FnOnce(S) -> S, FS: Fn(&S) -> bool, FC: Fn(&C) -> bool>(
        &mut self,
        advance_spline: FA,
        spline_is_finished: &FS,
        condition_is_finished: &FC,
    )
        requires
            old(self)@.wf(),
            forall|spline: S| call_requires(advance_spline, (spline,)),
            forall|spline: S| call_requires(*spline_is_finished, (&spline,)),
            forall|condition: C| call_requires(*condition_is_finished, (&condition,)),
        ensures
            final(self)@.items.len() == old(self)@.items.len(),
            forall|i: int|
                0 <= i < old(self)@.items.len() && i != old(self)@.index ==> final(self)@.items[i]
                    == old(self)@.items[i],
            match old(self)@.current() {
                MotionItem::Spline(spline) => final(self)@.items[old(self)@.index] is Spline
                    && call_ensures(
                    advance_spline,
                    (spline,),
                    final(self)@.items[old(self)@.index]->Spline_0,
                ),
                MotionItem::Condition(_) => final(self)@.items[old(self)@.index]
                    == old(self)@.current(),
            },
            exists|finished: bool|
                {
                    &&& #[trigger] item_finished(
                        final(self)@.items[old(self)@.index],
                        *spline_is_finished,
                        *condition_is_finished,
                        finished,
                    )
                    &&& final(self)@.index == (if finished && old(self)@.index < old(
                        self,
                    )@.items.len() - 1 {
                        old(self)@.index + 1
                    } else {
                        old(self)@.index
                    })
                },
    {
        let ghost before = self.items@;
        let item = self.items.remove(self.index);
        let item = match item {
            MotionItem::Spline(interpolator) => MotionItem::Spline(advance_spline(interpolator)),
            MotionItem::Condition(condition) => MotionItem::Condition(condition),
        };
        let finished = item.is_finished(spline_is_finished, condition_is_finished);
        self.items.insert(self.index, item);
        assert(self.items@ =~= before.update(self.index as int, item));
        if finished && self.index < self.items.len() - 1 {
            self.index += 1;
        }
    }

    /// Whether the motion is over: the interpolator stands at the last item,
    /// and that item is finished.
    pub fn is_finished<FS: Fn(&S) -> bool, FC: Fn(&C) -> bool>(
        &self,
        spline_is_finished: &FS,
        condition_is_finished: &FC,
    ) -> (finished: bool)
        requires
            self@.items.len() > 0,
            forall|spline: S| call_requires(*spline_is_finished, (&spline,)),
            forall|condition: C| call_requires(*condition_is_finished, (&condition,)),
        ensures
            self@.index != self@.items.len() - 1 ==> !finished,
            self@.index == self@.items.len() - 1 ==> item_finished(
                self@.items.last(),
                *spline_is_finished,
                *condition_is_finished,
                finished,
            ),
    {
        self.index == self.items.len() - 1 && self.items[self.items.len() - 1].is_finished(
            spline_is_finished,
            condition_is_finished,
        )
    }

    /// The joint positions to take now. A current spline gives its value. A
    /// current condition gives its own value if it has one; else the end of
    /// the last spline before it; else the start of the first spline behind it.
    pub fn value<
        J,
        E,
        FV: Fn(&S) -> Result<J, E>,
        FC: Fn(&C) -> Option<J>,
        FE: Fn(&S) -> J,
        FS: Fn(&S) -> J,
    >(
        &self,
        spline_value: &FV,
        condition_value: &FC,
        end_position: &FE,
        start_position: &FS,
    ) -> (outcome: Result<J, ValueError<E>>)
        requires
            self@.wf(),
            forall|spline: S| call_requires(*spline_value, (&spline,)),
            forall|condition: C| call_requires(*condition_value, (&condition,)),
            forall|spline: S| call_requires(*end_position, (&spline,)),
            forall|spline: S| call_requires(*start_position, (&spline,)),
        ensures
            match self@.current() {
                MotionItem::Spline(spline) => match outcome {
                    Ok(positions) => call_ensures(*spline_value, (&spline,), Ok::<J, E>(positions)),
                    Err(ValueError::Spline(error)) => call_ensures(
                        *spline_value,
                        (&spline,),
                        Err::<J, E>(error),
                    ),
                    Err(ValueError::NoSplines) => false,
                },
                MotionItem::Condition(condition) => exists|own: Option<J>|
                    {
                        &&& #[trigger] call_ensures(*condition_value, (&condition,), own)
                        &&& match own {
                            Some(positions) => outcome == Ok::<J, ValueError<E>>(positions),
                            None => match self@.prior_spline() {
                                Some(prior) => outcome is Ok && call_ensures(
                                    *end_position,
                                    (&prior,),
                                    outcome->Ok_0,
                                ),
                                None => match self@.next_spline() {
                                    Some(next) => outcome is Ok && call_ensures(
                                        *start_position,
                                        (&next,),
                                        outcome->Ok_0,
                                    ),
                                    None => outcome == Err::<J, ValueError<E>>(
                                        ValueError::NoSplines,
                                    ),
                                },
                            },
                        }
                    },
            },
    {
        match &self.items[self.index] {
            MotionItem::Spline(spline) => match spline_value(spline) {
                Ok(positions) => Ok(positions),
                Err(error) => Err(ValueError::Spline(error)),
            },
            MotionItem::Condition(condition) => match condition_value(condition) {
                Some(positions) => Ok(positions),
                None => match self.get_prior_spline() {
                    Some(prior) => Ok(end_position(prior)),
                    None => match self.get_next_spline() {
                        Some(next) => Ok(start_position(next)),
                        None => Err(ValueError::NoSplines),
                    },
                },
            },
        }
    }

    /// Works every item: splines by `on_spline`, conditions by `on_condition`.
    /// The interpolator stays at its place.
    pub fn for_each_item<FS: Fn(S) -> S, FC: Fn(C) -> C>(
        &mut self,
        on_spline: &FS,
        on_condition: &FC,
    )
        requires
            forall|spline: S| call_requires(*on_spline, (spline,)),
            forall|condition: C| call_requires(*on_condition, (condition,)),
        ensures
            final(self)@.index == old(self)@.index,
            final(self)@.items.len() == old(self)@.items.len(),
            forall|i: int|
                0 <= i < old(self)@.items.len() ==> item_worked(
                    old(self)@.items[i],
                    *on_spline,
                    *on_condition,
                    #[trigger] final(self)@.items[i],
                ),
    {
        let ghost before = self.items@;
        let mut place: usize = 0;
        while place < self.items.len()
            invariant
                place <= self.items@.len(),
                self.items@.len() == before.len(),
                self.index == old(self).index,
                forall|i: int|
                    0 <= i < place ==> item_worked(
                        before[i],
                        *on_spline,
                        *on_condition,
                        #[trigger] self.items@[i],
                    ),
                forall|i: int| place <= i < before.len() ==> self.items@[i] == before[i],
                forall|spline: S| call_requires(*on_spline, (spline,)),
                forall|condition: C| call_requires(*on_condition, (condition,)),
            decreases self.items@.len() - place,
        {
            let ghost so_far = self.items@;
            let item = self.items.remove(place);
            let item = match item {
                MotionItem::Spline(spline) => MotionItem::Spline(on_spline(spline)),
                MotionItem::Condition(condition) => MotionItem::Condition(on_condition(condition)),
            };
            self.items.insert(place, item);
            assert(self.items@ =~= so_far.update(place as int, item));
            place += 1;
        }
        assert(before == old(self)@.items);
    }

    /// Puts every spline and every condition back to its start. The
    /// interpolator stays at its place.
    pub fn reset<FS: Fn(S) -> S, FC: Fn(C) -> C>(&mut self, reset_spline: &FS, reset_condition: &FC)
        requires
            forall|spline: S| call_requires(*reset_spline, (spline,)),
            forall|condition: C| call_requires(*reset_condition, (condition,)),
        ensures
            final(self)@.index == old(self)@.index,
            final(self)@.items.len() == old(self)@.items.len(),
            forall|i: int|
                0 <= i < old(self)@.items.len() ==> item_worked(
                    old(self)@.items[i],
                    *reset_spline,
                    *reset_condition,
                    #[trigger] final(self)@.items[i],
                ),
    {
        self.for_each_item(reset_spline, reset_condition);
    }

    /// Shows the sensor data to every condition, through `update_condition`.
    /// The splines and the interpolator's place stay.
    pub fn update<FC: Fn(C) -> C>(&mut self, update_condition: &FC)
        requires
            forall|condition: C| call_requires(*update_condition, (condition,)),
        ensures
            final(self)@.index == old(self)@.index,
            final(self)@.items.len() == old(self)@.items.len(),
            forall|i: int|
                0 <= i < old(self)@.items.len() ==> match old(self)@.items[i] {
                    MotionItem::Spline(_) => (#[trigger] final(self)@.items[i]) == old(
                        self,
                    )@.items[i],
                    MotionItem::Condition(condition) => final(self)@.items[i] is Condition
                        && call_ensures(
                        *update_condition,
                        (condition,),
                        final(self)@.items[i]->Condition_0,
                    ),
                },
    {
        let keep = |spline: S| -> (kept: S)
            ensures
                kept == spline,
            { spline };
        self.for_each_item(&keep, update_condition);
        assert forall|i: int| 0 <= i < old(self)@.items.len() implies match old(self)@.items[i] {
            MotionItem::Spline(_) => (#[trigger] final(self)@.items[i]) == old(self)@.items[i],
            MotionItem::Condition(condition) => final(self)@.items[i] is Condition && call_ensures(
                *update_condition,
                (condition,),
                final(self)@.items[i]->Condition_0,
            ),
        } by {
            assert(item_worked(old(self)@.items[i], keep, *update_condition, final(self)@.items[i]));
        }
    }
}

/// The time at which frames end does not fall as more frames are counted.
pub proof fn lemma_time_grows<J, C>(frames: Seq<MotionFileFrame<J, C>>, fewer: int, more: int)
    requires
        fewer <= more,
    ensures
        time_after(frames, fewer) <= time_after(frames, more),
    decreases more - fewer,
{
    if fewer < more {
        lemma_time_grows(frames, fewer, more - 1);
    }
}

} // verus!
