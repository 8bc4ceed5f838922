use vstd::prelude::*;
use vstd::string::StrSliceExecFns;

use crate::association::{
    distinct_keys, has_key, lemma_map_of, lemma_map_of_len, lemma_map_of_push,
    lemma_map_of_update, map_of,
};

verus! {

/// The modifier keys held down with a key.
#[derive(Clone, Copy, Debug, PartialEq, Eq, Structural)]
pub struct Modifiers {
    pub alt: bool,
    pub ctrl: bool,
    pub shift: bool,
}

/// A key press that triggers an action: a lower-case letter or a digit, with
/// modifiers.
#[derive(Clone, Copy, Debug, PartialEq, Eq, Structural)]
pub struct KeybindTrigger {
    pub key: char,
    pub modifiers: Modifiers,
}

/// What a key press does.
#[derive(Clone, Copy, Debug, PartialEq, Eq, Structural)]
pub enum KeybindAction {
    CloseTab,
    DuplicateTab,
    FocusAbove,
    FocusAddress,
    FocusBelow,
    FocusLeft,
    FocusPanel,
    FocusRight,
    NoOp,
    OpenSplit,
    OpenTab,
    Reconnect,
}

/// Why a key binding was not understood.
#[derive(Clone, Copy, Debug, PartialEq, Eq, Structural)]
pub enum KeyError {
    /// The trigger is not a chain of modifiers that ends in a key.
    InvalidTrigger,
    /// No action has that name.
    UnknownAction,
}

pub open spec fn is_upper(c: char) -> bool {
    'A' <= c <= 'Z'
}

pub open spec fn is_lower(c: char) -> bool {
    'a' <= c <= 'z'
}

pub open spec fn is_digit(c: char) -> bool {
    '0' <= c <= '9'
}

/// The modifier letters: `A` for alt, `C` for ctrl, `S` for shift.
pub open spec fn is_modifier(c: char) -> bool {
    c == 'A' || c == 'C' || c == 'S'
}

/// The lower-case form of an ASCII letter; any other character itself.
pub open spec fn lower_case(c: char) -> char {
    if is_upper(c) {
        ((c as u8 + 32) as u8) as char
    } else {
        c
    }
}

/// The number of modifiers in a trigger text of odd length.
pub open spec fn modifier_count(text: Seq<char>) -> int {
    (text.len() - 1) / 2
}

/// The letter of the modifier at place `i` of a trigger text.
pub open spec fn modifier_at(text: Seq<char>, i: int) -> char {
    text[2 * i]
}

/// The character behind the modifier at place `i` of a trigger text.
pub open spec fn separator_at(text: Seq<char>, i: int) -> char {
    text[2 * i + 1]
}

/// A trigger text is a chain of modifier letters, each followed by a hyphen,
/// and then one letter or digit: `C-S-a`, `A-1`, `x`.
pub open spec fn is_trigger_text(text: Seq<char>) -> bool {
    &&& text.len() % 2 == 1
    &&& forall|i: int|
        0 <= i < modifier_count(text) ==> is_modifier(#[trigger] modifier_at(text, i))
            && separator_at(text, i) == '-'
    &&& (is_upper(text.last()) || is_lower(text.last()) || is_digit(text.last()))
}

/// The trigger text names the modifier `letter`.
pub open spec fn names_modifier(text: Seq<char>, letter: char) -> bool {
    exists|i: int| 0 <= i < modifier_count(text) && #[trigger] modifier_at(text, i) == letter
}

/// The trigger that a trigger text stands for. An upper-case key is the
/// lower-case key with shift.
pub open spec fn trigger_of(text: Seq<char>) -> KeybindTrigger {
    KeybindTrigger {
        key: lower_case(text.last()),
        modifiers: Modifiers {
            alt: names_modifier(text, 'A'),
            ctrl: names_modifier(text, 'C'),
            shift: names_modifier(text, 'S') || is_upper(text.last()),
        },
    }
}

impl KeybindTrigger {
    /// Reads a trigger such as `C-S-a`.
    pub fn parse(text: &str) -> (parsed: Result<KeybindTrigger, KeyError>)
        ensures
            is_trigger_text(text@) ==> parsed == Ok::<KeybindTrigger, KeyError>(trigger_of(text@)),
            !is_trigger_text(text@) ==> parsed == Err::<KeybindTrigger, KeyError>(
                KeyError::InvalidTrigger,
            ),
    {
        let length = text.unicode_len();
        if length % 2 == 0 {
            return Err(KeyError::InvalidTrigger);
        }
        let count = (length - 1) / 2;
        let mut modifiers = Modifiers { alt: false, ctrl: false, shift: false };
        let mut index: usize = 0;
        while index < count
            invariant
                length == text@.len(),
                length % 2 == 1,
                count == modifier_count(text@),
                index <= count,
                forall|i: int|
                    0 <= i < index ==> is_modifier(#[trigger] modifier_at(text@, i))
                        && separator_at(text@, i) == '-',
                modifiers.alt <==> exists|i: int|
                    0 <= i < index && #[trigger] modifier_at(text@, i) == 'A',
                modifiers.ctrl <==> exists|i: int|
                    0 <= i < index && #[trigger] modifier_at(text@, i) == 'C',
                modifiers.shift <==> exists|i: int|
                    0 <= i < index && #[trigger] modifier_at(text@, i) == 'S',
            decreases count - index,
        {
            let letter = text.get_char(2 * index);
            let hyphen = text.get_char(2 * index + 1);
            assert(letter == modifier_at(text@, index as int));
            assert(hyphen == separator_at(text@, index as int));
            if hyphen != '-' {
                return Err(KeyError::InvalidTrigger);
            }
            if letter == 'A' {
                modifiers.alt = true;
            } else if letter == 'C' {
                modifiers.ctrl = true;
            } else if letter == 'S' {
                modifiers.shift = true;
            } else {
                return Err(KeyError::InvalidTrigger);
            }
            index += 1;
        }
        let key = text.get_char(length - 1);
        assert(key == text@.last());
        assert(forall|i: int|
            0 <= i < modifier_count(text@) ==> is_modifier(#[trigger] modifier_at(text@, i))
                && separator_at(text@, i) == '-');
        if 'A' <= key && key <= 'Z' {
            modifiers.shift = true;
            let lowered = ((key as u8) + 32) as char;
            Ok(KeybindTrigger { key: lowered, modifiers })
        } else if ('a' <= key && key <= 'z') || ('0' <= key && key <= '9') {
            Ok(KeybindTrigger { key, modifiers })
        } else {
            Err(KeyError::InvalidTrigger)
        }
    }
}

/// The action that a name stands for.
pub open spec fn action_named(name: Seq<char>) -> Option<KeybindAction> {
    if name == "close_tab"@ {
        Some(KeybindAction::CloseTab)
    } else if name == "duplicate_tab"@ {
        Some(KeybindAction::DuplicateTab)
    } else if name == "focus_above"@ {
        Some(KeybindAction::FocusAbove)
    } else if name == "focus_address"@ {
        Some(KeybindAction::FocusAddress)
    } else if name == "focus_below"@ {
        Some(KeybindAction::FocusBelow)
    } else if name == "focus_left"@ {
        Some(KeybindAction::FocusLeft)
    } else if name == "focus_panel"@ {
        Some(KeybindAction::FocusPanel)
    } else if name == "focus_right"@ {
        Some(KeybindAction::FocusRight)
    } else if name == "no_op"@ {
        Some(KeybindAction::NoOp)
    } else if name == "open_split"@ {
        Some(KeybindAction::OpenSplit)
    } else if name == "open_tab"@ {
        Some(KeybindAction::OpenTab)
    } else if name == "reconnect"@ {
        Some(KeybindAction::Reconnect)
    } else {
        None
    }
}

/// Whether two texts hold the same characters.
pub fn same_text(left: &str, right: &str) -> (same: bool)
    ensures
        same == (left@ == right@),
{
    let length = left.unicode_len();
    if right.unicode_len() != length {
        return false;
    }
    let mut index: usize = 0;
    while index < length
        invariant
            length == left@.len(),
            length == right@.len(),
            index <= length,
            forall|i: int| 0 <= i < index ==> left@[i] == right@[i],
        decreases length - index,
    {
        if left.get_char(index) != right.get_char(index) {
            return false;
        }
        index += 1;
    }
    assert(left@ =~= right@);
    true
}

impl KeybindAction {
    /// Reads the name of an action, such as `focus_left`.
    pub fn from_name(name: &str) -> (action: Option<KeybindAction>)
        ensures
            action == action_named(name@),
    {
        if same_text(name, "close_tab") {
            Some(KeybindAction::CloseTab)
        } else if same_text(name, "duplicate_tab") {
            Some(KeybindAction::DuplicateTab)
        } else if same_text(name, "focus_above") {
            Some(KeybindAction::FocusAbove)
        } else if same_text(name, "focus_address") {
            Some(KeybindAction::FocusAddress)
        } else if same_text(name, "focus_below") {
            Some(KeybindAction::FocusBelow)
        } else if same_text(name, "focus_left") {
            Some(KeybindAction::FocusLeft)
        } else if same_text(name, "focus_panel") {
            Some(KeybindAction::FocusPanel)
        } else if same_text(name, "focus_right") {
            Some(KeybindAction::FocusRight)
        } else if same_text(name, "no_op") {
            Some(KeybindAction::NoOp)
        } else if same_text(name, "open_split") {
            Some(KeybindAction::OpenSplit)
        } else if same_text(name, "open_tab") {
            Some(KeybindAction::OpenTab)
        } else if same_text(name, "reconnect") {
            Some(KeybindAction::Reconnect)
        } else {
            None
        }
    }
}

/// A table of key bindings: each trigger is bound to at most one action.
#[derive(Debug)]
pub struct Keybinds {
    entries: Vec<(KeybindTrigger, KeybindAction)>,
}

impl View for Keybinds {
    type V = Map<KeybindTrigger, KeybindAction>;

    closed spec fn view(&self) -> Map<KeybindTrigger, KeybindAction> {
        map_of(self.entries@)
    }
}

impl Keybinds {
    /// The table is well formed: it stores each trigger once.
    pub closed spec fn wf(&self) -> bool {
        distinct_keys(self.entries@)
    }

    /// The table without bindings.
    pub fn new() -> (keybinds: Keybinds)
        ensures
            keybinds.wf(),
            keybinds@ == Map::<KeybindTrigger, KeybindAction>::empty(),
    {
        Keybinds { entries: Vec::new() }
    }

    /// Where `trigger` stands in the entries.
    fn position(&self, trigger: KeybindTrigger) -> (found: Option<usize>)
        ensures
            match found {
                Some(index) => index < self.entries@.len() && self.entries@[index as int].0
                    == trigger,
                None => forall|i: int|
                    0 <= i < self.entries@.len() ==> (#[trigger] self.entries@[i]).0 != trigger,
            },
    {
        let mut index: usize = 0;
        while index < self.entries.len()
            invariant
                index <= self.entries@.len(),
                forall|i: int| 0 <= i < index ==> (#[trigger] self.entries@[i]).0 != trigger,
            decreases self.entries@.len() - index,
        {
            if self.entries[index].0 == trigger {
                return Some(index);
            }
            index += 1;
        }
        None
    }

    /// The action that `trigger` is bound to.
    pub fn get(&self, trigger: KeybindTrigger) -> (action: Option<KeybindAction>)
        requires
            self.wf(),
        ensures
            action == (if self@.dom().contains(trigger) {
                Some(self@[trigger])
            } else {
                None
            }),
    {
        proof {
            lemma_map_of(self.entries@);
        }
        match self.position(trigger) {
            Some(index) => Some(self.entries[index].1),
            None => None,
        }
    }

    /// Binds `trigger` to `action`, in place of what it was bound to.
    pub fn insert(&mut self, trigger: KeybindTrigger, action: KeybindAction)
        requires
            old(self).wf(),
        ensures
            final(self).wf(),
            final(self)@ == old(self)@.insert(trigger, action),
    {
        match self.position(trigger) {
            Some(index) => {
                proof {
                    lemma_map_of_update(self.entries@, index as int, action);
                }
                self.entries.set(index, (trigger, action));
            },
            None => {
                proof {
                    lemma_map_of_push(self.entries@, trigger, action);
                }
                self.entries.push((trigger, action));
            },
        }
    }

    /// The number of bindings.
    pub fn len(&self) -> (count: usize)
        requires
            self.wf(),
        ensures
            count == self@.dom().len(),
            self@.dom().finite(),
    {
        proof {
            lemma_map_of_len(self.entries@);
        }
        self.entries.len()
    }

    /// Takes over every binding of `other`. Where both tables bind a trigger,
    /// the binding of `other` stays.
    pub fn merge(&mut self, other: Keybinds)
        requires
            old(self).wf(),
        ensures
            final(self).wf(),
            final(self)@ == old(self)@.union_prefer_right(other@),
    {
        let mut index: usize = 0;
        assert(old(self)@.union_prefer_right(map_of(other.entries@.take(0))) =~= old(self)@);
        while index < other.entries.len()
            invariant
                index <= other.entries@.len(),
                self.wf(),
                self@ == old(self)@.union_prefer_right(
                    map_of(other.entries@.take(index as int)),
                ),
            decreases other.entries@.len() - index,
        {
            let (trigger, action) = other.entries[index];
            let ghost so_far = other.entries@.take(index as int);
            let ghost next = other.entries@.take(index + 1);
            self.insert(trigger, action);
            proof {
                assert(next.drop_last() =~= so_far);
                assert(next.last() == (trigger, action));
                assert(old(self)@.union_prefer_right(map_of(so_far)).insert(trigger, action)
                    =~= old(self)@.union_prefer_right(map_of(next)));
            }
            index += 1;
        }
        assert(other.entries@.take(index as int) =~= other.entries@);
    }

    /// Whether both tables bind the same triggers to the same actions.
    pub fn same_bindings(&self, other: &Keybinds) -> (same: bool)
        requires
            self.wf(),
            other.wf(),
        ensures
            same == (self@ == other@),
    {
        let same = self.included_in(other) && other.included_in(self);
        proof {
            if same {
                assert forall|t: KeybindTrigger| self@.dom().contains(t) == other@.dom().contains(
                    t,
                ) by {
                    assert(self@.dom().contains(t) ==> other@.dom().contains(t));
                    assert(other@.dom().contains(t) ==> self@.dom().contains(t));
                }
                assert forall|t: KeybindTrigger| self@.dom().contains(t) implies self@[t]
                    == other@[t] by {
                    assert(other@.dom().contains(t));
                }
                assert(self@ =~= other@);
            }
        }
        same
    }

    /// Whether every binding of this table is one of `other`.
    fn included_in(&self, other: &Keybinds) -> (included: bool)
        requires
            self.wf(),
            other.wf(),
        ensures
            included == self@.submap_of(other@),
    {
        let mut index: usize = 0;
        while index < self.entries.len()
            invariant
                index <= self.entries@.len(),
                self.wf(),
                other.wf(),
                forall|i: int|
                    0 <= i < index ==> other@.dom().contains((#[trigger] self.entries@[i]).0)
                        && other@[self.entries@[i].0] == self.entries@[i].1,
            decreases self.entries@.len() - index,
        {
            let (trigger, action) = self.entries[index];
            proof {
                lemma_map_of(self.entries@);
                assert(self.entries@[index as int].0 == trigger);
                assert(has_key(self.entries@, trigger));
                assert(self@.dom().contains(trigger));
                assert(self@[trigger] == action);
            }
            match other.get(trigger) {
                Some(bound) => {
                    if bound != action {
                        return false;
                    }
                },
                None => {
                    return false;
                },
            }
            index += 1;
        }
        proof {
            lemma_map_of(self.entries@);
            assert forall|t: KeybindTrigger| self@.dom().contains(t) implies other@.dom().contains(
                t,
            ) && self@[t] == other@[t] by {
                assert(has_key(self.entries@, t));
                let i = choose|i: int|
                    0 <= i < self.entries@.len() && (#[trigger] self.entries@[i]).0 == t;
                assert(other@.dom().contains(self.entries@[i].0));
            }
        }
        true
    }
}

} // verus!
