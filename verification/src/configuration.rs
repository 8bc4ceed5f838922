use vstd::prelude::*;

use crate::association::map_of;
use crate::keys::{
    action_named, is_trigger_text, trigger_of, KeyError, KeybindAction,
    KeybindTrigger, Keybinds,
};

verus! {

/// A key binding that was not understood, by its place in the list of entries.
#[derive(Clone, Copy, Debug, PartialEq, Eq, Structural)]
pub struct Error {
    pub entry: usize,
    pub reason: KeyError,
}

/// The settings of the viewer.
#[derive(Debug)]
pub struct Configuration {
    pub keys: Keybinds,
}

/// What is wrong with an entry that binds the trigger text `trigger` to the
/// action name `action`, if anything.
pub open spec fn entry_fault(trigger: Seq<char>, action: Seq<char>) -> Option<KeyError> {
    if !is_trigger_text(trigger) {
        Some(KeyError::InvalidTrigger)
    } else if action_named(action) is None {
        Some(KeyError::UnknownAction)
    } else {
        None
    }
}

/// The entries as texts.
pub open spec fn texts_of(entries: Seq<(String, String)>) -> Seq<(Seq<char>, Seq<char>)> {
    entries.map_values(|entry: (String, String)| (entry.0@, entry.1@))
}

/// Every entry before `end` is understood.
pub open spec fn understood_before(entries: Seq<(Seq<char>, Seq<char>)>, end: int) -> bool {
    forall|i: int| 0 <= i < end ==> entry_fault(#[trigger] entries[i].0, entries[i].1) is None
}

/// The bindings that understood entries stand for, in their order.
pub open spec fn bindings_read(entries: Seq<(Seq<char>, Seq<char>)>) -> Seq<
    (KeybindTrigger, KeybindAction),
> {
    entries.map_values(
        |entry: (Seq<char>, Seq<char>)| (trigger_of(entry.0), action_named(entry.1).unwrap()),
    )
}

impl View for Configuration {
    type V = Map<KeybindTrigger, KeybindAction>;

    open spec fn view(&self) -> Map<KeybindTrigger, KeybindAction> {
        self.keys@
    }
}

impl Configuration {
    pub open spec fn wf(&self) -> bool {
        self.keys.wf()
    }

    /// Reads the key bindings from entries of trigger text and action name.
    /// Where two entries name the same trigger, the later one stays. The first
    /// entry that is not understood is reported.
    pub fn from_entries(entries: &Vec<(String, String)>) -> (outcome: Result<Configuration, Error>)
        ensures
            match outcome {
                Ok(configuration) => {
                    &&& understood_before(texts_of(entries@), entries@.len() as int)
                    &&& configuration.wf()
                    &&& configuration@ == map_of(bindings_read(texts_of(entries@)))
                },
                Err(error) => {
                    &&& error.entry < entries@.len()
                    &&& understood_before(texts_of(entries@), error.entry as int)
                    &&& entry_fault(entries@[error.entry as int].0@, entries@[error.entry as int].1@)
                        == Some(error.reason)
                },
            },
    {
        let mut keys = Keybinds::new();
        let mut index: usize = 0;
        let ghost texts = texts_of(entries@);
        assert(bindings_read(texts).take(0) =~= Seq::empty());
        while index < entries.len()
            invariant
                index <= entries@.len(),
                texts == texts_of(entries@),
                understood_before(texts, index as int),
                keys.wf(),
                keys@ == map_of(bindings_read(texts).take(index as int)),
            decreases entries@.len() - index,
        {
            let entry = &entries[index];
            assert(texts[index as int] == (entry.0@, entry.1@));
            let trigger = match KeybindTrigger::parse(entry.0.as_str()) {
                Ok(trigger) => trigger,
                Err(reason) => {
                    return Err(Error { entry: index, reason });
                },
            };
            let action = match KeybindAction::from_name(entry.1.as_str()) {
                Some(action) => action,
                None => {
                    return Err(Error { entry: index, reason: KeyError::UnknownAction });
                },
            };
            keys.insert(trigger, action);
            proof {
                let read = bindings_read(texts);
                assert(read.take(index + 1).drop_last() =~= read.take(index as int));
                assert(read.take(index + 1).last() == (trigger, action));
            }
            index += 1;
        }
        assert(bindings_read(texts).take(index as int) =~= bindings_read(texts));
        Ok(Configuration { keys })
    }

    /// Puts together the configuration to run with. Without a user's file it is
    /// the default configuration. With one, its entries are read, and the
    /// default configuration is merged into them.
    pub fn load(user: Option<&Vec<(String, String)>>, default: Configuration) -> (outcome: Result<
        Configuration,
        Error,
    >)
        requires
            default.wf(),
        ensures
            user is None ==> outcome is Ok && outcome->Ok_0@ == default@ && outcome->Ok_0.wf(),
            user is Some ==> match outcome {
                Ok(configuration) => {
                    &&& understood_before(texts_of(user->0@), user->0@.len() as int)
                    &&& configuration.wf()
                    &&& configuration@ == map_of(
                        bindings_read(texts_of(user->0@)),
                    ).union_prefer_right(default@)
                },
                Err(error) => {
                    &&& error.entry < user->0@.len()
                    &&& understood_before(texts_of(user->0@), error.entry as int)
                    &&& entry_fault(
                        user->0@[error.entry as int].0@,
                        user->0@[error.entry as int].1@,
                    ) == Some(error.reason)
                },
            },
    {
        match user {
            None => Ok(default),
            Some(entries) => match Configuration::from_entries(entries) {
                Ok(mut configuration) => {
                    configuration.merge(default);
                    Ok(configuration)
                },
                Err(error) => Err(error),
            },
        }
    }

    /// Takes over every binding of `other`. Where both bind a trigger, the
    /// binding of `other` stays.
    pub fn merge(&mut self, other: Self)
        requires
            old(self).wf(),
        ensures
            final(self).wf(),
            final(self)@ == old(self)@.union_prefer_right(other@),
    {
        let Configuration { keys } = other;
        self.keys.merge(keys);
    }

    /// Whether both configurations bind the same triggers to the same actions.
    pub fn same_bindings(&self, other: &Configuration) -> (same: bool)
        requires
            self.wf(),
            other.wf(),
        ensures
            same == (self@ == other@),
    {
        self.keys.same_bindings(&other.keys)
    }
}

} // verus!
