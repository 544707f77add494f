//! Keymap configuration: parsed key bindings.
//!
//! Reading the configuration file is the shell's job; it hands the
//! library the raw entries as plain strings.  Parsing the action
//! names and building the keymap is done here.  Bindings are kept in
//! insertion order; as in a map keyed by the key string, a later
//! binding for the same key shadows an earlier one.

use vstd::prelude::*;

verus! {

/// An action a key binding can invoke.
#[derive(Clone, Copy, Debug, PartialEq, Eq)]
pub enum Action {
    Quit,
    Focus,
}

/// One raw keymap entry as read from the configuration file: the
/// action's name, the key it is bound to, and optional arguments.
pub struct RawBinding {
    pub action: String,
    pub key: String,
    pub args: Option<Vec<String>>,
}

/// One parsed key binding.
pub struct KeyBinding {
    pub key: String,
    pub action: Action,
    pub args: Option<Vec<String>>,
}

/// The conditions configuration parsing can signal.
#[derive(Clone, Copy, Debug, PartialEq, Eq)]
pub enum ConfigError {
    /// An entry named an action this manager does not know.
    UnknownAction,
}

/// Which action a name denotes.
pub open spec fn action_of(name: Seq<char>) -> Option<Action> {
    if name == "quit"@ {
        Some(Action::Quit)
    } else if name == "focus"@ {
        Some(Action::Focus)
    } else {
        None
    }
}

/// Parse one action name.
pub fn parse_action(name: &String) -> (r: Option<Action>)
    ensures
        r == action_of(name@),
{
    let quit: String = "quit".to_owned();
    let focus: String = "focus".to_owned();
    if *name == quit {
        Some(Action::Quit)
    } else if *name == focus {
        Some(Action::Focus)
    } else {
        None
    }
}

/// The binding in force for a key: of all bindings with that key, the
/// one inserted last.
pub open spec fn keymap_lookup(s: Seq<KeyBinding>, key: Seq<char>) -> Option<KeyBinding>
    decreases s.len(),
{
    if s.len() == 0 {
        None
    } else if s.last().key@ == key {
        Some(s.last())
    } else {
        keymap_lookup(s.drop_last(), key)
    }
}

/// The parsed keymap.
pub struct Settings {
    pub keymap: Vec<KeyBinding>,
}

impl Settings {
    /// Build the keymap from the raw entries, in order.  Succeeds if
    /// and only if every entry names a known action; otherwise the
    /// first unknown name is reported and nothing is built.
    pub fn new(entries: Vec<RawBinding>) -> (r: Result<Settings, ConfigError>)
        ensures
            match r {
                Ok(s) => {
                    &&& forall|i: int|
                        0 <= i < entries@.len() ==> action_of(
                            (#[trigger] entries@[i]).action@,
                        ) is Some
                    &&& s.keymap@.len() == entries@.len()
                    &&& forall|i: int|
                        0 <= i < entries@.len() ==> {
                            let b = #[trigger] s.keymap@[i];
                            &&& b.key == entries@[i].key
                            &&& Some(b.action) == action_of(entries@[i].action@)
                            &&& b.args == entries@[i].args
                        }
                },
                Err(e) => {
                    &&& e == ConfigError::UnknownAction
                    &&& exists|i: int|
                        0 <= i < entries@.len() && action_of(
                            (#[trigger] entries@[i]).action@,
                        ) is None
                },
            },
    {
        let mut es = entries;
        let mut keymap: Vec<KeyBinding> = Vec::new();
        proof {
            assert(es@ =~= entries@.skip(0));
        }
        while es.len() > 0
            invariant
                keymap@.len() + es@.len() == entries@.len(),
                es@ == entries@.skip(keymap@.len() as int),
                forall|i: int|
                    0 <= i < keymap@.len() ==> {
                        let b = #[trigger] keymap@[i];
                        &&& b.key == entries@[i].key
                        &&& Some(b.action) == action_of(entries@[i].action@)
                        &&& b.args == entries@[i].args
                    },
            decreases es@.len(),
        {
            let ghost k = keymap@.len() as int;
            let rb = es.remove(0);
            proof {
                assert(rb == entries@[k]);
            }
            match parse_action(&rb.action) {
                Some(a) => {
                    keymap.push(KeyBinding { key: rb.key, action: a, args: rb.args });
                },
                None => {
                    proof {
                        assert(action_of(entries@[k].action@) is None);
                    }
                    return Err(ConfigError::UnknownAction);
                },
            }
            proof {
                assert(es@ =~= entries@.skip(keymap@.len() as int));
            }
        }
        proof {
            assert forall|i: int| 0 <= i < entries@.len() implies action_of(
                (#[trigger] entries@[i]).action@,
            ) is Some by {
                assert(Some(keymap@[i].action) == action_of(entries@[i].action@));
            };
        }
        Ok(Settings { keymap })
    }

    /// Look the key up in the keymap; a later binding for the same
    /// key shadows an earlier one.
    pub fn lookup(&self, key: &String) -> (r: Option<&KeyBinding>)
        ensures
            match r {
                Some(b) => keymap_lookup(self.keymap@, key@) == Some(*b),
                None => keymap_lookup(self.keymap@, key@) is None,
            },
    {
        let mut i = self.keymap.len();
        proof {
            assert(self.keymap@.take(i as int) =~= self.keymap@);
        }
        while i > 0
            invariant
                i <= self.keymap@.len(),
                keymap_lookup(self.keymap@, key@) == keymap_lookup(
                    self.keymap@.take(i as int),
                    key@,
                ),
            decreases i,
        {
            i = i - 1;
            proof {
                assert(self.keymap@.take(i + 1).drop_last() =~= self.keymap@.take(i as int));
                assert(self.keymap@.take(i + 1).last() == self.keymap@[i as int]);
            }
            if self.keymap[i].key == *key {
                return Some(&self.keymap[i]);
            }
        }
        None
    }
}

} // verus!
