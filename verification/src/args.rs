//! The command line, and the actions that instances of the switcher exchange.

use crate::json::{is_single_entry, read_null_keys, read_string, write_string};
#[allow(unused_imports)]
use crate::json::{is_plain, json_null_keys, json_single_entry, json_string, quoted};
use vstd::prelude::*;

verus! {

/// The command line of the switcher.
#[derive(Debug, Clone)]
pub struct Args {
    pub subcommand: Option<AltTabAction>,
}

/// What a key binding asks of the switcher.
#[derive(Debug, Clone, Copy, PartialEq, Eq, Structural)]
pub enum AltTabAction {
    /// Cycle forward through windows
    AltTab,
    /// Cycle backward through windows
    ShiftAltTab,
}

/// The error for a text that spells no action.
#[derive(Debug, Clone, Copy, PartialEq, Eq, Structural)]
pub struct NotAnAction;

impl Args {
    /// The action on the command line, if there is one.
    pub fn action(&self) -> (action: Option<&AltTabAction>)
        ensures
            action == (match self.subcommand {
                Some(subcommand) => Some(&subcommand),
                None => None,
            }),
    {
        self.subcommand.as_ref()
    }
}

/// The action with the given name.
pub open spec fn action_named(name: Seq<char>) -> Option<AltTabAction> {
    if name == "AltTab"@ {
        Some(AltTabAction::AltTab)
    } else if name == "ShiftAltTab"@ {
        Some(AltTabAction::ShiftAltTab)
    } else {
        None
    }
}

/// The action that a JSON text spells, given how the text reads as a string, as
/// a map to nulls, and as an object with one entry: a string that names an
/// action, or an object with that name as its only key and null as its value.
pub open spec fn action_read(
    string: Option<Seq<char>>,
    keys: Option<Seq<Seq<char>>>,
    single_entry: bool,
) -> Option<AltTabAction> {
    match (string, keys) {
        (Some(name), _) => action_named(name),
        (None, Some(names)) => if single_entry && names.len() == 1 {
            action_named(names[0])
        } else {
            None
        },
        (None, None) => None,
    }
}

/// The action that a JSON text spells.
pub open spec fn action_of(text: Seq<char>) -> Option<AltTabAction> {
    action_read(json_string(text), json_null_keys(text), json_single_entry(text))
}

impl AltTabAction {
    /// The name of the action.
    pub open spec fn spec_name(self) -> Seq<char> {
        match self {
            AltTabAction::AltTab => "AltTab"@,
            AltTabAction::ShiftAltTab => "ShiftAltTab"@,
        }
    }

    /// The name of the action.
    pub fn name(&self) -> (name: &'static str)
        ensures
            name@ == self.spec_name(),
    {
        match self {
            AltTabAction::AltTab => "AltTab",
            AltTabAction::ShiftAltTab => "ShiftAltTab",
        }
    }

    /// The text that carries the action to a running instance: its name as a
    /// JSON string, which reads back as the action.
    pub fn to_string(&self) -> (text: String)
        ensures
            text@ == quoted(self.spec_name()),
            action_of(text@) == Some(*self),
    {
        proof {
            lemma_names();
        }
        write_string(self.name())
    }

    /// Picks the action that a JSON text spells from what the text reads as: a
    /// string, the keys of a map to nulls, and whether it is an object with one
    /// entry.
    pub fn from_json(
        string: Option<String>,
        keys: Option<Vec<String>>,
        single_entry: bool,
    ) -> (action: Result<AltTabAction, NotAnAction>)
        ensures
            action == (match action_read(
                string.deep_view(),
                keys.deep_view(),
                single_entry,
            ) {
                Some(named) => Ok::<AltTabAction, NotAnAction>(named),
                None => Err(NotAnAction),
            }),
    {
        match string {
            Some(name) => AltTabAction::from_name(&name),
            None => match keys {
                Some(names) => if single_entry && names.len() == 1 {
                    AltTabAction::from_name(&names[0])
                } else {
                    Err(NotAnAction)
                },
                None => Err(NotAnAction),
            },
        }
    }

    fn from_name(name: &String) -> (action: Result<AltTabAction, NotAnAction>)
        ensures
            action == (match action_named(name@) {
                Some(named) => Ok::<AltTabAction, NotAnAction>(named),
                None => Err(NotAnAction),
            }),
    {
        if *name == "AltTab".to_owned() {
            Ok(AltTabAction::AltTab)
        } else if *name == "ShiftAltTab".to_owned() {
            Ok(AltTabAction::ShiftAltTab)
        } else {
            Err(NotAnAction)
        }
    }

    /// Reads the action that a JSON text spells. A name between quotes spells the
    /// action with that name, and nothing if there is none.
    pub fn from_str(text: &str) -> (action: Result<AltTabAction, NotAnAction>)
        ensures
            action == (match action_of(text@) {
                Some(named) => Ok::<AltTabAction, NotAnAction>(named),
                None => Err(NotAnAction),
            }),
            forall|name: Seq<char>|
                is_plain(name) && text@ == #[trigger] quoted(name) ==> action_of(text@)
                    == action_named(name),
    {
        AltTabAction::from_json(read_string(text), read_null_keys(text), is_single_entry(text))
    }
}

/// The two actions have different names, without characters to escape.
proof fn lemma_names()
    ensures
        "AltTab"@ != "ShiftAltTab"@,
        is_plain("AltTab"@),
        is_plain("ShiftAltTab"@),
{
    reveal_strlit("AltTab");
    reveal_strlit("ShiftAltTab");
    assert("AltTab"@.len() != "ShiftAltTab"@.len());
}

/// Each action has its own name, and no other text names an action.
pub proof fn law_actions_go_by_their_names(name: Seq<char>)
    ensures
        AltTabAction::AltTab.spec_name() == "AltTab"@,
        AltTabAction::ShiftAltTab.spec_name() == "ShiftAltTab"@,
        action_named("AltTab"@) == Some(AltTabAction::AltTab),
        action_named("ShiftAltTab"@) == Some(AltTabAction::ShiftAltTab),
        name != "AltTab"@ && name != "ShiftAltTab"@ ==> action_named(name) is None,
        action_named(name) matches Some(action) ==> action.spec_name() == name,
{
    lemma_names();
}

/// A text that reads as a string spells what the string names, however else it may
/// read. Another text spells an action only as an object with one entry, whose key
/// is the name and whose value is null.
pub proof fn law_actions_are_spelled_in_two_ways(
    name: Seq<char>,
    names: Seq<Seq<char>>,
    keys: Option<Seq<Seq<char>>>,
    single_entry: bool,
)
    ensures
        action_read(Some(name), keys, single_entry) == action_named(name),
        action_read(None, Some(seq![name]), true) == action_named(name),
        action_read(None, Some(names), false) is None,
        names.len() != 1 ==> action_read(None, Some(names), single_entry) is None,
        action_read(None, None, single_entry) is None,
{
}

/// An action is written as its name between two quotes.
pub proof fn law_quotes_surround_the_name(name: Seq<char>)
    ensures
        quoted(name).len() == name.len() + 2,
        quoted(name).first() == '"',
        quoted(name).last() == '"',
        quoted(name).subrange(1, name.len() as int + 1) == name,
{
    assert(quoted(name).subrange(1, name.len() as int + 1) =~= name);
}

} // verus!
