//! What the command line asks for.

use vstd::prelude::*;
use crate::text::{same_text, texts};

verus! {

/// What a run of the program is to do.
#[derive(Clone, Copy, Debug, PartialEq, Eq, Structural)]
pub enum Action {
    /// Switch to the next preset.
    NextPreset,
    /// Show the active preset.
    ShowPreset,
    /// Switch to the next physical sink.
    NextSink,
    /// Show the default sink.
    ShowSink,
    /// Say how the program is called.
    Usage,
}

/// The action that the arguments ask for. The first argument is the program's
/// own name; the second names the group, the third what to do in it, and what
/// comes after is not looked at. Anything else asks for the usage line.
pub open spec fn requested(args: Seq<Seq<char>>) -> Action {
    if args.len() < 3 {
        Action::Usage
    } else if args[1] == "easyeffects"@ && args[2] == "next"@ {
        Action::NextPreset
    } else if args[1] == "easyeffects"@ && args[2] == "get"@ {
        Action::ShowPreset
    } else if args[1] == "audiosink"@ && args[2] == "next"@ {
        Action::NextSink
    } else if args[1] == "audiosink"@ && args[2] == "get"@ {
        Action::ShowSink
    } else {
        Action::Usage
    }
}

/// The action that the arguments of a run ask for.
pub fn dispatch(args: &Vec<String>) -> (action: Action)
    ensures
        action == requested(texts(args@)),
{
    if args.len() < 3 {
        return Action::Usage;
    }
    let group = args[1].as_str();
    let verb = args[2].as_str();
    let next = same_text(verb, "next");
    let get = same_text(verb, "get");
    if same_text(group, "easyeffects") {
        if next {
            Action::NextPreset
        } else if get {
            Action::ShowPreset
        } else {
            Action::Usage
        }
    } else if same_text(group, "audiosink") {
        if next {
            Action::NextSink
        } else if get {
            Action::ShowSink
        } else {
            Action::Usage
        }
    } else {
        Action::Usage
    }
}

/// The line that says how the program is called.
pub fn usage() -> (line: &'static str)
    ensures
        line@ == "Usage: easyswitch (easyeffects | audiosink) next | get"@,
{
    "Usage: easyswitch (easyeffects | audiosink) next | get"
}

} // verus!
