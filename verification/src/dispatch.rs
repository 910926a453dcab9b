//! The four intents of a request and what each does to the registry.

use vstd::prelude::*;
use vstd::string::*;
use crate::registry::{lists, lookup, pair_texts, Registry};
use crate::text::same_text;

verus! {

/// What a request asks for.
#[derive(Debug, PartialEq, Eq)]
pub enum Command {
    /// Set the path of a name.
    Add { name: String, path: String },
    /// Remove the entry of a name.
    Remove { name: String },
    /// Show all entries.
    List,
    /// Make the path of a name the active one.
    Activate { name: String },
    /// Nothing that the dispatcher knows: point to the help text.
    Usage,
}

/// What a request came to: what the user is to be told and, for an
/// activation, what remains to be done.
#[derive(Debug, PartialEq, Eq)]
pub enum Report {
    /// The name now has this path.
    Added { name: String, path: String },
    /// The entry of the name was removed.
    Removed { name: String },
    /// The registry has no entry of that name; nothing was changed and
    /// nothing is to be activated.
    NotFound { name: String },
    /// The registry has no entries to show.
    NoEntries,
    /// The entries of the registry.
    Entries { entries: Vec<(String, String)> },
    /// The name has this path, which is now to be activated.
    Activate { name: String, path: String },
    /// The user is pointed to the help text.
    Usage,
}

/// The text of a command word, if there is one.
pub open spec fn word_text(word: Option<&str>) -> Option<Seq<char>> {
    match word {
        Some(w) => Some(w@),
        None => None,
    }
}

/// The command that a command word and its arguments stand for: `add` with a
/// name and a path, `remove` and `activate` with a name, `list` with nothing;
/// whatever else is given stands for `Usage`.
pub open spec fn command_matches(
    word: Option<Seq<char>>,
    arguments: Seq<String>,
    command: Command,
) -> bool {
    if word == Some("add"@) && arguments.len() == 2 {
        command matches Command::Add { name, path } && name@ == arguments[0]@ && path@
            == arguments[1]@
    } else if word == Some("remove"@) && arguments.len() == 1 {
        command matches Command::Remove { name } && name@ == arguments[0]@
    } else if word == Some("list"@) && arguments.len() == 0 {
        command == Command::List
    } else if word == Some("activate"@) && arguments.len() == 1 {
        command matches Command::Activate { name } && name@ == arguments[0]@
    } else {
        command == Command::Usage
    }
}

/// What `dispatch` does with a command: the registry after it, and the
/// report.
pub open spec fn dispatched(
    before: Map<Seq<char>, Seq<char>>,
    command: Command,
    after: Map<Seq<char>, Seq<char>>,
    report: Report,
) -> bool {
    match command {
        Command::Add { name, path } => {
            &&& after == before.insert(name@, path@)
            &&& report matches Report::Added { name: n, path: p } && n@ == name@ && p@ == path@
        },
        Command::Remove { name } => {
            &&& after == before.remove(name@)
            &&& if before.contains_key(name@) {
                report matches Report::Removed { name: n } && n@ == name@
            } else {
                report matches Report::NotFound { name: n } && n@ == name@
            }
        },
        Command::List => {
            &&& after == before
            &&& if before == Map::<Seq<char>, Seq<char>>::empty() {
                report == Report::NoEntries
            } else {
                report matches Report::Entries { entries } && lists(pair_texts(entries@), before)
            }
        },
        Command::Activate { name } => {
            &&& after == before
            &&& match lookup(before, name@) {
                Some(found) => report matches Report::Activate { name: n, path: p } && n@ == name@
                    && p@ == found,
                None => report matches Report::NotFound { name: n } && n@ == name@,
            }
        },
        Command::Usage => after == before && report == Report::Usage,
    }
}

/// The line that shows one entry.
pub open spec fn entry_line_text(name: Seq<char>, path: Seq<char>) -> Seq<char> {
    "  "@ + name + " -> "@ + path
}

/// The command that a command word and its arguments stand for.
pub fn command_of(word: Option<&str>, arguments: &Vec<String>) -> (command: Command)
    ensures
        command_matches(word_text(word), arguments@, command),
{
    proof {
        reveal_strlit("add");
        reveal_strlit("remove");
        reveal_strlit("list");
        reveal_strlit("activate");
    }
    match word {
        Some(w) => {
            if same_text(w, "add") && arguments.len() == 2 {
                Command::Add { name: arguments[0].clone(), path: arguments[1].clone() }
            } else if same_text(w, "remove") && arguments.len() == 1 {
                Command::Remove { name: arguments[0].clone() }
            } else if same_text(w, "list") && arguments.len() == 0 {
                Command::List
            } else if same_text(w, "activate") && arguments.len() == 1 {
                Command::Activate { name: arguments[0].clone() }
            } else {
                Command::Usage
            }
        },
        None => Command::Usage,
    }
}

/// Carries out a command on the registry and reports what it came to.
///
/// An activation is not carried out here: the report names the path that is
/// to be activated, or says that the name was not found, in which case
/// nothing is to be done to the environment.
pub fn dispatch(registry: &mut Registry, command: &Command) -> (report: Report)
    ensures
        dispatched(old(registry)@, *command, final(registry)@, report),
{
    match command {
        Command::Add { name, path } => {
            registry.add(name.as_str(), path.as_str());
            Report::Added { name: name.clone(), path: path.clone() }
        },
        Command::Remove { name } => {
            if registry.remove(name.as_str()) {
                Report::Removed { name: name.clone() }
            } else {
                Report::NotFound { name: name.clone() }
            }
        },
        Command::List => {
            if registry.is_empty() {
                Report::NoEntries
            } else {
                Report::Entries { entries: registry.entries() }
            }
        },
        Command::Activate { name } => {
            match registry.get(name.as_str()) {
                Some(path) => Report::Activate { name: name.clone(), path: path.clone() },
                None => Report::NotFound { name: name.clone() },
            }
        },
        Command::Usage => Report::Usage,
    }
}

/// The line that shows one entry: the name, an arrow and the path, indented
/// by two spaces.
pub fn entry_line(name: &str, path: &str) -> (line: String)
    ensures
        line@ == entry_line_text(name@, path@),
{
    let mut line = String::from_str("  ");
    line.append(name);
    line.append(" -> ");
    line.append(path);
    line
}

} // verus!
