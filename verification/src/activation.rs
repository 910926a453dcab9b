//! Activation: making one path the active one in the persistent environment,
//! so that sessions started later see it.
//!
//! The persistent environment is not this library's to touch. An activation
//! is therefore a sequence of decisions: after each one the caller carries
//! out the action that was decided on the host and reports how it went, and
//! the next decision follows from that. Two strategies exist, one for a host
//! that keeps the environment in named values under a per-user key, and one
//! for a host that keeps it in a shell profile.
//!
//! Nothing here guards against another process that changes the same values
//! or the same file in between: the last writer wins.

use vstd::prelude::*;
use vstd::string::*;
use crate::profile::{profile_file_name, profile_name, rewrite_profile, rewritten, Flavor};
use crate::search_path::{update_search_path, updated_path};

verus! {

/// How the host keeps the persistent environment.
#[derive(Clone, Copy, Debug, PartialEq, Eq, Structural)]
pub enum Strategy {
    /// In named values under a per-user key.
    Values,
    /// In the shell profile of the given flavor.
    Profile(Flavor),
}

/// Why an activation failed.
#[derive(Clone, Copy, Debug, PartialEq, Eq, Structural)]
pub enum ActivationError {
    /// The per-user key could not be opened for reading and writing.
    RegistryAccess,
    /// A value under the key could not be read, for another reason than its
    /// absence.
    RegistryRead,
    /// A value under the key could not be written.
    RegistryWrite,
    /// The home directory could not be found.
    HomeDirectory,
    /// The shell profile could not be read.
    ProfileRead,
    /// The shell profile could not be written.
    ProfileWrite,
    /// The caller reported something that does not answer the action it was
    /// given.
    OutOfTurn,
}

/// How far an activation has come: what the caller was last asked to do.
#[derive(Clone, Copy, Debug, PartialEq, Eq, Structural)]
pub enum Stage {
    /// To open the key.
    OpeningKey,
    /// To write the target variable.
    WritingHome,
    /// To read the search path.
    ReadingPath,
    /// To write the search path.
    WritingPath,
    /// To announce the change.
    Announcing,
    /// To read the profile.
    ReadingProfile,
    /// To write the profile.
    WritingProfile,
    /// To tell the user how to apply the change.
    Advising,
    /// Nothing more: the activation is over.
    Finished,
}

/// What the caller is to do next on the host.
#[derive(Debug, PartialEq, Eq)]
pub enum Action {
    /// Open the per-user key of this name for reading and writing.
    OpenKey { key: String },
    /// Set the value of this name under the key, replacing what it held.
    WriteValue { name: String, value: String },
    /// Read the value of this name under the key.
    ReadValue { name: String },
    /// Announce to running programs that the setting of this name has
    /// changed, waiting no longer than the given number of milliseconds for
    /// any of them.
    Announce { setting: String, timeout_ms: u32 },
    /// Read the file of this name in the home directory.
    ReadProfile { file_name: String },
    /// Replace the content of that file.
    WriteProfile { content: String },
    /// Tell the user to read the profile into the running shell or to open a
    /// new terminal.
    Advise,
    /// Nothing more: the activation has succeeded.
    Succeed,
    /// Nothing more: the activation has failed.
    Fail { error: ActivationError },
}

/// How the action that the caller was given went.
#[derive(Debug, PartialEq, Eq)]
pub enum Event {
    /// It was carried out; for an action that reads, see the other variants.
    Done,
    /// It could not be carried out.
    Failed,
    /// The value that was read, or `None` where the key has no such value.
    Value { value: Option<String> },
    /// The content that was read.
    Content { content: String },
    /// There is no home directory to look in.
    NoHome,
}

/// The name of the per-user key.
pub open spec fn key_name() -> Seq<char> {
    "Environment"@
}

/// The name of the target variable.
pub open spec fn home_variable() -> Seq<char> {
    "JAVA_HOME"@
}

/// The name of the search path.
pub open spec fn path_variable() -> Seq<char> {
    "PATH"@
}

/// The number of milliseconds that an announcement may wait.
pub const ANNOUNCE_TIMEOUT_MS: u32 = 5000;

/// The action is to write `value` under `name`.
pub open spec fn writes(action: Action, name: Seq<char>, value: Seq<char>) -> bool {
    action matches Action::WriteValue { name: n, value: v } && n@ == name && v@ == value
}

/// The action is to end the activation with failure `error`.
pub open spec fn fails(action: Action, error: ActivationError) -> bool {
    action == (Action::Fail { error })
}

/// The action is to end the activation with success.
pub open spec fn succeeds(action: Action) -> bool {
    action == Action::Succeed
}

/// The text of the search path that was read: empty where the key has none.
pub open spec fn value_text(value: Option<String>) -> Seq<char> {
    match value {
        Some(text) => text@,
        None => Seq::<char>::empty(),
    }
}

/// The stage after `event` in stage `stage`, and what `action` must be, for
/// an activation of `path` whose `bin` directory is `bin`.
pub open spec fn decides(
    stage: Stage,
    path: Seq<char>,
    bin: Seq<char>,
    event: Event,
    next: Stage,
    action: Action,
) -> bool {
    match (stage, event) {
        (Stage::OpeningKey, Event::Done) => next == Stage::WritingHome && writes(
            action,
            home_variable(),
            path,
        ),
        (Stage::OpeningKey, Event::Failed) => next == Stage::Finished && fails(
            action,
            ActivationError::RegistryAccess,
        ),
        (Stage::WritingHome, Event::Done) => next == Stage::ReadingPath && (
        action matches Action::ReadValue { name } && name@ == path_variable()),
        (Stage::WritingHome, Event::Failed) => next == Stage::Finished && fails(
            action,
            ActivationError::RegistryWrite,
        ),
        (Stage::ReadingPath, Event::Value { value }) => next == Stage::WritingPath && writes(
            action,
            path_variable(),
            updated_path(value_text(value), bin),
        ),
        (Stage::ReadingPath, Event::Failed) => next == Stage::Finished && fails(
            action,
            ActivationError::RegistryRead,
        ),
        (Stage::WritingPath, Event::Done) => next == Stage::Announcing && (
        action matches Action::Announce { setting, timeout_ms } && setting@ == key_name()
            && timeout_ms == ANNOUNCE_TIMEOUT_MS),
        (Stage::WritingPath, Event::Failed) => next == Stage::Finished && fails(
            action,
            ActivationError::RegistryWrite,
        ),
        (Stage::Announcing, Event::Done) => next == Stage::Finished && succeeds(action),
        (Stage::Announcing, Event::Failed) => next == Stage::Finished && succeeds(action),
        (Stage::ReadingProfile, Event::Content { content }) => next == Stage::WritingProfile && (
        action matches Action::WriteProfile { content: c } && c@ == rewritten(content@, path)),
        (Stage::ReadingProfile, Event::NoHome) => next == Stage::Finished && fails(
            action,
            ActivationError::HomeDirectory,
        ),
        (Stage::ReadingProfile, Event::Failed) => next == Stage::Finished && fails(
            action,
            ActivationError::ProfileRead,
        ),
        (Stage::WritingProfile, Event::Done) => next == Stage::Advising && action == Action::Advise,
        (Stage::WritingProfile, Event::Failed) => next == Stage::Finished && fails(
            action,
            ActivationError::ProfileWrite,
        ),
        (Stage::Advising, Event::Done) => next == Stage::Finished && succeeds(action),
        (Stage::Advising, Event::Failed) => next == Stage::Finished && succeeds(action),
        _ => next == Stage::Finished && fails(action, ActivationError::OutOfTurn),
    }
}

/// How the activation ended, if `action` ends it.
pub open spec fn outcome_of(action: Action) -> Option<Result<(), ActivationError>> {
    match action {
        Action::Succeed => Some(Ok(())),
        Action::Fail { error } => Some(Err(error)),
        _ => None,
    }
}

/// The first stage of an activation and what its first action must be.
pub open spec fn opens(strategy: Strategy, stage: Stage, action: Action) -> bool {
    match strategy {
        Strategy::Values => stage == Stage::OpeningKey && (action matches Action::OpenKey { key }
            && key@ == key_name()),
        Strategy::Profile(flavor) => stage == Stage::ReadingProfile && (
        action matches Action::ReadProfile { file_name } && file_name@ == profile_name(flavor)),
    }
}

/// `std::path::Path::join` with `bin`: the `bin` directory below `path`, as
/// the host writes paths. How it is written differs from host to host, so
/// nothing is claimed of the result.
#[verifier::external_body]
fn bin_directory(path: &str) -> (bin: String) {
    std::path::Path::new(path).join("bin").to_string_lossy().into_owned()
}

impl Action {
    /// How the activation ended, if this action ends it.
    pub fn outcome(&self) -> (outcome: Option<Result<(), ActivationError>>)
        ensures
            outcome == outcome_of(*self),
    {
        match self {
            Action::Succeed => Some(Ok(())),
            Action::Fail { error } => Some(Err(*error)),
            _ => None,
        }
    }
}

/// An activation under way.
pub struct Activation {
    strategy: Strategy,
    path: String,
    bin: String,
    stage: Stage,
}

impl Activation {
    /// The strategy of the activation.
    pub closed spec fn strategy_of(&self) -> Strategy {
        self.strategy
    }

    /// The path that is being activated.
    pub closed spec fn path_text(&self) -> Seq<char> {
        self.path@
    }

    /// The `bin` directory below that path, as the host writes it.
    pub closed spec fn bin_text(&self) -> Seq<char> {
        self.bin@
    }

    /// How far the activation has come.
    pub closed spec fn stage_of(&self) -> Stage {
        self.stage
    }

    /// Starts the activation of `path` and decides on the first action. The
    /// `bin` directory is the one that the host's way of writing paths puts
    /// below `path`.
    pub fn begin(strategy: Strategy, path: &str) -> (started: (Activation, Action))
        ensures
            started.0.strategy_of() == strategy,
            started.0.path_text() == path@,
            opens(strategy, started.0.stage_of(), started.1),
    {
        let bin = bin_directory(path);
        Activation::begin_with(strategy, path, bin)
    }

    /// Starts the activation of `path`, whose `bin` directory is `bin`, and
    /// decides on the first action.
    pub fn begin_with(strategy: Strategy, path: &str, bin: String) -> (started: (
        Activation,
        Action,
    ))
        ensures
            started.0.strategy_of() == strategy,
            started.0.path_text() == path@,
            started.0.bin_text() == bin@,
            opens(strategy, started.0.stage_of(), started.1),
    {
        match strategy {
            Strategy::Values => (
                Activation { strategy, path: path.to_owned(), bin, stage: Stage::OpeningKey },
                Action::OpenKey { key: "Environment".to_owned() },
            ),
            Strategy::Profile(flavor) => (
                Activation { strategy, path: path.to_owned(), bin, stage: Stage::ReadingProfile },
                Action::ReadProfile { file_name: profile_file_name(flavor).to_owned() },
            ),
        }
    }

    /// How far the activation has come.
    pub fn stage(&self) -> (stage: Stage)
        ensures
            stage == self.stage_of(),
    {
        self.stage
    }

    /// The path that is being activated.
    pub fn path(&self) -> (path: &str)
        ensures
            path@ == self.path_text(),
    {
        self.path.as_str()
    }

    /// The `bin` directory below that path, as the host writes it.
    pub fn bin(&self) -> (bin: &str)
        ensures
            bin@ == self.bin_text(),
    {
        self.bin.as_str()
    }

    /// Takes in how the last action went and decides on the next one.
    ///
    /// A failure ends the activation with the error of the stage it was in,
    /// except that of an announcement or of the advice to the user, which is
    /// passed over. A search path that the key does not hold counts as an
    /// empty one. An event that does not answer the last action ends the
    /// activation as out of turn.
    pub fn step(&mut self, event: Event) -> (action: Action)
        ensures
            final(self).strategy_of() == old(self).strategy_of(),
            final(self).path_text() == old(self).path_text(),
            final(self).bin_text() == old(self).bin_text(),
            decides(
                old(self).stage_of(),
                old(self).path_text(),
                old(self).bin_text(),
                event,
                final(self).stage_of(),
                action,
            ),
    {
        let stage = self.stage;
        self.stage = Stage::Finished;
        match (stage, event) {
            (Stage::OpeningKey, Event::Done) => {
                self.stage = Stage::WritingHome;
                Action::WriteValue { name: "JAVA_HOME".to_owned(), value: self.path.clone() }
            },
            (Stage::OpeningKey, Event::Failed) => Action::Fail { error: ActivationError::RegistryAccess },
            (Stage::WritingHome, Event::Done) => {
                self.stage = Stage::ReadingPath;
                Action::ReadValue { name: "PATH".to_owned() }
            },
            (Stage::WritingHome, Event::Failed) => Action::Fail { error: ActivationError::RegistryWrite },
            (Stage::ReadingPath, Event::Value { value }) => {
                let updated = match value {
                    Some(current) => update_search_path(current.as_str(), self.bin.as_str()),
                    None => {
                        let current = String::new();
                        update_search_path(current.as_str(), self.bin.as_str())
                    },
                };
                self.stage = Stage::WritingPath;
                Action::WriteValue { name: "PATH".to_owned(), value: updated }
            },
            (Stage::ReadingPath, Event::Failed) => Action::Fail { error: ActivationError::RegistryRead },
            (Stage::WritingPath, Event::Done) => {
                self.stage = Stage::Announcing;
                Action::Announce {
                    setting: "Environment".to_owned(),
                    timeout_ms: ANNOUNCE_TIMEOUT_MS,
                }
            },
            (Stage::WritingPath, Event::Failed) => Action::Fail { error: ActivationError::RegistryWrite },
            (Stage::Announcing, Event::Done) => Action::Succeed,
            (Stage::Announcing, Event::Failed) => Action::Succeed,
            (Stage::ReadingProfile, Event::Content { content }) => {
                let rewritten = rewrite_profile(content.as_str(), self.path.as_str());
                self.stage = Stage::WritingProfile;
                Action::WriteProfile { content: rewritten }
            },
            (Stage::ReadingProfile, Event::NoHome) => Action::Fail { error: ActivationError::HomeDirectory },
            (Stage::ReadingProfile, Event::Failed) => Action::Fail { error: ActivationError::ProfileRead },
            (Stage::WritingProfile, Event::Done) => {
                self.stage = Stage::Advising;
                Action::Advise
            },
            (Stage::WritingProfile, Event::Failed) => Action::Fail { error: ActivationError::ProfileWrite },
            (Stage::Advising, Event::Done) => Action::Succeed,
            (Stage::Advising, Event::Failed) => Action::Succeed,
            _ => Action::Fail { error: ActivationError::OutOfTurn },
        }
    }
}

} // verus!
