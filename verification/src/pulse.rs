//! The vocabulary of the interface: intents, Claw actions, commands and
//! command chains.

use uuid::Uuid;
use vstd::prelude::*;

verus! {

/// The identifier type of a reasoning pulse; a chain names the pulse it
/// was derived from.
#[verifier::external_type_specification]
#[verifier::external_body]
pub struct ExUuid(Uuid);

/// `Uuid::clone`: `Uuid` is `Copy`, and its derived `Clone` returns the
/// same identifier.
pub assume_specification[ <Uuid as Clone>::clone ](id: &Uuid) -> (copy: Uuid)
    ensures
        copy == *id,
;

/// The kind of thing the reasoning layer wants done.
#[derive(Debug, Clone, PartialEq, Eq, Hash, Structural)]
pub enum IntentType {
    /// Move to a position or state.
    Navigate,
    /// Interact with something in the environment.
    Interact,
    /// Observe and report back.
    Observe,
    /// Equip or configure a capability.
    Equip,
    /// Reflexive response: bypass reasoning, act now.
    Reflex,
    /// Enter a low-power state.
    Rest,
}

/// A discrete action that Claw can execute on an equipment slot.
#[derive(Debug, Clone, PartialEq, Eq, Hash)]
pub enum ClawAction {
    /// Equip a capability into a slot.
    Equip(String),
    /// Remove a capability from a slot.
    Unequip(String),
    /// Advance the agent lifecycle by one step.
    Step,
    /// Set the agent to a specific state.
    SetState(String),
}

/// The mathematical value of a [`ClawAction`]: its strings taken as
/// character sequences.
pub enum ActionModel {
    Equip(Seq<char>),
    Unequip(Seq<char>),
    Step,
    SetState(Seq<char>),
}

impl View for ClawAction {
    type V = ActionModel;

    open spec fn view(&self) -> ActionModel {
        match self {
            ClawAction::Equip(s) => ActionModel::Equip(s@),
            ClawAction::Unequip(s) => ActionModel::Unequip(s@),
            ClawAction::Step => ActionModel::Step,
            ClawAction::SetState(s) => ActionModel::SetState(s@),
        }
    }
}

/// A single command in a chain: an action plus the slot it targets.
#[derive(Debug, Clone, PartialEq, Eq, Hash)]
pub struct Command {
    /// The action to perform.
    pub action: ClawAction,
    /// Which equipment slot this targets; `None` means the whole agent.
    pub slot: Option<String>,
}

/// The mathematical value of a [`Command`].
pub struct CommandModel {
    pub action: ActionModel,
    pub slot: Option<Seq<char>>,
}

/// The character sequence of an optional string.
pub open spec fn opt_text(s: Option<String>) -> Option<Seq<char>> {
    match s {
        Some(t) => Some(t@),
        None => None,
    }
}

impl View for Command {
    type V = CommandModel;

    open spec fn view(&self) -> CommandModel {
        CommandModel { action: self.action@, slot: opt_text(self.slot) }
    }
}

impl Command {
    /// Builds a command for `action`, targeting `slot` when one is named.
    pub fn new(action: ClawAction, slot: Option<&str>) -> (cmd: Self)
        ensures
            cmd.action == action,
            cmd@.slot == (match slot {
                Some(s) => Some(s@),
                None => None::<Seq<char>>,
            }),
    {
        let owned = match slot {
            Some(s) => Some(s.to_owned()),
            None => None,
        };
        Command { action, slot: owned }
    }
}

/// An ordered chain of commands derived from a single reasoning pulse.
#[derive(Debug, Clone)]
pub struct CommandChain {
    /// The pulse that originated this chain.
    pub source_pulse_id: Uuid,
    /// Ordered commands to execute.
    pub commands: Vec<Command>,
}

impl CommandChain {
    /// An empty chain for the pulse `pulse_id`.
    pub fn new(pulse_id: Uuid) -> (chain: Self)
        ensures
            chain.source_pulse_id == pulse_id,
            chain.commands@ == Seq::<Command>::empty(),
    {
        CommandChain { source_pulse_id: pulse_id, commands: Vec::new() }
    }

    /// Appends `cmd` at the end of the chain.
    pub fn push(&mut self, cmd: Command)
        ensures
            final(self).source_pulse_id == old(self).source_pulse_id,
            final(self).commands@ == old(self).commands@.push(cmd),
    {
        self.commands.push(cmd);
    }

    /// Whether the chain holds no command.
    pub fn is_empty(&self) -> (b: bool)
        ensures
            b == (self.commands@.len() == 0),
    {
        self.commands.is_empty()
    }

    /// The number of commands in the chain.
    pub fn len(&self) -> (n: usize)
        ensures
            n == self.commands@.len(),
    {
        self.commands.len()
    }
}

} // verus!
