//! The deterministic translation of an intent into a command chain, the
//! integer side of constraint validation, and the telemetry state hash.
//!
//! The dispatcher's tension level, its cost estimate and the constraints
//! that compare real quantities are computed by the caller; what reaches
//! this module is what they decide: whether tension forces the chain to be
//! trimmed, and how many milliseconds each command is expected to take.

use crate::text::{decimal, push_decimal};
use crate::pulse::{ActionModel, ClawAction, Command, CommandChain, CommandModel, IntentType};
use uuid::Uuid;
use vstd::prelude::*;

verus! {

/// Errors that can occur during dispatch or execution.
#[derive(Debug, Clone, PartialEq)]
pub enum NmiError {
    /// The agent was in an error state and could not execute.
    AgentError(String),
    /// The command chain was empty (nothing to do).
    EmptyChain(Uuid),
    /// A constraint was violated.
    ConstraintViolated(String),
}

/// A command that sets the agent to the state named `name`.
pub open spec fn set_state_cmd(name: Seq<char>) -> CommandModel {
    CommandModel { action: ActionModel::SetState(name), slot: None }
}

/// A command that advances the agent lifecycle by one step.
pub open spec fn step_cmd() -> CommandModel {
    CommandModel { action: ActionModel::Step, slot: None }
}

/// A command that equips `what` into the slot named `slot`.
pub open spec fn equip_cmd(what: Seq<char>, slot: Seq<char>) -> CommandModel {
    CommandModel { action: ActionModel::Equip(what), slot: Some(slot) }
}

/// A command that unequips `what` from the slot named `slot`.
pub open spec fn unequip_cmd(what: Seq<char>, slot: Seq<char>) -> CommandModel {
    CommandModel { action: ActionModel::Unequip(what), slot: Some(slot) }
}

/// The fixed translation table: the commands an intent stands for.
pub open spec fn planned_commands(intent: IntentType) -> Seq<CommandModel> {
    match intent {
        IntentType::Navigate => seq![set_state_cmd("Thinking"@), step_cmd(), step_cmd()],
        IntentType::Interact => seq![
            equip_cmd("grasp"@, "Arms"@),
            set_state_cmd("Thinking"@),
            step_cmd(),
        ],
        IntentType::Observe => seq![equip_cmd("sensor"@, "Head"@), step_cmd()],
        IntentType::Equip => seq![equip_cmd("module"@, "Torso"@), equip_cmd("actuator"@, "Legs"@)],
        IntentType::Reflex => seq![set_state_cmd("Acting"@), step_cmd()],
        IntentType::Rest => seq![
            unequip_cmd("all"@, "Head"@),
            unequip_cmd("all"@, "Torso"@),
            unequip_cmd("all"@, "Arms"@),
            unequip_cmd("all"@, "Legs"@),
            unequip_cmd("all"@, "Special"@),
            set_state_cmd("Idle"@),
        ],
    }
}

/// Under strain a chain of more than two commands keeps only its first two.
pub open spec fn trimmed(cmds: Seq<CommandModel>, strained: bool) -> Seq<CommandModel> {
    if strained && cmds.len() > 2 {
        cmds.take(2)
    } else {
        cmds
    }
}

/// The translation table, entry by entry: Navigate thinks and steps twice;
/// Interact equips the grasp on the arms, thinks, then steps; Observe
/// equips the head sensor and steps; Equip equips the torso module and the
/// leg actuator; Reflex goes straight to acting and steps; Rest unequips
/// the head, torso, arms, legs and special slot in that order, then idles.
pub proof fn lemma_translation_table(intent: IntentType)
    ensures
        planned_commands(intent) == match intent {
            IntentType::Navigate => seq![
                CommandModel { action: ActionModel::SetState("Thinking"@), slot: None },
                CommandModel { action: ActionModel::Step, slot: None },
                CommandModel { action: ActionModel::Step, slot: None },
            ],
            IntentType::Interact => seq![
                CommandModel { action: ActionModel::Equip("grasp"@), slot: Some("Arms"@) },
                CommandModel { action: ActionModel::SetState("Thinking"@), slot: None },
                CommandModel { action: ActionModel::Step, slot: None },
            ],
            IntentType::Observe => seq![
                CommandModel { action: ActionModel::Equip("sensor"@), slot: Some("Head"@) },
                CommandModel { action: ActionModel::Step, slot: None },
            ],
            IntentType::Equip => seq![
                CommandModel { action: ActionModel::Equip("module"@), slot: Some("Torso"@) },
                CommandModel { action: ActionModel::Equip("actuator"@), slot: Some("Legs"@) },
            ],
            IntentType::Reflex => seq![
                CommandModel { action: ActionModel::SetState("Acting"@), slot: None },
                CommandModel { action: ActionModel::Step, slot: None },
            ],
            IntentType::Rest => seq![
                CommandModel { action: ActionModel::Unequip("all"@), slot: Some("Head"@) },
                CommandModel { action: ActionModel::Unequip("all"@), slot: Some("Torso"@) },
                CommandModel { action: ActionModel::Unequip("all"@), slot: Some("Arms"@) },
                CommandModel { action: ActionModel::Unequip("all"@), slot: Some("Legs"@) },
                CommandModel { action: ActionModel::Unequip("all"@), slot: Some("Special"@) },
                CommandModel { action: ActionModel::SetState("Idle"@), slot: None },
            ],
        },
{
}

/// Strain only ever shortens a chain to its first two commands: the
/// trimmed chain has the full chain's length when not strained, and the
/// smaller of that length and two when strained.
pub proof fn lemma_trim_length(cmds: Seq<CommandModel>, strained: bool)
    ensures
        !strained ==> trimmed(cmds, strained) == cmds,
        strained ==> trimmed(cmds, strained).len() == if cmds.len() < 2 {
            cmds.len()
        } else {
            2
        },
        forall|i: int|
            0 <= i < trimmed(cmds, strained).len() ==> trimmed(cmds, strained)[i] == cmds[i],
{
}

/// No intent translates to an empty chain, strained or not; a strained
/// chain holds at most two commands, and a trimmed chain is always the
/// beginning of the full one.
pub proof fn lemma_translation_shape(intent: IntentType, strained: bool)
    ensures
        trimmed(planned_commands(intent), strained).len() > 0,
        strained ==> trimmed(planned_commands(intent), strained).len() <= 2,
        trimmed(planned_commands(intent), strained) =~= planned_commands(intent).take(
            trimmed(planned_commands(intent), strained).len() as int,
        ),
{
    let full = planned_commands(intent);
    assert(full.take(full.len() as int) =~= full);
}

/// The commands of a chain, each taken by its value.
pub open spec fn commands_model(cmds: Seq<Command>) -> Seq<CommandModel> {
    cmds.map_values(|c: Command| c@)
}

/// The commands that `intent` translates to, before any trimming.
pub fn planned(intent: &IntentType) -> (cmds: Vec<Command>)
    ensures
        commands_model(cmds@) == planned_commands(*intent),
{
    let mut cmds: Vec<Command> = Vec::new();
    match intent {
        IntentType::Navigate => {
            cmds.push(Command::new(ClawAction::SetState("Thinking".to_owned()), None));
            cmds.push(Command::new(ClawAction::Step, None));
            cmds.push(Command::new(ClawAction::Step, None));
        },
        IntentType::Interact => {
            cmds.push(Command::new(ClawAction::Equip("grasp".to_owned()), Some("Arms")));
            cmds.push(Command::new(ClawAction::SetState("Thinking".to_owned()), None));
            cmds.push(Command::new(ClawAction::Step, None));
        },
        IntentType::Observe => {
            cmds.push(Command::new(ClawAction::Equip("sensor".to_owned()), Some("Head")));
            cmds.push(Command::new(ClawAction::Step, None));
        },
        IntentType::Equip => {
            cmds.push(Command::new(ClawAction::Equip("module".to_owned()), Some("Torso")));
            cmds.push(Command::new(ClawAction::Equip("actuator".to_owned()), Some("Legs")));
        },
        IntentType::Reflex => {
            cmds.push(Command::new(ClawAction::SetState("Acting".to_owned()), None));
            cmds.push(Command::new(ClawAction::Step, None));
        },
        IntentType::Rest => {
            cmds.push(Command::new(ClawAction::Unequip("all".to_owned()), Some("Head")));
            cmds.push(Command::new(ClawAction::Unequip("all".to_owned()), Some("Torso")));
            cmds.push(Command::new(ClawAction::Unequip("all".to_owned()), Some("Arms")));
            cmds.push(Command::new(ClawAction::Unequip("all".to_owned()), Some("Legs")));
            cmds.push(Command::new(ClawAction::Unequip("all".to_owned()), Some("Special")));
            cmds.push(Command::new(ClawAction::SetState("Idle".to_owned()), None));
        },
    }
    assert(commands_model(cmds@) =~= planned_commands(*intent));
    cmds
}

/// Translates the intent of the pulse `pulse_id` into its command chain.
///
/// `strained` tells whether the dispatcher's tension is above the
/// trimming threshold; a strained dispatcher keeps only the first two
/// commands of a longer chain.
pub fn translate_intent(pulse_id: Uuid, intent: &IntentType, strained: bool) -> (chain:
    CommandChain)
    ensures
        chain.source_pulse_id == pulse_id,
        commands_model(chain.commands@) == trimmed(planned_commands(*intent), strained),
{
    let mut chain = CommandChain::new(pulse_id);
    chain.commands = planned(intent);
    if strained && chain.len() > 2 {
        let ghost before = chain.commands@;
        chain.commands.truncate(2);
        assert(commands_model(chain.commands@) =~= commands_model(before).take(2));
    }
    chain
}

/// The estimated execution time of `command_count` commands.
pub open spec fn estimated_ms(command_count: int, ms_per_command: int) -> int {
    command_count * ms_per_command
}

/// The estimate of any number of commands is the product of that number
/// and the time of one command: it grows by one command's time with each
/// command, and no command is free when commands take time.
pub proof fn lemma_estimate_is_product(command_count: int, ms_per_command: int)
    ensures
        estimated_ms(command_count, ms_per_command) == command_count * ms_per_command,
        estimated_ms(command_count + 1, ms_per_command) == estimated_ms(command_count, ms_per_command)
            + ms_per_command,
        estimated_ms(0, ms_per_command) == 0,
{
    assert((command_count + 1) * ms_per_command == command_count * ms_per_command + ms_per_command)
        by (nonlinear_arith);
}

/// The error message of a time budget overrun.
pub open spec fn overrun_text(estimated_ms: nat, budget_ms: nat) -> Seq<char> {
    "estimated "@ + decimal(estimated_ms) + "ms exceeds budget of "@ + decimal(budget_ms) + "ms"@
}

fn time_overrun_message(estimated_ms: u64, budget_ms: u64) -> (msg: String)
    ensures
        msg@ == overrun_text(estimated_ms as nat, budget_ms as nat),
{
    let mut msg = String::new();
    msg.append("estimated ");
    push_decimal(&mut msg, estimated_ms);
    msg.append("ms exceeds budget of ");
    push_decimal(&mut msg, budget_ms);
    msg.append("ms");
    assert(msg@ =~= overrun_text(estimated_ms as nat, budget_ms as nat));
    msg
}

/// Checks a time budget: `command_count` commands, each expected to take
/// `ms_per_command` milliseconds, must fit in `budget_ms`.
pub fn check_time_budget(command_count: usize, ms_per_command: u64, budget_ms: u64) -> (r: Result<
    (),
    NmiError,
>)
    requires
        command_count * ms_per_command <= u64::MAX,
    ensures
        r is Ok <==> command_count * ms_per_command <= budget_ms,
        r is Ok <==> estimated_ms(command_count as int, ms_per_command as int) <= budget_ms,
        r is Err ==> (r matches Err(NmiError::ConstraintViolated(msg)) && msg@ == overrun_text(
            (command_count * ms_per_command) as nat,
            budget_ms as nat,
        )),
{
    let count: u64 = command_count as u64;
    let estimated: u64 = count * ms_per_command;
    if estimated > budget_ms {
        Err(NmiError::ConstraintViolated(time_overrun_message(estimated, budget_ms)))
    } else {
        Ok(())
    }
}

/// The telemetry state hash: the first eight bytes are the byte-wise
/// exclusive or of `consumed` and `tension`, the rest are zero.
pub fn state_hash_of(consumed: [u8; 8], tension: [u8; 8]) -> (hash: [u8; 32])
    ensures
        forall|i: int| 0 <= i < 8 ==> hash[i] == consumed[i] ^ tension[i],
        forall|i: int| 8 <= i < 32 ==> hash[i] == 0,
{
    let mut hash = [0u8; 32];
    let mut i: usize = 0;
    while i < 8
        invariant
            0 <= i <= 8,
            forall|j: int| 0 <= j < i ==> hash[j] == consumed[j] ^ tension[j],
            forall|j: int| i <= j < 32 ==> hash[j] == 0,
        decreases 8 - i,
    {
        hash[i] = consumed[i] ^ tension[i];
        i = i + 1;
    }
    hash
}

} // verus!
