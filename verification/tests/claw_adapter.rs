//! The agent's lifecycle, its equipment slots, and chain execution.

use hermes_nmi::{
    AgentState, ClawAction, ClawInstance, Command, CommandChain, ContactState, EquipmentSlot,
    NmiError, SlotSet,
};
use uuid::Uuid;

#[test]
fn claw_instance_starts_idle() {
    let agent = ClawInstance::new();
    assert_eq!(agent.state, AgentState::Idle);
    assert_eq!(agent.step_count, 0);
    assert!(agent.equipment.is_empty());
}

#[test]
fn claw_step_advances_lifecycle() {
    let mut agent = ClawInstance::new();
    agent.step().unwrap();
    assert_eq!(agent.state, AgentState::Thinking);
    agent.step().unwrap();
    assert_eq!(agent.state, AgentState::Acting);
    agent.step().unwrap();
    assert_eq!(agent.state, AgentState::Idle);
}

#[test]
fn claw_step_increments_count() {
    let mut agent = ClawInstance::new();
    for _ in 0..5 {
        agent.step().unwrap();
    }
    assert_eq!(agent.step_count, 5);
}

#[test]
fn claw_step_in_error_state_fails() {
    let mut agent = ClawInstance::new();
    agent.set_state("Broken");
    let result = agent.step();
    assert!(result.is_err());
}

#[test]
fn equip_adds_to_equipment() {
    let mut agent = ClawInstance::new();
    agent.equip(EquipmentSlot::Head);
    assert!(agent.equipment.contains(&EquipmentSlot::Head));
}

#[test]
fn unequip_removes_from_equipment() {
    let mut agent = ClawInstance::new();
    agent.equip(EquipmentSlot::Arms);
    agent.unequip(EquipmentSlot::Arms);
    assert!(!agent.equipment.contains(&EquipmentSlot::Arms));
}

#[test]
fn equipment_slot_from_name() {
    assert_eq!(EquipmentSlot::from_name("Head"), Some(EquipmentSlot::Head));
    assert_eq!(EquipmentSlot::from_name("Torso"), Some(EquipmentSlot::Torso));
    assert_eq!(EquipmentSlot::from_name("Arms"), Some(EquipmentSlot::Arms));
    assert_eq!(EquipmentSlot::from_name("Legs"), Some(EquipmentSlot::Legs));
    assert_eq!(EquipmentSlot::from_name("Special"), Some(EquipmentSlot::Special));
    assert_eq!(EquipmentSlot::from_name("Unknown"), None);
    assert_eq!(EquipmentSlot::from_name(""), None);
}

#[test]
fn set_state_valid_names() {
    let mut agent = ClawInstance::new();
    agent.set_state("Thinking");
    assert_eq!(agent.state, AgentState::Thinking);
    agent.set_state("Acting");
    assert_eq!(agent.state, AgentState::Acting);
    agent.set_state("Idle");
    assert_eq!(agent.state, AgentState::Idle);
}

#[test]
fn set_state_invalid_becomes_error() {
    let mut agent = ClawInstance::new();
    agent.set_state("Panicked");
    assert!(matches!(agent.state, AgentState::Error(_)));
}

#[test]
fn execute_empty_chain_errors() {
    let mut agent = ClawInstance::new();
    let chain = CommandChain::new(Uuid::new_v4());
    let result = agent.execute_chain(&chain);
    assert!(matches!(result, Err(NmiError::EmptyChain(_))));
}

#[test]
fn execute_single_step() {
    let mut agent = ClawInstance::new();
    let mut chain = CommandChain::new(Uuid::new_v4());
    chain.push(Command::new(ClawAction::Step, None));
    assert!(agent.execute_chain(&chain).is_ok());
    assert_eq!(agent.step_count, 1);
}

#[test]
fn execute_equip_command_equips_slot() {
    let mut agent = ClawInstance::new();
    let mut chain = CommandChain::new(Uuid::new_v4());
    chain.push(Command::new(ClawAction::Equip("sensor".into()), Some("Head")));
    assert!(agent.execute_chain(&chain).is_ok());
    assert!(agent.equipment.contains(&EquipmentSlot::Head));
}

#[test]
fn execute_unequip_all_clears_equipment() {
    let mut agent = ClawInstance::new();
    let id = Uuid::new_v4();
    let mut chain = CommandChain::new(id);
    chain.push(Command::new(ClawAction::Equip("x".into()), Some("Head")));
    chain.push(Command::new(ClawAction::Equip("x".into()), Some("Torso")));
    agent.execute_chain(&chain).unwrap();
    assert_eq!(agent.equipment.len(), 2);

    let mut clear_chain = CommandChain::new(id);
    for slot in ["Head", "Torso", "Arms", "Legs", "Special"] {
        clear_chain.push(Command::new(ClawAction::Unequip("all".into()), Some(slot)));
    }
    agent.execute_chain(&clear_chain).unwrap();
    assert!(agent.equipment.is_empty());
}

#[test]
fn execute_set_state_error_stops_chain() {
    let mut agent = ClawInstance::new();
    let mut chain = CommandChain::new(Uuid::new_v4());
    chain.push(Command::new(ClawAction::SetState("Broken".into()), None));
    chain.push(Command::new(ClawAction::Step, None));
    let result = agent.execute_chain(&chain);
    assert!(result.is_err());
    assert_eq!(agent.step_count, 0);
}

#[test]
fn empty_chain_error_names_the_pulse_and_leaves_agent() {
    let mut agent = ClawInstance::new();
    agent.equip(EquipmentSlot::Legs);
    let id = Uuid::new_v4();
    let result = agent.execute_chain(&CommandChain::new(id));
    assert_eq!(result, Err(NmiError::EmptyChain(id)));
    assert_eq!(agent.state, AgentState::Idle);
    assert!(agent.equipment.contains(&EquipmentSlot::Legs));
    assert_eq!(agent.equipment.len(), 1);
}

#[test]
fn set_state_error_carries_the_name() {
    let mut agent = ClawInstance::new();
    let mut chain = CommandChain::new(Uuid::new_v4());
    chain.push(Command::new(ClawAction::SetState("Sleeping".into()), None));
    let result = agent.execute_chain(&chain);
    assert_eq!(result, Err(NmiError::AgentError("Sleeping".to_string())));
    assert_eq!(agent.state, AgentState::Error("Sleeping".to_string()));
}

#[test]
fn step_in_error_state_still_counts_and_reports_message() {
    let mut agent = ClawInstance::new();
    agent.set_state("Jammed");
    assert_eq!(agent.step(), Err("Jammed".to_string()));
    assert_eq!(agent.step_count, 1);
    assert_eq!(agent.state, AgentState::Error("Jammed".to_string()));

    let mut chain = CommandChain::new(Uuid::new_v4());
    chain.push(Command::new(ClawAction::Step, None));
    chain.push(Command::new(ClawAction::Step, None));
    assert_eq!(agent.execute_chain(&chain), Err(NmiError::AgentError("Jammed".to_string())));
    assert_eq!(agent.step_count, 2);
}

#[test]
fn equip_and_unequip_return_agent_to_idle() {
    let mut agent = ClawInstance::new();
    agent.step().unwrap();
    assert_eq!(agent.state, AgentState::Thinking);
    agent.equip(EquipmentSlot::Torso);
    assert_eq!(agent.state, AgentState::Idle);
    agent.step().unwrap();
    agent.step().unwrap();
    assert_eq!(agent.state, AgentState::Acting);
    agent.unequip(EquipmentSlot::Special);
    assert_eq!(agent.state, AgentState::Idle);
    assert!(agent.equipment.contains(&EquipmentSlot::Torso));
}

#[test]
fn unequip_all_slot_name_strips_without_idling() {
    let mut agent = ClawInstance::new();
    agent.equip(EquipmentSlot::Head);
    agent.equip(EquipmentSlot::Arms);
    agent.step().unwrap();
    let mut chain = CommandChain::new(Uuid::new_v4());
    chain.push(Command::new(ClawAction::Unequip("anything".into()), Some("all")));
    agent.execute_chain(&chain).unwrap();
    assert!(agent.equipment.is_empty());
    assert_eq!(agent.state, AgentState::Thinking);
}

#[test]
fn commands_without_a_known_slot_change_nothing() {
    let mut agent = ClawInstance::new();
    agent.equip(EquipmentSlot::Legs);
    agent.step().unwrap();
    let mut chain = CommandChain::new(Uuid::new_v4());
    chain.push(Command::new(ClawAction::Equip("x".into()), None));
    chain.push(Command::new(ClawAction::Equip("x".into()), Some("Tail")));
    chain.push(Command::new(ClawAction::Unequip("x".into()), Some("Tail")));
    chain.push(Command::new(ClawAction::Unequip("x".into()), None));
    agent.execute_chain(&chain).unwrap();
    assert_eq!(agent.state, AgentState::Thinking);
    assert_eq!(agent.equipment.len(), 1);
    assert!(agent.equipment.contains(&EquipmentSlot::Legs));
}

#[test]
fn three_steps_cycle_back() {
    for start in ["Idle", "Thinking", "Acting"] {
        let mut agent = ClawInstance::new();
        agent.set_state(start);
        let before = agent.state.clone();
        for _ in 0..3 {
            agent.step().unwrap();
        }
        assert_eq!(agent.state, before);
        assert_eq!(agent.step_count, 3);
    }
}

#[test]
fn contact_state_follows_arms() {
    let mut agent = ClawInstance::new();
    assert_eq!(agent.contact_state(), ContactState::NoContact);
    agent.equip(EquipmentSlot::Head);
    assert_eq!(agent.contact_state(), ContactState::NoContact);
    agent.equip(EquipmentSlot::Arms);
    assert_eq!(agent.contact_state(), ContactState::Soft);
    agent.unequip(EquipmentSlot::Arms);
    assert_eq!(agent.contact_state(), ContactState::NoContact);
}

#[test]
fn slot_set_insert_remove_report_changes() {
    let mut set = SlotSet::new();
    assert!(set.insert(EquipmentSlot::Arms));
    assert!(!set.insert(EquipmentSlot::Arms));
    assert!(set.insert(EquipmentSlot::Special));
    assert_eq!(set.len(), 2);
    assert!(set.remove(&EquipmentSlot::Arms));
    assert!(!set.remove(&EquipmentSlot::Arms));
    assert_eq!(set.len(), 1);
    set.clear();
    assert!(set.is_empty());
    assert_eq!(set, SlotSet::default());
}

#[test]
fn slot_set_holds_all_five() {
    let mut set = SlotSet::new();
    for slot in [
        EquipmentSlot::Head,
        EquipmentSlot::Torso,
        EquipmentSlot::Arms,
        EquipmentSlot::Legs,
        EquipmentSlot::Special,
    ] {
        set.insert(slot);
        assert!(set.contains(&slot));
    }
    assert_eq!(set.len(), 5);
    assert!(!set.is_empty());
}

#[test]
fn default_agent_is_new_agent() {
    let agent = ClawInstance::default();
    assert_eq!(agent.state, AgentState::Idle);
    assert_eq!(agent.step_count, 0);
    assert!(agent.equipment.is_empty());
}

#[test]
fn running_two_chains_equals_running_their_concatenation() {
    let id = Uuid::new_v4();
    let mut first = CommandChain::new(id);
    first.push(Command::new(ClawAction::Equip("x".into()), Some("Arms")));
    first.push(Command::new(ClawAction::Step, None));
    let mut second = CommandChain::new(id);
    second.push(Command::new(ClawAction::Step, None));
    second.push(Command::new(ClawAction::Unequip("x".into()), Some("Arms")));
    let mut both = first.clone();
    for cmd in &second.commands {
        both.push(cmd.clone());
    }
    assert_eq!(both.source_pulse_id, id);

    let mut a = ClawInstance::new();
    a.execute_chain(&first).unwrap();
    a.execute_chain(&second).unwrap();
    let mut b = ClawInstance::new();
    b.execute_chain(&both).unwrap();
    assert_eq!(a.state, b.state);
    assert_eq!(a.step_count, b.step_count);
    assert_eq!(a.equipment, b.equipment);
}

#[test]
fn failing_first_part_skips_the_second() {
    let mut chain = CommandChain::new(Uuid::new_v4());
    chain.push(Command::new(ClawAction::SetState("Stuck".into()), None));
    chain.push(Command::new(ClawAction::Equip("x".into()), Some("Head")));
    chain.push(Command::new(ClawAction::Step, None));
    let mut agent = ClawInstance::new();
    assert_eq!(agent.execute_chain(&chain), Err(NmiError::AgentError("Stuck".to_string())));
    assert!(agent.equipment.is_empty());
    assert_eq!(agent.step_count, 0);
}
