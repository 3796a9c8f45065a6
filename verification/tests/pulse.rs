//! Intents, actions, commands and command chains.

use hermes_nmi::{ClawAction, Command, CommandChain, IntentType};
use std::collections::HashSet;
use uuid::Uuid;

#[test]
fn intent_type_equality() {
    assert_eq!(IntentType::Navigate, IntentType::Navigate);
    assert_ne!(IntentType::Navigate, IntentType::Interact);
    assert_ne!(IntentType::Reflex, IntentType::Rest);
}

#[test]
fn intent_type_all_variants() {
    let variants = [
        IntentType::Navigate,
        IntentType::Interact,
        IntentType::Observe,
        IntentType::Equip,
        IntentType::Reflex,
        IntentType::Rest,
    ];
    for i in 0..variants.len() {
        for j in (i + 1)..variants.len() {
            assert_ne!(variants[i], variants[j], "variants {} and {} are equal", i, j);
        }
    }
}

#[test]
fn pulse_command_new_with_slot() {
    let cmd = Command::new(ClawAction::Equip("sensor".into()), Some("Head"));
    assert_eq!(cmd.action, ClawAction::Equip("sensor".into()));
    assert_eq!(cmd.slot.as_deref(), Some("Head"));
}

#[test]
fn pulse_command_new_without_slot() {
    let cmd = Command::new(ClawAction::Step, None);
    assert!(cmd.slot.is_none());
}

#[test]
fn pulse_claw_action_equality() {
    assert_eq!(ClawAction::Equip("x".into()), ClawAction::Equip("x".into()));
    assert_ne!(ClawAction::Equip("x".into()), ClawAction::Equip("y".into()));
    assert_eq!(ClawAction::Step, ClawAction::Step);
    assert_ne!(ClawAction::Step, ClawAction::SetState("Idle".into()));
}

#[test]
fn claw_action_all_variants() {
    let _ = ClawAction::Equip("test".into());
    let _ = ClawAction::Unequip("test".into());
    let _ = ClawAction::Step;
    let _ = ClawAction::SetState("Thinking".into());
}

#[test]
fn chain_push_grows() {
    let id = Uuid::new_v4();
    let mut chain = CommandChain::new(id);
    chain.push(Command::new(ClawAction::Step, None));
    assert_eq!(chain.len(), 1);
    assert!(!chain.is_empty());

    chain.push(Command::new(ClawAction::Step, None));
    assert_eq!(chain.len(), 2);
}

#[test]
fn chain_preserves_order() {
    let id = Uuid::new_v4();
    let mut chain = CommandChain::new(id);
    chain.push(Command::new(ClawAction::SetState("Thinking".into()), None));
    chain.push(Command::new(ClawAction::Step, None));
    chain.push(Command::new(ClawAction::SetState("Acting".into()), None));

    assert_eq!(chain.commands[0].action, ClawAction::SetState("Thinking".into()));
    assert_eq!(chain.commands[1].action, ClawAction::Step);
    assert_eq!(chain.commands[2].action, ClawAction::SetState("Acting".into()));
}

#[test]
fn comprehensive_command_new_with_slot() {
    let cmd = Command::new(ClawAction::Equip("sensor".into()), Some("Head"));
    assert_eq!(cmd.action, ClawAction::Equip("sensor".into()));
    assert_eq!(cmd.slot.as_deref(), Some("Head"));
}

#[test]
fn comprehensive_command_new_without_slot() {
    let cmd = Command::new(ClawAction::Step, None);
    assert_eq!(cmd.slot, None);
}

#[test]
fn command_chain_push_and_len() {
    let mut chain = CommandChain::new(Uuid::new_v4());
    chain.push(Command::new(ClawAction::Step, None));
    chain.push(Command::new(ClawAction::Step, None));
    chain.push(Command::new(ClawAction::SetState("Idle".into()), None));
    assert!(!chain.is_empty());
    assert_eq!(chain.len(), 3);
}

#[test]
fn intent_type_eq_and_hash() {
    let mut set = HashSet::new();
    set.insert(IntentType::Navigate);
    set.insert(IntentType::Navigate);
    set.insert(IntentType::Reflex);
    assert_eq!(set.len(), 2);
}

#[test]
fn comprehensive_claw_action_equality() {
    assert_eq!(ClawAction::Step, ClawAction::Step);
    assert_ne!(ClawAction::Step, ClawAction::Equip("x".into()));
    assert_eq!(ClawAction::Equip("grasp".into()), ClawAction::Equip("grasp".into()));
}

#[test]
fn new_chain_is_empty_and_names_its_pulse() {
    let id = Uuid::new_v4();
    let chain = CommandChain::new(id);
    assert!(chain.is_empty());
    assert_eq!(chain.len(), 0);
    assert_eq!(chain.source_pulse_id, id);
}

#[test]
fn command_keeps_slot_text_exactly() {
    let cmd = Command::new(ClawAction::Unequip("all".into()), Some("Special"));
    assert_eq!(cmd.slot, Some("Special".to_string()));
    assert_eq!(cmd.action, ClawAction::Unequip("all".to_string()));
}
