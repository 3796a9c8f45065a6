//! Hermes NMI — the neuro-muscular interface between a reasoning system
//! and a cellular agent.
//!
//! The library holds the discrete, verified core of the interface:
//! the vocabulary of intents and commands, the deterministic translation
//! of an intent into a command chain, the agent's lifecycle state machine
//! and equipment slots, the execution of a chain against an agent, and the
//! routing of reflex matches.

pub mod pulse;
pub mod text;
pub mod dispatcher;
pub mod telemetry;
pub mod claw_adapter;
pub mod pincher_hook;

pub use claw_adapter::{AgentState, ClawInstance, EquipmentSlot, SlotSet};
pub use dispatcher::{check_time_budget, state_hash_of, translate_intent, NmiError};
pub use pincher_hook::{MatchType, PincherHook, ReflexAction};
pub use pulse::{ClawAction, Command, CommandChain, IntentType};
pub use telemetry::{ContactState, Status};
