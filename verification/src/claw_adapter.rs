//! The cellular agent that the interface drives: its lifecycle states, its
//! equipment slots, and the execution of command chains against it.

use crate::dispatcher::{commands_model, planned_commands, trimmed, NmiError};
use crate::pincher_hook::reflex_commands;
use crate::pulse::{ActionModel, ClawAction, Command, CommandChain, CommandModel, IntentType};
use crate::telemetry::ContactState;
use crate::text::same_text;
use vstd::prelude::*;

verus! {

/// The lifecycle states of a cellular agent.
#[derive(Debug, Clone, PartialEq, Eq, Hash)]
pub enum AgentState {
    Idle,
    Thinking,
    Acting,
    Error(String),
}

/// The mathematical value of an [`AgentState`].
pub enum AgentPhase {
    Idle,
    Thinking,
    Acting,
    Error(Seq<char>),
}

impl View for AgentState {
    type V = AgentPhase;

    open spec fn view(&self) -> AgentPhase {
        match self {
            AgentState::Idle => AgentPhase::Idle,
            AgentState::Thinking => AgentPhase::Thinking,
            AgentState::Acting => AgentPhase::Acting,
            AgentState::Error(e) => AgentPhase::Error(e@),
        }
    }
}

/// The phase that one lifecycle step leads to: Idle, Thinking and Acting
/// follow each other in a cycle; an error stays.
pub open spec fn next_phase(p: AgentPhase) -> AgentPhase {
    match p {
        AgentPhase::Idle => AgentPhase::Thinking,
        AgentPhase::Thinking => AgentPhase::Acting,
        AgentPhase::Acting => AgentPhase::Idle,
        AgentPhase::Error(e) => AgentPhase::Error(e),
    }
}

/// The phase a state name stands for; any other name is an error state
/// that carries the name.
pub open spec fn phase_named(name: Seq<char>) -> AgentPhase {
    if name == "Idle"@ {
        AgentPhase::Idle
    } else if name == "Thinking"@ {
        AgentPhase::Thinking
    } else if name == "Acting"@ {
        AgentPhase::Acting
    } else {
        AgentPhase::Error(name)
    }
}

/// The message of an error phase.
pub open spec fn phase_error(p: AgentPhase) -> Option<Seq<char>> {
    match p {
        AgentPhase::Error(e) => Some(e),
        _ => None,
    }
}

/// Equipment slots on a cellular agent.
#[derive(Debug, Clone, Copy, PartialEq, Eq, Hash, Structural)]
pub enum EquipmentSlot {
    Head,
    Torso,
    Arms,
    Legs,
    Special,
}

/// The slot a name stands for, if any.
pub open spec fn slot_named(name: Seq<char>) -> Option<EquipmentSlot> {
    if name == "Head"@ {
        Some(EquipmentSlot::Head)
    } else if name == "Torso"@ {
        Some(EquipmentSlot::Torso)
    } else if name == "Arms"@ {
        Some(EquipmentSlot::Arms)
    } else if name == "Legs"@ {
        Some(EquipmentSlot::Legs)
    } else if name == "Special"@ {
        Some(EquipmentSlot::Special)
    } else {
        None
    }
}

/// Exactly the five slot names parse, each to its own slot, and every
/// other name, whatever its case or spelling, parses to no slot.
pub proof fn lemma_slot_names(name: Seq<char>)
    ensures
        (slot_named(name) == Some(EquipmentSlot::Head)) == (name == "Head"@),
        (slot_named(name) == Some(EquipmentSlot::Torso)) == (name == "Torso"@),
        (slot_named(name) == Some(EquipmentSlot::Arms)) == (name == "Arms"@),
        (slot_named(name) == Some(EquipmentSlot::Legs)) == (name == "Legs"@),
        (slot_named(name) == Some(EquipmentSlot::Special)) == (name == "Special"@),
        (slot_named(name) is None) == !(name == "Head"@ || name == "Torso"@ || name == "Arms"@
            || name == "Legs"@ || name == "Special"@),
{
    lemma_names();
}

/// Exactly the three lifecycle names name their phase, and every other
/// name is an error phase that carries the name.
pub proof fn lemma_phase_names(name: Seq<char>)
    ensures
        (phase_named(name) == AgentPhase::Idle) == (name == "Idle"@),
        (phase_named(name) == AgentPhase::Thinking) == (name == "Thinking"@),
        (phase_named(name) == AgentPhase::Acting) == (name == "Acting"@),
        (phase_named(name) is Error) == !(name == "Idle"@ || name == "Thinking"@ || name
            == "Acting"@),
        phase_named(name) is Error ==> phase_named(name) == AgentPhase::Error(name),
{
    lemma_names();
}

/// One lifecycle step takes Idle to Thinking, Thinking to Acting, Acting
/// back to Idle, and keeps an error as it is.
pub proof fn lemma_next_phase(p: AgentPhase)
    ensures
        p == AgentPhase::Idle ==> next_phase(p) == AgentPhase::Thinking,
        p == AgentPhase::Thinking ==> next_phase(p) == AgentPhase::Acting,
        p == AgentPhase::Acting ==> next_phase(p) == AgentPhase::Idle,
        p is Error ==> next_phase(p) == p,
{
}

impl EquipmentSlot {
    /// Parses a slot name into an equipment slot.
    pub fn from_name(name: &str) -> (slot: Option<Self>)
        ensures
            slot == slot_named(name@),
            (slot == Some(EquipmentSlot::Head)) == (name@ == "Head"@),
            (slot == Some(EquipmentSlot::Torso)) == (name@ == "Torso"@),
            (slot == Some(EquipmentSlot::Arms)) == (name@ == "Arms"@),
            (slot == Some(EquipmentSlot::Legs)) == (name@ == "Legs"@),
            (slot == Some(EquipmentSlot::Special)) == (name@ == "Special"@),
    {
        proof {
            lemma_names();
        }
        if same_text(name, "Head") {
            Some(EquipmentSlot::Head)
        } else if same_text(name, "Torso") {
            Some(EquipmentSlot::Torso)
        } else if same_text(name, "Arms") {
            Some(EquipmentSlot::Arms)
        } else if same_text(name, "Legs") {
            Some(EquipmentSlot::Legs)
        } else if same_text(name, "Special") {
            Some(EquipmentSlot::Special)
        } else {
            None
        }
    }
}

/// The set of equipped slots of an agent: one flag per slot.
///
/// The slots are the five variants of [`EquipmentSlot`], so a flag per
/// variant holds any set of them, and its view is that set. A `HashSet`
/// would give no such view here: vstd specifies `HashSet` only for key
/// types it knows to hash and compare consistently, which a derived `Hash`
/// on this enum is not shown to do.
#[derive(Debug, Clone, Copy, PartialEq, Eq, Hash, Structural)]
pub struct SlotSet {
    head: bool,
    torso: bool,
    arms: bool,
    legs: bool,
    special: bool,
}

impl SlotSet {
    spec fn holds(&self, slot: EquipmentSlot) -> bool {
        match slot {
            EquipmentSlot::Head => self.head,
            EquipmentSlot::Torso => self.torso,
            EquipmentSlot::Arms => self.arms,
            EquipmentSlot::Legs => self.legs,
            EquipmentSlot::Special => self.special,
        }
    }

    spec fn count(&self) -> nat {
        (if self.head { 1nat } else { 0nat }) + (if self.torso { 1nat } else { 0nat }) + (if self.arms {
            1nat
        } else {
            0nat
        }) + (if self.legs { 1nat } else { 0nat }) + (if self.special { 1nat } else { 0nat })
    }

    spec fn built(&self) -> Set<EquipmentSlot> {
        let s0 = Set::<EquipmentSlot>::empty();
        let s1 = if self.head { s0.insert(EquipmentSlot::Head) } else { s0 };
        let s2 = if self.torso { s1.insert(EquipmentSlot::Torso) } else { s1 };
        let s3 = if self.arms { s2.insert(EquipmentSlot::Arms) } else { s2 };
        let s4 = if self.legs { s3.insert(EquipmentSlot::Legs) } else { s3 };
        if self.special { s4.insert(EquipmentSlot::Special) } else { s4 }
    }

    /// The set is finite, and its size is the number of raised flags.
    proof fn lemma_size(&self)
        ensures
            self@.finite(),
            self@.len() == self.count(),
    {
        let s0 = Set::<EquipmentSlot>::empty();
        let s1 = if self.head { s0.insert(EquipmentSlot::Head) } else { s0 };
        let s2 = if self.torso { s1.insert(EquipmentSlot::Torso) } else { s1 };
        let s3 = if self.arms { s2.insert(EquipmentSlot::Arms) } else { s2 };
        let s4 = if self.legs { s3.insert(EquipmentSlot::Legs) } else { s3 };
        assert(!s1.contains(EquipmentSlot::Torso));
        assert(!s2.contains(EquipmentSlot::Arms));
        assert(!s3.contains(EquipmentSlot::Legs));
        assert(!s4.contains(EquipmentSlot::Special));
        assert(self@ =~= self.built());
    }

    /// An empty set of slots.
    pub fn new() -> (s: Self)
        ensures
            s@ == Set::<EquipmentSlot>::empty(),
    {
        let s = SlotSet { head: false, torso: false, arms: false, legs: false, special: false };
        assert(s@ =~= Set::<EquipmentSlot>::empty());
        s
    }

    /// Whether `slot` is in the set.
    pub fn contains(&self, slot: &EquipmentSlot) -> (b: bool)
        ensures
            b == self@.contains(*slot),
    {
        match slot {
            EquipmentSlot::Head => self.head,
            EquipmentSlot::Torso => self.torso,
            EquipmentSlot::Arms => self.arms,
            EquipmentSlot::Legs => self.legs,
            EquipmentSlot::Special => self.special,
        }
    }

    /// Adds `slot`; tells whether it was not there before.
    pub fn insert(&mut self, slot: EquipmentSlot) -> (added: bool)
        ensures
            final(self)@ == old(self)@.insert(slot),
            added == !old(self)@.contains(slot),
    {
        let added = !self.contains(&slot);
        match slot {
            EquipmentSlot::Head => self.head = true,
            EquipmentSlot::Torso => self.torso = true,
            EquipmentSlot::Arms => self.arms = true,
            EquipmentSlot::Legs => self.legs = true,
            EquipmentSlot::Special => self.special = true,
        }
        assert(self@ =~= old(self)@.insert(slot));
        added
    }

    /// Removes `slot`; tells whether it was there.
    pub fn remove(&mut self, slot: &EquipmentSlot) -> (removed: bool)
        ensures
            final(self)@ == old(self)@.remove(*slot),
            removed == old(self)@.contains(*slot),
    {
        let removed = self.contains(slot);
        match slot {
            EquipmentSlot::Head => self.head = false,
            EquipmentSlot::Torso => self.torso = false,
            EquipmentSlot::Arms => self.arms = false,
            EquipmentSlot::Legs => self.legs = false,
            EquipmentSlot::Special => self.special = false,
        }
        assert(self@ =~= old(self)@.remove(*slot));
        removed
    }

    /// Removes every slot.
    pub fn clear(&mut self)
        ensures
            final(self)@ == Set::<EquipmentSlot>::empty(),
    {
        *self = SlotSet::new();
    }

    /// The number of slots in the set.
    pub fn len(&self) -> (n: usize)
        ensures
            self@.finite(),
            n == self@.len(),
    {
        proof {
            self.lemma_size();
        }
        let mut n: usize = 0;
        if self.head {
            n = n + 1;
        }
        if self.torso {
            n = n + 1;
        }
        if self.arms {
            n = n + 1;
        }
        if self.legs {
            n = n + 1;
        }
        if self.special {
            n = n + 1;
        }
        n
    }

    /// Whether no slot is in the set.
    pub fn is_empty(&self) -> (b: bool)
        ensures
            b == (self@ == Set::<EquipmentSlot>::empty()),
    {
        let b = !(self.head || self.torso || self.arms || self.legs || self.special);
        if b {
            assert(self@ =~= Set::<EquipmentSlot>::empty());
        } else {
            assert(self@ != Set::<EquipmentSlot>::empty()) by {
                if self.head {
                    assert(self@.contains(EquipmentSlot::Head));
                } else if self.torso {
                    assert(self@.contains(EquipmentSlot::Torso));
                } else if self.arms {
                    assert(self@.contains(EquipmentSlot::Arms));
                } else if self.legs {
                    assert(self@.contains(EquipmentSlot::Legs));
                } else {
                    assert(self@.contains(EquipmentSlot::Special));
                }
            }
        }
        b
    }
}

impl Default for SlotSet {
    /// An empty set of slots.
    fn default() -> (s: Self)
        ensures
            s@ == Set::<EquipmentSlot>::empty(),
    {
        SlotSet::new()
    }
}

impl View for SlotSet {
    type V = Set<EquipmentSlot>;

    closed spec fn view(&self) -> Set<EquipmentSlot> {
        Set::new(|slot: EquipmentSlot| self.holds(slot))
    }
}

/// The mathematical value of an agent: its lifecycle phase, the set of its
/// equipped slots and its step counter.
#[verifier::ext_equal]
pub struct AgentModel {
    pub state: AgentPhase,
    pub equipment: Set<EquipmentSlot>,
    pub step_count: int,
}

/// The agent after one lifecycle step.
pub open spec fn stepped(a: AgentModel) -> AgentModel {
    AgentModel { state: next_phase(a.state), equipment: a.equipment, step_count: a.step_count + 1 }
}

/// The agent after equipping `slot`.
pub open spec fn equipped(a: AgentModel, slot: EquipmentSlot) -> AgentModel {
    AgentModel { state: AgentPhase::Idle, equipment: a.equipment.insert(slot), step_count: a.step_count }
}

/// The agent after unequipping `slot`.
pub open spec fn unequipped(a: AgentModel, slot: EquipmentSlot) -> AgentModel {
    AgentModel { state: AgentPhase::Idle, equipment: a.equipment.remove(slot), step_count: a.step_count }
}

/// The agent with its state set to the one named `name`.
pub open spec fn with_state(a: AgentModel, name: Seq<char>) -> AgentModel {
    AgentModel { state: phase_named(name), equipment: a.equipment, step_count: a.step_count }
}

/// The agent with every slot unequipped and its state unchanged.
pub open spec fn stripped(a: AgentModel) -> AgentModel {
    AgentModel { state: a.state, equipment: Set::empty(), step_count: a.step_count }
}

/// What executing commands leaves behind: the agent, and the message of
/// the agent error that stopped execution, if one did.
pub struct Outcome {
    pub agent: AgentModel,
    pub error: Option<Seq<char>>,
}

/// An outcome without error.
pub open spec fn done(a: AgentModel) -> Outcome {
    Outcome { agent: a, error: None }
}

/// The effect of one command on an agent.
///
/// Equip and unequip act on the slot the command names and leave the agent
/// as it is when the name is no slot; unequipping the slot named `all`
/// strips every slot. A step advances the lifecycle and fails in an error
/// state. Setting a state fails when the name is no lifecycle state.
pub open spec fn apply(a: AgentModel, c: CommandModel) -> Outcome {
    match c.action {
        ActionModel::Equip(_) => match c.slot {
            Some(name) => match slot_named(name) {
                Some(slot) => done(equipped(a, slot)),
                None => done(a),
            },
            None => done(a),
        },
        ActionModel::Unequip(_) => match c.slot {
            Some(name) => match slot_named(name) {
                Some(slot) => done(unequipped(a, slot)),
                None => if name == "all"@ {
                    done(stripped(a))
                } else {
                    done(a)
                },
            },
            None => done(a),
        },
        ActionModel::Step => Outcome { agent: stepped(a), error: phase_error(a.state) },
        ActionModel::SetState(name) => Outcome {
            agent: with_state(a, name),
            error: phase_error(phase_named(name)),
        },
    }
}

/// The effect of commands applied in order, stopping at the first one that
/// fails.
pub open spec fn run(a: AgentModel, cmds: Seq<CommandModel>) -> Outcome
    decreases cmds.len(),
{
    if cmds.len() == 0 {
        done(a)
    } else {
        let o = apply(a, cmds[0]);
        if o.error is Some {
            o
        } else {
            run(o.agent, cmds.drop_first())
        }
    }
}

/// What each kind of command does to an agent, whatever its payload.
///
/// Equip never fails and leaves the step counter alone; it equips the
/// named slot and idles the agent, or changes nothing when the command
/// names no slot. Unequip never fails either; it unequips the named slot and
/// idles the agent, strips every slot without touching the state when the
/// slot is named `all`, and changes nothing otherwise. A step counts one
/// more step, advances the lifecycle and fails exactly in an error state,
/// with that error's message. Setting a state fails exactly when the name
/// is no lifecycle state, with the name as message; the step counter and
/// the equipment are never touched by it.
pub proof fn lemma_command_effects(a: AgentModel, c: CommandModel)
    ensures
        c.action is Equip ==> {
            &&& apply(a, c).error is None
            &&& apply(a, c).agent.step_count == a.step_count
            &&& match c.slot {
                Some(name) => match slot_named(name) {
                    Some(slot) => apply(a, c).agent.equipment == a.equipment.insert(slot)
                        && apply(a, c).agent.state == AgentPhase::Idle,
                    None => apply(a, c).agent == a,
                },
                None => apply(a, c).agent == a,
            }
        },
        c.action is Unequip ==> {
            &&& apply(a, c).error is None
            &&& apply(a, c).agent.step_count == a.step_count
            &&& match c.slot {
                Some(name) => match slot_named(name) {
                    Some(slot) => apply(a, c).agent.equipment == a.equipment.remove(slot)
                        && apply(a, c).agent.state == AgentPhase::Idle,
                    None => if name == "all"@ {
                        apply(a, c).agent.equipment == Set::<EquipmentSlot>::empty()
                            && apply(a, c).agent.state == a.state
                    } else {
                        apply(a, c).agent == a
                    },
                },
                None => apply(a, c).agent == a,
            }
        },
        c.action is Step ==> {
            &&& apply(a, c).agent.step_count == a.step_count + 1
            &&& apply(a, c).agent.equipment == a.equipment
            &&& apply(a, c).agent.state == next_phase(a.state)
            &&& (apply(a, c).error is Some <==> a.state is Error)
            &&& a.state matches AgentPhase::Error(e) ==> apply(a, c).error == Some(e)
        },
        c.action matches ActionModel::SetState(name) ==> {
            &&& apply(a, c).agent.step_count == a.step_count
            &&& apply(a, c).agent.equipment == a.equipment
            &&& apply(a, c).agent.state == phase_named(name)
            &&& (apply(a, c).error is Some <==> !(name == "Idle"@ || name == "Thinking"@
                || name == "Acting"@))
            &&& apply(a, c).error is Some ==> apply(a, c).error == Some(name)
        },
{
}

/// Commands never lower the step counter.
pub proof fn lemma_run_counts_up(a: AgentModel, cmds: Seq<CommandModel>)
    ensures
        a.step_count <= run(a, cmds).agent.step_count,
        cmds.len() > 0 ==> apply(a, cmds[0]).agent.step_count <= run(a, cmds).agent.step_count,
    decreases cmds.len(),
{
    if cmds.len() > 0 {
        let o = apply(a, cmds[0]);
        if o.error is None {
            lemma_run_counts_up(o.agent, cmds.drop_first());
        }
    }
}

/// Executing a chain in two parts is executing it at once: the second part
/// runs on what the first left behind, unless the first part failed.
pub proof fn lemma_run_concat(a: AgentModel, first: Seq<CommandModel>, second: Seq<CommandModel>)
    ensures
        run(a, first + second) == (if run(a, first).error is Some {
            run(a, first)
        } else {
            run(run(a, first).agent, second)
        }),
    decreases first.len(),
{
    if first.len() == 0 {
        assert(first + second =~= second);
    } else {
        let o = apply(a, first[0]);
        assert((first + second)[0] == first[0]);
        assert((first + second).drop_first() =~= first.drop_first() + second);
        if o.error is None {
            lemma_run_concat(o.agent, first.drop_first(), second);
        }
    }
}

/// Outside an error state, three lifecycle steps bring the agent back to
/// the phase it started in; an error state is never left by stepping.
pub proof fn lemma_step_cycle(a: AgentModel)
    ensures
        stepped(stepped(stepped(a))).state == a.state,
        stepped(stepped(stepped(a))).step_count == a.step_count + 3,
        a.state is Error ==> stepped(a).state == a.state,
{
}

/// The agent that the untrimmed chain of `intent` leaves behind.
pub open spec fn after_intent(a: AgentModel, intent: IntentType) -> AgentModel {
    match intent {
        IntentType::Navigate => AgentModel {
            state: AgentPhase::Idle,
            equipment: a.equipment,
            step_count: a.step_count + 2,
        },
        IntentType::Interact => AgentModel {
            state: AgentPhase::Acting,
            equipment: a.equipment.insert(EquipmentSlot::Arms),
            step_count: a.step_count + 1,
        },
        IntentType::Observe => AgentModel {
            state: AgentPhase::Thinking,
            equipment: a.equipment.insert(EquipmentSlot::Head),
            step_count: a.step_count + 1,
        },
        IntentType::Equip => AgentModel {
            state: AgentPhase::Idle,
            equipment: a.equipment.insert(EquipmentSlot::Torso).insert(EquipmentSlot::Legs),
            step_count: a.step_count,
        },
        IntentType::Reflex => AgentModel {
            state: AgentPhase::Idle,
            equipment: a.equipment,
            step_count: a.step_count + 1,
        },
        IntentType::Rest => AgentModel {
            state: AgentPhase::Idle,
            equipment: Set::empty(),
            step_count: a.step_count,
        },
    }
}

/// The names of the lifecycle states and slots, by their characters.
proof fn lemma_names()
    ensures
        phase_named("Idle"@) == AgentPhase::Idle,
        phase_named("Thinking"@) == AgentPhase::Thinking,
        phase_named("Acting"@) == AgentPhase::Acting,
        slot_named("Head"@) == Some(EquipmentSlot::Head),
        slot_named("Torso"@) == Some(EquipmentSlot::Torso),
        slot_named("Arms"@) == Some(EquipmentSlot::Arms),
        slot_named("Legs"@) == Some(EquipmentSlot::Legs),
        slot_named("Special"@) == Some(EquipmentSlot::Special),
{
    reveal_strlit("Idle");
    reveal_strlit("Thinking");
    reveal_strlit("Acting");
    reveal_strlit("Head");
    reveal_strlit("Torso");
    reveal_strlit("Arms");
    reveal_strlit("Legs");
    reveal_strlit("Special");
    assert("Idle"@.len() == 4 && "Thinking"@.len() == 8 && "Acting"@.len() == 6);
    assert("Head"@.len() == 4 && "Arms"@.len() == 4 && "Legs"@.len() == 4);
    assert("Torso"@.len() == 5 && "Special"@.len() == 7);
    assert("Head"@[0] == 'H' && "Arms"@[0] == 'A' && "Legs"@[0] == 'L');
}

/// Running a chain from its `k`-th command on is applying that command,
/// then running the rest unless that command failed.
proof fn lemma_run_from(a: AgentModel, cmds: Seq<CommandModel>, k: int)
    requires
        0 <= k < cmds.len(),
    ensures
        run(a, cmds.skip(k)) == (if apply(a, cmds[k]).error is Some {
            apply(a, cmds[k])
        } else {
            run(apply(a, cmds[k]).agent, cmds.skip(k + 1))
        }),
{
    assert(cmds.skip(k).drop_first() =~= cmds.skip(k + 1));
}

/// A chain that executes without error executes without error up to any
/// point.
proof fn lemma_prefix_runs(a: AgentModel, cmds: Seq<CommandModel>, k: int)
    requires
        0 <= k <= cmds.len(),
        run(a, cmds).error is None,
    ensures
        run(a, cmds.take(k)).error is None,
{
    lemma_run_concat(a, cmds.take(k), cmds.skip(k));
    assert(cmds.take(k) + cmds.skip(k) =~= cmds);
}

/// Every chain the dispatcher translates executes without error on any
/// agent, trimmed or not; untrimmed, it leaves the agent as
/// [`after_intent`] says: Navigate and Reflex end idle, Interact equips the
/// arms, Observe the head, Equip the torso and legs, and Rest unequips
/// every slot and idles the agent.
pub proof fn lemma_translated_chain_runs(a: AgentModel, intent: IntentType, strained: bool)
    ensures
        run(a, planned_commands(intent)) == done(after_intent(a, intent)),
        run(a, trimmed(planned_commands(intent), strained)).error is None,
{
    lemma_names();
    reveal_strlit("all");
    let cmds = planned_commands(intent);
    assert(cmds.skip(0) =~= cmds);
    match intent {
        IntentType::Navigate => {
            lemma_run_from(a, cmds, 0);
            let a1 = apply(a, cmds[0]).agent;
            lemma_run_from(a1, cmds, 1);
            let a2 = apply(a1, cmds[1]).agent;
            lemma_run_from(a2, cmds, 2);
            let a3 = apply(a2, cmds[2]).agent;
            assert(cmds.skip(3) =~= Seq::<CommandModel>::empty());
            assert(a3 =~= after_intent(a, intent));
        },
        IntentType::Interact => {
            lemma_run_from(a, cmds, 0);
            let a1 = apply(a, cmds[0]).agent;
            lemma_run_from(a1, cmds, 1);
            let a2 = apply(a1, cmds[1]).agent;
            lemma_run_from(a2, cmds, 2);
            let a3 = apply(a2, cmds[2]).agent;
            assert(cmds.skip(3) =~= Seq::<CommandModel>::empty());
            assert(a3 =~= after_intent(a, intent));
        },
        IntentType::Observe => {
            lemma_run_from(a, cmds, 0);
            let a1 = apply(a, cmds[0]).agent;
            lemma_run_from(a1, cmds, 1);
            let a2 = apply(a1, cmds[1]).agent;
            assert(cmds.skip(2) =~= Seq::<CommandModel>::empty());
            assert(a2 =~= after_intent(a, intent));
        },
        IntentType::Equip => {
            lemma_run_from(a, cmds, 0);
            let a1 = apply(a, cmds[0]).agent;
            lemma_run_from(a1, cmds, 1);
            let a2 = apply(a1, cmds[1]).agent;
            assert(cmds.skip(2) =~= Seq::<CommandModel>::empty());
            assert(a2 =~= after_intent(a, intent));
        },
        IntentType::Reflex => {
            lemma_run_from(a, cmds, 0);
            let a1 = apply(a, cmds[0]).agent;
            lemma_run_from(a1, cmds, 1);
            let a2 = apply(a1, cmds[1]).agent;
            assert(cmds.skip(2) =~= Seq::<CommandModel>::empty());
            assert(a2 =~= after_intent(a, intent));
        },
        IntentType::Rest => {
            lemma_run_from(a, cmds, 0);
            let a1 = apply(a, cmds[0]).agent;
            lemma_run_from(a1, cmds, 1);
            let a2 = apply(a1, cmds[1]).agent;
            lemma_run_from(a2, cmds, 2);
            let a3 = apply(a2, cmds[2]).agent;
            lemma_run_from(a3, cmds, 3);
            let a4 = apply(a3, cmds[3]).agent;
            lemma_run_from(a4, cmds, 4);
            let a5 = apply(a4, cmds[4]).agent;
            lemma_run_from(a5, cmds, 5);
            let a6 = apply(a5, cmds[5]).agent;
            assert(cmds.skip(6) =~= Seq::<CommandModel>::empty());
            assert(a6 =~= after_intent(a, intent));
        },
    }
    if strained && cmds.len() > 2 {
        lemma_prefix_runs(a, cmds, 2);
    }
}

/// A reflex chain executes without error on any agent: it equips the arms
/// and leaves the agent thinking, one step further.
pub proof fn lemma_reflex_chain_runs(a: AgentModel)
    ensures
        run(a, reflex_commands()) == done(
            AgentModel {
                state: AgentPhase::Thinking,
                equipment: a.equipment.insert(EquipmentSlot::Arms),
                step_count: a.step_count + 1,
            },
        ),
{
    lemma_names();
    let cmds = reflex_commands();
    let b = AgentModel {
        state: AgentPhase::Thinking,
        equipment: a.equipment.insert(EquipmentSlot::Arms),
        step_count: a.step_count + 1,
    };
    assert(cmds.skip(0) =~= cmds);
    lemma_run_from(a, cmds, 0);
    let a1 = apply(a, cmds[0]).agent;
    lemma_run_from(a1, cmds, 1);
    let a2 = apply(a1, cmds[1]).agent;
    lemma_run_from(a2, cmds, 2);
    let a3 = apply(a2, cmds[2]).agent;
    assert(cmds.skip(3) =~= Seq::<CommandModel>::empty());
    assert(a3 =~= b);
}

/// A simulated cellular agent instance.
#[derive(Debug)]
pub struct ClawInstance {
    pub state: AgentState,
    pub equipment: SlotSet,
    pub step_count: u64,
}

impl View for ClawInstance {
    type V = AgentModel;

    open spec fn view(&self) -> AgentModel {
        AgentModel {
            state: self.state@,
            equipment: self.equipment@,
            step_count: self.step_count as int,
        }
    }
}

impl Default for ClawInstance {
    fn default() -> (agent: Self)
        ensures
            agent@ == (AgentModel {
                state: AgentPhase::Idle,
                equipment: Set::empty(),
                step_count: 0,
            }),
    {
        Self::new()
    }
}

impl ClawInstance {
    /// A fresh agent: idle, nothing equipped, no step taken.
    pub fn new() -> (agent: Self)
        ensures
            agent@ == (AgentModel {
                state: AgentPhase::Idle,
                equipment: Set::empty(),
                step_count: 0,
            }),
    {
        ClawInstance { state: AgentState::Idle, equipment: SlotSet::new(), step_count: 0 }
    }

    /// Equips a slot; the agent returns to Idle.
    pub fn equip(&mut self, slot: EquipmentSlot)
        ensures
            final(self)@ == equipped(old(self)@, slot),
    {
        self.equipment.insert(slot);
        self.state = AgentState::Idle;
    }

    /// Unequips a slot; the agent returns to Idle.
    pub fn unequip(&mut self, slot: EquipmentSlot)
        ensures
            final(self)@ == unequipped(old(self)@, slot),
    {
        self.equipment.remove(&slot);
        self.state = AgentState::Idle;
    }

    /// Advances the lifecycle by one step. The step is counted in every
    /// state; in an error state the step fails with the error's message.
    pub fn step(&mut self) -> (r: Result<(), String>)
        requires
            old(self).step_count < u64::MAX,
        ensures
            final(self)@ == stepped(old(self)@),
            match phase_error(old(self)@.state) {
                None => r is Ok,
                Some(e) => r matches Err(m) && m@ == e,
            },
    {
        self.step_count = self.step_count + 1;
        match &self.state {
            AgentState::Idle => {
                self.state = AgentState::Thinking;
                Ok(())
            },
            AgentState::Thinking => {
                self.state = AgentState::Acting;
                Ok(())
            },
            AgentState::Acting => {
                self.state = AgentState::Idle;
                Ok(())
            },
            AgentState::Error(e) => Err(e.clone()),
        }
    }

    /// Sets the state directly; a name that is no lifecycle state puts the
    /// agent in an error state that carries the name.
    pub fn set_state(&mut self, state_str: &str)
        ensures
            final(self)@ == with_state(old(self)@, state_str@),
    {
        self.state = if same_text(state_str, "Idle") {
            AgentState::Idle
        } else if same_text(state_str, "Thinking") {
            AgentState::Thinking
        } else if same_text(state_str, "Acting") {
            AgentState::Acting
        } else {
            AgentState::Error(state_str.to_owned())
        };
    }

    /// The contact state that the agent's equipment reports: soft contact
    /// when the arms are equipped, none otherwise.
    pub fn contact_state(&self) -> (c: ContactState)
        ensures
            c == (if self.equipment@.contains(EquipmentSlot::Arms) {
                ContactState::Soft
            } else {
                ContactState::NoContact
            }),
    {
        if self.equipment.contains(&EquipmentSlot::Arms) {
            ContactState::Soft
        } else {
            ContactState::NoContact
        }
    }

    /// Executes a single command against the agent.
    fn execute_command(&mut self, cmd: &Command) -> (r: Result<(), NmiError>)
        requires
            apply(old(self)@, cmd@).agent.step_count <= u64::MAX,
        ensures
            final(self)@ == apply(old(self)@, cmd@).agent,
            match apply(old(self)@, cmd@).error {
                None => r is Ok,
                Some(e) => r matches Err(NmiError::AgentError(m)) && m@ == e,
            },
    {
        match &cmd.action {
            ClawAction::Equip(_) => {
                if let Some(slot_name) = &cmd.slot {
                    if let Some(slot) = EquipmentSlot::from_name(slot_name.as_str()) {
                        self.equip(slot);
                    }
                }
                Ok(())
            },
            ClawAction::Unequip(_) => {
                if let Some(slot_name) = &cmd.slot {
                    if let Some(slot) = EquipmentSlot::from_name(slot_name.as_str()) {
                        self.unequip(slot);
                    } else if same_text(slot_name.as_str(), "all") {
                        self.equipment.clear();
                    }
                }
                Ok(())
            },
            ClawAction::Step => match self.step() {
                Ok(()) => Ok(()),
                Err(e) => Err(NmiError::AgentError(e)),
            },
            ClawAction::SetState(state_str) => {
                self.set_state(state_str.as_str());
                if let AgentState::Error(e) = &self.state {
                    return Err(NmiError::AgentError(e.clone()));
                }
                Ok(())
            },
        }
    }

    /// Executes a command chain against the agent.
    ///
    /// The commands are applied in order; the first one that fails stops
    /// execution, and its error is returned. An empty chain is refused.
    pub fn execute_chain(&mut self, chain: &CommandChain) -> (r: Result<(), NmiError>)
        requires
            run(old(self)@, commands_model(chain.commands@)).agent.step_count <= u64::MAX,
        ensures
            final(self)@ == run(old(self)@, commands_model(chain.commands@)).agent,
            chain.commands@.len() == 0 ==> r == Err::<(), NmiError>(
                NmiError::EmptyChain(chain.source_pulse_id),
            ),
            chain.commands@.len() > 0 ==> match run(
                old(self)@,
                commands_model(chain.commands@),
            ).error {
                None => r is Ok,
                Some(e) => r matches Err(NmiError::AgentError(m)) && m@ == e,
            },
    {
        if chain.is_empty() {
            return Err(NmiError::EmptyChain(chain.source_pulse_id));
        }
        let ghost start = self@;
        let ghost all = commands_model(chain.commands@);
        let n: usize = chain.commands.len();
        let mut i: usize = 0;
        assert(all.skip(0) =~= all);
        while i < n
            invariant
                n == chain.commands@.len(),
                start == old(self)@,
                all == commands_model(chain.commands@),
                i <= n,
                run(start, all) == run(self@, all.skip(i as int)),
                run(start, all).agent.step_count <= u64::MAX,
            decreases n - i,
        {
            let ghost rest = all.skip(i as int);
            let ghost before = self@;
            proof {
                assert(all.len() == n);
                assert(rest.len() > 0);
                assert(rest[0] == chain.commands@[i as int]@);
                assert(rest.drop_first() =~= all.skip(i + 1));
                lemma_run_counts_up(self@, rest);
            }
            let r = self.execute_command(&chain.commands[i]);
            if r.is_err() {
                assert(run(start, all) == apply(before, chain.commands@[i as int]@));
                return r;
            }
            i = i + 1;
        }
        assert(all.skip(n as int) =~= Seq::<CommandModel>::empty());
        Ok(())
    }
}

} // verus!
