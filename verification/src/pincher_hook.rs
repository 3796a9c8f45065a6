//! The reflex pathway: classified reflex matches either fire a short
//! command chain directly or are escalated to the reasoning layer.
//!
//! The classification of a match by its confidence is made by the caller;
//! what reaches this module is the [`MatchType`] it yields.

use crate::dispatcher::{commands_model, equip_cmd, set_state_cmd, step_cmd};
use crate::pulse::{ActionModel, ClawAction, Command, CommandChain, CommandModel};
use uuid::Uuid;
use vstd::prelude::*;

verus! {

/// Classification of match quality.
#[derive(Debug, Clone, Copy, PartialEq, Eq, Hash, Structural)]
pub enum MatchType {
    /// Execute directly, no confirmation needed.
    Exact,
    /// Execute but flag for review.
    Similar,
    /// Novel situation: escalate to reasoning.
    Novel,
}

/// What the reflex does when triggered.
#[derive(Debug, Clone, PartialEq, Eq, Hash)]
pub enum ReflexAction {
    /// Execute a specific Claw action immediately.
    Execute(ClawAction),
    /// Equip a slot for defensive posture.
    Defend(String),
    /// Move away from stimulus.
    Withdraw,
    /// Alert the reasoning layer: this needs reasoning.
    Escalate,
}

/// The mathematical value of a [`ReflexAction`].
pub enum ReflexActionModel {
    Execute(ActionModel),
    Defend(Seq<char>),
    Withdraw,
    Escalate,
}

impl View for ReflexAction {
    type V = ReflexActionModel;

    open spec fn view(&self) -> ReflexActionModel {
        match self {
            ReflexAction::Execute(a) => ReflexActionModel::Execute(a@),
            ReflexAction::Defend(s) => ReflexActionModel::Defend(s@),
            ReflexAction::Withdraw => ReflexActionModel::Withdraw,
            ReflexAction::Escalate => ReflexActionModel::Escalate,
        }
    }
}

/// The action a trigger takes for a match of the given kind: a novel match
/// escalates, an exact one steps the agent, a similar one takes a cautious
/// defensive posture.
pub open spec fn trigger_action(kind: MatchType) -> ReflexActionModel {
    match kind {
        MatchType::Novel => ReflexActionModel::Escalate,
        MatchType::Exact => ReflexActionModel::Execute(ActionModel::Step),
        MatchType::Similar => ReflexActionModel::Defend("cautious"@),
    }
}

impl MatchType {
    /// Should a reflex of this kind fire automatically?
    pub fn should_auto_fire(&self) -> (b: bool)
        ensures
            b == !(*self is Novel),
    {
        !matches!(self, MatchType::Novel)
    }

    /// Should a match of this kind be escalated to the reasoning layer?
    pub fn should_escalate(&self) -> (b: bool)
        ensures
            b == (*self is Novel),
    {
        matches!(self, MatchType::Novel)
    }

    /// The action of the trigger created for a match of this kind.
    pub fn reflex_action(&self) -> (a: ReflexAction)
        ensures
            a@ == trigger_action(*self),
    {
        match self {
            MatchType::Novel => ReflexAction::Escalate,
            MatchType::Exact => ReflexAction::Execute(ClawAction::Step),
            MatchType::Similar => ReflexAction::Defend("cautious".to_owned()),
        }
    }

    /// Whether the trigger for a match of this kind waits for confirmation:
    /// only similar matches do.
    pub fn requires_confirmation(&self) -> (b: bool)
        ensures
            b == (*self is Similar),
    {
        matches!(self, MatchType::Similar)
    }
}

/// The trigger created for a match escalates exactly when the match is
/// escalated, and only a match that fires asks for confirmation. An exact
/// match steps the agent at once; a similar one takes the cautious
/// defensive posture.
pub proof fn lemma_routing_agrees(kind: MatchType)
    ensures
        kind == MatchType::Exact ==> trigger_action(kind) == ReflexActionModel::Execute(
            ActionModel::Step,
        ),
        kind == MatchType::Similar ==> trigger_action(kind) == ReflexActionModel::Defend(
            "cautious"@,
        ),
        (trigger_action(kind) is Escalate) == (kind is Novel),
        (kind is Similar) ==> !(kind is Novel),
{
}

/// The commands of a reflex chain: skip straight to acting, equip the
/// reflex module on the arms, and step to complete the reflex.
pub open spec fn reflex_commands() -> Seq<CommandModel> {
    seq![set_state_cmd("Acting"@), equip_cmd("reflex_module"@, "Arms"@), step_cmd()]
}

/// A reflex chain has three commands, none of which sets the Thinking
/// state: it sets Acting, equips the reflex module on the arms, and steps.
pub proof fn lemma_reflex_chain_shape()
    ensures
        reflex_commands() == seq![
            CommandModel { action: ActionModel::SetState("Acting"@), slot: None },
            CommandModel { action: ActionModel::Equip("reflex_module"@), slot: Some("Arms"@) },
            CommandModel { action: ActionModel::Step, slot: None },
        ],
        forall|i: int|
            0 <= i < 3 ==> reflex_commands()[i].action != ActionModel::SetState("Thinking"@),
{
    reveal_strlit("Acting");
    reveal_strlit("Thinking");
    assert("Acting"@.len() == 6 && "Thinking"@.len() == 8);
}

/// The counters (fired reflexes, escalations) after one more match of the
/// given kind: a novel match adds an escalation, any other a fired reflex.
pub open spec fn counted(kind: MatchType, counters: (int, int)) -> (int, int) {
    if kind is Novel {
        (counters.0, counters.1 + 1)
    } else {
        (counters.0 + 1, counters.1)
    }
}

/// The counters of a hook that has processed the matches `kinds`, in order,
/// from a fresh start.
pub open spec fn tally(kinds: Seq<MatchType>) -> (int, int)
    decreases kinds.len(),
{
    if kinds.len() == 0 {
        (0, 0)
    } else {
        counted(kinds.last(), tally(kinds.drop_last()))
    }
}

/// The number of matches in `kinds` that fire a reflex.
pub open spec fn firing(kinds: Seq<MatchType>) -> int
    decreases kinds.len(),
{
    if kinds.len() == 0 {
        0
    } else {
        firing(kinds.drop_last()) + if kinds.last() is Novel {
            0int
        } else {
            1int
        }
    }
}

/// Processing one more match moves the tally of a run of matches to the
/// tally of the run extended by that match.
pub proof fn lemma_tally_push(kinds: Seq<MatchType>, kind: MatchType)
    ensures
        tally(kinds.push(kind)) == counted(kind, tally(kinds)),
        firing(kinds.push(kind)) == firing(kinds) + if kind is Novel {
            0int
        } else {
            1int
        },
{
    assert(kinds.push(kind).drop_last() =~= kinds);
}

/// After a run of matches from a fresh hook, the fired reflexes are the
/// matches that were not novel, the escalations are the novel ones, and the
/// two counters add up to the number of matches processed.
pub proof fn lemma_tally_counts(kinds: Seq<MatchType>)
    ensures
        tally(kinds).0 == firing(kinds),
        tally(kinds).1 == kinds.len() - firing(kinds),
        tally(kinds).0 + tally(kinds).1 == kinds.len(),
        0 <= firing(kinds) <= kinds.len(),
    decreases kinds.len(),
{
    if kinds.len() > 0 {
        lemma_tally_counts(kinds.drop_last());
    }
}

/// `Uuid::new_v4`: a fresh random identifier for the pulse of a reflex
/// chain. Nothing is stated of its value.
#[verifier::external_body]
fn fresh_pulse_id() -> Uuid {
    Uuid::new_v4()
}

/// The Pincher hook: bridges reflex matches to Claw actions and counts
/// how many reflexes fired and how many matches were escalated.
pub struct PincherHook {
    reflexes_fired: u64,
    escalations: u64,
}

impl PincherHook {
    /// The number of reflexes that have fired.
    pub closed spec fn fired(&self) -> u64 {
        self.reflexes_fired
    }

    /// The number of matches escalated to the reasoning layer.
    pub closed spec fn escalated(&self) -> u64 {
        self.escalations
    }

    /// Both counters, as a pair (fired reflexes, escalations).
    pub open spec fn counters(&self) -> (int, int) {
        (self.fired() as int, self.escalated() as int)
    }

    /// A hook that has seen no match.
    pub fn new() -> (hook: Self)
        ensures
            hook.fired() == 0,
            hook.escalated() == 0,
            hook.counters() == tally(Seq::<MatchType>::empty()),
    {
        PincherHook { reflexes_fired: 0, escalations: 0 }
    }

    /// Total reflexes that have fired.
    pub fn reflexes_fired(&self) -> (n: u64)
        ensures
            n == self.fired(),
    {
        self.reflexes_fired
    }

    /// Total escalations to the reasoning layer.
    pub fn escalations(&self) -> (n: u64)
        ensures
            n == self.escalated(),
    {
        self.escalations
    }

    /// Routes a classified match: a novel match is escalated and yields no
    /// chain (the caller builds the escalation pulse); any other match fires
    /// a reflex chain.
    pub fn process(&mut self, kind: MatchType) -> (r: Option<CommandChain>)
        requires
            kind is Novel ==> old(self).escalated() < u64::MAX,
            !(kind is Novel) ==> old(self).fired() < u64::MAX,
        ensures
            kind is Novel ==> {
                &&& r is None
                &&& final(self).escalated() == old(self).escalated() + 1
                &&& final(self).fired() == old(self).fired()
            },
            !(kind is Novel) ==> {
                &&& r matches Some(chain) && commands_model(chain.commands@) == reflex_commands()
                &&& final(self).fired() == old(self).fired() + 1
                &&& final(self).escalated() == old(self).escalated()
            },
            final(self).counters() == counted(kind, old(self).counters()),
    {
        if kind.should_escalate() {
            self.escalations = self.escalations + 1;
            return None;
        }
        self.reflexes_fired = self.reflexes_fired + 1;
        Some(self.build_reflex_chain())
    }

    /// Builds the command chain of a reflex, under a fresh pulse identifier.
    fn build_reflex_chain(&self) -> (chain: CommandChain)
        ensures
            commands_model(chain.commands@) == reflex_commands(),
    {
        let mut chain = CommandChain::new(fresh_pulse_id());
        chain.push(Command::new(ClawAction::SetState("Acting".to_owned()), None));
        chain.push(Command::new(ClawAction::Equip("reflex_module".to_owned()), Some("Arms")));
        chain.push(Command::new(ClawAction::Step, None));
        assert(commands_model(chain.commands@) =~= reflex_commands());
        chain
    }
}

impl Default for PincherHook {
    fn default() -> (hook: Self)
        ensures
            hook.fired() == 0,
            hook.escalated() == 0,
    {
        Self::new()
    }
}

} // verus!
