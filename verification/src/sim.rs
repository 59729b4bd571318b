//! The bookkeeping of a simulation: what the actions of a tick do to the
//! agents, what is written to the log, and when the run ends.
//!
//! What an agent does in a tick is decided elsewhere; here the actions are
//! applied. A move takes effect where the agent still stands in the region
//! it moves from, an adoption where the agent has not adopted the concept
//! before. A share changes no agent: it is handed back for the exposure
//! field to be raised. Every action is logged.

use vstd::prelude::*;
use vstd::string::StringExecFns;
use crate::beliefs::AgentId;
use crate::text::{decimal, decimal_text};

verus! {

/// The number of a step of the simulation.
pub type Tick = u64;

/// The number by which a region is known.
pub type RegionId = u64;

/// The number by which a concept is known.
pub type ConceptId = u64;

/// How long a simulation runs and what its random numbers start from.
#[derive(Debug, Clone, Copy, PartialEq, Eq)]
pub struct SimulationConfig {
    pub max_ticks: Tick,
    pub random_seed: u64,
}

/// One line of the log.
#[derive(Debug, Clone, PartialEq, Eq)]
pub struct DecisionLogEntry {
    pub tick: Tick,
    pub description: String,
}

/// What happened in a simulation, in order.
#[derive(Debug, Clone, PartialEq, Eq)]
pub struct SimulationLog {
    pub actions: Vec<DecisionLogEntry>,
}

/// What an agent does in a tick.
#[derive(Debug, Clone, Copy, PartialEq, Eq)]
pub enum AgentAction {
    Move { agent_id: AgentId, from: RegionId, to: RegionId },
    Adopt { agent_id: AgentId, concept_id: ConceptId },
    Share { agent_id: AgentId, concept_id: ConceptId, region: RegionId },
}

/// Where an agent stands and which concepts it has adopted.
#[derive(Debug, Clone, PartialEq, Eq)]
pub struct AgentRecord {
    pub id: AgentId,
    pub region: RegionId,
    pub adopted_concepts: Vec<ConceptId>,
}

/// An `AgentRecord` as a value of the model.
pub struct AgentRecordView {
    pub id: AgentId,
    pub region: RegionId,
    pub adopted_concepts: Seq<ConceptId>,
}

/// A `DecisionLogEntry` with its text as a sequence of characters.
pub struct DecisionLogEntryView {
    pub tick: Tick,
    pub description: Seq<char>,
}

impl View for AgentRecord {
    type V = AgentRecordView;

    open spec fn view(&self) -> AgentRecordView {
        AgentRecordView {
            id: self.id,
            region: self.region,
            adopted_concepts: self.adopted_concepts@,
        }
    }
}

impl View for DecisionLogEntry {
    type V = DecisionLogEntryView;

    open spec fn view(&self) -> DecisionLogEntryView {
        DecisionLogEntryView { tick: self.tick, description: self.description@ }
    }
}

impl Default for SimulationLog {
    fn default() -> (log: SimulationLog)
        ensures
            log@ == Seq::<DecisionLogEntryView>::empty(),
    {
        let log = SimulationLog { actions: Vec::new() };
        assert(log@ =~= Seq::<DecisionLogEntryView>::empty());
        log
    }
}

impl View for SimulationLog {
    type V = Seq<DecisionLogEntryView>;

    open spec fn view(&self) -> Seq<DecisionLogEntryView> {
        self.actions@.map_values(|e: DecisionLogEntry| e@)
    }
}

/// The views of a list of agents.
pub open spec fn agent_views(agents: Seq<AgentRecord>) -> Seq<AgentRecordView> {
    agents.map_values(|a: AgentRecord| a@)
}

/// What the log says of an action.
pub open spec fn description_of(action: AgentAction) -> Seq<char> {
    match action {
        AgentAction::Move { agent_id, from, to } => "Agent "@ + decimal(agent_id.0 as nat)
            + " moved "@ + decimal(from as nat) + "->"@ + decimal(to as nat),
        AgentAction::Adopt { agent_id, concept_id } => "Agent "@ + decimal(agent_id.0 as nat)
            + " adopted concept "@ + decimal(concept_id as nat),
        AgentAction::Share { agent_id, concept_id, region } => "Agent "@ + decimal(
            agent_id.0 as nat,
        ) + " shared concept "@ + decimal(concept_id as nat) + " in region "@ + decimal(
            region as nat,
        ),
    }
}

/// What the log says when a run is stopped.
pub open spec fn stop_description() -> Seq<char> {
    "Simulation stopped: ethical ceiling violated"@
}

/// The place of the first agent with the given id at or after `from`, or
/// the number of agents where there is none.
pub open spec fn place_of(agents: Seq<AgentRecordView>, id: AgentId, from: int) -> int
    decreases agents.len() - from,
{
    if from < 0 || from >= agents.len() {
        agents.len() as int
    } else if agents[from].id == id {
        from
    } else {
        place_of(agents, id, from + 1)
    }
}

/// The agents after one action. A move or an adoption concerns the first
/// agent with the action's id, if there is one.
pub open spec fn with_action(agents: Seq<AgentRecordView>, action: AgentAction) -> Seq<
    AgentRecordView,
> {
    match action {
        AgentAction::Move { agent_id, from, to } => {
            let i = place_of(agents, agent_id, 0);
            if i < agents.len() && agents[i].region == from {
                agents.update(i, AgentRecordView { region: to, ..agents[i] })
            } else {
                agents
            }
        },
        AgentAction::Adopt { agent_id, concept_id } => {
            let i = place_of(agents, agent_id, 0);
            if i < agents.len() && !agents[i].adopted_concepts.contains(concept_id) {
                agents.update(
                    i,
                    AgentRecordView {
                        adopted_concepts: agents[i].adopted_concepts.push(concept_id),
                        ..agents[i]
                    },
                )
            } else {
                agents
            }
        },
        AgentAction::Share { .. } => agents,
    }
}

/// The agents after a list of actions, applied in order.
pub open spec fn agents_after(agents: Seq<AgentRecordView>, actions: Seq<AgentAction>) -> Seq<
    AgentRecordView,
>
    decreases actions.len(),
{
    if actions.len() == 0 {
        agents
    } else {
        with_action(agents_after(agents, actions.drop_last()), actions.last())
    }
}

/// The log entries for a list of actions of one tick: one for each action.
pub open spec fn entries_of(tick: Tick, actions: Seq<AgentAction>) -> Seq<DecisionLogEntryView> {
    Seq::new(
        actions.len(),
        |i: int| DecisionLogEntryView { tick, description: description_of(actions[i]) },
    )
}

/// The shares among a list of actions, each as region and concept.
pub open spec fn shares_of(actions: Seq<AgentAction>) -> Seq<(RegionId, ConceptId)>
    decreases actions.len(),
{
    if actions.len() == 0 {
        Seq::empty()
    } else {
        match actions.last() {
            AgentAction::Share { concept_id, region, .. } => shares_of(actions.drop_last()).push(
                (region, concept_id),
            ),
            _ => shares_of(actions.drop_last()),
        }
    }
}

/// The tick that follows `tick` in a run of `max_ticks` ticks, unless the
/// run is stopped or over.
pub open spec fn tick_after(config: SimulationConfig, tick: Tick, stopped: bool) -> Option<Tick> {
    if !stopped && tick + 1 < config.max_ticks {
        Some((tick + 1) as Tick)
    } else {
        None
    }
}

/// What the log says of an action.
pub fn describe(action: &AgentAction) -> (text: String)
    ensures
        text@ == description_of(*action),
{
    let mut text = String::from_str("Agent ");
    match *action {
        AgentAction::Move { agent_id, from, to } => {
            text.append(decimal_text(agent_id.0).as_str());
            text.append(" moved ");
            text.append(decimal_text(from).as_str());
            text.append("->");
            text.append(decimal_text(to).as_str());
        },
        AgentAction::Adopt { agent_id, concept_id } => {
            text.append(decimal_text(agent_id.0).as_str());
            text.append(" adopted concept ");
            text.append(decimal_text(concept_id).as_str());
        },
        AgentAction::Share { agent_id, concept_id, region } => {
            text.append(decimal_text(agent_id.0).as_str());
            text.append(" shared concept ");
            text.append(decimal_text(concept_id).as_str());
            text.append(" in region ");
            text.append(decimal_text(region).as_str());
        },
    }
    text
}

/// The place of the first agent with the id.
fn find_agent(agents: &Vec<AgentRecord>, id: AgentId) -> (i: usize)
    ensures
        i == place_of(agent_views(agents@), id, 0),
        i <= agents@.len(),
{
    let mut i: usize = 0;
    while i < agents.len() && agents[i].id.0 != id.0
        invariant
            i <= agents@.len(),
            place_of(agent_views(agents@), id, 0) == place_of(agent_views(agents@), id, i as int),
        decreases agents@.len() - i,
    {
        i += 1;
    }
    i
}

/// Whether the concept is among those adopted.
fn has_adopted(concepts: &Vec<ConceptId>, concept: ConceptId) -> (r: bool)
    ensures
        r == concepts@.contains(concept),
{
    let mut i: usize = 0;
    while i < concepts.len()
        invariant
            i <= concepts@.len(),
            forall|k: int| 0 <= k < i ==> concepts@[k] != concept,
        decreases concepts@.len() - i,
    {
        if concepts[i] == concept {
            return true;
        }
        i += 1;
    }
    false
}

/// Applies one action to the agents.
pub fn apply_action(agents: &mut Vec<AgentRecord>, action: &AgentAction)
    ensures
        agent_views(final(agents)@) == with_action(agent_views(old(agents)@), *action),
{
    match *action {
        AgentAction::Move { agent_id, from, to } => {
            let i = find_agent(agents, agent_id);
            if i < agents.len() && agents[i].region == from {
                agents[i].region = to;
                assert(agent_views(agents@) =~= with_action(agent_views(old(agents)@), *action));
            }
        },
        AgentAction::Adopt { agent_id, concept_id } => {
            let i = find_agent(agents, agent_id);
            if i < agents.len() && !has_adopted(&agents[i].adopted_concepts, concept_id) {
                agents[i].adopted_concepts.push(concept_id);
                assert(agent_views(agents@) =~= with_action(agent_views(old(agents)@), *action));
            }
        },
        AgentAction::Share { .. } => {},
    }
}

/// Applies the actions of a tick, in order: the agents change as the
/// actions say, the log gets one entry for each action, and the shares are
/// handed back, each as region and concept.
pub fn apply_actions(
    agents: &mut Vec<AgentRecord>,
    log: &mut SimulationLog,
    tick: Tick,
    actions: &[AgentAction],
) -> (shares: Vec<(RegionId, ConceptId)>)
    ensures
        agent_views(final(agents)@) == agents_after(agent_views(old(agents)@), actions@),
        final(log)@ == old(log)@ + entries_of(tick, actions@),
        shares@ == shares_of(actions@),
{
    let mut shares: Vec<(RegionId, ConceptId)> = Vec::new();
    let mut i: usize = 0;
    assert(actions@.take(0) =~= Seq::<AgentAction>::empty());
    assert(old(log)@ + entries_of(tick, actions@.take(0)) =~= old(log)@);
    while i < actions.len()
        invariant
            i <= actions@.len(),
            agent_views(agents@) == agents_after(agent_views(old(agents)@), actions@.take(i as int)),
            log@ == old(log)@ + entries_of(tick, actions@.take(i as int)),
            shares@ == shares_of(actions@.take(i as int)),
        decreases actions@.len() - i,
    {
        let action = actions[i];
        proof {
            assert(actions@.take(i + 1).drop_last() =~= actions@.take(i as int));
            assert(actions@.take(i + 1).last() == action);
        }
        apply_action(agents, &action);
        if let AgentAction::Share { concept_id, region, .. } = action {
            shares.push((region, concept_id));
        }
        let entry = DecisionLogEntry { tick, description: describe(&action) };
        let ghost before = log.actions@;
        log.actions.push(entry);
        proof {
            assert(log.actions@.map_values(|e: DecisionLogEntry| e@) =~= before.map_values(
                |e: DecisionLogEntry| e@,
            ).push(entry@));
            assert(entries_of(tick, actions@.take(i + 1)) =~= entries_of(
                tick,
                actions@.take(i as int),
            ).push(entry@));
            assert(log@ =~= old(log)@ + entries_of(tick, actions@.take(i + 1)));
        }
        i += 1;
    }
    assert(actions@.take(actions@.len() as int) =~= actions@);
    shares
}

/// The first tick of a run, if it has any.
pub fn first_tick(config: &SimulationConfig) -> (tick: Option<Tick>)
    ensures
        tick == if config.max_ticks > 0 {
            Some(0u64)
        } else {
            None
        },
{
    if config.max_ticks > 0 {
        Some(0)
    } else {
        None
    }
}

/// Ends a tick: where the ethical ceiling is violated the run is stopped
/// and the log says so; otherwise the next tick follows until `max_ticks`
/// ticks have run.
pub fn end_tick(log: &mut SimulationLog, config: &SimulationConfig, tick: Tick, violated: bool) -> (next:
    Option<Tick>)
    ensures
        next == tick_after(*config, tick, violated),
        violated ==> final(log)@ == old(log)@.push(
            DecisionLogEntryView { tick, description: stop_description() },
        ),
        !violated ==> final(log)@ == old(log)@,
{
    if violated {
        let entry = DecisionLogEntry {
            tick,
            description: String::from_str("Simulation stopped: ethical ceiling violated"),
        };
        let ghost before = log.actions@;
        log.actions.push(entry);
        assert(log.actions@.map_values(|e: DecisionLogEntry| e@) =~= before.map_values(
            |e: DecisionLogEntry| e@,
        ).push(entry@));
        return None;
    }
    if tick < config.max_ticks && tick + 1 < config.max_ticks {
        Some(tick + 1)
    } else {
        None
    }
}

} // verus!
