use bdl_rust_parser::sim::{
    apply_action, apply_actions, describe, end_tick, first_tick, AgentRecord,
};
use bdl_rust_parser::text::decimal_text;
use bdl_rust_parser::{AgentAction, AgentId, DecisionLogEntry, SimulationConfig, SimulationLog};

fn agent(id: u64, region: u64, adopted: &[u64]) -> AgentRecord {
    AgentRecord { id: AgentId(id), region, adopted_concepts: adopted.to_vec() }
}

fn entry(tick: u64, description: &str) -> DecisionLogEntry {
    DecisionLogEntry { tick, description: String::from(description) }
}

fn empty_log() -> SimulationLog {
    SimulationLog::default()
}

#[test]
fn log_starts_empty() {
    assert_eq!(SimulationLog::default().actions, vec![]);
}

#[test]
fn numbers_in_decimal() {
    assert_eq!(decimal_text(0), "0");
    assert_eq!(decimal_text(7), "7");
    assert_eq!(decimal_text(10), "10");
    assert_eq!(decimal_text(909), "909");
    assert_eq!(decimal_text(1_000_000), "1000000");
    assert_eq!(decimal_text(u64::MAX), "18446744073709551615");
}

#[test]
fn actions_in_words() {
    assert_eq!(
        describe(&AgentAction::Move { agent_id: AgentId(3), from: 1, to: 20 }),
        "Agent 3 moved 1->20"
    );
    assert_eq!(
        describe(&AgentAction::Adopt { agent_id: AgentId(12), concept_id: 5 }),
        "Agent 12 adopted concept 5"
    );
    assert_eq!(
        describe(&AgentAction::Share { agent_id: AgentId(0), concept_id: 44, region: 9 }),
        "Agent 0 shared concept 44 in region 9"
    );
}

#[test]
fn move_takes_effect_from_the_named_region() {
    let mut agents = vec![agent(1, 10, &[]), agent(2, 10, &[])];
    apply_action(&mut agents, &AgentAction::Move { agent_id: AgentId(2), from: 10, to: 11 });
    assert_eq!(agents, vec![agent(1, 10, &[]), agent(2, 11, &[])]);
}

#[test]
fn move_from_another_region_does_nothing() {
    let mut agents = vec![agent(1, 10, &[])];
    apply_action(&mut agents, &AgentAction::Move { agent_id: AgentId(1), from: 12, to: 11 });
    assert_eq!(agents, vec![agent(1, 10, &[])]);
}

#[test]
fn action_of_an_unknown_agent_does_nothing() {
    let mut agents = vec![agent(1, 10, &[4])];
    apply_action(&mut agents, &AgentAction::Move { agent_id: AgentId(9), from: 10, to: 11 });
    apply_action(&mut agents, &AgentAction::Adopt { agent_id: AgentId(9), concept_id: 5 });
    assert_eq!(agents, vec![agent(1, 10, &[4])]);
}

#[test]
fn concept_is_adopted_once() {
    let mut agents = vec![agent(1, 10, &[4])];
    apply_action(&mut agents, &AgentAction::Adopt { agent_id: AgentId(1), concept_id: 5 });
    assert_eq!(agents, vec![agent(1, 10, &[4, 5])]);
    apply_action(&mut agents, &AgentAction::Adopt { agent_id: AgentId(1), concept_id: 4 });
    apply_action(&mut agents, &AgentAction::Adopt { agent_id: AgentId(1), concept_id: 5 });
    assert_eq!(agents, vec![agent(1, 10, &[4, 5])]);
}

#[test]
fn first_agent_with_the_id_is_meant() {
    let mut agents = vec![agent(1, 10, &[]), agent(1, 10, &[])];
    apply_action(&mut agents, &AgentAction::Move { agent_id: AgentId(1), from: 10, to: 11 });
    assert_eq!(agents, vec![agent(1, 11, &[]), agent(1, 10, &[])]);
    apply_action(&mut agents, &AgentAction::Move { agent_id: AgentId(1), from: 10, to: 12 });
    assert_eq!(agents, vec![agent(1, 11, &[]), agent(1, 10, &[])]);
}

#[test]
fn share_changes_no_agent() {
    let mut agents = vec![agent(1, 10, &[4])];
    apply_action(&mut agents, &AgentAction::Share { agent_id: AgentId(1), concept_id: 4, region: 10 });
    assert_eq!(agents, vec![agent(1, 10, &[4])]);
}

#[test]
fn actions_of_a_tick_are_applied_in_order_and_logged() {
    let mut agents = vec![agent(1, 10, &[]), agent(2, 20, &[7])];
    let mut log = SimulationLog { actions: vec![entry(0, "earlier")] };
    let actions = [
        AgentAction::Move { agent_id: AgentId(1), from: 10, to: 20 },
        AgentAction::Share { agent_id: AgentId(2), concept_id: 7, region: 20 },
        AgentAction::Move { agent_id: AgentId(1), from: 20, to: 30 },
        AgentAction::Adopt { agent_id: AgentId(1), concept_id: 7 },
        AgentAction::Move { agent_id: AgentId(2), from: 10, to: 30 },
        AgentAction::Share { agent_id: AgentId(1), concept_id: 7, region: 30 },
    ];
    let shares = apply_actions(&mut agents, &mut log, 5, &actions);
    assert_eq!(agents, vec![agent(1, 30, &[7]), agent(2, 20, &[7])]);
    assert_eq!(shares, vec![(20, 7), (30, 7)]);
    assert_eq!(
        log.actions,
        vec![
            entry(0, "earlier"),
            entry(5, "Agent 1 moved 10->20"),
            entry(5, "Agent 2 shared concept 7 in region 20"),
            entry(5, "Agent 1 moved 20->30"),
            entry(5, "Agent 1 adopted concept 7"),
            entry(5, "Agent 2 moved 10->30"),
            entry(5, "Agent 1 shared concept 7 in region 30"),
        ]
    );
}

#[test]
fn tick_without_actions_changes_nothing() {
    let mut agents = vec![agent(1, 10, &[])];
    let mut log = empty_log();
    let shares = apply_actions(&mut agents, &mut log, 0, &[]);
    assert_eq!(agents, vec![agent(1, 10, &[])]);
    assert_eq!(shares, vec![]);
    assert_eq!(log, empty_log());
}

#[test]
fn run_has_its_ticks() {
    let config = SimulationConfig { max_ticks: 3, random_seed: 42 };
    let mut log = empty_log();
    assert_eq!(first_tick(&config), Some(0));
    assert_eq!(end_tick(&mut log, &config, 0, false), Some(1));
    assert_eq!(end_tick(&mut log, &config, 1, false), Some(2));
    assert_eq!(end_tick(&mut log, &config, 2, false), None);
    assert_eq!(log, empty_log());
    assert_eq!(first_tick(&SimulationConfig { max_ticks: 0, random_seed: 42 }), None);
}

#[test]
fn violated_ceiling_stops_the_run() {
    let config = SimulationConfig { max_ticks: 10, random_seed: 1 };
    let mut log = empty_log();
    assert_eq!(end_tick(&mut log, &config, 4, true), None);
    assert_eq!(log.actions, vec![entry(4, "Simulation stopped: ethical ceiling violated")]);
}
