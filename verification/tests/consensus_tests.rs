use korra::consensus::{clamp_ratio, ConsensusResult, ConsensusValidator, ValidatorNode};
use korra::execution_proof::ExecutionProof;

fn proof_with_hash(agent: &str, hash: &str) -> ExecutionProof {
    ExecutionProof::from_fields(
        Some(agent.to_string()),
        Some(1),
        Some("in".to_string()),
        Some("out".to_string()),
        Some(hash.to_string()),
    )
    .unwrap()
}

fn three_nodes(required: i64) -> ConsensusValidator {
    let mut validator = ConsensusValidator::new(required);
    validator.add_node("A", 1);
    validator.add_node("B", 1);
    validator.add_node("C", 1);
    validator
}

#[test]
fn two_of_three_reach_two_thirds() {
    let mut validator = three_nodes(660_000);
    assert!(validator.add_proof("A", proof_with_hash("agent", "H1")));
    assert!(validator.add_proof("B", proof_with_hash("agent", "H1")));
    assert!(validator.add_proof("C", proof_with_hash("agent", "H2")));
    assert_eq!(validator.validate("agent"), ConsensusResult::Valid);
}

#[test]
fn one_of_three_is_uncertain() {
    let mut validator = three_nodes(660_000);
    assert!(validator.add_proof("C", proof_with_hash("agent", "H2")));
    assert_eq!(validator.validate("agent"), ConsensusResult::Uncertain);
}

#[test]
fn no_submission_is_uncertain() {
    let mut validator = three_nodes(660_000);
    assert_eq!(validator.validate("agent"), ConsensusResult::Uncertain);
    assert!(validator.add_proof("A", proof_with_hash("other", "H1")));
    assert_eq!(validator.validate("agent"), ConsensusResult::Uncertain);
}

#[test]
fn two_thirds_against_a_higher_threshold_is_uncertain() {
    let mut validator = three_nodes(666_667);
    validator.add_proof("A", proof_with_hash("agent", "H1"));
    validator.add_proof("B", proof_with_hash("agent", "H1"));
    validator.add_proof("C", proof_with_hash("agent", "H2"));
    assert_eq!(validator.validate("agent"), ConsensusResult::Uncertain);
    validator.set_required_consensus(666_666);
    assert_eq!(validator.validate("agent"), ConsensusResult::Valid);
}

#[test]
fn required_consensus_is_clamped() {
    assert_eq!(ConsensusValidator::new(1_500_000).required_consensus(), 1_000_000);
    assert_eq!(ConsensusValidator::new(-200_000).required_consensus(), 0);
    assert_eq!(ConsensusValidator::new(660_000).required_consensus(), 660_000);
    let mut validator = ConsensusValidator::new(500_000);
    validator.set_required_consensus(i64::MAX);
    assert_eq!(validator.required_consensus(), 1_000_000);
    validator.set_required_consensus(i64::MIN);
    assert_eq!(validator.required_consensus(), 0);
    validator.set_required_consensus(1);
    assert_eq!(validator.required_consensus(), 1);
    assert_eq!(clamp_ratio(1_000_001), 1_000_000);
    assert_eq!(clamp_ratio(-1), 0);
}

#[test]
fn removed_node_contributes_nothing() {
    let mut validator = ConsensusValidator::new(500_000);
    validator.add_node("A", 3);
    validator.add_node("B", 1);
    assert!(validator.add_proof("A", proof_with_hash("agent", "H1")));
    assert_eq!(validator.validate("agent"), ConsensusResult::Valid);
    assert!(validator.remove_node("A"));
    assert_eq!(validator.validate("agent"), ConsensusResult::Invalid);
    assert!(!validator.remove_node("A"));
}

#[test]
fn removed_node_changes_the_leading_group() {
    let mut validator = ConsensusValidator::new(600_000);
    validator.add_node("A", 5);
    validator.add_node("B", 1);
    validator.add_node("C", 1);
    validator.add_proof("A", proof_with_hash("agent", "H1"));
    validator.add_proof("B", proof_with_hash("agent", "H2"));
    assert_eq!(validator.validate("agent"), ConsensusResult::Valid);
    validator.remove_node("A");
    assert_eq!(validator.validate("agent"), ConsensusResult::Uncertain);
}

#[test]
fn proof_from_unknown_node_is_not_taken() {
    let mut validator = three_nodes(500_000);
    assert!(!validator.add_proof("Z", proof_with_hash("agent", "H1")));
    assert_eq!(validator.validate("agent"), ConsensusResult::Uncertain);
    validator.remove_node("A");
    assert!(!validator.add_proof("A", proof_with_hash("agent", "H1")));
}

#[test]
fn resubmission_overwrites() {
    let mut validator = three_nodes(660_000);
    validator.add_proof("A", proof_with_hash("agent", "H1"));
    validator.add_proof("B", proof_with_hash("agent", "H2"));
    validator.add_proof("C", proof_with_hash("agent", "H3"));
    assert_eq!(validator.validate("agent"), ConsensusResult::Uncertain);
    validator.add_proof("B", proof_with_hash("agent", "H1"));
    assert_eq!(validator.validate("agent"), ConsensusResult::Valid);
    validator.add_proof("A", proof_with_hash("agent", "H4"));
    assert_eq!(validator.validate("agent"), ConsensusResult::Uncertain);
}

#[test]
fn proofs_are_kept_by_agent() {
    let mut validator = three_nodes(660_000);
    validator.add_proof("A", proof_with_hash("one", "H1"));
    validator.add_proof("B", proof_with_hash("one", "H1"));
    validator.add_proof("A", proof_with_hash("two", "H1"));
    assert_eq!(validator.validate("one"), ConsensusResult::Valid);
    assert_eq!(validator.validate("two"), ConsensusResult::Uncertain);
}

#[test]
fn roster_without_weight_is_uncertain() {
    let mut validator = ConsensusValidator::new(0);
    validator.add_node("A", 0);
    validator.add_proof("A", proof_with_hash("agent", "H1"));
    assert_eq!(validator.validate("agent"), ConsensusResult::Uncertain);
}

#[test]
fn weightless_submitters_are_invalid() {
    let mut validator = ConsensusValidator::new(500_000);
    validator.add_node("A", 0);
    validator.add_node("B", 4);
    validator.add_proof("A", proof_with_hash("agent", "H1"));
    assert_eq!(validator.validate("agent"), ConsensusResult::Invalid);
    validator.set_required_consensus(0);
    assert_eq!(validator.validate("agent"), ConsensusResult::Valid);
}

#[test]
fn weights_decide_not_counts() {
    let mut validator = ConsensusValidator::new(750_000);
    validator.add_node("A", 3);
    validator.add_node("B", 1);
    validator.add_proof("A", proof_with_hash("agent", "H1"));
    validator.add_proof("B", proof_with_hash("agent", "H2"));
    assert_eq!(validator.validate("agent"), ConsensusResult::Valid);
    validator.add_node("A", 2);
    assert_eq!(validator.validate("agent"), ConsensusResult::Uncertain);
}

#[test]
fn largest_weights_do_not_overflow() {
    let mut validator = ConsensusValidator::new(1_000_000);
    validator.add_node("A", u32::MAX);
    validator.add_node("B", u32::MAX);
    validator.add_proof("A", proof_with_hash("agent", "H1"));
    validator.add_proof("B", proof_with_hash("agent", "H1"));
    assert_eq!(validator.validate("agent"), ConsensusResult::Valid);
    validator.add_proof("B", proof_with_hash("agent", "H2"));
    assert_eq!(validator.validate("agent"), ConsensusResult::Uncertain);
}

#[test]
fn add_node_replaces_a_node_of_the_same_name() {
    let mut validator = ConsensusValidator::new(500_000);
    validator.add_node("A", 1);
    validator.add_node("B", 2);
    validator.add_node("A", 7);
    let nodes = validator.nodes();
    assert_eq!(nodes.len(), 2);
    assert_eq!(nodes[0].node_id(), "A");
    assert_eq!(nodes[0].weight(), 7);
    assert_eq!(nodes[1].node_id(), "B");
    assert_eq!(nodes[1].weight(), 2);
}

#[test]
fn add_proof_refreshes_last_seen() {
    let mut validator = ConsensusValidator::new(500_000);
    validator.put_node(ValidatorNode::seen_at("A", 1, 5));
    assert_eq!(validator.nodes()[0].last_seen(), 5);
    assert!(validator.add_proof_at("A", proof_with_hash("agent", "H1"), 9));
    assert_eq!(validator.nodes()[0].last_seen(), 9);
    assert!(validator.add_proof("A", proof_with_hash("agent", "H1")));
    assert!(validator.nodes()[0].last_seen() > 1_600_000_000);
}

#[test]
fn validator_node_accessors() {
    let mut node = ValidatorNode::new("n1", 4);
    assert_eq!(node.node_id(), "n1");
    assert_eq!(node.weight(), 4);
    assert!(node.last_seen() > 1_600_000_000);
    node.mark_seen(3);
    assert_eq!(node.last_seen(), 3);
    node.update_last_seen();
    assert!(node.last_seen() > 1_600_000_000);
    assert_eq!(node.node_id(), "n1");
    assert_eq!(node.weight(), 4);
}

fn in_millionths(ratio: f32) -> i64 {
    (f64::from(ratio) * 1_000_000.0).round() as i64
}

#[test]
fn ratios_given_as_fractions() {
    assert_eq!(ConsensusValidator::new(in_millionths(1.5)).required_consensus(), 1_000_000);
    assert_eq!(ConsensusValidator::new(in_millionths(-0.2)).required_consensus(), 0);
    let mut validator = three_nodes(in_millionths(0.66));
    assert_eq!(validator.required_consensus(), 660_000);
    validator.add_proof("A", proof_with_hash("agent", "H1"));
    validator.add_proof("B", proof_with_hash("agent", "H1"));
    validator.add_proof("C", proof_with_hash("agent", "H2"));
    assert_eq!(validator.validate("agent"), ConsensusResult::Valid);
}
