use bdl_rust_parser::admission::{
    evaluate_neuromorphic_transition, ledger_fault_message, verify_consent_envelope,
    verify_safety_certificate, LedgerFault, Reading, TransitionFindings,
};
use bdl_rust_parser::{LedgerAnchor, PolicyDecision};

fn anchor() -> LedgerAnchor {
    LedgerAnchor {
        chain: String::from("bostrom"),
        network: String::from("main"),
        tx_hash: String::from("AB12"),
        source_id: String::from("src-1"),
    }
}

fn within(value: &str, limit: &str) -> Reading {
    Reading { value: String::from(value), limit: String::from(limit), exceeded: false }
}

fn over(value: &str, limit: &str) -> Reading {
    Reading { value: String::from(value), limit: String::from(limit), exceeded: true }
}

fn clean() -> TransitionFindings {
    TransitionFindings {
        consent_fault: None,
        certificate_fault: None,
        forbid_irreversible_bio: true,
        irreversible_bio_risk: false,
        bci_coupling: within("0.1", "0.3"),
        fear_index: within("0.200", "0.500"),
        eco_damage: within("0.100", "0.400"),
        eco_budget: within("0.100", "0.300"),
        energy: within("1.500", "2.000"),
    }
}

fn denied(reason: &str) -> PolicyDecision {
    PolicyDecision { allowed: false, reason: String::from(reason) }
}

#[test]
fn envelope_needs_hash_and_anchor() {
    assert_eq!(verify_consent_envelope("", &[anchor()]), Err(LedgerFault::MissingEnvelopeHash));
    assert_eq!(verify_consent_envelope("", &[]), Err(LedgerFault::MissingEnvelopeHash));
    assert_eq!(verify_consent_envelope("h", &[]), Err(LedgerFault::NoEnvelopeAnchors));
    assert_eq!(verify_consent_envelope("h", &[anchor()]), Ok(()));
}

#[test]
fn certificate_needs_id_and_anchor() {
    assert_eq!(verify_safety_certificate("", &[anchor()]), Err(LedgerFault::MissingCertificateId));
    assert_eq!(verify_safety_certificate("c", &[]), Err(LedgerFault::NoCertificateAnchors));
    assert_eq!(verify_safety_certificate("c", &[anchor(), anchor()]), Ok(()));
}

#[test]
fn faults_in_words() {
    assert_eq!(ledger_fault_message(LedgerFault::MissingEnvelopeHash), "envelope_hash missing");
    assert_eq!(
        ledger_fault_message(LedgerFault::NoEnvelopeAnchors),
        "no ledger anchors on consent envelope"
    );
    assert_eq!(ledger_fault_message(LedgerFault::MissingCertificateId), "certificate_id missing");
    assert_eq!(
        ledger_fault_message(LedgerFault::NoCertificateAnchors),
        "no ledger anchors on safety certificate"
    );
}

#[test]
fn node_within_every_ceiling_is_admitted() {
    assert_eq!(
        evaluate_neuromorphic_transition(&clean()),
        PolicyDecision {
            allowed: true,
            reason: String::from("within neuromorphic ethical ceiling and eco budget"),
        }
    );
}

#[test]
fn risk_that_the_ceiling_does_not_forbid_is_admitted() {
    let mut f = clean();
    f.forbid_irreversible_bio = false;
    f.irreversible_bio_risk = true;
    assert!(evaluate_neuromorphic_transition(&f).allowed);
}

#[test]
fn each_check_has_its_reason() {
    let mut f = clean();
    f.consent_fault = Some(String::from("envelope_hash missing"));
    assert_eq!(
        evaluate_neuromorphic_transition(&f),
        denied("consent envelope verification failed: envelope_hash missing")
    );
    let mut f = clean();
    f.certificate_fault = Some(String::from("certificate_id missing"));
    assert_eq!(
        evaluate_neuromorphic_transition(&f),
        denied("safety certificate verification failed: certificate_id missing")
    );
    let mut f = clean();
    f.irreversible_bio_risk = true;
    assert_eq!(
        evaluate_neuromorphic_transition(&f),
        denied("irreversible bio-risk detected for node; forbidden by ceiling")
    );
    let mut f = clean();
    f.bci_coupling = over("0.35", "0.3");
    assert_eq!(
        evaluate_neuromorphic_transition(&f),
        denied("bciCoupling 0.35 exceeds Phoenix RoH/BCI ceiling of 0.3")
    );
    let mut f = clean();
    f.fear_index = over("0.600", "0.500");
    assert_eq!(
        evaluate_neuromorphic_transition(&f),
        denied("fearIndexNode 0.600 exceeds ceiling 0.500")
    );
    let mut f = clean();
    f.eco_damage = over("0.450", "0.400");
    assert_eq!(
        evaluate_neuromorphic_transition(&f),
        denied("ecoFearNode 0.450 exceeds ceiling 0.400")
    );
    let mut f = clean();
    f.eco_budget = over("0.350", "0.300");
    assert_eq!(
        evaluate_neuromorphic_transition(&f),
        denied("ecoFearNode 0.350 exceeds ecoBudget 0.300")
    );
    let mut f = clean();
    f.energy = over("2.500", "2.000");
    assert_eq!(
        evaluate_neuromorphic_transition(&f),
        denied("energy 2.500 kWh/day exceeds ecoBudget 2.000 kWh/day")
    );
}

#[test]
fn first_failing_check_gives_the_reason() {
    let mut f = clean();
    f.energy = over("2.500", "2.000");
    f.eco_budget = over("0.350", "0.300");
    assert_eq!(
        evaluate_neuromorphic_transition(&f),
        denied("ecoFearNode 0.350 exceeds ecoBudget 0.300")
    );
    f.eco_damage = over("0.450", "0.400");
    assert_eq!(
        evaluate_neuromorphic_transition(&f),
        denied("ecoFearNode 0.450 exceeds ceiling 0.400")
    );
    f.fear_index = over("0.600", "0.500");
    f.bci_coupling = over("0.9", "0.3");
    assert_eq!(
        evaluate_neuromorphic_transition(&f),
        denied("bciCoupling 0.9 exceeds Phoenix RoH/BCI ceiling of 0.3")
    );
    f.irreversible_bio_risk = true;
    f.certificate_fault = Some(String::from("c"));
    assert_eq!(
        evaluate_neuromorphic_transition(&f),
        denied("safety certificate verification failed: c")
    );
    f.consent_fault = Some(String::from("e"));
    assert_eq!(
        evaluate_neuromorphic_transition(&f),
        denied("consent envelope verification failed: e")
    );
}
