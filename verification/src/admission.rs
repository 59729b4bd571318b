//! The admission decision for a neuromorphic node.
//!
//! A transition is admitted where the ledger checks pass and no ceiling is
//! exceeded. The checks are made in a fixed order and the first that fails
//! gives the reason. Measured values and limits are compared, and rendered
//! as text, by the caller: a `Reading` carries the outcome and both texts.

use vstd::prelude::*;
use vstd::string::StringExecFns;

verus! {

/// Where an envelope or a certificate is anchored on a ledger.
#[derive(Debug, Clone, PartialEq, Eq)]
pub struct LedgerAnchor {
    pub chain: String,
    pub network: String,
    pub tx_hash: String,
    pub source_id: String,
}

/// The decision handed to the admission controller.
#[derive(Debug, Clone, PartialEq, Eq)]
pub struct PolicyDecision {
    pub allowed: bool,
    pub reason: String,
}

/// A `PolicyDecision` with its reason as a sequence of characters.
pub struct PolicyDecisionView {
    pub allowed: bool,
    pub reason: Seq<char>,
}

impl View for PolicyDecision {
    type V = PolicyDecisionView;

    open spec fn view(&self) -> PolicyDecisionView {
        PolicyDecisionView { allowed: self.allowed, reason: self.reason@ }
    }
}

/// What the ledger check of an envelope or a certificate finds wrong.
#[derive(Debug, Clone, Copy, PartialEq, Eq)]
pub enum LedgerFault {
    /// The consent envelope carries no hash.
    MissingEnvelopeHash,
    /// The consent envelope is anchored nowhere.
    NoEnvelopeAnchors,
    /// The safety certificate carries no id.
    MissingCertificateId,
    /// The safety certificate is anchored nowhere.
    NoCertificateAnchors,
}

/// A measured value held against its limit.
#[derive(Debug, Clone, PartialEq, Eq)]
pub struct Reading {
    /// The measured value as text.
    pub value: String,
    /// The limit as text.
    pub limit: String,
    /// Whether the value is over the limit.
    pub exceeded: bool,
}

/// What is known of a node when its transition is decided.
#[derive(Debug, Clone, PartialEq, Eq)]
pub struct TransitionFindings {
    /// Why the consent envelope failed its verification, if it did.
    pub consent_fault: Option<String>,
    /// Why the safety certificate failed its verification, if it did.
    pub certificate_fault: Option<String>,
    /// The ceiling forbids irreversible biological risk.
    pub forbid_irreversible_bio: bool,
    /// The node carries irreversible biological risk.
    pub irreversible_bio_risk: bool,
    /// The coupling against its ceiling.
    pub bci_coupling: Reading,
    /// The node's fear index against the ethical ceiling.
    pub fear_index: Reading,
    /// The node's ecological fear against the ethical ceiling.
    pub eco_damage: Reading,
    /// The node's ecological fear against the budget.
    pub eco_budget: Reading,
    /// The node's energy per day against the budget.
    pub energy: Reading,
}

/// What the ledger check of a consent envelope gives: the hash must be
/// there, then an anchor.
pub open spec fn consent_envelope_check(envelope_hash: Seq<char>, anchors: nat) -> Result<
    (),
    LedgerFault,
> {
    if envelope_hash.len() == 0 {
        Err(LedgerFault::MissingEnvelopeHash)
    } else if anchors == 0 {
        Err(LedgerFault::NoEnvelopeAnchors)
    } else {
        Ok(())
    }
}

/// What the ledger check of a safety certificate gives: the id must be
/// there, then an anchor.
pub open spec fn safety_certificate_check(certificate_id: Seq<char>, anchors: nat) -> Result<
    (),
    LedgerFault,
> {
    if certificate_id.len() == 0 {
        Err(LedgerFault::MissingCertificateId)
    } else if anchors == 0 {
        Err(LedgerFault::NoCertificateAnchors)
    } else {
        Ok(())
    }
}

/// The words for a ledger fault.
pub open spec fn ledger_fault_text(fault: LedgerFault) -> Seq<char> {
    match fault {
        LedgerFault::MissingEnvelopeHash => "envelope_hash missing"@,
        LedgerFault::NoEnvelopeAnchors => "no ledger anchors on consent envelope"@,
        LedgerFault::MissingCertificateId => "certificate_id missing"@,
        LedgerFault::NoCertificateAnchors => "no ledger anchors on safety certificate"@,
    }
}

/// The reason given where a reading is over its limit: the value and the
/// limit, each behind its lead-in, and a closing word.
pub open spec fn breach_reason(
    lead: Seq<char>,
    reading: Reading,
    middle: Seq<char>,
    close: Seq<char>,
) -> Seq<char> {
    lead + reading.value@ + middle + reading.limit@ + close
}

/// The reason of a decision: that of the first check that fails, in the
/// order consent envelope, safety certificate, irreversible biological
/// risk, coupling, fear index, ecological ceiling, ecological budget,
/// energy budget. `None` where every check passes.
pub open spec fn denial_reason(f: TransitionFindings) -> Option<Seq<char>> {
    if let Some(fault) = f.consent_fault {
        Some("consent envelope verification failed: "@ + fault@)
    } else if let Some(fault) = f.certificate_fault {
        Some("safety certificate verification failed: "@ + fault@)
    } else if f.forbid_irreversible_bio && f.irreversible_bio_risk {
        Some("irreversible bio-risk detected for node; forbidden by ceiling"@)
    } else if f.bci_coupling.exceeded {
        Some(
            breach_reason("bciCoupling "@, f.bci_coupling, " exceeds Phoenix RoH/BCI ceiling of "@, ""@),
        )
    } else if f.fear_index.exceeded {
        Some(breach_reason("fearIndexNode "@, f.fear_index, " exceeds ceiling "@, ""@))
    } else if f.eco_damage.exceeded {
        Some(breach_reason("ecoFearNode "@, f.eco_damage, " exceeds ceiling "@, ""@))
    } else if f.eco_budget.exceeded {
        Some(breach_reason("ecoFearNode "@, f.eco_budget, " exceeds ecoBudget "@, ""@))
    } else if f.energy.exceeded {
        Some(breach_reason("energy "@, f.energy, " kWh/day exceeds ecoBudget "@, " kWh/day"@))
    } else {
        None
    }
}

/// The decision on a transition: denied for the first failing check's
/// reason, allowed where none fails.
pub open spec fn decided(f: TransitionFindings) -> PolicyDecisionView {
    match denial_reason(f) {
        Some(reason) => PolicyDecisionView { allowed: false, reason },
        None => PolicyDecisionView {
            allowed: true,
            reason: "within neuromorphic ethical ceiling and eco budget"@,
        },
    }
}

/// Checks that a consent envelope carries a hash and an anchor.
pub fn verify_consent_envelope(envelope_hash: &str, anchors: &[LedgerAnchor]) -> (r: Result<
    (),
    LedgerFault,
>)
    ensures
        r == consent_envelope_check(envelope_hash@, anchors@.len()),
{
    if envelope_hash.is_empty() {
        return Err(LedgerFault::MissingEnvelopeHash);
    }
    if anchors.len() == 0 {
        return Err(LedgerFault::NoEnvelopeAnchors);
    }
    Ok(())
}

/// Checks that a safety certificate carries an id and an anchor.
pub fn verify_safety_certificate(certificate_id: &str, anchors: &[LedgerAnchor]) -> (r: Result<
    (),
    LedgerFault,
>)
    ensures
        r == safety_certificate_check(certificate_id@, anchors@.len()),
{
    if certificate_id.is_empty() {
        return Err(LedgerFault::MissingCertificateId);
    }
    if anchors.len() == 0 {
        return Err(LedgerFault::NoCertificateAnchors);
    }
    Ok(())
}

/// The words for a ledger fault.
pub fn ledger_fault_message(fault: LedgerFault) -> (text: String)
    ensures
        text@ == ledger_fault_text(fault),
{
    match fault {
        LedgerFault::MissingEnvelopeHash => String::from_str("envelope_hash missing"),
        LedgerFault::NoEnvelopeAnchors => String::from_str("no ledger anchors on consent envelope"),
        LedgerFault::MissingCertificateId => String::from_str("certificate_id missing"),
        LedgerFault::NoCertificateAnchors => String::from_str(
            "no ledger anchors on safety certificate",
        ),
    }
}

/// The reason for a reading over its limit.
fn breach_text(lead: &str, reading: &Reading, middle: &str, close: &str) -> (text: String)
    ensures
        text@ == breach_reason(lead@, *reading, middle@, close@),
{
    let mut text = String::from_str(lead);
    text.append(reading.value.as_str());
    text.append(middle);
    text.append(reading.limit.as_str());
    text.append(close);
    text
}

/// A denial for the given reason.
fn denied(reason: String) -> (decision: PolicyDecision)
    ensures
        decision@ == (PolicyDecisionView { allowed: false, reason: reason@ }),
{
    PolicyDecision { allowed: false, reason }
}

/// Decides on a transition.
pub fn evaluate_neuromorphic_transition(findings: &TransitionFindings) -> (decision: PolicyDecision)
    ensures
        decision@ == decided(*findings),
        decision.allowed <==> denial_reason(*findings) is None,
{
    if let Some(fault) = &findings.consent_fault {
        let mut reason = String::from_str("consent envelope verification failed: ");
        reason.append(fault.as_str());
        return denied(reason);
    }
    if let Some(fault) = &findings.certificate_fault {
        let mut reason = String::from_str("safety certificate verification failed: ");
        reason.append(fault.as_str());
        return denied(reason);
    }
    if findings.forbid_irreversible_bio && findings.irreversible_bio_risk {
        return denied(
            String::from_str("irreversible bio-risk detected for node; forbidden by ceiling"),
        );
    }
    if findings.bci_coupling.exceeded {
        return denied(
            breach_text(
                "bciCoupling ",
                &findings.bci_coupling,
                " exceeds Phoenix RoH/BCI ceiling of ",
                "",
            ),
        );
    }
    if findings.fear_index.exceeded {
        return denied(breach_text("fearIndexNode ", &findings.fear_index, " exceeds ceiling ", ""));
    }
    if findings.eco_damage.exceeded {
        return denied(breach_text("ecoFearNode ", &findings.eco_damage, " exceeds ceiling ", ""));
    }
    if findings.eco_budget.exceeded {
        return denied(breach_text("ecoFearNode ", &findings.eco_budget, " exceeds ecoBudget ", ""));
    }
    if findings.energy.exceeded {
        return denied(
            breach_text("energy ", &findings.energy, " kWh/day exceeds ecoBudget ", " kWh/day"),
        );
    }
    PolicyDecision {
        allowed: true,
        reason: String::from_str("within neuromorphic ethical ceiling and eco budget"),
    }
}

} // verus!
