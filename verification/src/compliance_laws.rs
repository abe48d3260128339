//! What holds of the compliance ledger whatever is recorded.

use crate::address::Address;
use crate::attestation_engine::{
    has_non_compliant, spec_attest, spec_calculate_compliance_score, spec_get_health_metrics,
    spec_raw_score, spec_record_drawdown, spec_record_fees, spec_score, spec_verify_compliance,
    AttestationError, AttestationView, EngineEventView, EngineView,
};
use crate::commitment::Commitment;
use crate::math::spec_loss_percent;
use vstd::prelude::*;

verus! {

/// The attestations are append-only: what a call leaves behind begins with
/// every attestation that was there before, unchanged and in its order.
pub proof fn law_attestations_are_append_only(
    s: EngineView,
    caller: Address,
    c: Commitment,
    attestation_type: Seq<char>,
    data: Seq<(Seq<char>, Seq<char>)>,
    amount: i128,
    now: u64,
)
    ensures
        s.attestations.is_prefix_of(
            spec_attest(s, c.commitment_id, attestation_type, data, caller@, now).attestations,
        ),
        spec_record_fees(s, caller, c, amount, now) matches Ok(t) ==> s.attestations.is_prefix_of(t.attestations),
        spec_record_drawdown(s, caller, c, amount, now) matches Ok(t) ==> s.attestations.is_prefix_of(
            t.attestations,
        ),
        spec_calculate_compliance_score(s, c, now) matches Ok((t, _)) ==> t.attestations == s.attestations,
        spec_get_health_metrics(s, c, now) matches Ok((t, _)) ==> t.attestations == s.attestations,
        spec_verify_compliance(s, c, now) matches Ok((t, _)) ==> t.attestations == s.attestations,
{
    if spec_record_drawdown(s, caller, c, amount, now) is Ok {
        lemma_record_drawdown_attestations(s, caller, c, amount, now);
    }
}

/// A compliance score is never above 100.
pub proof fn law_score_is_bounded(s: EngineView, c: Commitment, now: u64)
    ensures
        spec_score(s, c, now) matches Ok(score) ==> score <= 100,
{
}

/// Every attestation that counts against a commitment costs it 20 points
/// before clamping.
pub proof fn law_violation_costs_twenty(violations: nat, c: Commitment, fees: i128, now: u64)
    ensures
        spec_raw_score(violations + 1, c, fees, now) == spec_raw_score(violations, c, fees, now) - 20,
{
}

/// The attestations that `record_drawdown` leaves behind: those that were
/// there, a violation where the drawdown exceeds the limit, and the
/// drawdown itself.
pub proof fn lemma_record_drawdown_attestations(
    s: EngineView,
    caller: Address,
    c: Commitment,
    current_value: i128,
    now: u64,
)
    requires
        spec_record_drawdown(s, caller, c, current_value, now) is Ok,
    ensures
        ({
            let t = spec_record_drawdown(s, caller, c, current_value, now).unwrap();
            let violated = spec_loss_percent(c.amount as int, current_value as int) > c.rules.max_loss_percent;
            let violation = AttestationView {
                commitment_id: c.commitment_id,
                timestamp: now,
                attestation_type: "violation"@,
                data: Seq::empty(),
                is_compliant: false,
                verified_by: caller@,
            };
            let drawdown = AttestationView {
                commitment_id: c.commitment_id,
                timestamp: now,
                attestation_type: "drawdown"@,
                data: Seq::empty(),
                is_compliant: !violated,
                verified_by: caller@,
            };
            t.attestations == if violated {
                s.attestations.push(violation).push(drawdown)
            } else {
                s.attestations.push(drawdown)
            }
        }),
{
    let id = c.commitment_id;
    if c.amount > 0 {
        crate::math::lemma_floor_div_bounds((c.amount - current_value) * 100, c.amount as int);
    }
    let drawdown_percent = spec_loss_percent(c.amount as int, current_value as int) as i128;
    assert(drawdown_percent == spec_loss_percent(c.amount as int, current_value as int));
    let violated = drawdown_percent > c.rules.max_loss_percent;
    let violation = AttestationView {
        commitment_id: id,
        timestamp: now,
        attestation_type: "violation"@,
        data: Seq::empty(),
        is_compliant: false,
        verified_by: caller@,
    };
    let drawdown = AttestationView {
        commitment_id: id,
        timestamp: now,
        attestation_type: "drawdown"@,
        data: Seq::empty(),
        is_compliant: !violated,
        verified_by: caller@,
    };
    let flagged = if violated {
        s.with_attestation(violation).with_event(
            EngineEventView::ViolationDetected {
                commitment_id: id,
                drawdown_percent,
                max_loss_percent: c.rules.max_loss_percent as i128,
                timestamp: now,
            },
        )
    } else {
        s
    };
    let noted = flagged.with_attestation(drawdown);
    assert(flagged.attestations == if violated {
        s.attestations.push(violation)
    } else {
        s.attestations
    });
    assert(noted.attestations == flagged.attestations.push(drawdown));
    let scored = spec_calculate_compliance_score(noted, c, now);
    assert(scored is Ok);
    assert(scored.unwrap().0.attestations == noted.attestations);
}

/// A recorded drawdown beyond the limit of the commitment breaks its
/// compliance for good: it leaves an attestation typed `violation` and
/// flagged as not compliant, and every later verification fails.
pub proof fn law_excess_drawdown_breaks_compliance(
    s: EngineView,
    caller: Address,
    c: Commitment,
    current_value: i128,
    now: u64,
    later: Commitment,
    later_now: u64,
)
    requires
        spec_record_drawdown(s, caller, c, current_value, now) is Ok,
        spec_loss_percent(c.amount as int, current_value as int) > c.rules.max_loss_percent,
        later.commitment_id == c.commitment_id,
    ensures
        ({
            let t = spec_record_drawdown(s, caller, c, current_value, now).unwrap();
            &&& t.attestations.len() == s.attestations.len() + 2
            &&& t.attestations[s.attestations.len() as int] == (AttestationView {
                commitment_id: c.commitment_id,
                timestamp: now,
                attestation_type: "violation"@,
                data: Seq::empty(),
                is_compliant: false,
                verified_by: caller@,
            })
            &&& has_non_compliant(t.attestations, c.commitment_id)
            &&& spec_verify_compliance(t, later, later_now) matches Ok((_, compliant)) ==> !compliant
        }),
{
    lemma_record_drawdown_attestations(s, caller, c, current_value, now);
    let t = spec_record_drawdown(s, caller, c, current_value, now).unwrap();
    let i = s.attestations.len() as int;
    assert(t.attestations[i].commitment_id == c.commitment_id && !t.attestations[i].is_compliant);
}

/// A recorded drawdown within the limit adds one attestation, typed
/// `drawdown` and flagged as compliant, and breaks no compliance that held.
pub proof fn law_drawdown_within_limit_is_compliant(
    s: EngineView,
    caller: Address,
    c: Commitment,
    current_value: i128,
    now: u64,
)
    requires
        spec_record_drawdown(s, caller, c, current_value, now) is Ok,
        spec_loss_percent(c.amount as int, current_value as int) <= c.rules.max_loss_percent,
    ensures
        ({
            let t = spec_record_drawdown(s, caller, c, current_value, now).unwrap();
            &&& t.attestations == s.attestations.push(
                AttestationView {
                    commitment_id: c.commitment_id,
                    timestamp: now,
                    attestation_type: "drawdown"@,
                    data: Seq::empty(),
                    is_compliant: true,
                    verified_by: caller@,
                },
            )
            &&& has_non_compliant(t.attestations, c.commitment_id) == has_non_compliant(
                s.attestations,
                c.commitment_id,
            )
        }),
{
    lemma_record_drawdown_attestations(s, caller, c, current_value, now);
    let t = spec_record_drawdown(s, caller, c, current_value, now).unwrap();
    if has_non_compliant(t.attestations, c.commitment_id) {
        let i = choose|i: int|
            0 <= i < t.attestations.len() && (#[trigger] t.attestations[i]).commitment_id == c.commitment_id
                && !t.attestations[i].is_compliant;
        assert(i < s.attestations.len());
        assert(s.attestations[i] == t.attestations[i]);
    }
    if has_non_compliant(s.attestations, c.commitment_id) {
        let i = choose|i: int|
            0 <= i < s.attestations.len() && (#[trigger] s.attestations[i]).commitment_id == c.commitment_id
                && !s.attestations[i].is_compliant;
        assert(t.attestations[i] == s.attestations[i]);
    }
}

/// A refusal is an error of the engine and nothing else: a call that is
/// refused for want of authority is refused before anything is computed.
pub proof fn law_unauthorized_recorders_are_refused(
    s: EngineView,
    caller: Address,
    c: Commitment,
    amount: i128,
    now: u64,
)
    requires
        !s.is_authorized_recorder(caller@),
    ensures
        spec_record_fees(s, caller, c, amount, now) == Err::<EngineView, AttestationError>(
            AttestationError::Unauthorized,
        ),
        spec_record_drawdown(s, caller, c, amount, now) == Err::<EngineView, AttestationError>(
            AttestationError::Unauthorized,
        ),
{
}

} // verus!
