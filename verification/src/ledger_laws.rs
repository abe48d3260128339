//! What holds of the commitment ledger over every sequence of calls.
//!
//! A call is refused or moves the ledger to the state that the `spec_`
//! function of its operation names; a refused call leaves the ledger as it
//! was. The laws below are proved of that relation, and so of every
//! history that the ledger can have.

use crate::address::Address;
use crate::commitment::{Commitment, CommitmentError, CommitmentRules};
use crate::commitment_core::{
    lemma_sum_locked_push, lemma_sum_locked_update, spec_allocate, spec_complete_create,
    spec_complete_interaction, spec_create_commitment, spec_early_exit, spec_initialize,
    spec_set_rate_limit, spec_set_rate_limit_exempt, spec_settle, spec_update_value,
    spec_check_violations, sum_active_amounts, sum_locked, owned_ids, CoreEvent, LedgerView,
};
use vstd::prelude::*;

verus! {

/// One call into the ledger, with its arguments.
pub enum LedgerCall {
    Initialize { admin: Address, nft_contract: Address },
    SetRateLimit { caller: Address, function: Seq<char>, window_seconds: u64, max_calls: u32 },
    SetRateLimitExempt { caller: Address, address: Address, exempt: bool },
    CreateCommitment { owner: Address, amount: i128, asset_address: Address, rules: CommitmentRules, now: u64 },
    CompleteCreate { nft_token_id: u32 },
    Settle { commitment_id: u64, now: u64 },
    EarlyExit { commitment_id: u64, caller: Address, now: u64 },
    Allocate { commitment_id: u64, target_pool: Address, amount: i128, now: u64 },
    CompleteInteraction,
    UpdateValue { commitment_id: u64, new_value: i128, now: u64 },
    CheckViolations { commitment_id: u64, now: u64 },
    TakeEvents,
}

impl LedgerCall {
    /// The call changes the current value of a commitment.
    pub open spec fn revalues(&self) -> bool {
        self is Allocate || self is UpdateValue
    }

    /// The call ends in outside work: a transfer or a mint.
    pub open spec fn calls_out(&self) -> bool {
        self is CreateCommitment || self is Settle || self is EarlyExit || self is Allocate
    }

    /// The call enters through the reentrancy guard: it changes a
    /// commitment.
    pub open spec fn guarded(&self) -> bool {
        self.calls_out() || self is UpdateValue
    }
}

/// The ledger that `call` leaves behind where it is accepted, or the reason
/// for which it is refused.
pub open spec fn spec_call(s: LedgerView, call: LedgerCall) -> Result<LedgerView, CommitmentError> {
    match call {
        LedgerCall::Initialize { admin, nft_contract } => spec_initialize(s, admin, nft_contract),
        LedgerCall::SetRateLimit { caller, function, window_seconds, max_calls } => spec_set_rate_limit(
            s,
            caller,
            function,
            window_seconds,
            max_calls,
        ),
        LedgerCall::SetRateLimitExempt { caller, address, exempt } => spec_set_rate_limit_exempt(
            s,
            caller,
            address,
            exempt,
        ),
        LedgerCall::CreateCommitment { owner, amount, asset_address, rules, now } => spec_create_commitment(
            s,
            owner,
            amount,
            asset_address,
            rules,
            now,
        ),
        LedgerCall::CompleteCreate { nft_token_id } => spec_complete_create(s, nft_token_id),
        LedgerCall::Settle { commitment_id, now } => spec_settle(s, commitment_id, now),
        LedgerCall::EarlyExit { commitment_id, caller, now } => spec_early_exit(s, commitment_id, caller, now),
        LedgerCall::Allocate { commitment_id, target_pool, amount, now } => spec_allocate(
            s,
            commitment_id,
            target_pool,
            amount,
            now,
        ),
        LedgerCall::CompleteInteraction => spec_complete_interaction(s),
        LedgerCall::UpdateValue { commitment_id, new_value, now } => spec_update_value(
            s,
            commitment_id,
            new_value,
            now,
        ),
        LedgerCall::CheckViolations { commitment_id, now } => match spec_check_violations(s, commitment_id, now) {
            Ok(true) => Ok(
                LedgerView {
                    events: s.events.push(CoreEvent::Violated { commitment_id, timestamp: now }),
                    ..s
                },
            ),
            Ok(false) => Ok(s),
            Err(e) => Err(e),
        },
        LedgerCall::TakeEvents => Ok(LedgerView { events: Seq::empty(), ..s }),
    }
}

/// The ledger after `call`: changed where the call is accepted, as before
/// where it is refused.
pub open spec fn after(s: LedgerView, call: LedgerCall) -> LedgerView {
    match spec_call(s, call) {
        Ok(t) => t,
        Err(_) => s,
    }
}

/// The ledger after `calls`, made one after the other.
pub open spec fn run(s: LedgerView, calls: Seq<LedgerCall>) -> LedgerView
    decreases calls.len(),
{
    if calls.len() == 0 {
        s
    } else {
        after(run(s, calls.drop_last()), calls.last())
    }
}

/// How many of `calls` are accepted calls of `create_commitment`.
pub open spec fn accepted_creations(s: LedgerView, calls: Seq<LedgerCall>) -> nat
    decreases calls.len(),
{
    if calls.len() == 0 {
        0
    } else {
        let earlier = accepted_creations(s, calls.drop_last());
        if calls.last() is CreateCommitment && spec_call(run(s, calls.drop_last()), calls.last()) is Ok {
            earlier + 1
        } else {
            earlier
        }
    }
}

/// Every commitment is still worth its amount: no allocation and no
/// update of its value has touched it.
pub open spec fn values_untouched(commitments: Seq<Commitment>) -> bool {
    forall|i: int| 0 <= i < commitments.len() ==> (#[trigger] commitments[i]).current_value == commitments[i].amount
}

/// What a later state may show of a commitment that an earlier state
/// holds: its identity, owner, rules, amount, asset and times are the same;
/// its status is the same or went from active to settled or to early exit;
/// and its current value is the same unless it was active before.
pub open spec fn evolved(earlier: Commitment, later: Commitment) -> bool {
    &&& later.commitment_id == earlier.commitment_id
    &&& later.owner == earlier.owner
    &&& later.rules == earlier.rules
    &&& later.amount == earlier.amount
    &&& later.asset_address == earlier.asset_address
    &&& later.created_at == earlier.created_at
    &&& later.expires_at == earlier.expires_at
    &&& (later.status == earlier.status || (earlier.status is Active && (later.status is Settled
        || later.status is EarlyExit)))
    &&& (earlier.status is Active || (later.current_value == earlier.current_value && later.nft_token_id
        == earlier.nft_token_id))
}

/// A well-formed ledger stays well formed under every call.
#[verifier::rlimit(50)]
pub proof fn law_call_keeps_well_formed(s: LedgerView, call: LedgerCall)
    requires
        s.wf(),
    ensures
        after(s, call).wf(),
{
}

/// Every call keeps the total value locked equal to the sum of the
/// commitments' shares.
#[verifier::rlimit(50)]
pub proof fn law_call_keeps_balance(s: LedgerView, call: LedgerCall)
    requires
        s.wf(),
        s.balanced(),
    ensures
        after(s, call).balanced(),
{
    let t = after(s, call);
    if spec_call(s, call) is Ok {
        match call {
            LedgerCall::CreateCommitment { owner, amount, asset_address, rules, now } => {
                lemma_sum_locked_push(s.commitments, t.commitments.last());
            },
            LedgerCall::CompleteCreate { nft_token_id } => {
                let i = s.pending.unwrap().commitment_id() as int;
                lemma_sum_locked_update(s.commitments, i, t.commitments[i]);
            },
            LedgerCall::Settle { commitment_id, now } => {
                lemma_sum_locked_update(s.commitments, commitment_id as int, t.commitments[commitment_id as int]);
            },
            LedgerCall::EarlyExit { commitment_id, caller, now } => {
                lemma_sum_locked_update(s.commitments, commitment_id as int, t.commitments[commitment_id as int]);
            },
            LedgerCall::Allocate { commitment_id, target_pool, amount, now } => {
                lemma_sum_locked_update(s.commitments, commitment_id as int, t.commitments[commitment_id as int]);
            },
            LedgerCall::UpdateValue { commitment_id, new_value, now } => {
                lemma_sum_locked_update(s.commitments, commitment_id as int, t.commitments[commitment_id as int]);
            },
            _ => {},
        }
    }
}

/// A well-formed ledger stays well formed over every sequence of calls,
/// and a balanced one balanced.
pub proof fn law_run_keeps_well_formed(s: LedgerView, calls: Seq<LedgerCall>)
    requires
        s.wf(),
    ensures
        run(s, calls).wf(),
        s.balanced() ==> run(s, calls).balanced(),
    decreases calls.len(),
{
    if calls.len() > 0 {
        law_run_keeps_well_formed(s, calls.drop_last());
        law_call_keeps_well_formed(run(s, calls.drop_last()), calls.last());
        if s.balanced() {
            law_call_keeps_balance(run(s, calls.drop_last()), calls.last());
        }
    }
}

/// A call adds one commitment where it is an accepted creation, and
/// otherwise none; no call removes one.
#[verifier::rlimit(50)]
pub proof fn law_call_counts_creation(s: LedgerView, call: LedgerCall)
    requires
        s.wf(),
    ensures
        after(s, call).commitments.len() == s.commitments.len() + if call is CreateCommitment && spec_call(
            s,
            call,
        ) is Ok {
            1int
        } else {
            0int
        },
{
}

/// The number of commitments is the number of accepted creations: over
/// every sequence of calls the total grows by exactly the creations that
/// were accepted.
pub proof fn law_total_commitments_counts_creations(s: LedgerView, calls: Seq<LedgerCall>)
    requires
        s.wf(),
    ensures
        run(s, calls).commitments.len() == s.commitments.len() + accepted_creations(s, calls),
    decreases calls.len(),
{
    if calls.len() > 0 {
        law_total_commitments_counts_creations(s, calls.drop_last());
        law_run_keeps_well_formed(s, calls.drop_last());
        law_call_counts_creation(run(s, calls.drop_last()), calls.last());
    }
}

/// The number of commitments never falls: after more calls it is at least
/// what it was after fewer.
pub proof fn law_total_commitments_never_falls(s: LedgerView, calls: Seq<LedgerCall>, k: int)
    requires
        s.wf(),
        0 <= k <= calls.len(),
    ensures
        run(s, calls.take(k)).commitments.len() <= run(s, calls).commitments.len(),
    decreases calls.len() - k,
{
    if k == calls.len() {
        assert(calls.take(k) =~= calls);
    } else {
        law_total_commitments_never_falls(s, calls, k + 1);
        assert(calls.take(k + 1).drop_last() =~= calls.take(k));
        law_run_keeps_well_formed(s, calls.take(k));
        law_call_counts_creation(run(s, calls.take(k)), calls[k]);
    }
}

/// Under one call a commitment keeps its identity, rules and amount; its
/// status stays or goes from active to settled or to early exit; and once
/// it is not active its value is fixed.
#[verifier::rlimit(50)]
pub proof fn law_call_moves_status_forward(s: LedgerView, call: LedgerCall, i: int)
    requires
        s.wf(),
        0 <= i < s.commitments.len(),
    ensures
        i < after(s, call).commitments.len(),
        evolved(s.commitments[i], after(s, call).commitments[i]),
{
    let t = after(s, call);
    match call {
        LedgerCall::CreateCommitment { .. } => {
            assert(t.commitments[i] == s.commitments[i]);
        },
        LedgerCall::CompleteCreate { .. } => {},
        LedgerCall::Settle { .. } => {},
        LedgerCall::EarlyExit { .. } => {},
        LedgerCall::Allocate { .. } => {},
        LedgerCall::UpdateValue { .. } => {},
        _ => {
            assert(t.commitments == s.commitments);
        },
    }
}

/// Over every sequence of calls a status only ever goes from active to
/// settled or from active to early exit: never back, and never through
/// another state. What is fixed at creation stays fixed, and so does the
/// value once the commitment is closed.
pub proof fn law_status_only_moves_forward(s: LedgerView, calls: Seq<LedgerCall>, i: int)
    requires
        s.wf(),
        0 <= i < s.commitments.len(),
    ensures
        i < run(s, calls).commitments.len(),
        evolved(s.commitments[i], run(s, calls).commitments[i]),
    decreases calls.len(),
{
    if calls.len() > 0 {
        law_status_only_moves_forward(s, calls.drop_last(), i);
        law_run_keeps_well_formed(s, calls.drop_last());
        law_call_moves_status_forward(run(s, calls.drop_last()), calls.last(), i);
    }
}

/// Where every commitment is still worth its amount, the shares sum to
/// the amounts of the active commitments.
pub proof fn lemma_untouched_sum(commitments: Seq<Commitment>)
    requires
        values_untouched(commitments),
    ensures
        sum_locked(commitments) == sum_active_amounts(commitments),
    decreases commitments.len(),
{
    if commitments.len() > 0 {
        let last = commitments[commitments.len() - 1];
        assert(last.current_value == last.amount);
        assert(commitments.last().locked_share() == if last.status is Active {
            last.amount as int
        } else {
            0
        });
        assert forall|i: int| 0 <= i < commitments.drop_last().len() implies (
        #[trigger] commitments.drop_last()[i]).current_value == commitments.drop_last()[i].amount by {
            assert(commitments.drop_last()[i] == commitments[i]);
        }
        lemma_untouched_sum(commitments.drop_last());
    }
}

/// Every call but an allocation and an update of a value leaves every
/// commitment worth its amount.
#[verifier::rlimit(50)]
pub proof fn law_call_keeps_values_untouched(s: LedgerView, call: LedgerCall)
    requires
        s.wf(),
        values_untouched(s.commitments),
        !call.revalues(),
    ensures
        values_untouched(after(s, call).commitments),
{
    let t = after(s, call);
    assert forall|i: int| 0 <= i < t.commitments.len() implies (#[trigger] t.commitments[i]).current_value
        == t.commitments[i].amount by {
        if i < s.commitments.len() {
            assert(s.commitments[i].current_value == s.commitments[i].amount);
        }
    }
}

/// After any sequence of creations, settlements and early exits (and of
/// every other call but an allocation and an update of a value) the total
/// value locked is the sum of the amounts of the commitments that are still
/// active.
pub proof fn law_total_value_locked_is_active_amounts(s: LedgerView, calls: Seq<LedgerCall>)
    requires
        s.wf(),
        s.balanced(),
        values_untouched(s.commitments),
        forall|k: int| 0 <= k < calls.len() ==> !(#[trigger] calls[k]).revalues(),
    ensures
        values_untouched(run(s, calls).commitments),
        run(s, calls).total_value_locked == sum_active_amounts(run(s, calls).commitments),
    decreases calls.len(),
{
    if calls.len() > 0 {
        assert forall|k: int| 0 <= k < calls.drop_last().len() implies !(#[trigger] calls.drop_last()[k]).revalues() by {
            assert(calls.drop_last()[k] == calls[k]);
        }
        law_total_value_locked_is_active_amounts(s, calls.drop_last());
        law_run_keeps_well_formed(s, calls.drop_last());
        assert(calls.last() == calls[calls.len() - 1]);
        law_call_keeps_values_untouched(run(s, calls.drop_last()), calls.last());
    }
    law_run_keeps_well_formed(s, calls);
    lemma_untouched_sum(run(s, calls).commitments);
}

/// With allocations and updates of values too, the total value locked is
/// the sum of the shares:
/// the amount of each active commitment, and of each closed one the part
/// of its amount that the closing payout did not cover.
pub proof fn law_total_value_locked_is_sum_of_shares(s: LedgerView, calls: Seq<LedgerCall>)
    requires
        s.wf(),
        s.balanced(),
    ensures
        run(s, calls).total_value_locked == sum_locked(run(s, calls).commitments),
{
    law_run_keeps_well_formed(s, calls);
}

/// While outside work is pending, every guarded call is refused as a
/// reentrancy and the ledger stays exactly as it is.
pub proof fn law_busy_ledger_refuses_reentry(s: LedgerView, call: LedgerCall)
    requires
        s.busy(),
        call.guarded(),
    ensures
        spec_call(s, call) == Err::<LedgerView, CommitmentError>(CommitmentError::ReentrancyDetected),
        after(s, call) == s,
{
}

/// A refused call never leaves the ledger busy: it leaves it as it was. A
/// guarded call is accepted only by a ledger that is not busy; where it ends
/// in outside work it leaves the ledger busy, and an accepted completion
/// releases it.
#[verifier::rlimit(50)]
pub proof fn law_guard_is_released(s: LedgerView, call: LedgerCall)
    requires
        s.wf(),
    ensures
        spec_call(s, call) is Err ==> after(s, call) == s,
        spec_call(s, call) is Ok && call.guarded() ==> !s.busy(),
        spec_call(s, call) is Ok && call.calls_out() ==> after(s, call).busy(),
        spec_call(s, call) is Ok && (call is CompleteCreate || call is CompleteInteraction) ==> s.busy()
            && !after(s, call).busy(),
{
}

/// A commitment that was just created breaks no rule: checked at the time
/// of its creation, with its value still its amount, it is not violated.
pub proof fn law_fresh_commitment_is_not_violated(
    s: LedgerView,
    owner: Address,
    amount: i128,
    asset_address: Address,
    rules: CommitmentRules,
    now: u64,
)
    requires
        s.wf(),
        spec_create_commitment(s, owner, amount, asset_address, rules, now) is Ok,
    ensures
        spec_check_violations(
            spec_create_commitment(s, owner, amount, asset_address, rules, now).unwrap(),
            s.commitments.len() as u64,
            now,
        ) == Ok::<bool, CommitmentError>(false),
{
    let t = spec_create_commitment(s, owner, amount, asset_address, rules, now).unwrap();
    let c = t.commitments[s.commitments.len() as int];
    assert(c.current_value == c.amount && c.amount > 0);
    lemma_no_loss_at_full_value(c);
    assert(rules.duration_days >= 1);
    assert(c.expires_at == now + rules.duration_days * 86400);
}

/// A commitment that is worth its amount has lost nothing.
pub proof fn lemma_no_loss_at_full_value(c: Commitment)
    requires
        c.current_value == c.amount,
    ensures
        c.spec_loss_percent() == 0,
        c.loss_fits(),
        !c.loss_violated(),
{
    if c.amount > 0 {
        assert((c.amount - c.current_value) * 100 == 0);
        assert(0int / (c.amount as int) == 0) by (nonlinear_arith)
            requires
                c.amount > 0,
        ;
    }
}

/// At the instant of its expiry an active commitment is violated; one
/// second earlier it is violated only if its loss exceeds the limit.
pub proof fn law_expiry_is_a_violation(c: Commitment)
    requires
        c.status is Active,
    ensures
        c.spec_violated(c.expires_at),
        c.expires_at > 0 ==> (c.spec_violated((c.expires_at - 1) as u64) <==> c.loss_violated()),
{
}

/// A loss equal to the limit is no violation; only a greater one is.
pub proof fn law_loss_limit_is_strict(c: Commitment)
    ensures
        c.spec_loss_percent() == c.rules.max_loss_percent ==> !c.loss_violated(),
        c.spec_loss_percent() > c.rules.max_loss_percent ==> c.loss_violated(),
{
}

/// A commitment without an amount never breaks the loss limit, whatever
/// its value; its duration is judged like any other.
pub proof fn law_zero_amount_has_no_loss(c: Commitment, now: u64)
    requires
        c.amount == 0,
    ensures
        c.loss_fits(),
        c.spec_loss_percent() == 0,
        !c.loss_violated(),
        c.spec_violated(now) <==> c.status is Active && now >= c.expires_at,
{
}

/// An accepted creation appends the new identifier to the index of its
/// owner and leaves the index of everybody else as it was.
pub proof fn law_creation_extends_owner_index(
    s: LedgerView,
    owner: Address,
    amount: i128,
    asset_address: Address,
    rules: CommitmentRules,
    now: u64,
    other: Seq<char>,
)
    requires
        spec_create_commitment(s, owner, amount, asset_address, rules, now) is Ok,
    ensures
        ({
            let t = spec_create_commitment(s, owner, amount, asset_address, rules, now).unwrap();
            &&& owned_ids(t.commitments, owner@) == owned_ids(s.commitments, owner@).push(
                s.commitments.len() as u64,
            )
            &&& other != owner@ ==> owned_ids(t.commitments, other) == owned_ids(s.commitments, other)
        }),
{
    let t = spec_create_commitment(s, owner, amount, asset_address, rules, now).unwrap();
    assert(t.commitments.drop_last() =~= s.commitments);
}

} // verus!
