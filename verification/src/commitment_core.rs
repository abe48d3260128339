//! The commitment ledger: creation, value updates, violation checks,
//! settlement, early exit and allocation.
//!
//! Every operation that ends in a transfer or a mint is split in two. The
//! first call checks, writes the ledger and leaves it busy; the caller then
//! performs the outside work and reports back with a `complete_` call, which
//! releases the ledger. While the ledger is busy every operation that
//! changes a commitment is refused, so outside work cannot re-enter it.

use crate::address::Address;
use crate::commitment::{
    spec_validate_rules, validate_rules, Commitment, CommitmentError, CommitmentRules,
    CommitmentStatus, ViolationDetails,
};
use crate::math::{expiration, fits_i128, percent_of, safe_add, safe_sub, spec_expiration, spec_percent_of};
use crate::rate_limiting::{spec_check, RateLimit, RateLimiter, RateLimiterParts, RateLimiterView};
use crate::validation::is_positive;
use vstd::prelude::*;

verus! {

/// A notification that the ledger has queued for publication.
#[derive(Debug, PartialEq, Eq)]
pub enum CoreEvent {
    Created { commitment_id: u64, owner: Address, amount: i128, nft_token_id: u32, timestamp: u64 },
    ValueUpdated { commitment_id: u64, new_value: i128, timestamp: u64 },
    Violated { commitment_id: u64, timestamp: u64 },
    Settled { commitment_id: u64, settlement_amount: i128, timestamp: u64 },
    EarlyExit {
        commitment_id: u64,
        caller: Address,
        penalty_amount: i128,
        returned_amount: i128,
        timestamp: u64,
    },
    Allocated { commitment_id: u64, target_pool: Address, amount: i128, timestamp: u64 },
}

/// The outside work that the ledger is waiting for. While one is pending
/// the ledger is busy.
#[derive(Debug, PartialEq, Eq)]
pub enum Pending {
    /// The owner's transfer into the contract and the mint of the receipt.
    Create { commitment_id: u64, started_at: u64 },
    /// The payout of the settlement amount to the owner and the settlement
    /// of the receipt.
    Settle { commitment_id: u64, settlement_amount: i128, started_at: u64 },
    /// The payout of the returned amount to the owner.
    EarlyExit { commitment_id: u64, caller: Address, penalty_amount: i128, returned_amount: i128, started_at: u64 },
    /// The transfer of the allocated amount to the target pool.
    Allocate { commitment_id: u64, target_pool: Address, amount: i128, started_at: u64 },
}

impl Pending {
    /// The commitment that the outside work belongs to.
    pub open spec fn commitment_id(&self) -> u64 {
        match *self {
            Pending::Create { commitment_id, .. } => commitment_id,
            Pending::Settle { commitment_id, .. } => commitment_id,
            Pending::EarlyExit { commitment_id, .. } => commitment_id,
            Pending::Allocate { commitment_id, .. } => commitment_id,
        }
    }
}

/// The ledger of all commitments of one contract instance.
pub struct CommitmentCoreContract {
    contract_address: Address,
    admin: Option<Address>,
    nft_contract: Option<Address>,
    commitments: Vec<Commitment>,
    total_value_locked: i128,
    limiter: RateLimiter,
    pending: Option<Pending>,
    events: Vec<CoreEvent>,
}

/// What the ledger holds. A commitment's identifier is its position in
/// `commitments`.
pub struct LedgerView {
    pub contract_address: Address,
    pub admin: Option<Address>,
    pub nft_contract: Option<Address>,
    pub commitments: Seq<Commitment>,
    pub total_value_locked: i128,
    pub limiter: RateLimiterView,
    pub pending: Option<Pending>,
    pub events: Seq<CoreEvent>,
}

/// Sum of what the commitments add to the total value locked.
pub open spec fn sum_locked(commitments: Seq<Commitment>) -> int
    decreases commitments.len(),
{
    if commitments.len() == 0 {
        0
    } else {
        sum_locked(commitments.drop_last()) + commitments.last().locked_share()
    }
}

/// Sum of the amounts of the commitments that are active.
pub open spec fn sum_active_amounts(commitments: Seq<Commitment>) -> int
    decreases commitments.len(),
{
    if commitments.len() == 0 {
        0
    } else {
        sum_active_amounts(commitments.drop_last()) + if commitments.last().status is Active {
            commitments.last().amount as int
        } else {
            0
        }
    }
}

/// The identifiers of the commitments of `owner`, in the order of their
/// creation.
pub open spec fn owned_ids(commitments: Seq<Commitment>, owner: Seq<char>) -> Seq<u64>
    decreases commitments.len(),
{
    if commitments.len() == 0 {
        Seq::empty()
    } else if commitments.last().owner@ == owner {
        owned_ids(commitments.drop_last(), owner).push(commitments.last().commitment_id)
    } else {
        owned_ids(commitments.drop_last(), owner)
    }
}

impl LedgerView {
    /// The ledger is busy: outside work is pending.
    pub open spec fn busy(&self) -> bool {
        self.pending is Some
    }

    /// Whether `commitment_id` names a commitment.
    pub open spec fn has(&self, commitment_id: u64) -> bool {
        commitment_id < self.commitments.len()
    }

    /// The total value locked is the sum of the commitments' shares. It
    /// holds of an empty ledger, and every call keeps it.
    pub open spec fn balanced(&self) -> bool {
        self.total_value_locked == sum_locked(self.commitments)
    }

    /// Identifiers are positions, no stored status is `Violated`, and
    /// pending work names a commitment (a pending creation the newest,
    /// which is active).
    pub open spec fn wf(&self) -> bool {
        &&& self.commitments.len() <= u64::MAX
        &&& forall|i: int|
            0 <= i < self.commitments.len() ==> (#[trigger] self.commitments[i]).commitment_id == i
        &&& forall|i: int|
            0 <= i < self.commitments.len() ==> !((#[trigger] self.commitments[i]).status is Violated)
        &&& self.pending matches Some(p) ==> self.has(p.commitment_id())
        &&& self.pending matches Some(Pending::Create { commitment_id, .. }) ==> commitment_id
            == self.commitments.len() - 1 && self.commitments[commitment_id as int].status is Active
    }
}

/// Appending a commitment adds its share to the sum.
pub proof fn lemma_sum_locked_push(commitments: Seq<Commitment>, c: Commitment)
    ensures
        sum_locked(commitments.push(c)) == sum_locked(commitments) + c.locked_share(),
{
    assert(commitments.push(c).drop_last() =~= commitments);
}

/// Replacing a commitment exchanges its share in the sum.
pub proof fn lemma_sum_locked_update(commitments: Seq<Commitment>, i: int, c: Commitment)
    requires
        0 <= i < commitments.len(),
    ensures
        sum_locked(commitments.update(i, c)) == sum_locked(commitments) - commitments[i].locked_share()
            + c.locked_share(),
    decreases commitments.len(),
{
    let updated = commitments.update(i, c);
    if i == commitments.len() - 1 {
        assert(updated.drop_last() =~= commitments.drop_last());
    } else {
        assert(updated.drop_last() =~= commitments.drop_last().update(i, c));
        lemma_sum_locked_update(commitments.drop_last(), i, c);
    }
}

/// What a ledger holds, as plain values: the form in which it is stored
/// and restored.
#[derive(Debug, PartialEq, Eq)]
pub struct LedgerParts {
    pub contract_address: Address,
    pub admin: Option<Address>,
    pub nft_contract: Option<Address>,
    pub commitments: Vec<Commitment>,
    pub total_value_locked: i128,
    pub limiter: RateLimiterParts,
    pub pending: Option<Pending>,
    pub events: Vec<CoreEvent>,
}

impl LedgerParts {
    /// The ledger that these values describe.
    pub open spec fn view(&self) -> LedgerView {
        LedgerView {
            contract_address: self.contract_address,
            admin: self.admin,
            nft_contract: self.nft_contract,
            commitments: self.commitments@,
            total_value_locked: self.total_value_locked,
            limiter: self.limiter.view(),
            pending: self.pending,
            events: self.events@,
        }
    }

    /// The limiter's lists and the ledger they describe are well formed.
    pub open spec fn wf(&self) -> bool {
        &&& self.limiter.wf()
        &&& self.view().wf()
    }
}

impl View for CommitmentCoreContract {
    type V = LedgerView;

    closed spec fn view(&self) -> LedgerView {
        LedgerView {
            contract_address: self.contract_address,
            admin: self.admin,
            nft_contract: self.nft_contract,
            commitments: self.commitments@,
            total_value_locked: self.total_value_locked,
            limiter: self.limiter@,
            pending: self.pending,
            events: self.events@,
        }
    }
}

/// The ledger after `initialize`.
pub open spec fn spec_initialize(s: LedgerView, admin: Address, nft_contract: Address) -> Result<
    LedgerView,
    CommitmentError,
> {
    if s.admin is Some {
        Err(CommitmentError::AlreadyInitialized)
    } else {
        Ok(LedgerView { admin: Some(admin), nft_contract: Some(nft_contract), ..s })
    }
}

/// Whether `caller` may administer the ledger, and if not, why.
pub open spec fn spec_require_admin(s: LedgerView, caller: Address) -> Option<CommitmentError> {
    match s.admin {
        None => Some(CommitmentError::NotInitialized),
        Some(admin) => if admin@ == caller@ {
            None
        } else {
            Some(CommitmentError::Unauthorized)
        },
    }
}

/// The ledger after `set_rate_limit`.
pub open spec fn spec_set_rate_limit(
    s: LedgerView,
    caller: Address,
    function: Seq<char>,
    window_seconds: u64,
    max_calls: u32,
) -> Result<LedgerView, CommitmentError> {
    match spec_require_admin(s, caller) {
        Some(e) => Err(e),
        None => Ok(
            LedgerView {
                limiter: RateLimiterView {
                    limits: s.limiter.limits.insert(function, RateLimit { window_seconds, max_calls }),
                    ..s.limiter
                },
                ..s
            },
        ),
    }
}

/// The ledger after `set_rate_limit_exempt`.
pub open spec fn spec_set_rate_limit_exempt(
    s: LedgerView,
    caller: Address,
    address: Address,
    exempt: bool,
) -> Result<LedgerView, CommitmentError> {
    match spec_require_admin(s, caller) {
        Some(e) => Err(e),
        None => Ok(
            LedgerView {
                limiter: RateLimiterView {
                    exempt: if exempt {
                        s.limiter.exempt.insert(address@)
                    } else {
                        s.limiter.exempt.remove(address@)
                    },
                    ..s.limiter
                },
                ..s
            },
        ),
    }
}

/// The commitment that `create_commitment` stores.
pub open spec fn new_commitment(
    commitment_id: u64,
    owner: Address,
    amount: i128,
    asset_address: Address,
    rules: CommitmentRules,
    now: u64,
) -> Commitment {
    Commitment {
        commitment_id,
        owner,
        nft_token_id: 0,
        rules,
        amount,
        asset_address,
        created_at: now,
        expires_at: spec_expiration(now as int, rules.duration_days as int) as u64,
        current_value: amount,
        status: CommitmentStatus::Active,
    }
}

/// The ledger after `create_commitment`, or the reason for which the call
/// is refused. The checks are made in the order in which they stand here.
pub open spec fn spec_create_commitment(
    s: LedgerView,
    owner: Address,
    amount: i128,
    asset_address: Address,
    rules: CommitmentRules,
    now: u64,
) -> Result<LedgerView, CommitmentError> {
    if s.busy() {
        Err(CommitmentError::ReentrancyDetected)
    } else if spec_check(s.limiter, owner@, "create"@, now) is None {
        Err(CommitmentError::RateLimitExceeded)
    } else if amount <= 0 {
        Err(CommitmentError::InvalidAmount)
    } else if spec_validate_rules(rules) is Some {
        Err(spec_validate_rules(rules).unwrap())
    } else if s.nft_contract is None {
        Err(CommitmentError::NotInitialized)
    } else if spec_expiration(now as int, rules.duration_days as int) > u64::MAX {
        Err(CommitmentError::ArithmeticOverflow)
    } else if s.commitments.len() >= u64::MAX {
        Err(CommitmentError::ArithmeticOverflow)
    } else if !fits_i128(s.total_value_locked + amount) {
        Err(CommitmentError::ArithmeticOverflow)
    } else {
        let commitment_id = s.commitments.len() as u64;
        Ok(
            LedgerView {
                commitments: s.commitments.push(
                    new_commitment(commitment_id, owner, amount, asset_address, rules, now),
                ),
                total_value_locked: (s.total_value_locked + amount) as i128,
                limiter: spec_check(s.limiter, owner@, "create"@, now).unwrap(),
                pending: Some(Pending::Create { commitment_id, started_at: now }),
                ..s
            },
        )
    }
}

/// The ledger after `complete_create`: the receipt's token is written into
/// the pending commitment, the creation is announced, and the ledger is
/// released.
pub open spec fn spec_complete_create(s: LedgerView, nft_token_id: u32) -> Result<
    LedgerView,
    CommitmentError,
> {
    match s.pending {
        Some(Pending::Create { commitment_id, started_at }) => {
            let c = s.commitments[commitment_id as int];
            Ok(
                LedgerView {
                    commitments: s.commitments.update(
                        commitment_id as int,
                        Commitment { nft_token_id, ..c },
                    ),
                    pending: None,
                    events: s.events.push(
                        CoreEvent::Created {
                            commitment_id,
                            owner: c.owner,
                            amount: c.amount,
                            nft_token_id,
                            timestamp: started_at,
                        },
                    ),
                    ..s
                },
            )
        },
        _ => Err(CommitmentError::NoPendingInteraction),
    }
}

/// The ledger after `settle`.
pub open spec fn spec_settle(s: LedgerView, commitment_id: u64, now: u64) -> Result<
    LedgerView,
    CommitmentError,
> {
    if s.busy() {
        Err(CommitmentError::ReentrancyDetected)
    } else if !s.has(commitment_id) {
        Err(CommitmentError::CommitmentNotFound)
    } else {
        let c = s.commitments[commitment_id as int];
        if now < c.expires_at {
            Err(CommitmentError::NotExpired)
        } else if !(c.status is Active) {
            Err(CommitmentError::NotActive)
        } else if !fits_i128(s.total_value_locked - c.current_value) {
            Err(CommitmentError::ArithmeticOverflow)
        } else {
            Ok(
                LedgerView {
                    commitments: s.commitments.update(
                        commitment_id as int,
                        Commitment { status: CommitmentStatus::Settled, ..c },
                    ),
                    total_value_locked: (s.total_value_locked - c.current_value) as i128,
                    pending: Some(
                        Pending::Settle {
                            commitment_id,
                            settlement_amount: c.current_value,
                            started_at: now,
                        },
                    ),
                    ..s
                },
            )
        }
    }
}

/// The penalty that an early exit retains: the early-exit percentage of
/// the current value, rounded down.
pub open spec fn spec_penalty(c: Commitment) -> int {
    spec_percent_of(c.current_value as int, c.rules.early_exit_penalty as int)
}

/// The ledger after `early_exit`.
pub open spec fn spec_early_exit(s: LedgerView, commitment_id: u64, caller: Address, now: u64) -> Result<
    LedgerView,
    CommitmentError,
> {
    if s.busy() {
        Err(CommitmentError::ReentrancyDetected)
    } else if !s.has(commitment_id) {
        Err(CommitmentError::CommitmentNotFound)
    } else {
        let c = s.commitments[commitment_id as int];
        if c.owner@ != caller@ {
            Err(CommitmentError::Unauthorized)
        } else if !(c.status is Active) {
            Err(CommitmentError::NotActive)
        } else if !fits_i128(c.current_value * c.rules.early_exit_penalty) {
            Err(CommitmentError::ArithmeticOverflow)
        } else if !fits_i128(c.current_value - spec_penalty(c)) {
            Err(CommitmentError::ArithmeticOverflow)
        } else if !fits_i128(s.total_value_locked - c.current_value) {
            Err(CommitmentError::ArithmeticOverflow)
        } else {
            Ok(
                LedgerView {
                    commitments: s.commitments.update(
                        commitment_id as int,
                        Commitment { status: CommitmentStatus::EarlyExit, ..c },
                    ),
                    total_value_locked: (s.total_value_locked - c.current_value) as i128,
                    pending: Some(
                        Pending::EarlyExit {
                            commitment_id,
                            caller,
                            penalty_amount: spec_penalty(c) as i128,
                            returned_amount: (c.current_value - spec_penalty(c)) as i128,
                            started_at: now,
                        },
                    ),
                    ..s
                },
            )
        }
    }
}

/// The ledger after `allocate`.
pub open spec fn spec_allocate(
    s: LedgerView,
    commitment_id: u64,
    target_pool: Address,
    amount: i128,
    now: u64,
) -> Result<LedgerView, CommitmentError> {
    if s.busy() {
        Err(CommitmentError::ReentrancyDetected)
    } else if spec_check(s.limiter, target_pool@, "alloc"@, now) is None {
        Err(CommitmentError::RateLimitExceeded)
    } else if amount <= 0 {
        Err(CommitmentError::InvalidAmount)
    } else if !s.has(commitment_id) {
        Err(CommitmentError::CommitmentNotFound)
    } else {
        let c = s.commitments[commitment_id as int];
        if !(c.status is Active) {
            Err(CommitmentError::NotActive)
        } else if c.current_value < amount {
            Err(CommitmentError::InsufficientValue)
        } else {
            Ok(
                LedgerView {
                    commitments: s.commitments.update(
                        commitment_id as int,
                        Commitment { current_value: (c.current_value - amount) as i128, ..c },
                    ),
                    limiter: spec_check(s.limiter, target_pool@, "alloc"@, now).unwrap(),
                    pending: Some(
                        Pending::Allocate { commitment_id, target_pool, amount, started_at: now },
                    ),
                    ..s
                },
            )
        }
    }
}

/// The ledger after `complete_interaction`: the pending settlement, early
/// exit or allocation is announced and the ledger is released.
pub open spec fn spec_complete_interaction(s: LedgerView) -> Result<LedgerView, CommitmentError> {
    match s.pending {
        Some(Pending::Settle { commitment_id, settlement_amount, started_at }) => Ok(
            LedgerView {
                pending: None,
                events: s.events.push(
                    CoreEvent::Settled { commitment_id, settlement_amount, timestamp: started_at },
                ),
                ..s
            },
        ),
        Some(
            Pending::EarlyExit { commitment_id, caller, penalty_amount, returned_amount, started_at },
        ) => Ok(
            LedgerView {
                pending: None,
                events: s.events.push(
                    CoreEvent::EarlyExit {
                        commitment_id,
                        caller,
                        penalty_amount,
                        returned_amount,
                        timestamp: started_at,
                    },
                ),
                ..s
            },
        ),
        Some(Pending::Allocate { commitment_id, target_pool, amount, started_at }) => Ok(
            LedgerView {
                pending: None,
                events: s.events.push(
                    CoreEvent::Allocated { commitment_id, target_pool, amount, timestamp: started_at },
                ),
                ..s
            },
        ),
        _ => Err(CommitmentError::NoPendingInteraction),
    }
}

/// The ledger after `update_value`: the call is counted against the
/// contract's own quota, the current value of an active commitment becomes
/// `new_value`, and the update is announced. The total value locked stays.
/// The call is refused while outside work is pending.
pub open spec fn spec_update_value(s: LedgerView, commitment_id: u64, new_value: i128, now: u64) -> Result<
    LedgerView,
    CommitmentError,
> {
    if s.busy() {
        Err(CommitmentError::ReentrancyDetected)
    } else if spec_check(s.limiter, s.contract_address@, "upd_val"@, now) is None {
        Err(CommitmentError::RateLimitExceeded)
    } else if !s.has(commitment_id) {
        Err(CommitmentError::CommitmentNotFound)
    } else {
        let c = s.commitments[commitment_id as int];
        if !(c.status is Active) {
            Err(CommitmentError::NotActive)
        } else {
            Ok(
                LedgerView {
                    commitments: s.commitments.update(
                        commitment_id as int,
                        Commitment { current_value: new_value, ..c },
                    ),
                    limiter: spec_check(s.limiter, s.contract_address@, "upd_val"@, now).unwrap(),
                    events: s.events.push(
                        CoreEvent::ValueUpdated { commitment_id, new_value, timestamp: now },
                    ),
                    ..s
                },
            )
        }
    }
}

/// What `check_violations` answers, or the reason for which it is refused.
pub open spec fn spec_check_violations(s: LedgerView, commitment_id: u64, now: u64) -> Result<
    bool,
    CommitmentError,
> {
    if !s.has(commitment_id) {
        Err(CommitmentError::CommitmentNotFound)
    } else {
        let c = s.commitments[commitment_id as int];
        if !(c.status is Active) {
            Ok(false)
        } else if !c.loss_fits() {
            Err(CommitmentError::ArithmeticOverflow)
        } else {
            Ok(c.spec_violated(now))
        }
    }
}

/// What `get_violation_details` answers, or the reason for which it is
/// refused.
pub open spec fn spec_get_violation_details(s: LedgerView, commitment_id: u64, now: u64) -> Result<
    ViolationDetails,
    CommitmentError,
> {
    if !s.has(commitment_id) {
        Err(CommitmentError::CommitmentNotFound)
    } else {
        let c = s.commitments[commitment_id as int];
        if !c.loss_fits() {
            Err(CommitmentError::ArithmeticOverflow)
        } else {
            Ok(c.spec_violation_details(now))
        }
    }
}

/// Refuses a funding transfer that the payer's balance does not cover.
pub fn require_sufficient_balance(balance: i128, amount: i128) -> (outcome: Result<(), CommitmentError>)
    ensures
        balance < amount ==> outcome == Err::<(), CommitmentError>(CommitmentError::InsufficientBalance),
        balance >= amount ==> outcome is Ok,
{
    if balance < amount {
        Err(CommitmentError::InsufficientBalance)
    } else {
        Ok(())
    }
}

impl CommitmentCoreContract {
    /// The ledger's limiter is sound and what it holds is well formed.
    pub closed spec fn wf(&self) -> bool {
        &&& self.limiter.wf()
        &&& self@.wf()
    }

    /// An empty ledger for the contract at `contract_address`, not yet
    /// initialized.
    pub fn new(contract_address: Address) -> (ledger: Self)
        ensures
            ledger.wf(),
            ledger@.balanced(),
            ledger@.contract_address == contract_address,
            ledger@.admin is None,
            ledger@.nft_contract is None,
            ledger@.commitments == Seq::<Commitment>::empty(),
            ledger@.total_value_locked == 0,
            ledger@.limiter.limits == Map::<Seq<char>, RateLimit>::empty(),
            ledger@.limiter.exempt == Set::<Seq<char>>::empty(),
            ledger@.limiter.windows == Map::<(Seq<char>, Seq<char>), Seq<u64>>::empty(),
            ledger@.pending is None,
            ledger@.events == Seq::<CoreEvent>::empty(),
    {
        CommitmentCoreContract {
            contract_address,
            admin: None,
            nft_contract: None,
            commitments: Vec::new(),
            total_value_locked: 0,
            limiter: RateLimiter::new(),
            pending: None,
            events: Vec::new(),
        }
    }

    /// Names the administrator and the receipt contract. Refused once done.
    pub fn initialize(&mut self, admin: Address, nft_contract: Address) -> (done: Result<(), CommitmentError>)
        requires
            old(self).wf(),
        ensures
            final(self).wf(),
            match spec_initialize(old(self)@, admin, nft_contract) {
                Ok(s) => done is Ok && final(self)@ == s,
                Err(e) => done == Err::<(), CommitmentError>(e) && final(self)@ == old(self)@,
            },
    {
        if self.admin.is_some() {
            return Err(CommitmentError::AlreadyInitialized);
        }
        self.admin = Some(admin);
        self.nft_contract = Some(nft_contract);
        Ok(())
    }

    /// The administrator.
    pub fn get_admin(&self) -> (admin: Result<Address, CommitmentError>)
        ensures
            match self@.admin {
                Some(a) => admin == Ok::<Address, CommitmentError>(a),
                None => admin == Err::<Address, CommitmentError>(CommitmentError::NotInitialized),
            },
    {
        match &self.admin {
            Some(a) => Ok(a.clone()),
            None => Err(CommitmentError::NotInitialized),
        }
    }

    /// The receipt contract.
    pub fn get_nft_contract(&self) -> (nft_contract: Result<Address, CommitmentError>)
        ensures
            match self@.nft_contract {
                Some(a) => nft_contract == Ok::<Address, CommitmentError>(a),
                None => nft_contract == Err::<Address, CommitmentError>(CommitmentError::NotInitialized),
            },
    {
        match &self.nft_contract {
            Some(a) => Ok(a.clone()),
            None => Err(CommitmentError::NotInitialized),
        }
    }

    /// Number of commitments ever created.
    pub fn get_total_commitments(&self) -> (total: u64)
        requires
            self.wf(),
        ensures
            total == self@.commitments.len(),
    {
        self.commitments.len() as u64
    }

    /// The total value locked.
    pub fn get_total_value_locked(&self) -> (total: i128)
        ensures
            total == self@.total_value_locked,
    {
        self.total_value_locked
    }

    /// Whether outside work is pending.
    pub fn is_busy(&self) -> (busy: bool)
        ensures
            busy == self@.busy(),
    {
        self.pending.is_some()
    }

    fn require_admin(&self, caller: &Address) -> (outcome: Result<(), CommitmentError>)
        ensures
            match spec_require_admin(self@, *caller) {
                Some(e) => outcome == Err::<(), CommitmentError>(e),
                None => outcome is Ok,
            },
    {
        match &self.admin {
            None => Err(CommitmentError::NotInitialized),
            Some(admin) => if *admin == *caller {
                Ok(())
            } else {
                Err(CommitmentError::Unauthorized)
            },
        }
    }

    /// Sets the quota of `function`. Only the administrator may.
    pub fn set_rate_limit(&mut self, caller: &Address, function: &str, window_seconds: u64, max_calls: u32) -> (done:
        Result<(), CommitmentError>)
        requires
            old(self).wf(),
        ensures
            final(self).wf(),
            match spec_set_rate_limit(old(self)@, *caller, function@, window_seconds, max_calls) {
                Ok(s) => done is Ok && final(self)@ == s,
                Err(e) => done == Err::<(), CommitmentError>(e) && final(self)@ == old(self)@,
            },
    {
        match self.require_admin(caller) {
            Err(e) => Err(e),
            Ok(()) => {
                self.limiter.set_limit(function, window_seconds, max_calls);
                Ok(())
            },
        }
    }

    /// Exempts `address` from every quota, or ends its exemption. Only the
    /// administrator may.
    pub fn set_rate_limit_exempt(&mut self, caller: &Address, address: &Address, exempt: bool) -> (done: Result<
        (),
        CommitmentError,
    >)
        requires
            old(self).wf(),
        ensures
            final(self).wf(),
            match spec_set_rate_limit_exempt(old(self)@, *caller, *address, exempt) {
                Ok(s) => done is Ok && final(self)@ == s,
                Err(e) => done == Err::<(), CommitmentError>(e) && final(self)@ == old(self)@,
            },
    {
        match self.require_admin(caller) {
            Err(e) => Err(e),
            Ok(()) => {
                self.limiter.set_exempt(address, exempt);
                Ok(())
            },
        }
    }

    /// The commitment named `commitment_id`.
    pub fn get_commitment(&self, commitment_id: u64) -> (found: Result<Commitment, CommitmentError>)
        ensures
            self@.has(commitment_id) ==> found == Ok::<Commitment, CommitmentError>(
                self@.commitments[commitment_id as int],
            ),
            !self@.has(commitment_id) ==> found == Err::<Commitment, CommitmentError>(
                CommitmentError::CommitmentNotFound,
            ),
    {
        match self.position(commitment_id) {
            Some(i) => Ok(self.commitments[i].clone()),
            None => Err(CommitmentError::CommitmentNotFound),
        }
    }

    fn position(&self, commitment_id: u64) -> (index: Option<usize>)
        ensures
            self@.has(commitment_id) ==> index == Some(commitment_id as usize) && commitment_id as usize
                == commitment_id,
            !self@.has(commitment_id) ==> index is None,
    {
        let count: u64 = self.commitments.len() as u64;
        if commitment_id < count {
            Some(commitment_id as usize)
        } else {
            None
        }
    }

    /// The identifiers of the commitments of `owner`, oldest first.
    pub fn get_owner_commitments(&self, owner: &Address) -> (ids: Vec<u64>)
        ensures
            ids@ == owned_ids(self@.commitments, owner@),
    {
        let mut ids: Vec<u64> = Vec::new();
        let mut i: usize = 0;
        while i < self.commitments.len()
            invariant
                i <= self.commitments.len(),
                ids@ == owned_ids(self.commitments@.take(i as int), owner@),
            decreases self.commitments.len() - i,
        {
            proof {
                assert(self.commitments@.take(i + 1).drop_last() =~= self.commitments@.take(i as int));
            }
            if self.commitments[i].owner == *owner {
                ids.push(self.commitments[i].commitment_id);
            }
            i += 1;
        }
        proof {
            assert(self.commitments@.take(i as int) =~= self.commitments@);
        }
        ids
    }

    /// The notifications queued so far, oldest first.
    pub fn events(&self) -> (events: &Vec<CoreEvent>)
        ensures
            events@ == self@.events,
    {
        &self.events
    }

    /// Hands out the queued notifications and empties the queue.
    pub fn take_events(&mut self) -> (events: Vec<CoreEvent>)
        requires
            old(self).wf(),
        ensures
            final(self).wf(),
            events@ == old(self)@.events,
            final(self)@ == (LedgerView { events: Seq::empty(), ..old(self)@ }),
    {
        let mut events: Vec<CoreEvent> = Vec::new();
        std::mem::swap(&mut events, &mut self.events);
        events
    }

    /// The outside work that is pending, if any.
    pub fn pending(&self) -> (pending: &Option<Pending>)
        ensures
            *pending == self@.pending,
    {
        &self.pending
    }

    /// Locks `amount` of `asset_address` for `owner` under `rules`.
    ///
    /// On success the commitment is stored as active with `amount` as its
    /// current value, the counters are raised, and the ledger is left busy
    /// until `complete_create` reports the receipt's token.
    pub fn create_commitment(
        &mut self,
        owner: Address,
        amount: i128,
        asset_address: Address,
        rules: CommitmentRules,
        now: u64,
    ) -> (created: Result<u64, CommitmentError>)
        requires
            old(self).wf(),
        ensures
            final(self).wf(),
            old(self)@.balanced() ==> final(self)@.balanced(),
            match spec_create_commitment(old(self)@, owner, amount, asset_address, rules, now) {
                Ok(s) => created == Ok::<u64, CommitmentError>(old(self)@.commitments.len() as u64)
                    && final(self)@ == s,
                Err(e) => created == Err::<u64, CommitmentError>(e) && final(self)@ == old(self)@,
            },
    {
        if self.pending.is_some() {
            return Err(CommitmentError::ReentrancyDetected);
        }
        if !self.limiter.admits(&owner, "create", now) {
            return Err(CommitmentError::RateLimitExceeded);
        }
        if !is_positive(amount) {
            return Err(CommitmentError::InvalidAmount);
        }
        match validate_rules(&rules) {
            Err(e) => {
                return Err(e);
            },
            Ok(()) => {},
        }
        if self.nft_contract.is_none() {
            return Err(CommitmentError::NotInitialized);
        }
        let expires_at = match expiration(now, rules.duration_days) {
            Some(t) => t,
            None => {
                return Err(CommitmentError::ArithmeticOverflow);
            },
        };
        let count: u64 = self.commitments.len() as u64;
        if count == u64::MAX {
            return Err(CommitmentError::ArithmeticOverflow);
        }
        let locked = match safe_add(self.total_value_locked, amount) {
            Some(v) => v,
            None => {
                return Err(CommitmentError::ArithmeticOverflow);
            },
        };
        let admitted = self.limiter.check(&owner, "create", now);
        assert(admitted);
        let commitment = Commitment {
            commitment_id: count,
            owner,
            nft_token_id: 0,
            rules,
            amount,
            asset_address,
            created_at: now,
            expires_at,
            current_value: amount,
            status: CommitmentStatus::Active,
        };
        proof {
            lemma_sum_locked_push(self.commitments@, commitment);
        }
        self.commitments.push(commitment);
        self.total_value_locked = locked;
        self.pending = Some(Pending::Create { commitment_id: count, started_at: now });
        Ok(count)
    }

    /// Reports that the owner's transfer arrived and the receipt was minted
    /// as `nft_token_id`: writes the token into the commitment, queues the
    /// creation notice and releases the ledger.
    pub fn complete_create(&mut self, nft_token_id: u32) -> (done: Result<u64, CommitmentError>)
        requires
            old(self).wf(),
        ensures
            final(self).wf(),
            old(self)@.balanced() ==> final(self)@.balanced(),
            match spec_complete_create(old(self)@, nft_token_id) {
                Ok(s) => done == Ok::<u64, CommitmentError>(old(self)@.pending.unwrap().commitment_id())
                    && final(self)@ == s,
                Err(e) => done == Err::<u64, CommitmentError>(e) && final(self)@ == old(self)@,
            },
    {
        let (commitment_id, started_at) = match &self.pending {
            Some(Pending::Create { commitment_id, started_at }) => (*commitment_id, *started_at),
            _ => {
                return Err(CommitmentError::NoPendingInteraction);
            },
        };
        let i = match self.position(commitment_id) {
            Some(i) => i,
            None => {
                return Err(CommitmentError::NoPendingInteraction);
            },
        };
        let ghost before = self.commitments@;
        let event = CoreEvent::Created {
            commitment_id,
            owner: self.commitments[i].owner.clone(),
            amount: self.commitments[i].amount,
            nft_token_id,
            timestamp: started_at,
        };
        self.commitments[i].nft_token_id = nft_token_id;
        self.events.push(event);
        self.pending = None;
        proof {
            let after = Commitment { nft_token_id, ..before[i as int] };
            assert(self.commitments@ =~= before.update(i as int, after));
            lemma_sum_locked_update(before, i as int, after);
        }
        Ok(commitment_id)
    }

    /// Settles a commitment at or after its expiry: marks it settled and
    /// takes its current value out of the total value locked. Answers the
    /// settlement amount, which the caller pays out before it calls
    /// `complete_interaction`.
    pub fn settle(&mut self, commitment_id: u64, now: u64) -> (settled: Result<i128, CommitmentError>)
        requires
            old(self).wf(),
        ensures
            final(self).wf(),
            old(self)@.balanced() ==> final(self)@.balanced(),
            match spec_settle(old(self)@, commitment_id, now) {
                Ok(s) => settled == Ok::<i128, CommitmentError>(
                    old(self)@.commitments[commitment_id as int].current_value,
                ) && final(self)@ == s,
                Err(e) => settled == Err::<i128, CommitmentError>(e) && final(self)@ == old(self)@,
            },
    {
        if self.pending.is_some() {
            return Err(CommitmentError::ReentrancyDetected);
        }
        let i = match self.position(commitment_id) {
            Some(i) => i,
            None => {
                return Err(CommitmentError::CommitmentNotFound);
            },
        };
        if now < self.commitments[i].expires_at {
            return Err(CommitmentError::NotExpired);
        }
        match self.commitments[i].status {
            CommitmentStatus::Active => {},
            _ => {
                return Err(CommitmentError::NotActive);
            },
        }
        let settlement_amount = self.commitments[i].current_value;
        let locked = match safe_sub(self.total_value_locked, settlement_amount) {
            Some(v) => v,
            None => {
                return Err(CommitmentError::ArithmeticOverflow);
            },
        };
        let ghost before = self.commitments@;
        self.commitments[i].status = CommitmentStatus::Settled;
        self.total_value_locked = locked;
        self.pending = Some(Pending::Settle { commitment_id, settlement_amount, started_at: now });
        proof {
            let after = Commitment { status: CommitmentStatus::Settled, ..before[i as int] };
            assert(self.commitments@ =~= before.update(i as int, after));
            lemma_sum_locked_update(before, i as int, after);
        }
        Ok(settlement_amount)
    }

    /// Lets the owner leave before maturity: marks the commitment as
    /// exited and takes its whole current value out of the total value
    /// locked. Answers the amount to return, the current value less the
    /// penalty, which the caller pays out before it calls
    /// `complete_interaction`.
    pub fn early_exit(&mut self, commitment_id: u64, caller: Address, now: u64) -> (returned: Result<
        i128,
        CommitmentError,
    >)
        requires
            old(self).wf(),
        ensures
            final(self).wf(),
            old(self)@.balanced() ==> final(self)@.balanced(),
            match spec_early_exit(old(self)@, commitment_id, caller, now) {
                Ok(s) => {
                    let c = old(self)@.commitments[commitment_id as int];
                    returned == Ok::<i128, CommitmentError>((c.current_value - spec_penalty(c)) as i128)
                        && final(self)@ == s
                },
                Err(e) => returned == Err::<i128, CommitmentError>(e) && final(self)@ == old(self)@,
            },
    {
        if self.pending.is_some() {
            return Err(CommitmentError::ReentrancyDetected);
        }
        let i = match self.position(commitment_id) {
            Some(i) => i,
            None => {
                return Err(CommitmentError::CommitmentNotFound);
            },
        };
        if self.commitments[i].owner != caller {
            return Err(CommitmentError::Unauthorized);
        }
        match self.commitments[i].status {
            CommitmentStatus::Active => {},
            _ => {
                return Err(CommitmentError::NotActive);
            },
        }
        let current_value = self.commitments[i].current_value;
        let penalty_amount = match percent_of(current_value, self.commitments[i].rules.early_exit_penalty) {
            Some(v) => v,
            None => {
                return Err(CommitmentError::ArithmeticOverflow);
            },
        };
        let returned_amount = match safe_sub(current_value, penalty_amount) {
            Some(v) => v,
            None => {
                return Err(CommitmentError::ArithmeticOverflow);
            },
        };
        let locked = match safe_sub(self.total_value_locked, current_value) {
            Some(v) => v,
            None => {
                return Err(CommitmentError::ArithmeticOverflow);
            },
        };
        let ghost before = self.commitments@;
        self.commitments[i].status = CommitmentStatus::EarlyExit;
        self.total_value_locked = locked;
        self.pending = Some(
            Pending::EarlyExit { commitment_id, caller, penalty_amount, returned_amount, started_at: now },
        );
        proof {
            let after = Commitment { status: CommitmentStatus::EarlyExit, ..before[i as int] };
            assert(self.commitments@ =~= before.update(i as int, after));
            lemma_sum_locked_update(before, i as int, after);
        }
        Ok(returned_amount)
    }

    /// Moves `amount` of an active commitment's current value to
    /// `target_pool`. The caller transfers the amount before it calls
    /// `complete_interaction`.
    pub fn allocate(&mut self, commitment_id: u64, target_pool: Address, amount: i128, now: u64) -> (done:
        Result<(), CommitmentError>)
        requires
            old(self).wf(),
        ensures
            final(self).wf(),
            old(self)@.balanced() ==> final(self)@.balanced(),
            match spec_allocate(old(self)@, commitment_id, target_pool, amount, now) {
                Ok(s) => done is Ok && final(self)@ == s,
                Err(e) => done == Err::<(), CommitmentError>(e) && final(self)@ == old(self)@,
            },
    {
        if self.pending.is_some() {
            return Err(CommitmentError::ReentrancyDetected);
        }
        if !self.limiter.admits(&target_pool, "alloc", now) {
            return Err(CommitmentError::RateLimitExceeded);
        }
        if !is_positive(amount) {
            return Err(CommitmentError::InvalidAmount);
        }
        let i = match self.position(commitment_id) {
            Some(i) => i,
            None => {
                return Err(CommitmentError::CommitmentNotFound);
            },
        };
        match self.commitments[i].status {
            CommitmentStatus::Active => {},
            _ => {
                return Err(CommitmentError::NotActive);
            },
        }
        let current_value = self.commitments[i].current_value;
        if current_value < amount {
            return Err(CommitmentError::InsufficientValue);
        }
        let admitted = self.limiter.check(&target_pool, "alloc", now);
        assert(admitted);
        let ghost before = self.commitments@;
        self.commitments[i].current_value = current_value - amount;
        self.pending = Some(Pending::Allocate { commitment_id, target_pool, amount, started_at: now });
        proof {
            let after = Commitment { current_value: (current_value - amount) as i128, ..before[i as int] };
            assert(self.commitments@ =~= before.update(i as int, after));
            lemma_sum_locked_update(before, i as int, after);
        }
        Ok(())
    }

    /// Reports that the outside work of a settlement, an early exit or an
    /// allocation is done: queues its notice and releases the ledger.
    pub fn complete_interaction(&mut self) -> (done: Result<(), CommitmentError>)
        requires
            old(self).wf(),
        ensures
            final(self).wf(),
            match spec_complete_interaction(old(self)@) {
                Ok(s) => done is Ok && final(self)@ == s,
                Err(e) => done == Err::<(), CommitmentError>(e) && final(self)@ == old(self)@,
            },
    {
        let pending = self.pending.take();
        match pending {
            Some(Pending::Settle { commitment_id, settlement_amount, started_at }) => {
                self.events.push(CoreEvent::Settled { commitment_id, settlement_amount, timestamp: started_at });
                Ok(())
            },
            Some(Pending::EarlyExit { commitment_id, caller, penalty_amount, returned_amount, started_at }) => {
                self.events.push(
                    CoreEvent::EarlyExit {
                        commitment_id,
                        caller,
                        penalty_amount,
                        returned_amount,
                        timestamp: started_at,
                    },
                );
                Ok(())
            },
            Some(Pending::Allocate { commitment_id, target_pool, amount, started_at }) => {
                self.events.push(
                    CoreEvent::Allocated { commitment_id, target_pool, amount, timestamp: started_at },
                );
                Ok(())
            },
            other => {
                self.pending = other;
                Err(CommitmentError::NoPendingInteraction)
            },
        }
    }

    /// Marks an active commitment to `new_value`. The call is counted
    /// against the contract's own quota. The amount and the total value
    /// locked stay as they are.
    pub fn update_value(&mut self, commitment_id: u64, new_value: i128, now: u64) -> (done: Result<
        (),
        CommitmentError,
    >)
        requires
            old(self).wf(),
        ensures
            final(self).wf(),
            old(self)@.balanced() ==> final(self)@.balanced(),
            match spec_update_value(old(self)@, commitment_id, new_value, now) {
                Ok(s) => done is Ok && final(self)@ == s,
                Err(e) => done == Err::<(), CommitmentError>(e) && final(self)@ == old(self)@,
            },
    {
        if self.pending.is_some() {
            return Err(CommitmentError::ReentrancyDetected);
        }
        if !self.limiter.admits(&self.contract_address, "upd_val", now) {
            return Err(CommitmentError::RateLimitExceeded);
        }
        let i = match self.position(commitment_id) {
            Some(i) => i,
            None => {
                return Err(CommitmentError::CommitmentNotFound);
            },
        };
        match self.commitments[i].status {
            CommitmentStatus::Active => {},
            _ => {
                return Err(CommitmentError::NotActive);
            },
        }
        let admitted = self.limiter.check(&self.contract_address, "upd_val", now);
        assert(admitted);
        let ghost before = self.commitments@;
        self.commitments[i].current_value = new_value;
        self.events.push(CoreEvent::ValueUpdated { commitment_id, new_value, timestamp: now });
        proof {
            let after = Commitment { current_value: new_value, ..before[i as int] };
            assert(self.commitments@ =~= before.update(i as int, after));
            lemma_sum_locked_update(before, i as int, after);
        }
        Ok(())
    }

    /// Whether an active commitment breaks its loss limit or has reached
    /// its expiry at `now`. A violation is announced; the commitment is
    /// never changed.
    pub fn check_violations(&mut self, commitment_id: u64, now: u64) -> (violated: Result<bool, CommitmentError>)
        requires
            old(self).wf(),
        ensures
            final(self).wf(),
            violated == spec_check_violations(old(self)@, commitment_id, now),
            violated == Ok::<bool, CommitmentError>(true) ==> final(self)@ == (LedgerView {
                events: old(self)@.events.push(CoreEvent::Violated { commitment_id, timestamp: now }),
                ..old(self)@
            }),
            violated != Ok::<bool, CommitmentError>(true) ==> final(self)@ == old(self)@,
    {
        let i = match self.position(commitment_id) {
            Some(i) => i,
            None => {
                return Err(CommitmentError::CommitmentNotFound);
            },
        };
        match self.commitments[i].is_violated(now) {
            None => Err(CommitmentError::ArithmeticOverflow),
            Some(false) => Ok(false),
            Some(true) => {
                self.events.push(CoreEvent::Violated { commitment_id, timestamp: now });
                Ok(true)
            },
        }
    }

    /// Whether the loss limit and the duration of a commitment are broken
    /// at `now`, with the loss in percent and the seconds left.
    pub fn get_violation_details(&self, commitment_id: u64, now: u64) -> (details: Result<
        ViolationDetails,
        CommitmentError,
    >)
        ensures
            details == spec_get_violation_details(self@, commitment_id, now),
    {
        let i = match self.position(commitment_id) {
            Some(i) => i,
            None => {
                return Err(CommitmentError::CommitmentNotFound);
            },
        };
        match self.commitments[i].violation_details(now) {
            None => Err(CommitmentError::ArithmeticOverflow),
            Some(details) => Ok(details),
        }
    }

    /// Takes the ledger apart into the values that it holds.
    pub fn into_parts(self) -> (parts: LedgerParts)
        requires
            self.wf(),
        ensures
            parts.wf(),
            parts.view() == self@,
    {
        LedgerParts {
            contract_address: self.contract_address,
            admin: self.admin,
            nft_contract: self.nft_contract,
            commitments: self.commitments,
            total_value_locked: self.total_value_locked,
            limiter: self.limiter.into_parts(),
            pending: self.pending,
            events: self.events,
        }
    }

    /// The ledger that `parts` describe, if they are well formed.
    pub fn from_parts(parts: LedgerParts) -> (ledger: Option<Self>)
        ensures
            parts.wf() <==> ledger is Some,
            ledger matches Some(l) ==> l.wf() && l@ == parts.view(),
    {
        if !commitments_well_formed(&parts.commitments) {
            return None;
        }
        let count: u64 = parts.commitments.len() as u64;
        match &parts.pending {
            None => {},
            Some(Pending::Create { commitment_id, .. }) => {
                if count == 0 || *commitment_id != count - 1 {
                    return None;
                }
                match parts.commitments[(count - 1) as usize].status {
                    CommitmentStatus::Active => {},
                    _ => {
                        return None;
                    },
                }
            },
            Some(Pending::Settle { commitment_id, .. }) => {
                if *commitment_id >= count {
                    return None;
                }
            },
            Some(Pending::EarlyExit { commitment_id, .. }) => {
                if *commitment_id >= count {
                    return None;
                }
            },
            Some(Pending::Allocate { commitment_id, .. }) => {
                if *commitment_id >= count {
                    return None;
                }
            },
        }
        let ghost limiter_parts = parts.limiter;
        let limiter = match RateLimiter::from_parts(parts.limiter) {
            Some(l) => l,
            None => {
                return None;
            },
        };
        Some(
            CommitmentCoreContract {
                contract_address: parts.contract_address,
                admin: parts.admin,
                nft_contract: parts.nft_contract,
                commitments: parts.commitments,
                total_value_locked: parts.total_value_locked,
                limiter,
                pending: parts.pending,
                events: parts.events,
            },
        )
    }
}

fn commitments_well_formed(commitments: &Vec<Commitment>) -> (ok: bool)
    ensures
        ok == (forall|i: int|
            0 <= i < commitments@.len() ==> (#[trigger] commitments@[i]).commitment_id == i && !(
            commitments@[i].status is Violated)),
{
    let mut i: usize = 0;
    while i < commitments.len()
        invariant
            i <= commitments.len(),
            forall|j: int|
                0 <= j < i ==> (#[trigger] commitments@[j]).commitment_id == j && !(commitments@[j].status
                    is Violated),
        decreases commitments.len() - i,
    {
        if commitments[i].commitment_id != i as u64 {
            return false;
        }
        match commitments[i].status {
            CommitmentStatus::Violated => {
                return false;
            },
            _ => {},
        }
        i += 1;
    }
    true
}

} // verus!
