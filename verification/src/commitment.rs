//! The commitment record, its rules, and the judgment whether the rules
//! are being broken.

use crate::address::Address;
use crate::math::{fits_i128, loss_percent, loss_percent_fits, spec_loss_percent};
use crate::validation::{is_valid_commitment_type, is_valid_duration, is_valid_percent, spec_valid_commitment_type};
use vstd::prelude::*;

verus! {

/// Where a commitment stands in its life. `Violated` names a judgment that
/// the ledger reports and never stores.
#[derive(Clone, Copy, Debug, PartialEq, Eq, Structural)]
pub enum CommitmentStatus {
    Active,
    Settled,
    Violated,
    EarlyExit,
}

/// Why the ledger refuses a call. A refused call changes nothing.
#[derive(Clone, Copy, Debug, PartialEq, Eq, Structural)]
pub enum CommitmentError {
    InvalidDuration,
    InvalidMaxLossPercent,
    InvalidCommitmentType,
    InvalidAmount,
    InsufficientBalance,
    CommitmentNotFound,
    Unauthorized,
    AlreadyInitialized,
    NotInitialized,
    ReentrancyDetected,
    RateLimitExceeded,
    NotExpired,
    NotActive,
    InsufficientValue,
    ArithmeticOverflow,
    NoPendingInteraction,
}

/// The rule set attached to a commitment when it is created.
#[derive(Debug, PartialEq, Eq)]
pub struct CommitmentRules {
    pub duration_days: u32,
    pub max_loss_percent: u32,
    pub commitment_type: String,
    pub early_exit_penalty: u32,
    pub min_fee_threshold: i128,
}

/// A locked-value position of one owner.
#[derive(Debug, PartialEq, Eq)]
pub struct Commitment {
    pub commitment_id: u64,
    pub owner: Address,
    pub nft_token_id: u32,
    pub rules: CommitmentRules,
    pub amount: i128,
    pub asset_address: Address,
    pub created_at: u64,
    pub expires_at: u64,
    pub current_value: i128,
    pub status: CommitmentStatus,
}

impl Clone for CommitmentRules {
    fn clone(&self) -> (copy: Self)
        ensures
            copy == *self,
    {
        CommitmentRules {
            duration_days: self.duration_days,
            max_loss_percent: self.max_loss_percent,
            commitment_type: self.commitment_type.clone(),
            early_exit_penalty: self.early_exit_penalty,
            min_fee_threshold: self.min_fee_threshold,
        }
    }
}

impl Clone for Commitment {
    fn clone(&self) -> (copy: Self)
        ensures
            copy == *self,
    {
        Commitment {
            commitment_id: self.commitment_id,
            owner: self.owner.clone(),
            nft_token_id: self.nft_token_id,
            rules: self.rules.clone(),
            amount: self.amount,
            asset_address: self.asset_address.clone(),
            created_at: self.created_at,
            expires_at: self.expires_at,
            current_value: self.current_value,
            status: self.status,
        }
    }
}

/// The first rule that `rules` breaks, in the order duration, maximum loss,
/// commitment type; `None` for a rule set that can be attached.
pub open spec fn spec_validate_rules(rules: CommitmentRules) -> Option<CommitmentError> {
    if rules.duration_days == 0 {
        Some(CommitmentError::InvalidDuration)
    } else if rules.max_loss_percent > 100 {
        Some(CommitmentError::InvalidMaxLossPercent)
    } else if !spec_valid_commitment_type(rules.commitment_type@) {
        Some(CommitmentError::InvalidCommitmentType)
    } else {
        None
    }
}

/// Accepts a rule set with a positive duration, a maximum loss of at most
/// 100 percent and a known commitment type.
pub fn validate_rules(rules: &CommitmentRules) -> (outcome: Result<(), CommitmentError>)
    ensures
        spec_validate_rules(*rules) matches Some(e) ==> outcome == Err::<(), CommitmentError>(e),
        spec_validate_rules(*rules) is None ==> outcome is Ok,
{
    if !is_valid_duration(rules.duration_days) {
        Err(CommitmentError::InvalidDuration)
    } else if !is_valid_percent(rules.max_loss_percent) {
        Err(CommitmentError::InvalidMaxLossPercent)
    } else if !is_valid_commitment_type(&rules.commitment_type) {
        Err(CommitmentError::InvalidCommitmentType)
    } else {
        Ok(())
    }
}

/// What `get_violation_details` reports: whether any rule is broken,
/// whether the loss limit is, whether the duration is, the loss in percent,
/// and the seconds left until expiry.
pub type ViolationDetails = (bool, bool, bool, i128, u64);

impl Commitment {
    /// Loss of the current value against the locked amount, in percent and
    /// rounded down; zero for a commitment whose amount is not positive.
    pub open spec fn spec_loss_percent(&self) -> int {
        spec_loss_percent(self.amount as int, self.current_value as int)
    }

    /// The loss exceeds the maximum that the rules tolerate. A loss equal
    /// to the maximum does not.
    pub open spec fn loss_violated(&self) -> bool {
        self.spec_loss_percent() > self.rules.max_loss_percent
    }

    /// The commitment has reached its expiry at `now`.
    pub open spec fn duration_violated(&self, now: u64) -> bool {
        now >= self.expires_at
    }

    /// Seconds from `now` to the expiry, zero once it is reached.
    pub open spec fn spec_time_remaining(&self, now: u64) -> int {
        if now < self.expires_at {
            self.expires_at - now
        } else {
            0
        }
    }

    /// Whether the loss can be computed without leaving `i128`.
    pub open spec fn loss_fits(&self) -> bool {
        loss_percent_fits(self.amount as int, self.current_value as int)
    }

    /// The details that are reported at `now`.
    pub open spec fn spec_violation_details(&self, now: u64) -> ViolationDetails {
        (
            self.loss_violated() || self.duration_violated(now),
            self.loss_violated(),
            self.duration_violated(now),
            self.spec_loss_percent() as i128,
            self.spec_time_remaining(now) as u64,
        )
    }

    /// An active commitment breaks a rule at `now`. A commitment that is no
    /// longer active breaks none.
    pub open spec fn spec_violated(&self, now: u64) -> bool {
        self.status is Active && (self.loss_violated() || self.duration_violated(now))
    }

    /// What this commitment adds to the total value locked: its amount
    /// while it is active, and afterwards the part of the amount that the
    /// closing payout did not cover.
    pub open spec fn locked_share(&self) -> int {
        if self.status is Active {
            self.amount as int
        } else {
            self.amount - self.current_value
        }
    }

    /// The loss in percent, or `None` where computing it leaves `i128`.
    pub fn loss_percent(&self) -> (loss: Option<i128>)
        ensures
            self.loss_fits() ==> loss == Some(self.spec_loss_percent() as i128) && fits_i128(
                self.spec_loss_percent(),
            ),
            !self.loss_fits() ==> loss is None,
    {
        loss_percent(self.amount, self.current_value)
    }

    /// Whether the loss limit and the duration are broken at `now`, with
    /// the loss and the time left; `None` where computing the loss leaves
    /// `i128`. The status is not consulted.
    pub fn violation_details(&self, now: u64) -> (details: Option<ViolationDetails>)
        ensures
            self.loss_fits() ==> details == Some(self.spec_violation_details(now)),
            !self.loss_fits() ==> details is None,
    {
        let loss = match self.loss_percent() {
            Some(loss) => loss,
            None => {
                return None;
            },
        };
        let max_loss: i128 = self.rules.max_loss_percent as i128;
        let loss_violated = loss > max_loss;
        let duration_violated = now >= self.expires_at;
        let time_remaining: u64 = if now < self.expires_at {
            self.expires_at - now
        } else {
            0
        };
        Some((loss_violated || duration_violated, loss_violated, duration_violated, loss, time_remaining))
    }

    /// Whether an active commitment breaks a rule at `now`; `false` for one
    /// that is no longer active. `None` where the commitment is active and
    /// computing its loss leaves `i128`.
    pub fn is_violated(&self, now: u64) -> (violated: Option<bool>)
        ensures
            !(self.status is Active) ==> violated == Some(false),
            self.status is Active && self.loss_fits() ==> violated == Some(self.spec_violated(now)),
            self.status is Active && !self.loss_fits() ==> violated is None,
    {
        match self.status {
            CommitmentStatus::Active => match self.violation_details(now) {
                Some(details) => Some(details.0),
                None => None,
            },
            _ => Some(false),
        }
    }
}

} // verus!
