//! The compliance ledger: append-only attestations about commitments, the
//! fee and time accumulators kept beside them, and the compliance score
//! derived from both and from the commitment itself.
//!
//! The engine keeps no copy of a commitment. Every operation that judges
//! one takes the record as its caller has just read it from the commitment
//! ledger.

use crate::address::Address;
use crate::assoc::{assoc, keys_distinct, keys_of, Keyed, lemma_assoc_absent, lemma_assoc_at, lemma_assoc_push, lemma_assoc_update};
use crate::commitment::Commitment;
use crate::math::{fits_i128, loss_percent, loss_percent_fits, safe_add, safe_div, safe_mul, spec_loss_percent};
use crate::validation::is_positive;
use vstd::prelude::*;

verus! {

/// Why the engine refuses a call. A refused call changes nothing.
#[derive(Clone, Copy, Debug, PartialEq, Eq, Structural)]
pub enum AttestationError {
    NotInitialized,
    Unauthorized,
    InvalidAmount,
    ArithmeticOverflow,
}

/// A timestamped observation about a commitment.
#[derive(Debug, PartialEq, Eq)]
pub struct Attestation {
    pub commitment_id: u64,
    pub timestamp: u64,
    pub attestation_type: String,
    pub data: Vec<(String, String)>,
    pub is_compliant: bool,
    pub verified_by: Address,
}

/// An attestation as plain values: its texts as sequences of characters.
pub struct AttestationView {
    pub commitment_id: u64,
    pub timestamp: u64,
    pub attestation_type: Seq<char>,
    pub data: Seq<(Seq<char>, Seq<char>)>,
    pub is_compliant: bool,
    pub verified_by: Seq<char>,
}

impl View for Attestation {
    type V = AttestationView;

    open spec fn view(&self) -> AttestationView {
        AttestationView {
            commitment_id: self.commitment_id,
            timestamp: self.timestamp,
            attestation_type: self.attestation_type@,
            data: self.data.deep_view(),
            is_compliant: self.is_compliant,
            verified_by: self.verified_by@,
        }
    }
}

/// The views of a sequence of attestations.
pub open spec fn attestation_views(attestations: Seq<Attestation>) -> Seq<AttestationView> {
    Seq::new(attestations.len(), |i: int| attestations[i]@)
}

fn clone_annotations(data: &Vec<(String, String)>) -> (copy: Vec<(String, String)>)
    ensures
        copy.deep_view() == data.deep_view(),
{
    let mut copy: Vec<(String, String)> = Vec::new();
    let mut i: usize = 0;
    while i < data.len()
        invariant
            i <= data.len(),
            copy.len() == i,
            forall|j: int| 0 <= j < i ==> (#[trigger] copy@[j]).deep_view() == data@[j].deep_view(),
        decreases data.len() - i,
    {
        copy.push((data[i].0.clone(), data[i].1.clone()));
        i += 1;
    }
    assert(copy.deep_view() =~= data.deep_view());
    copy
}

impl Clone for Attestation {
    fn clone(&self) -> (copy: Self)
        ensures
            copy@ == self@,
    {
        Attestation {
            commitment_id: self.commitment_id,
            timestamp: self.timestamp,
            attestation_type: self.attestation_type.clone(),
            data: clone_annotations(&self.data),
            is_compliant: self.is_compliant,
            verified_by: self.verified_by.clone(),
        }
    }
}

/// The health of a commitment as last derived.
#[derive(Clone, Copy, Debug, PartialEq, Eq)]
pub struct HealthMetrics {
    pub commitment_id: u64,
    pub current_value: i128,
    pub initial_value: i128,
    pub drawdown_percent: i128,
    pub fees_generated: i128,
    pub volatility_exposure: i128,
    pub last_attestation: u64,
    pub compliance_score: u32,
}

/// What the engine keeps for one commitment beside its attestations: the
/// fees generated so far, the time of the last attestation, and the metrics
/// stored by the last recorded event.
#[derive(Clone, Copy, Debug, PartialEq, Eq)]
pub struct Account {
    pub fees: i128,
    pub last_attestation: u64,
    pub metrics: Option<HealthMetrics>,
}

/// The account of one commitment, as it is stored.
#[derive(Debug, PartialEq, Eq)]
pub struct AccountEntry {
    pub commitment_id: u64,
    pub account: Account,
}

impl Keyed for AccountEntry {
    type Key = u64;

    open spec fn key(&self) -> u64 {
        self.commitment_id
    }

    fn same_key(&self, other: &Self) -> (same: bool) {
        self.commitment_id == other.commitment_id
    }
}

/// A notification that the engine has queued for publication.
#[derive(Debug, PartialEq, Eq)]
pub enum EngineEvent {
    RecorderAdded { recorder: Address },
    Attested { commitment_id: u64, verified_by: Address, attestation_type: String, is_compliant: bool, timestamp: u64 },
    ViolationDetected { commitment_id: u64, drawdown_percent: i128, max_loss_percent: i128, timestamp: u64 },
    FeeRecorded { commitment_id: u64, fee_amount: i128, timestamp: u64 },
    DrawdownRecorded { commitment_id: u64, current_value: i128, drawdown_percent: i128, timestamp: u64 },
    ScoreUpdated { commitment_id: u64, score: u32, timestamp: u64 },
}

/// A notification as plain values.
pub enum EngineEventView {
    RecorderAdded { recorder: Seq<char> },
    Attested {
        commitment_id: u64,
        verified_by: Seq<char>,
        attestation_type: Seq<char>,
        is_compliant: bool,
        timestamp: u64,
    },
    ViolationDetected { commitment_id: u64, drawdown_percent: i128, max_loss_percent: i128, timestamp: u64 },
    FeeRecorded { commitment_id: u64, fee_amount: i128, timestamp: u64 },
    DrawdownRecorded { commitment_id: u64, current_value: i128, drawdown_percent: i128, timestamp: u64 },
    ScoreUpdated { commitment_id: u64, score: u32, timestamp: u64 },
}

impl View for EngineEvent {
    type V = EngineEventView;

    open spec fn view(&self) -> EngineEventView {
        match *self {
            EngineEvent::RecorderAdded { recorder } => EngineEventView::RecorderAdded { recorder: recorder@ },
            EngineEvent::Attested { commitment_id, verified_by, attestation_type, is_compliant, timestamp } => {
                EngineEventView::Attested {
                    commitment_id,
                    verified_by: verified_by@,
                    attestation_type: attestation_type@,
                    is_compliant,
                    timestamp,
                }
            },
            EngineEvent::ViolationDetected { commitment_id, drawdown_percent, max_loss_percent, timestamp } => {
                EngineEventView::ViolationDetected { commitment_id, drawdown_percent, max_loss_percent, timestamp }
            },
            EngineEvent::FeeRecorded { commitment_id, fee_amount, timestamp } => EngineEventView::FeeRecorded {
                commitment_id,
                fee_amount,
                timestamp,
            },
            EngineEvent::DrawdownRecorded { commitment_id, current_value, drawdown_percent, timestamp } => {
                EngineEventView::DrawdownRecorded { commitment_id, current_value, drawdown_percent, timestamp }
            },
            EngineEvent::ScoreUpdated { commitment_id, score, timestamp } => EngineEventView::ScoreUpdated {
                commitment_id,
                score,
                timestamp,
            },
        }
    }
}

/// The views of a sequence of notifications.
pub open spec fn event_views(events: Seq<EngineEvent>) -> Seq<EngineEventView> {
    Seq::new(events.len(), |i: int| events[i]@)
}

/// The attestation ledger of one contract instance.
pub struct AttestationEngineContract {
    admin: Option<Address>,
    commitment_core: Option<Address>,
    authorized_verifier: Option<Address>,
    recorders: Vec<Address>,
    attestations: Vec<Attestation>,
    accounts: Vec<AccountEntry>,
    events: Vec<EngineEvent>,
}

/// What the engine holds. Its administrator is the administrator of the
/// commitment ledger that it belongs to.
pub struct EngineView {
    pub admin: Option<Address>,
    pub commitment_core: Option<Address>,
    pub authorized_verifier: Option<Address>,
    pub recorders: Set<Seq<char>>,
    pub attestations: Seq<AttestationView>,
    pub accounts: Map<u64, Account>,
    pub events: Seq<EngineEventView>,
}

/// What an engine holds, as plain lists: the form in which it is stored
/// and restored.
#[derive(Debug, PartialEq, Eq)]
pub struct EngineParts {
    pub admin: Option<Address>,
    pub commitment_core: Option<Address>,
    pub authorized_verifier: Option<Address>,
    pub recorders: Vec<Address>,
    pub attestations: Vec<Attestation>,
    pub accounts: Vec<AccountEntry>,
    pub events: Vec<EngineEvent>,
}

impl EngineParts {
    /// No recorder is listed twice and no commitment has two accounts.
    pub open spec fn wf(&self) -> bool {
        &&& keys_of(self.recorders@).no_duplicates()
        &&& keys_of(self.accounts@).no_duplicates()
    }

    /// The engine that these lists describe.
    pub open spec fn view(&self) -> EngineView {
        EngineView {
            admin: self.admin,
            commitment_core: self.commitment_core,
            authorized_verifier: self.authorized_verifier,
            recorders: assoc(keys_of(self.recorders@), keys_of(self.recorders@)).dom(),
            attestations: attestation_views(self.attestations@),
            accounts: assoc(
                keys_of(self.accounts@),
                Seq::new(self.accounts@.len(), |i: int| self.accounts@[i].account),
            ),
            events: event_views(self.events@),
        }
    }
}

/// The account of a commitment about which nothing has been recorded.
pub open spec fn empty_account() -> Account {
    Account { fees: 0, last_attestation: 0, metrics: None }
}

/// The metrics of a commitment for which none have been stored: all zero,
/// with a perfect score.
pub open spec fn initial_metrics(commitment_id: u64) -> HealthMetrics {
    HealthMetrics {
        commitment_id,
        current_value: 0,
        initial_value: 0,
        drawdown_percent: 0,
        fees_generated: 0,
        volatility_exposure: 0,
        last_attestation: 0,
        compliance_score: 100,
    }
}

impl EngineView {
    /// The account of `commitment_id`, empty where nothing was recorded.
    pub open spec fn account(&self, commitment_id: u64) -> Account {
        if self.accounts.contains_key(commitment_id) {
            self.accounts[commitment_id]
        } else {
            empty_account()
        }
    }

    /// The metrics stored for `commitment_id`, or the initial ones.
    pub open spec fn stored_metrics(&self, commitment_id: u64) -> HealthMetrics {
        match self.account(commitment_id).metrics {
            Some(m) => m,
            None => initial_metrics(commitment_id),
        }
    }

    /// Whether `who` may record fees and drawdowns: the commitment
    /// ledger's administrator, always, and every recorder that the
    /// administrator has added.
    pub open spec fn is_authorized_recorder(&self, who: Seq<char>) -> bool {
        (self.admin matches Some(admin) && admin@ == who) || self.recorders.contains(who)
    }

    /// The engine with `account` as the account of `commitment_id`.
    pub open spec fn with_account(self, commitment_id: u64, account: Account) -> EngineView {
        EngineView { accounts: self.accounts.insert(commitment_id, account), ..self }
    }

    /// The engine with one more notification queued.
    pub open spec fn with_event(self, event: EngineEventView) -> EngineView {
        EngineView { events: self.events.push(event), ..self }
    }

    /// The engine with one more attestation, whose time becomes the time
    /// of its commitment's last attestation.
    pub open spec fn with_attestation(self, attestation: AttestationView) -> EngineView {
        EngineView {
            attestations: self.attestations.push(attestation),
            accounts: self.accounts.insert(
                attestation.commitment_id,
                Account {
                    last_attestation: attestation.timestamp,
                    ..self.account(attestation.commitment_id)
                },
            ),
            ..self
        }
    }
}

/// The attestations about `commitment_id`, in the order of their recording.
pub open spec fn attestations_of(attestations: Seq<AttestationView>, commitment_id: u64) -> Seq<
    AttestationView,
>
    decreases attestations.len(),
{
    if attestations.len() == 0 {
        Seq::empty()
    } else if attestations.last().commitment_id == commitment_id {
        attestations_of(attestations.drop_last(), commitment_id).push(attestations.last())
    } else {
        attestations_of(attestations.drop_last(), commitment_id)
    }
}

/// The attestation is about `commitment_id` and counts against it: it is
/// flagged as not compliant or typed `violation`.
pub open spec fn counts_against(attestation: AttestationView, commitment_id: u64) -> bool {
    attestation.commitment_id == commitment_id && (!attestation.is_compliant
        || attestation.attestation_type == "violation"@)
}

/// How many attestations count against `commitment_id`.
pub open spec fn violation_count(attestations: Seq<AttestationView>, commitment_id: u64) -> nat
    decreases attestations.len(),
{
    if attestations.len() == 0 {
        0
    } else {
        violation_count(attestations.drop_last(), commitment_id) + if counts_against(
            attestations.last(),
            commitment_id,
        ) {
            1nat
        } else {
            0nat
        }
    }
}

/// Whether an attestation about `commitment_id` is flagged as not
/// compliant.
pub open spec fn has_non_compliant(attestations: Seq<AttestationView>, commitment_id: u64) -> bool {
    exists|i: int|
        0 <= i < attestations.len() && (#[trigger] attestations[i]).commitment_id == commitment_id
            && !attestations[i].is_compliant
}

/// Percentage points by which the loss of the commitment exceeds its
/// limit; zero where it does not.
pub open spec fn spec_over_limit(c: Commitment) -> int {
    if c.spec_loss_percent() > c.rules.max_loss_percent {
        c.spec_loss_percent() - c.rules.max_loss_percent
    } else {
        0
    }
}

/// Whether fees earn a bonus: a fee threshold is set and fees were
/// generated.
pub open spec fn fee_bonus_applies(c: Commitment, fees: i128) -> bool {
    c.rules.min_fee_threshold > 0 && fees > 0
}

/// The fee bonus: the fees as a percentage of the threshold, rounded down
/// and at most 100.
pub open spec fn spec_fee_bonus(c: Commitment, fees: i128) -> int {
    if fee_bonus_applies(c, fees) {
        let percent = (fees * 100) / (c.rules.min_fee_threshold as int);
        if percent > 100 {
            100
        } else {
            percent
        }
    } else {
        0
    }
}

/// The bonus of 10 for a commitment that is on schedule at `now`: the time
/// since its creation, as a percentage of its duration and rounded down,
/// is at most 100.
pub open spec fn spec_schedule_bonus(c: Commitment, now: u64) -> int {
    if c.expires_at > c.created_at {
        let elapsed: int = if now >= c.created_at {
            now - c.created_at
        } else {
            0
        };
        if (elapsed * 100) / (c.expires_at - c.created_at) <= 100 {
            10
        } else {
            0
        }
    } else {
        0
    }
}

/// The score before it is clamped: 100, less 20 for every attestation that
/// counts against the commitment, less the points by which its loss
/// exceeds the limit, plus the fee bonus, plus the schedule bonus.
pub open spec fn spec_raw_score(violations: nat, c: Commitment, fees: i128, now: u64) -> int {
    100 - 20 * violations - spec_over_limit(c) + spec_fee_bonus(c, fees) + spec_schedule_bonus(c, now)
}

/// `raw` brought into the range from 0 to 100.
pub open spec fn clamp_score(raw: int) -> u32 {
    if raw < 0 {
        0
    } else if raw > 100 {
        100
    } else {
        raw as u32
    }
}

/// Whether the score of `c` can be computed without leaving `i128`.
pub open spec fn score_fits(c: Commitment, fees: i128) -> bool {
    c.loss_fits() && (fee_bonus_applies(c, fees) ==> fits_i128(fees * 100))
}

/// The compliance score of `c` at `now`, between 0 and 100.
pub open spec fn spec_score(s: EngineView, c: Commitment, now: u64) -> Result<u32, AttestationError> {
    let fees = s.account(c.commitment_id).fees;
    if !score_fits(c, fees) {
        Err(AttestationError::ArithmeticOverflow)
    } else {
        Ok(clamp_score(spec_raw_score(violation_count(s.attestations, c.commitment_id), c, fees, now)))
    }
}

/// The engine after `attest`.
pub open spec fn spec_attest(
    s: EngineView,
    commitment_id: u64,
    attestation_type: Seq<char>,
    data: Seq<(Seq<char>, Seq<char>)>,
    verified_by: Seq<char>,
    now: u64,
) -> EngineView {
    s.with_attestation(
        AttestationView {
            commitment_id,
            timestamp: now,
            attestation_type,
            data,
            is_compliant: true,
            verified_by,
        },
    ).with_event(
        EngineEventView::Attested {
            commitment_id,
            verified_by,
            attestation_type,
            is_compliant: true,
            timestamp: now,
        },
    )
}

/// The engine after `calculate_compliance_score`, and the score.
pub open spec fn spec_calculate_compliance_score(s: EngineView, c: Commitment, now: u64) -> Result<
    (EngineView, u32),
    AttestationError,
> {
    match spec_score(s, c, now) {
        Err(e) => Err(e),
        Ok(score) => Ok(
            (
                s.with_event(
                    EngineEventView::ScoreUpdated { commitment_id: c.commitment_id, score, timestamp: now },
                ),
                score,
            ),
        ),
    }
}

/// The engine after `get_health_metrics`, and the metrics.
pub open spec fn spec_get_health_metrics(s: EngineView, c: Commitment, now: u64) -> Result<
    (EngineView, HealthMetrics),
    AttestationError,
> {
    match spec_calculate_compliance_score(s, c, now) {
        Err(e) => Err(e),
        Ok((t, score)) => Ok(
            (
                t,
                HealthMetrics {
                    commitment_id: c.commitment_id,
                    current_value: c.current_value,
                    initial_value: c.amount,
                    drawdown_percent: c.spec_loss_percent() as i128,
                    fees_generated: s.account(c.commitment_id).fees,
                    volatility_exposure: 0,
                    last_attestation: s.account(c.commitment_id).last_attestation,
                    compliance_score: score,
                },
            ),
        ),
    }
}

/// The engine after `verify_compliance`, and the answer: no attestation
/// about the commitment is flagged as not compliant, and its drawdown is at
/// most 100 percent.
pub open spec fn spec_verify_compliance(s: EngineView, c: Commitment, now: u64) -> Result<
    (EngineView, bool),
    AttestationError,
> {
    match spec_get_health_metrics(s, c, now) {
        Err(e) => Err(e),
        Ok((t, metrics)) => Ok(
            (t, !has_non_compliant(s.attestations, c.commitment_id) && metrics.drawdown_percent <= 100),
        ),
    }
}

/// The engine after `record_fees`.
pub open spec fn spec_record_fees(s: EngineView, caller: Address, c: Commitment, fee_amount: i128, now: u64) -> Result<
    EngineView,
    AttestationError,
> {
    let id = c.commitment_id;
    if !s.is_authorized_recorder(caller@) {
        Err(AttestationError::Unauthorized)
    } else if fee_amount <= 0 {
        Err(AttestationError::InvalidAmount)
    } else if !fits_i128(s.account(id).fees + fee_amount) {
        Err(AttestationError::ArithmeticOverflow)
    } else {
        let total = (s.account(id).fees + fee_amount) as i128;
        let credited = s.with_account(id, Account { fees: total, ..s.account(id) });
        let attested = spec_attest(
            credited,
            id,
            "fee_generation"@,
            seq![("fee_amount"@, "recorded"@)],
            caller@,
            now,
        );
        match spec_calculate_compliance_score(attested, c, now) {
            Err(e) => Err(e),
            Ok((scored, score)) => Ok(
                scored.with_account(
                    id,
                    Account {
                        metrics: Some(
                            HealthMetrics {
                                fees_generated: total,
                                compliance_score: score,
                                last_attestation: now,
                                ..s.stored_metrics(id)
                            },
                        ),
                        ..scored.account(id)
                    },
                ).with_event(EngineEventView::FeeRecorded { commitment_id: id, fee_amount, timestamp: now }),
            ),
        }
    }
}

/// The engine after `record_drawdown`.
pub open spec fn spec_record_drawdown(
    s: EngineView,
    caller: Address,
    c: Commitment,
    current_value: i128,
    now: u64,
) -> Result<EngineView, AttestationError> {
    let id = c.commitment_id;
    if !s.is_authorized_recorder(caller@) {
        Err(AttestationError::Unauthorized)
    } else if !loss_percent_fits(c.amount as int, current_value as int) {
        Err(AttestationError::ArithmeticOverflow)
    } else {
        let drawdown = spec_loss_percent(c.amount as int, current_value as int) as i128;
        let violated = drawdown > c.rules.max_loss_percent;
        let flagged = if violated {
            s.with_attestation(
                AttestationView {
                    commitment_id: id,
                    timestamp: now,
                    attestation_type: "violation"@,
                    data: Seq::empty(),
                    is_compliant: false,
                    verified_by: caller@,
                },
            ).with_event(
                EngineEventView::ViolationDetected {
                    commitment_id: id,
                    drawdown_percent: drawdown,
                    max_loss_percent: c.rules.max_loss_percent as i128,
                    timestamp: now,
                },
            )
        } else {
            s
        };
        let noted = flagged.with_attestation(
            AttestationView {
                commitment_id: id,
                timestamp: now,
                attestation_type: "drawdown"@,
                data: Seq::empty(),
                is_compliant: !violated,
                verified_by: caller@,
            },
        );
        match spec_calculate_compliance_score(noted, c, now) {
            Err(e) => Err(e),
            Ok((scored, score)) => Ok(
                scored.with_account(
                    id,
                    Account {
                        metrics: Some(
                            HealthMetrics {
                                current_value,
                                initial_value: c.amount,
                                drawdown_percent: drawdown,
                                compliance_score: score,
                                last_attestation: now,
                                ..s.stored_metrics(id)
                            },
                        ),
                        ..scored.account(id)
                    },
                ).with_event(
                    EngineEventView::DrawdownRecorded {
                        commitment_id: id,
                        current_value,
                        drawdown_percent: drawdown,
                        timestamp: now,
                    },
                ),
            ),
        }
    }
}

/// The engine after `add_authorized_recorder`.
pub open spec fn spec_add_authorized_recorder(s: EngineView, caller: Address, recorder: Address) -> Result<
    EngineView,
    AttestationError,
> {
    match s.admin {
        None => Err(AttestationError::NotInitialized),
        Some(admin) => if admin@ != caller@ {
            Err(AttestationError::Unauthorized)
        } else {
            Ok(
                EngineView { recorders: s.recorders.insert(recorder@), ..s }.with_event(
                    EngineEventView::RecorderAdded { recorder: recorder@ },
                ),
            )
        },
    }
}

/// The engine after `set_authorized_verifier`.
pub open spec fn spec_set_authorized_verifier(s: EngineView, caller: Address, verifier: Address) -> Result<
    EngineView,
    AttestationError,
> {
    match s.admin {
        None => Err(AttestationError::NotInitialized),
        Some(admin) => if admin@ != caller@ {
            Err(AttestationError::Unauthorized)
        } else {
            Ok(EngineView { authorized_verifier: Some(verifier), ..s })
        },
    }
}

impl View for AttestationEngineContract {
    type V = EngineView;

    closed spec fn view(&self) -> EngineView {
        EngineView {
            admin: self.admin,
            commitment_core: self.commitment_core,
            authorized_verifier: self.authorized_verifier,
            recorders: assoc(self.recorder_keys(), self.recorder_keys()).dom(),
            attestations: attestation_views(self.attestations@),
            accounts: assoc(self.account_keys(), self.account_vals()),
            events: event_views(self.events@),
        }
    }
}

fn over_limit(drawdown: i128, max_loss_percent: u32) -> (over: i128)
    ensures
        over == if drawdown > max_loss_percent {
            drawdown - max_loss_percent
        } else {
            0
        },
{
    let limit: i128 = max_loss_percent as i128;
    if drawdown > limit {
        drawdown - limit
    } else {
        0
    }
}

fn fee_bonus(c: &Commitment, fees: i128) -> (bonus: Option<i128>)
    ensures
        fee_bonus_applies(*c, fees) && !fits_i128(fees * 100) ==> bonus is None,
        !(fee_bonus_applies(*c, fees) && !fits_i128(fees * 100)) ==> bonus == Some(
            spec_fee_bonus(*c, fees) as i128,
        ) && 0 <= spec_fee_bonus(*c, fees) <= 100,
{
    if c.rules.min_fee_threshold > 0 && fees > 0 {
        let scaled = match safe_mul(fees, 100) {
            Some(v) => v,
            None => {
                return None;
            },
        };
        match safe_div(scaled, c.rules.min_fee_threshold) {
            Some(percent) => {
                proof {
                    crate::math::lemma_floor_div_bounds(scaled as int, c.rules.min_fee_threshold as int);
                }
                if percent > 100 {
                    Some(100)
                } else {
                    Some(percent)
                }
            },
            None => None,
        }
    } else {
        Some(0)
    }
}

fn schedule_bonus(c: &Commitment, now: u64) -> (bonus: i128)
    ensures
        bonus == spec_schedule_bonus(*c, now),
        bonus == 0 || bonus == 10,
{
    if c.expires_at > c.created_at {
        let duration: u128 = (c.expires_at - c.created_at) as u128;
        let elapsed: u128 = if now >= c.created_at {
            (now - c.created_at) as u128
        } else {
            0
        };
        let progress: u128 = (elapsed * 100) / duration;
        if progress <= 100 {
            10
        } else {
            0
        }
    } else {
        0
    }
}

fn combine_score(violations: usize, over: i128, bonus: i128, schedule: i128) -> (score: u32)
    requires
        over >= 0,
        0 <= bonus <= 100,
        schedule == 0 || schedule == 10,
    ensures
        score == clamp_score(100 - 20 * violations - over + bonus + schedule),
        score <= 100,
{
    let counted: i128 = if violations > 11 {
        11
    } else {
        violations as i128
    };
    let excess: i128 = if over > 210 {
        210
    } else {
        over
    };
    let raw: i128 = 100 - 20 * counted - excess + bonus + schedule;
    if raw < 0 {
        0
    } else if raw > 100 {
        100
    } else {
        raw as u32
    }
}

fn score_computable(c: &Commitment, fees: i128) -> (computable: bool)
    ensures
        computable == score_fits(*c, fees),
{
    c.loss_percent().is_some() && fee_bonus(c, fees).is_some()
}

impl AttestationEngineContract {
    spec fn recorder_keys(&self) -> Seq<Seq<char>> {
        Seq::new(self.recorders@.len(), |i: int| self.recorders@[i]@)
    }

    spec fn account_keys(&self) -> Seq<u64> {
        Seq::new(self.accounts@.len(), |i: int| self.accounts@[i].commitment_id)
    }

    spec fn account_vals(&self) -> Seq<Account> {
        Seq::new(self.accounts@.len(), |i: int| self.accounts@[i].account)
    }

    /// No recorder is listed twice and no commitment has two accounts.
    pub closed spec fn wf(&self) -> bool {
        &&& self.recorder_keys().no_duplicates()
        &&& self.account_keys().no_duplicates()
    }

    /// An engine that holds nothing and is not yet initialized.
    pub fn new() -> (engine: Self)
        ensures
            engine.wf(),
            engine@.admin is None,
            engine@.commitment_core is None,
            engine@.authorized_verifier is None,
            engine@.recorders == Set::<Seq<char>>::empty(),
            engine@.attestations == Seq::<AttestationView>::empty(),
            engine@.accounts == Map::<u64, Account>::empty(),
            engine@.events == Seq::<EngineEventView>::empty(),
    {
        let engine = AttestationEngineContract {
            admin: None,
            commitment_core: None,
            authorized_verifier: None,
            recorders: Vec::new(),
            attestations: Vec::new(),
            accounts: Vec::new(),
            events: Vec::new(),
        };
        assert(engine@.recorders =~= Set::<Seq<char>>::empty());
        assert(engine@.attestations =~= Seq::<AttestationView>::empty());
        assert(engine@.accounts =~= Map::<u64, Account>::empty());
        assert(engine@.events =~= Seq::<EngineEventView>::empty());
        engine
    }

    /// Names the commitment ledger that the engine belongs to and its
    /// administrator, who administers the engine too.
    pub fn initialize(&mut self, admin: Address, commitment_core: Address)
        requires
            old(self).wf(),
        ensures
            final(self).wf(),
            final(self)@ == (EngineView {
                admin: Some(admin),
                commitment_core: Some(commitment_core),
                ..old(self)@
            }),
    {
        self.admin = Some(admin);
        self.commitment_core = Some(commitment_core);
    }

    fn find_recorder(&self, who: &Address) -> (found: Option<usize>)
        ensures
            found matches Some(i) ==> i < self.recorders.len() && self.recorder_keys()[i as int] == who@,
            found is None ==> forall|j: int|
                0 <= j < self.recorder_keys().len() ==> self.recorder_keys()[j] != who@,
    {
        let mut i: usize = 0;
        while i < self.recorders.len()
            invariant
                i <= self.recorders.len(),
                forall|j: int| 0 <= j < i ==> self.recorder_keys()[j] != who@,
            decreases self.recorders.len() - i,
        {
            if self.recorders[i] == *who {
                return Some(i);
            }
            i += 1;
        }
        None
    }

    fn find_account(&self, commitment_id: u64) -> (found: Option<usize>)
        ensures
            found matches Some(i) ==> i < self.accounts.len() && self.account_keys()[i as int]
                == commitment_id,
            found is None ==> forall|j: int|
                0 <= j < self.account_keys().len() ==> self.account_keys()[j] != commitment_id,
    {
        let mut i: usize = 0;
        while i < self.accounts.len()
            invariant
                i <= self.accounts.len(),
                forall|j: int| 0 <= j < i ==> self.account_keys()[j] != commitment_id,
            decreases self.accounts.len() - i,
        {
            if self.accounts[i].commitment_id == commitment_id {
                return Some(i);
            }
            i += 1;
        }
        None
    }

    /// The account of `commitment_id`, empty where nothing was recorded.
    pub fn account(&self, commitment_id: u64) -> (account: Account)
        requires
            self.wf(),
        ensures
            account == self@.account(commitment_id),
    {
        match self.find_account(commitment_id) {
            Some(i) => {
                proof {
                    lemma_assoc_at(self.account_keys(), self.account_vals(), i as int);
                }
                self.accounts[i].account
            },
            None => {
                proof {
                    lemma_assoc_absent(self.account_keys(), self.account_vals(), commitment_id);
                }
                Account { fees: 0, last_attestation: 0, metrics: None }
            },
        }
    }

    fn set_account(&mut self, commitment_id: u64, account: Account)
        requires
            old(self).wf(),
        ensures
            final(self).wf(),
            final(self)@ == old(self)@.with_account(commitment_id, account),
    {
        let ghost keys = self.account_keys();
        let ghost vals = self.account_vals();
        let ghost recorder_keys = self.recorder_keys();
        match self.find_account(commitment_id) {
            Some(i) => {
                self.accounts[i].account = account;
                proof {
                    assert(self.account_keys() =~= keys);
                    assert(self.account_vals() =~= vals.update(i as int, account));
                    lemma_assoc_update(keys, vals, i as int, account);
                }
            },
            None => {
                self.accounts.push(AccountEntry { commitment_id, account });
                proof {
                    assert(self.account_keys() =~= keys.push(commitment_id));
                    assert(self.account_vals() =~= vals.push(account));
                    lemma_assoc_push(keys, vals, commitment_id, account);
                }
            },
        }
        proof {
            assert(self.recorder_keys() =~= recorder_keys);
        }
    }

    fn push_event(&mut self, event: EngineEvent)
        requires
            old(self).wf(),
        ensures
            final(self).wf(),
            final(self)@ == old(self)@.with_event(event@),
    {
        let ghost recorder_keys = self.recorder_keys();
        let ghost account_keys = self.account_keys();
        let ghost account_vals = self.account_vals();
        let ghost before = self.events@;
        self.events.push(event);
        proof {
            assert(self.recorder_keys() =~= recorder_keys);
            assert(self.account_keys() =~= account_keys);
            assert(self.account_vals() =~= account_vals);
            assert(event_views(self.events@) =~= event_views(before).push(event@));
        }
    }

    fn push_attestation(&mut self, attestation: Attestation)
        requires
            old(self).wf(),
        ensures
            final(self).wf(),
            final(self)@ == old(self)@.with_attestation(attestation@),
    {
        let ghost recorder_keys = self.recorder_keys();
        let ghost before = self.attestations@;
        let commitment_id = attestation.commitment_id;
        let timestamp = attestation.timestamp;
        let account = self.account(commitment_id);
        self.attestations.push(attestation);
        proof {
            assert(self.recorder_keys() =~= recorder_keys);
            assert(attestation_views(self.attestations@) =~= attestation_views(before).push(attestation@));
        }
        self.set_account(
            commitment_id,
            Account { fees: account.fees, last_attestation: timestamp, metrics: account.metrics },
        );
    }

    /// Whether `recorder` may record fees and drawdowns.
    pub fn is_authorized_recorder(&self, recorder: &Address) -> (authorized: bool)
        requires
            self.wf(),
        ensures
            authorized == self@.is_authorized_recorder(recorder@),
    {
        match &self.admin {
            Some(admin) => {
                if *admin == *recorder {
                    return true;
                }
            },
            None => {},
        }
        match self.find_recorder(recorder) {
            Some(i) => {
                assert(self.recorder_keys()[i as int] == recorder@);
                true
            },
            None => false,
        }
    }

    /// Lets `recorder` record fees and drawdowns. Only the administrator
    /// may.
    pub fn add_authorized_recorder(&mut self, caller: &Address, recorder: Address) -> (done: Result<
        (),
        AttestationError,
    >)
        requires
            old(self).wf(),
        ensures
            final(self).wf(),
            match spec_add_authorized_recorder(old(self)@, *caller, recorder) {
                Ok(s) => done is Ok && final(self)@ == s,
                Err(e) => done == Err::<(), AttestationError>(e) && final(self)@ == old(self)@,
            },
    {
        match &self.admin {
            None => {
                return Err(AttestationError::NotInitialized);
            },
            Some(admin) => {
                if *admin != *caller {
                    return Err(AttestationError::Unauthorized);
                }
            },
        }
        let ghost keys = self.recorder_keys();
        let ghost account_keys = self.account_keys();
        let ghost account_vals = self.account_vals();
        match self.find_recorder(&recorder) {
            Some(i) => {
                assert(self@.recorders =~= self@.recorders.insert(recorder@));
            },
            None => {
                self.recorders.push(recorder.clone());
                proof {
                    assert(self.recorder_keys() =~= keys.push(recorder@));
                    lemma_assoc_push(keys, keys, recorder@, recorder@);
                    assert(assoc(keys.push(recorder@), keys.push(recorder@)).dom() =~= assoc(
                        keys,
                        keys,
                    ).dom().insert(recorder@));
                    assert(self.account_keys() =~= account_keys);
                    assert(self.account_vals() =~= account_vals);
                }
            },
        }
        self.push_event(EngineEvent::RecorderAdded { recorder });
        Ok(())
    }

    /// Names the verifier. Only the administrator may.
    pub fn set_authorized_verifier(&mut self, caller: &Address, verifier: Address) -> (done: Result<
        (),
        AttestationError,
    >)
        requires
            old(self).wf(),
        ensures
            final(self).wf(),
            match spec_set_authorized_verifier(old(self)@, *caller, verifier) {
                Ok(s) => done is Ok && final(self)@ == s,
                Err(e) => done == Err::<(), AttestationError>(e) && final(self)@ == old(self)@,
            },
    {
        match &self.admin {
            None => {
                return Err(AttestationError::NotInitialized);
            },
            Some(admin) => {
                if *admin != *caller {
                    return Err(AttestationError::Unauthorized);
                }
            },
        }
        self.authorized_verifier = Some(verifier);
        Ok(())
    }

    /// Records an attestation of `attestation_type` about `commitment_id`,
    /// flagged as compliant, and queues its notice. Any type is accepted.
    pub fn attest(
        &mut self,
        commitment_id: u64,
        attestation_type: String,
        data: Vec<(String, String)>,
        verified_by: Address,
        now: u64,
    )
        requires
            old(self).wf(),
        ensures
            final(self).wf(),
            final(self)@ == spec_attest(
                old(self)@,
                commitment_id,
                attestation_type@,
                data.deep_view(),
                verified_by@,
                now,
            ),
    {
        let event = EngineEvent::Attested {
            commitment_id,
            verified_by: verified_by.clone(),
            attestation_type: attestation_type.clone(),
            is_compliant: true,
            timestamp: now,
        };
        self.push_attestation(
            Attestation { commitment_id, timestamp: now, attestation_type, data, is_compliant: true, verified_by },
        );
        self.push_event(event);
    }

    /// The attestations about `commitment_id`, oldest first.
    pub fn get_attestations(&self, commitment_id: u64) -> (found: Vec<Attestation>)
        ensures
            attestation_views(found@) == attestations_of(self@.attestations, commitment_id),
    {
        let mut found: Vec<Attestation> = Vec::new();
        let mut i: usize = 0;
        let ghost all = attestation_views(self.attestations@);
        while i < self.attestations.len()
            invariant
                i <= self.attestations.len(),
                all == attestation_views(self.attestations@),
                attestation_views(found@) == attestations_of(all.take(i as int), commitment_id),
            decreases self.attestations.len() - i,
        {
            proof {
                assert(all.take(i + 1).drop_last() =~= all.take(i as int));
                assert(all.take(i + 1).last() == self.attestations@[i as int]@);
            }
            if self.attestations[i].commitment_id == commitment_id {
                let ghost before = found@;
                let copy = self.attestations[i].clone();
                found.push(copy);
                proof {
                    assert(attestation_views(found@) =~= attestation_views(before).push(copy@));
                }
            }
            i += 1;
        }
        proof {
            assert(all.take(i as int) =~= all);
        }
        found
    }

    fn count_violations(&self, commitment_id: u64) -> (count: usize)
        ensures
            count == violation_count(self@.attestations, commitment_id),
    {
        let tag = "violation".to_owned();
        let mut count: usize = 0;
        let mut i: usize = 0;
        let ghost all = attestation_views(self.attestations@);
        while i < self.attestations.len()
            invariant
                i <= self.attestations.len(),
                tag@ == "violation"@,
                all == attestation_views(self.attestations@),
                count == violation_count(all.take(i as int), commitment_id),
                count <= i,
            decreases self.attestations.len() - i,
        {
            proof {
                assert(all.take(i + 1).drop_last() =~= all.take(i as int));
                assert(all.take(i + 1).last() == self.attestations@[i as int]@);
            }
            let a = &self.attestations[i];
            if a.commitment_id == commitment_id && (!a.is_compliant || a.attestation_type == tag) {
                count += 1;
            }
            i += 1;
        }
        proof {
            assert(all.take(i as int) =~= all);
        }
        count
    }

    fn any_non_compliant(&self, commitment_id: u64) -> (found: bool)
        ensures
            found == has_non_compliant(self@.attestations, commitment_id),
    {
        let mut i: usize = 0;
        let ghost all = attestation_views(self.attestations@);
        while i < self.attestations.len()
            invariant
                i <= self.attestations.len(),
                all == attestation_views(self.attestations@),
                forall|j: int|
                    0 <= j < i ==> !((#[trigger] all[j]).commitment_id == commitment_id && !all[j].is_compliant),
            decreases self.attestations.len() - i,
        {
            if self.attestations[i].commitment_id == commitment_id && !self.attestations[i].is_compliant {
                assert(all[i as int].commitment_id == commitment_id && !all[i as int].is_compliant);
                return true;
            }
            i += 1;
        }
        false
    }

    fn score(&self, c: &Commitment, now: u64) -> (score: Result<u32, AttestationError>)
        requires
            self.wf(),
        ensures
            score == spec_score(self@, *c, now),
            score matches Ok(v) ==> v <= 100,
    {
        let violations = self.count_violations(c.commitment_id);
        let drawdown = match c.loss_percent() {
            Some(v) => v,
            None => {
                return Err(AttestationError::ArithmeticOverflow);
            },
        };
        let over = over_limit(drawdown, c.rules.max_loss_percent);
        let fees = self.account(c.commitment_id).fees;
        let bonus = match fee_bonus(c, fees) {
            Some(v) => v,
            None => {
                return Err(AttestationError::ArithmeticOverflow);
            },
        };
        let schedule = schedule_bonus(c, now);
        Ok(combine_score(violations, over, bonus, schedule))
    }

    /// The compliance score of `commitment` at `now`, between 0 and 100.
    /// The score is announced, so that the call is not free of effect.
    pub fn calculate_compliance_score(&mut self, commitment: &Commitment, now: u64) -> (score: Result<
        u32,
        AttestationError,
    >)
        requires
            old(self).wf(),
        ensures
            final(self).wf(),
            match spec_calculate_compliance_score(old(self)@, *commitment, now) {
                Ok((s, v)) => score == Ok::<u32, AttestationError>(v) && final(self)@ == s && v <= 100,
                Err(e) => score == Err::<u32, AttestationError>(e) && final(self)@ == old(self)@,
            },
    {
        match self.score(commitment, now) {
            Err(e) => Err(e),
            Ok(score) => {
                self.push_event(
                    EngineEvent::ScoreUpdated { commitment_id: commitment.commitment_id, score, timestamp: now },
                );
                Ok(score)
            },
        }
    }

    /// The health of `commitment` at `now`: its values, its drawdown, the
    /// fees and the time of the last attestation as accumulated, and its
    /// score computed anew.
    pub fn get_health_metrics(&mut self, commitment: &Commitment, now: u64) -> (metrics: Result<
        HealthMetrics,
        AttestationError,
    >)
        requires
            old(self).wf(),
        ensures
            final(self).wf(),
            match spec_get_health_metrics(old(self)@, *commitment, now) {
                Ok((s, m)) => metrics == Ok::<HealthMetrics, AttestationError>(m) && final(self)@ == s,
                Err(e) => metrics == Err::<HealthMetrics, AttestationError>(e) && final(self)@ == old(self)@,
            },
    {
        let account = self.account(commitment.commitment_id);
        let score = match self.calculate_compliance_score(commitment, now) {
            Ok(v) => v,
            Err(e) => {
                return Err(e);
            },
        };
        let drawdown = match commitment.loss_percent() {
            Some(v) => v,
            None => {
                return Err(AttestationError::ArithmeticOverflow);
            },
        };
        Ok(
            HealthMetrics {
                commitment_id: commitment.commitment_id,
                current_value: commitment.current_value,
                initial_value: commitment.amount,
                drawdown_percent: drawdown,
                fees_generated: account.fees,
                volatility_exposure: 0,
                last_attestation: account.last_attestation,
                compliance_score: score,
            },
        )
    }

    /// Whether `commitment` is compliant at `now`: no attestation about it
    /// is flagged as not compliant, and its drawdown is at most 100
    /// percent.
    pub fn verify_compliance(&mut self, commitment: &Commitment, now: u64) -> (compliant: Result<
        bool,
        AttestationError,
    >)
        requires
            old(self).wf(),
        ensures
            final(self).wf(),
            match spec_verify_compliance(old(self)@, *commitment, now) {
                Ok((s, v)) => compliant == Ok::<bool, AttestationError>(v) && final(self)@ == s,
                Err(e) => compliant == Err::<bool, AttestationError>(e) && final(self)@ == old(self)@,
            },
    {
        let flagged = self.any_non_compliant(commitment.commitment_id);
        let metrics = match self.get_health_metrics(commitment, now) {
            Ok(m) => m,
            Err(e) => {
                return Err(e);
            },
        };
        Ok(!flagged && metrics.drawdown_percent <= 100)
    }

    /// The metrics stored for `commitment_id` by the last recorded event,
    /// or the initial ones.
    pub fn stored_metrics(&self, commitment_id: u64) -> (metrics: HealthMetrics)
        requires
            self.wf(),
        ensures
            metrics == self@.stored_metrics(commitment_id),
    {
        match self.account(commitment_id).metrics {
            Some(m) => m,
            None => HealthMetrics {
                commitment_id,
                current_value: 0,
                initial_value: 0,
                drawdown_percent: 0,
                fees_generated: 0,
                volatility_exposure: 0,
                last_attestation: 0,
                compliance_score: 100,
            },
        }
    }

    /// The notifications queued so far, oldest first.
    pub fn events(&self) -> (events: &Vec<EngineEvent>)
        ensures
            event_views(events@) == self@.events,
    {
        &self.events
    }

    /// Takes the engine apart into the lists that it holds.
    pub fn into_parts(self) -> (parts: EngineParts)
        requires
            self.wf(),
        ensures
            parts.wf(),
            parts.view() == self@,
    {
        proof {
            assert(keys_of(self.recorders@) =~= self.recorder_keys());
            assert(keys_of(self.accounts@) =~= self.account_keys());
            assert(Seq::new(self.accounts@.len(), |i: int| self.accounts@[i].account) =~= self.account_vals());
        }
        EngineParts {
            admin: self.admin,
            commitment_core: self.commitment_core,
            authorized_verifier: self.authorized_verifier,
            recorders: self.recorders,
            attestations: self.attestations,
            accounts: self.accounts,
            events: self.events,
        }
    }

    /// The engine that `parts` describe, if they are well formed.
    pub fn from_parts(parts: EngineParts) -> (engine: Option<Self>)
        ensures
            parts.wf() <==> engine is Some,
            engine matches Some(e) ==> e.wf() && e@ == parts.view(),
    {
        if !keys_distinct(&parts.recorders) || !keys_distinct(&parts.accounts) {
            return None;
        }
        let engine = AttestationEngineContract {
            admin: parts.admin,
            commitment_core: parts.commitment_core,
            authorized_verifier: parts.authorized_verifier,
            recorders: parts.recorders,
            attestations: parts.attestations,
            accounts: parts.accounts,
            events: parts.events,
        };
        proof {
            assert(keys_of(engine.recorders@) =~= engine.recorder_keys());
            assert(keys_of(engine.accounts@) =~= engine.account_keys());
            assert(Seq::new(engine.accounts@.len(), |i: int| engine.accounts@[i].account)
                =~= engine.account_vals());
        }
        Some(engine)
    }

    /// Records fees that a commitment has generated: adds them to its
    /// accumulator, attests the event, and stores its metrics with the new
    /// total and a newly computed score. Only the administrator and the
    /// recorders it has added may record, and only a positive amount.
    #[verifier::rlimit(50)]
    pub fn record_fees(&mut self, caller: &Address, commitment: &Commitment, fee_amount: i128, now: u64) -> (done:
        Result<(), AttestationError>)
        requires
            old(self).wf(),
        ensures
            final(self).wf(),
            match spec_record_fees(old(self)@, *caller, *commitment, fee_amount, now) {
                Ok(s) => done is Ok && final(self)@ == s,
                Err(e) => done == Err::<(), AttestationError>(e) && final(self)@ == old(self)@,
            },
    {
        let id = commitment.commitment_id;
        if !self.is_authorized_recorder(caller) {
            return Err(AttestationError::Unauthorized);
        }
        if !is_positive(fee_amount) {
            return Err(AttestationError::InvalidAmount);
        }
        let account = self.account(id);
        let total = match safe_add(account.fees, fee_amount) {
            Some(v) => v,
            None => {
                return Err(AttestationError::ArithmeticOverflow);
            },
        };
        let stored = self.stored_metrics(id);
        if !score_computable(commitment, total) {
            return Err(AttestationError::ArithmeticOverflow);
        }
        self.set_account(id, Account { fees: total, last_attestation: account.last_attestation, metrics: account.metrics });
        let mut data: Vec<(String, String)> = Vec::new();
        data.push(("fee_amount".to_owned(), "recorded".to_owned()));
        proof {
            assert(data.deep_view() =~= seq![("fee_amount"@, "recorded"@)]);
        }
        self.attest(id, "fee_generation".to_owned(), data, caller.clone(), now);
        let score = match self.score(commitment, now) {
            Ok(v) => v,
            Err(e) => {
                return Err(e);
            },
        };
        self.push_event(EngineEvent::ScoreUpdated { commitment_id: id, score, timestamp: now });
        let current = self.account(id);
        self.set_account(
            id,
            Account {
                fees: current.fees,
                last_attestation: current.last_attestation,
                metrics: Some(
                    HealthMetrics {
                        commitment_id: stored.commitment_id,
                        current_value: stored.current_value,
                        initial_value: stored.initial_value,
                        drawdown_percent: stored.drawdown_percent,
                        fees_generated: total,
                        volatility_exposure: stored.volatility_exposure,
                        last_attestation: now,
                        compliance_score: score,
                    },
                ),
            },
        );
        self.push_event(EngineEvent::FeeRecorded { commitment_id: id, fee_amount, timestamp: now });
        Ok(())
    }

    /// Records the value that a commitment has fallen or risen to: attests
    /// the drawdown, and beside it a violation where the loss against the
    /// commitment's amount exceeds its limit, and stores its metrics with
    /// the new value and a newly computed score. Only the administrator and
    /// the recorders it has added may record.
    #[verifier::rlimit(50)]
    pub fn record_drawdown(&mut self, caller: &Address, commitment: &Commitment, current_value: i128, now: u64) -> (done:
        Result<(), AttestationError>)
        requires
            old(self).wf(),
        ensures
            final(self).wf(),
            match spec_record_drawdown(old(self)@, *caller, *commitment, current_value, now) {
                Ok(s) => done is Ok && final(self)@ == s,
                Err(e) => done == Err::<(), AttestationError>(e) && final(self)@ == old(self)@,
            },
    {
        let id = commitment.commitment_id;
        if !self.is_authorized_recorder(caller) {
            return Err(AttestationError::Unauthorized);
        }
        let drawdown = match loss_percent(commitment.amount, current_value) {
            Some(v) => v,
            None => {
                return Err(AttestationError::ArithmeticOverflow);
            },
        };
        let limit: i128 = commitment.rules.max_loss_percent as i128;
        let violated = drawdown > limit;
        let stored = self.stored_metrics(id);
        if !score_computable(commitment, self.account(id).fees) {
            return Err(AttestationError::ArithmeticOverflow);
        }
        if violated {
            let data: Vec<(String, String)> = Vec::new();
            proof {
                assert(data.deep_view() =~= Seq::<(Seq<char>, Seq<char>)>::empty());
            }
            self.push_attestation(
                Attestation {
                    commitment_id: id,
                    timestamp: now,
                    attestation_type: "violation".to_owned(),
                    data,
                    is_compliant: false,
                    verified_by: caller.clone(),
                },
            );
            self.push_event(
                EngineEvent::ViolationDetected {
                    commitment_id: id,
                    drawdown_percent: drawdown,
                    max_loss_percent: limit,
                    timestamp: now,
                },
            );
        }
        let data: Vec<(String, String)> = Vec::new();
        proof {
            assert(data.deep_view() =~= Seq::<(Seq<char>, Seq<char>)>::empty());
        }
        self.push_attestation(
            Attestation {
                commitment_id: id,
                timestamp: now,
                attestation_type: "drawdown".to_owned(),
                data,
                is_compliant: !violated,
                verified_by: caller.clone(),
            },
        );
        let score = match self.score(commitment, now) {
            Ok(v) => v,
            Err(e) => {
                return Err(e);
            },
        };
        self.push_event(EngineEvent::ScoreUpdated { commitment_id: id, score, timestamp: now });
        let current = self.account(id);
        self.set_account(
            id,
            Account {
                fees: current.fees,
                last_attestation: current.last_attestation,
                metrics: Some(
                    HealthMetrics {
                        commitment_id: stored.commitment_id,
                        current_value,
                        initial_value: commitment.amount,
                        drawdown_percent: drawdown,
                        fees_generated: stored.fees_generated,
                        volatility_exposure: stored.volatility_exposure,
                        last_attestation: now,
                        compliance_score: score,
                    },
                ),
            },
        );
        self.push_event(
            EngineEvent::DrawdownRecorded {
                commitment_id: id,
                current_value,
                drawdown_percent: drawdown,
                timestamp: now,
            },
        );
        Ok(())
    }
}

} // verus!
