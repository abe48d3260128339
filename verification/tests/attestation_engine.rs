use commitment_ledger::address::Address;
use commitment_ledger::attestation_engine::{
    Account, AccountEntry, Attestation, AttestationEngineContract, AttestationError, EngineEvent, EngineParts,
    HealthMetrics,
};
use commitment_ledger::commitment::{Commitment, CommitmentRules, CommitmentStatus};

const DAY: u64 = 86400;

fn addr(key: &str) -> Address {
    Address::new(key)
}

fn core_commitment(
    commitment_id: u64,
    amount: i128,
    current_value: i128,
    max_loss_percent: u32,
    duration_days: u32,
    created_at: u64,
) -> Commitment {
    Commitment {
        commitment_id,
        owner: addr("owner"),
        nft_token_id: 1,
        rules: CommitmentRules {
            duration_days,
            max_loss_percent,
            commitment_type: String::from("balanced"),
            early_exit_penalty: 10,
            min_fee_threshold: 1000,
        },
        amount,
        asset_address: addr("asset"),
        created_at,
        expires_at: created_at + duration_days as u64 * DAY,
        current_value,
        status: CommitmentStatus::Active,
    }
}

fn setup_test_env() -> (AttestationEngineContract, Address) {
    let mut engine = AttestationEngineContract::new();
    engine.initialize(addr("admin"), addr("core"));
    (engine, addr("admin"))
}

fn note(key: &str, value: &str) -> Vec<(String, String)> {
    vec![(String::from(key), String::from(value))]
}

#[test]
fn test_initialize() {
    let (engine, _admin) = setup_test_env();
    let _attestations = engine.get_attestations(1);
    assert!(engine.is_authorized_recorder(&addr("admin")));
    assert!(!engine.is_authorized_recorder(&addr("someone")));
}

#[test]
fn test_get_attestations_empty() {
    let (engine, _admin) = setup_test_env();
    let attestations = engine.get_attestations(1);
    assert_eq!(attestations.len(), 0);
}

#[test]
fn test_get_health_metrics_basic() {
    let (mut engine, _admin) = setup_test_env();
    let commitment = core_commitment(1, 1000, 950, 10, 30, 1000);
    let metrics = engine.get_health_metrics(&commitment, 0).unwrap();
    assert_eq!(metrics.commitment_id, 1);
    assert!(metrics.compliance_score <= 100);
    assert_eq!(
        metrics,
        HealthMetrics {
            commitment_id: 1,
            current_value: 950,
            initial_value: 1000,
            drawdown_percent: 5,
            fees_generated: 0,
            volatility_exposure: 0,
            last_attestation: 0,
            compliance_score: 100,
        }
    );
}

#[test]
fn test_get_health_metrics_drawdown_calculation() {
    let (mut engine, _admin) = setup_test_env();
    let commitment = core_commitment(1, 1000, 900, 10, 30, 1000);
    let metrics = engine.get_health_metrics(&commitment, 0).unwrap();
    assert_eq!(metrics.drawdown_percent, 10);
}

#[test]
fn test_get_health_metrics_zero_initial_value() {
    let (mut engine, _admin) = setup_test_env();
    let commitment = core_commitment(1, 0, 0, 10, 30, 1000);
    let metrics = engine.get_health_metrics(&commitment, 0).unwrap();
    assert!(metrics.drawdown_percent >= 0);
    assert_eq!(metrics.drawdown_percent, 0);
    assert_eq!(metrics.initial_value, 0);
}

#[test]
fn test_calculate_compliance_score_base() {
    let (mut engine, _admin) = setup_test_env();
    let commitment = core_commitment(1, 1000, 950, 10, 30, 1000);
    let score = engine.calculate_compliance_score(&commitment, 0).unwrap();
    assert!(score <= 100);
    assert_eq!(score, 100);
}

#[test]
fn test_calculate_compliance_score_clamping() {
    let (mut engine, _admin) = setup_test_env();
    let commitment = core_commitment(1, 1000, 950, 10, 30, 1000);
    let score = engine.calculate_compliance_score(&commitment, 0).unwrap();
    assert!(score <= 100);
    // six violations take 120 off: the score is clamped at zero
    for _ in 0..6 {
        engine.attest(1, String::from("violation"), Vec::new(), addr("admin"), 5);
    }
    assert_eq!(engine.calculate_compliance_score(&commitment, 0), Ok(0));
}

#[test]
fn test_get_health_metrics_includes_compliance_score() {
    let (mut engine, _admin) = setup_test_env();
    let commitment = core_commitment(1, 1000, 950, 10, 30, 1000);
    let metrics = engine.get_health_metrics(&commitment, 0).unwrap();
    assert!(metrics.compliance_score <= 100);
}

#[test]
fn test_get_health_metrics_last_attestation() {
    let (mut engine, _admin) = setup_test_env();
    let commitment = core_commitment(1, 1000, 950, 10, 30, 1000);
    let metrics = engine.get_health_metrics(&commitment, 0).unwrap();
    assert_eq!(metrics.last_attestation, 0);
}

#[test]
fn test_all_three_functions_work_together() {
    let (mut engine, _admin) = setup_test_env();
    let commitment = core_commitment(1, 1000, 950, 10, 30, 1000);

    let attestations = engine.get_attestations(1);
    let metrics = engine.get_health_metrics(&commitment, 0).unwrap();
    let score = engine.calculate_compliance_score(&commitment, 0).unwrap();

    assert_eq!(attestations.len(), 0);
    assert_eq!(metrics.commitment_id, 1);
    assert!(score <= 100);
    assert_eq!(metrics.compliance_score, score);
}

#[test]
fn test_get_attestations_returns_empty_vec_when_none_exist() {
    let (engine, _admin) = setup_test_env();
    let attestations1 = engine.get_attestations(1);
    let attestations2 = engine.get_attestations(2);
    assert_eq!(attestations1.len(), 0);
    assert_eq!(attestations2.len(), 0);
}

#[test]
fn test_health_metrics_structure() {
    let (mut engine, _admin) = setup_test_env();
    let commitment = core_commitment(1, 1000, 1000, 10, 30, 1000);
    let metrics = engine.get_health_metrics(&commitment, 0).unwrap();

    assert_eq!(metrics.commitment_id, 1);
    assert_eq!(metrics.current_value, 1000);
    assert_eq!(metrics.initial_value, 1000);
    assert_eq!(metrics.drawdown_percent, 0);
    assert_eq!(metrics.fees_generated, 0);
    assert_eq!(metrics.volatility_exposure, 0);
    assert_eq!(metrics.last_attestation, 0);
    assert!(metrics.compliance_score <= 100);
}

#[test]
fn test_attest_and_get_metrics() {
    let (mut engine, admin) = setup_test_env();
    let now = 12345;
    let commitment = core_commitment(1, 1000, 1000, 10, 30, 1000);
    let attestation_type = String::from("general");
    let data = note("note", "test attestation");

    engine.attest(1, attestation_type.clone(), data.clone(), admin.clone(), now);

    let attestations = engine.get_attestations(1);
    assert_eq!(attestations.len(), 1);
    assert_eq!(attestations[0].attestation_type, attestation_type);
    assert_eq!(
        attestations[0],
        Attestation {
            commitment_id: 1,
            timestamp: now,
            attestation_type,
            data,
            is_compliant: true,
            verified_by: admin,
        }
    );

    let metrics = engine.get_health_metrics(&commitment, now).unwrap();
    assert!(metrics.last_attestation > 0);
    assert_eq!(metrics.last_attestation, now);
}

#[test]
fn test_attest_event() {
    let (mut engine, admin) = setup_test_env();
    let attestation_type = String::from("health_check");
    engine.attest(7, attestation_type.clone(), Vec::new(), admin.clone(), 3);

    let last_event = engine.events().last().unwrap();
    assert_eq!(
        last_event,
        &EngineEvent::Attested {
            commitment_id: 7,
            verified_by: admin,
            attestation_type,
            is_compliant: true,
            timestamp: 3
        }
    );
}

#[test]
fn test_record_fees_event() {
    let (mut engine, admin) = setup_test_env();
    let commitment = core_commitment(1, 1000, 1000, 10, 30, 1000);

    engine.record_fees(&admin, &commitment, 100, 0).unwrap();

    let last_event = engine.events().last().unwrap();
    assert_eq!(last_event, &EngineEvent::FeeRecorded { commitment_id: 1, fee_amount: 100, timestamp: 0 });
}

#[test]
fn test_record_drawdown_event() {
    let (mut engine, admin) = setup_test_env();
    let commitment = core_commitment(1, 1000, 1000, 10, 30, 1000);

    engine.record_drawdown(&admin, &commitment, 950, 0).unwrap();

    let last_event = engine.events().last().unwrap();
    assert_eq!(
        last_event,
        &EngineEvent::DrawdownRecorded { commitment_id: 1, current_value: 950, drawdown_percent: 5, timestamp: 0 }
    );
}

#[test]
fn test_calculate_compliance_score_event() {
    let (mut engine, _admin) = setup_test_env();
    let commitment = core_commitment(1, 1000, 1000, 10, 30, 1000);

    engine.calculate_compliance_score(&commitment, 0).unwrap();

    let last_event = engine.events().last().unwrap();
    assert_eq!(last_event, &EngineEvent::ScoreUpdated { commitment_id: 1, score: 100, timestamp: 0 });
}

#[test]
fn engine_attestations_are_kept_per_commitment_in_order() {
    let (mut engine, admin) = setup_test_env();
    engine.attest(1, String::from("a"), Vec::new(), admin.clone(), 1);
    engine.attest(2, String::from("b"), Vec::new(), admin.clone(), 2);
    engine.attest(1, String::from("c"), note("k", "v"), admin.clone(), 3);
    let first = engine.get_attestations(1);
    assert_eq!(first.len(), 2);
    assert_eq!(first[0].attestation_type, "a");
    assert_eq!(first[1].attestation_type, "c");
    assert_eq!(first[1].data, note("k", "v"));
    assert_eq!(first[1].timestamp, 3);
    let second = engine.get_attestations(2);
    assert_eq!(second.len(), 1);
    assert_eq!(second[0].attestation_type, "b");
    assert_eq!(engine.get_attestations(3).len(), 0);
    assert_eq!(engine.account(1), Account { fees: 0, last_attestation: 3, metrics: None });
    assert_eq!(engine.account(2).last_attestation, 2);
    assert_eq!(engine.account(3), Account { fees: 0, last_attestation: 0, metrics: None });
}

#[test]
fn engine_drawdown_over_the_limit_is_a_violation() {
    // amount 1000, limit 10%, 30 days; a recorded value of 850 is a loss of 15%
    let (mut engine, admin) = setup_test_env();
    let commitment = core_commitment(1, 1000, 1000, 10, 30, 0);
    assert_eq!(engine.verify_compliance(&commitment, 10), Ok(true));

    engine.record_drawdown(&admin, &commitment, 850, 10).unwrap();

    assert_eq!(engine.verify_compliance(&commitment, 10), Ok(false));
    let attestations = engine.get_attestations(1);
    assert_eq!(attestations.len(), 2);
    assert_eq!(attestations[0].attestation_type, "violation");
    assert_eq!(attestations[0].is_compliant, false);
    assert_eq!(attestations[0].verified_by, admin);
    assert_eq!(attestations[0].timestamp, 10);
    assert_eq!(attestations[1].attestation_type, "drawdown");
    assert_eq!(attestations[1].is_compliant, false);
    assert!(attestations.iter().any(|a| a.attestation_type == "violation" && !a.is_compliant));
    // two attestations count against the commitment; its own value has no loss
    assert_eq!(
        engine.stored_metrics(1),
        HealthMetrics {
            commitment_id: 1,
            current_value: 850,
            initial_value: 1000,
            drawdown_percent: 15,
            fees_generated: 0,
            volatility_exposure: 0,
            last_attestation: 10,
            compliance_score: 70,
        }
    );
    let events = engine.events();
    assert!(events.contains(&EngineEvent::ViolationDetected {
        commitment_id: 1,
        drawdown_percent: 15,
        max_loss_percent: 10,
        timestamp: 10
    }));
}

#[test]
fn engine_drawdown_at_the_limit_is_compliant() {
    let (mut engine, admin) = setup_test_env();
    let commitment = core_commitment(1, 1000, 1000, 10, 30, 0);
    engine.record_drawdown(&admin, &commitment, 900, 10).unwrap();
    engine.record_drawdown(&admin, &commitment, 899, 11).unwrap();
    let attestations = engine.get_attestations(1);
    assert_eq!(attestations.len(), 2);
    assert!(attestations.iter().all(|a| a.attestation_type == "drawdown" && a.is_compliant));
    assert_eq!(engine.verify_compliance(&commitment, 12), Ok(true));
    assert_eq!(engine.stored_metrics(1).drawdown_percent, 10);
    assert_eq!(engine.stored_metrics(1).compliance_score, 100);
    engine.record_drawdown(&admin, &commitment, 1100, 12).unwrap();
    assert_eq!(engine.stored_metrics(1).drawdown_percent, -10);
    assert_eq!(engine.verify_compliance(&commitment, 12), Ok(true));
}

#[test]
fn engine_score_is_exact() {
    let (mut engine, admin) = setup_test_env();
    // loss of 15% against a limit of 10: five points over; on schedule
    let commitment = core_commitment(1, 1000, 850, 10, 30, 0);
    assert_eq!(engine.calculate_compliance_score(&commitment, DAY), Ok(100));
    // 100 - 5 + 10 = 105 before clamping; one violation: 85
    engine.attest(1, String::from("violation"), Vec::new(), admin.clone(), DAY);
    assert_eq!(engine.calculate_compliance_score(&commitment, DAY), Ok(85));
    // off schedule: 75
    assert_eq!(engine.calculate_compliance_score(&commitment, 31 * DAY), Ok(75));
    // fees of 300 against a threshold of 1000 add 30
    engine.record_fees(&admin, &commitment, 300, 31 * DAY).unwrap();
    assert_eq!(engine.stored_metrics(1).compliance_score, 100);
    assert_eq!(engine.calculate_compliance_score(&commitment, 32 * DAY), Ok(100));
    engine.attest(1, String::from("violation"), Vec::new(), admin.clone(), DAY);
    // 100 - 40 - 5 + 30 = 85
    assert_eq!(engine.calculate_compliance_score(&commitment, 32 * DAY), Ok(85));
    // an attestation of another commitment does not count
    engine.attest(2, String::from("violation"), Vec::new(), admin.clone(), DAY);
    assert_eq!(engine.calculate_compliance_score(&commitment, 32 * DAY), Ok(85));
    // the fee bonus is at most 100: 100 - 40 - 5 + 100 = 155
    engine.record_fees(&admin, &commitment, 5000, 32 * DAY).unwrap();
    assert_eq!(engine.calculate_compliance_score(&commitment, 32 * DAY), Ok(100));
    for _ in 0..5 {
        engine.attest(1, String::from("violation"), Vec::new(), admin.clone(), DAY);
    }
    // 100 - 140 - 5 + 100 = 55
    assert_eq!(engine.calculate_compliance_score(&commitment, 32 * DAY), Ok(55));
    // a great loss outweighs every bonus
    let ruined = core_commitment(1, 1000, -5000, 10, 30, 0);
    assert_eq!(engine.calculate_compliance_score(&ruined, DAY), Ok(0));
}

#[test]
fn engine_schedule_bonus_boundary() {
    let (mut engine, admin) = setup_test_env();
    let commitment = core_commitment(1, 1000, 1000, 10, 100, 1000);
    for _ in 0..2 {
        engine.attest(1, String::from("violation"), Vec::new(), admin.clone(), 0);
    }
    // before the creation the elapsed time counts as zero
    assert_eq!(engine.calculate_compliance_score(&commitment, 0), Ok(70));
    assert_eq!(engine.calculate_compliance_score(&commitment, 1000 + 100 * DAY), Ok(70));
    // progress rounds down to 100 until one percent past the duration
    assert_eq!(engine.calculate_compliance_score(&commitment, 1000 + 101 * DAY - 1), Ok(70));
    assert_eq!(engine.calculate_compliance_score(&commitment, 1000 + 101 * DAY), Ok(60));
    // a commitment without a duration earns no bonus
    let mut flat = core_commitment(1, 1000, 1000, 10, 100, 1000);
    flat.expires_at = flat.created_at;
    assert_eq!(engine.calculate_compliance_score(&flat, 1000), Ok(60));
}

#[test]
fn engine_fee_bonus_needs_threshold_and_fees() {
    let (mut engine, admin) = setup_test_env();
    let mut commitment = core_commitment(1, 1000, 1000, 10, 30, 0);
    for _ in 0..3 {
        engine.attest(1, String::from("violation"), Vec::new(), admin.clone(), 0);
    }
    assert_eq!(engine.calculate_compliance_score(&commitment, 0), Ok(50));
    engine.record_fees(&admin, &commitment, 255, 0).unwrap();
    // 255 * 100 / 1000 = 25.5
    assert_eq!(engine.calculate_compliance_score(&commitment, 0), Ok(75));
    commitment.rules.min_fee_threshold = 0;
    assert_eq!(engine.calculate_compliance_score(&commitment, 0), Ok(50));
    commitment.rules.min_fee_threshold = -10;
    assert_eq!(engine.calculate_compliance_score(&commitment, 0), Ok(50));
    commitment.rules.min_fee_threshold = 3;
    assert_eq!(engine.calculate_compliance_score(&commitment, 0), Ok(100));
}

#[test]
fn engine_only_recorders_record() {
    let (mut engine, admin) = setup_test_env();
    let commitment = core_commitment(1, 1000, 1000, 10, 30, 0);
    let recorder = addr("recorder");
    assert_eq!(engine.record_fees(&recorder, &commitment, 10, 0), Err(AttestationError::Unauthorized));
    assert_eq!(engine.record_drawdown(&recorder, &commitment, 10, 0), Err(AttestationError::Unauthorized));
    assert_eq!(engine.get_attestations(1).len(), 0);
    assert_eq!(engine.events().len(), 0);
    assert_eq!(
        engine.add_authorized_recorder(&recorder, recorder.clone()),
        Err(AttestationError::Unauthorized)
    );
    assert!(!engine.is_authorized_recorder(&recorder));
    assert_eq!(engine.add_authorized_recorder(&admin, recorder.clone()), Ok(()));
    assert!(engine.is_authorized_recorder(&recorder));
    assert_eq!(engine.events().last(), Some(&EngineEvent::RecorderAdded { recorder: recorder.clone() }));
    assert_eq!(engine.add_authorized_recorder(&admin, recorder.clone()), Ok(()));
    assert_eq!(engine.record_fees(&recorder, &commitment, 10, 0), Ok(()));
    assert_eq!(engine.record_drawdown(&recorder, &commitment, 990, 0), Ok(()));
}

#[test]
fn engine_uninitialized_has_no_admin() {
    let mut engine = AttestationEngineContract::new();
    let commitment = core_commitment(1, 1000, 1000, 10, 30, 0);
    assert_eq!(
        engine.add_authorized_recorder(&addr("admin"), addr("r")),
        Err(AttestationError::NotInitialized)
    );
    assert_eq!(
        engine.set_authorized_verifier(&addr("admin"), addr("v")),
        Err(AttestationError::NotInitialized)
    );
    assert_eq!(engine.record_fees(&addr("admin"), &commitment, 1, 0), Err(AttestationError::Unauthorized));
    engine.initialize(addr("admin"), addr("core"));
    assert_eq!(engine.set_authorized_verifier(&addr("x"), addr("v")), Err(AttestationError::Unauthorized));
    assert_eq!(engine.set_authorized_verifier(&addr("admin"), addr("v")), Ok(()));
}

#[test]
fn engine_fees_accumulate() {
    let (mut engine, admin) = setup_test_env();
    let commitment = core_commitment(1, 1000, 1000, 10, 30, 0);
    assert_eq!(engine.record_fees(&admin, &commitment, 0, 0), Err(AttestationError::InvalidAmount));
    assert_eq!(engine.record_fees(&admin, &commitment, -5, 0), Err(AttestationError::InvalidAmount));
    engine.record_fees(&admin, &commitment, 10, 1).unwrap();
    engine.record_fees(&admin, &commitment, 20, 2).unwrap();
    engine.record_fees(&admin, &commitment, 30, 3).unwrap();
    assert_eq!(engine.account(1).fees, 60);
    assert_eq!(engine.get_health_metrics(&commitment, 4).unwrap().fees_generated, 60);
    assert_eq!(engine.get_health_metrics(&commitment, 4).unwrap().last_attestation, 3);
    let stored = engine.stored_metrics(1);
    assert_eq!(stored.fees_generated, 60);
    assert_eq!(stored.last_attestation, 3);
    assert_eq!(stored.current_value, 0);
    assert_eq!(stored.compliance_score, 100);
    let attestations = engine.get_attestations(1);
    assert_eq!(attestations.len(), 3);
    assert!(attestations.iter().all(|a| a.attestation_type == "fee_generation" && a.is_compliant));
    assert_eq!(attestations[0].data, note("fee_amount", "recorded"));
    assert_eq!(engine.stored_metrics(9).compliance_score, 100);
    assert_eq!(engine.stored_metrics(9).commitment_id, 9);
}

#[test]
fn engine_overflow_is_reported_and_changes_nothing() {
    let (mut engine, admin) = setup_test_env();
    let commitment = core_commitment(1, 1000, 1000, 10, 30, 0);
    engine.record_fees(&admin, &commitment, i128::MAX, 1).unwrap_err();
    assert_eq!(engine.record_fees(&admin, &commitment, i128::MAX, 1), Err(AttestationError::ArithmeticOverflow));
    engine.record_fees(&admin, &commitment, 5, 1).unwrap();
    assert_eq!(engine.record_fees(&admin, &commitment, i128::MAX - 4, 2), Err(AttestationError::ArithmeticOverflow));
    assert_eq!(engine.account(1).fees, 5);
    assert_eq!(engine.get_attestations(1).len(), 1);
    let events = engine.events().len();
    assert_eq!(
        engine.record_drawdown(&admin, &core_commitment(1, i128::MAX, 0, 10, 30, 0), -1, 2),
        Err(AttestationError::ArithmeticOverflow)
    );
    let wide = core_commitment(1, i128::MAX, -1, 10, 30, 0);
    assert_eq!(engine.calculate_compliance_score(&wide, 2), Err(AttestationError::ArithmeticOverflow));
    assert_eq!(engine.get_health_metrics(&wide, 2), Err(AttestationError::ArithmeticOverflow));
    assert_eq!(engine.verify_compliance(&wide, 2), Err(AttestationError::ArithmeticOverflow));
    assert_eq!(engine.record_drawdown(&admin, &wide, 5, 2), Err(AttestationError::ArithmeticOverflow));
    assert_eq!(engine.events().len(), events);
    assert_eq!(engine.get_attestations(1).len(), 1);
}

#[test]
fn engine_drawdown_beyond_everything_breaks_compliance() {
    let (mut engine, _admin) = setup_test_env();
    let at_limit = core_commitment(1, 1000, 0, 100, 30, 0);
    assert_eq!(engine.get_health_metrics(&at_limit, 0).unwrap().drawdown_percent, 100);
    assert_eq!(engine.verify_compliance(&at_limit, 0), Ok(true));
    let beyond = core_commitment(1, 1000, -10, 100, 30, 0);
    assert_eq!(engine.get_health_metrics(&beyond, 0).unwrap().drawdown_percent, 101);
    assert_eq!(engine.verify_compliance(&beyond, 0), Ok(false));
}

#[test]
fn engine_queries_announce_the_score() {
    let (mut engine, _admin) = setup_test_env();
    let commitment = core_commitment(4, 1000, 1000, 10, 30, 0);
    engine.get_health_metrics(&commitment, 8).unwrap();
    engine.verify_compliance(&commitment, 9).unwrap();
    assert_eq!(
        engine.events(),
        &vec![
            EngineEvent::ScoreUpdated { commitment_id: 4, score: 100, timestamp: 8 },
            EngineEvent::ScoreUpdated { commitment_id: 4, score: 100, timestamp: 9 },
        ]
    );
}

#[test]
fn engine_restores_from_its_parts() {
    let (mut engine, admin) = setup_test_env();
    let commitment = core_commitment(1, 1000, 1000, 10, 30, 0);
    engine.add_authorized_recorder(&admin, addr("recorder")).unwrap();
    engine.record_fees(&admin, &commitment, 40, 9).unwrap();
    let parts = engine.into_parts();
    assert_eq!(parts.recorders, vec![addr("recorder")]);
    assert_eq!(parts.attestations.len(), 1);
    assert_eq!(parts.accounts.len(), 1);
    assert_eq!(parts.accounts[0].commitment_id, 1);
    assert_eq!(parts.accounts[0].account.fees, 40);
    assert_eq!(parts.accounts[0].account.last_attestation, 9);
    let mut restored = AttestationEngineContract::from_parts(parts).unwrap();
    assert!(restored.is_authorized_recorder(&addr("recorder")));
    assert_eq!(restored.get_attestations(1).len(), 1);
    assert_eq!(restored.get_health_metrics(&commitment, 10).unwrap().fees_generated, 40);

    let empty = || EngineParts {
        admin: None,
        commitment_core: None,
        authorized_verifier: None,
        recorders: Vec::new(),
        attestations: Vec::new(),
        accounts: Vec::new(),
        events: Vec::new(),
    };
    let account = |id: u64| AccountEntry { commitment_id: id, account: Account { fees: 0, last_attestation: 0, metrics: None } };
    let mut parts = empty();
    parts.recorders = vec![addr("r"), addr("s"), addr("r")];
    assert!(AttestationEngineContract::from_parts(parts).is_none());
    let mut parts = empty();
    parts.accounts = vec![account(1), account(1)];
    assert!(AttestationEngineContract::from_parts(parts).is_none());
    let mut parts = empty();
    parts.accounts = vec![account(1), account(2)];
    parts.recorders = vec![addr("r"), addr("s")];
    assert!(AttestationEngineContract::from_parts(parts).is_some());
}
