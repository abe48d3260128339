use commitment_ledger::address::Address;
use commitment_ledger::attestation_engine::AttestationEngineContract;
use commitment_ledger::commitment::{CommitmentRules, CommitmentStatus};
use commitment_ledger::commitment_core::CommitmentCoreContract;
use commitment_ledger::commitment_nft::CommitmentNFTContract;

fn addr(key: &str) -> Address {
    Address::new(key)
}

struct IntegrationTestFixture {
    core: CommitmentCoreContract,
    engine: AttestationEngineContract,
    nft: CommitmentNFTContract,
    admin: Address,
    owner: Address,
    verifier: Address,
    asset_address: Address,
    now: u64,
}

impl IntegrationTestFixture {
    fn setup() -> Self {
        let admin = addr("admin");
        let mut nft = CommitmentNFTContract::new();
        nft.initialize(admin.clone()).unwrap();
        let mut core = CommitmentCoreContract::new(addr("core"));
        core.initialize(admin.clone(), addr("nft")).unwrap();
        let mut engine = AttestationEngineContract::new();
        engine.initialize(admin.clone(), addr("core"));
        IntegrationTestFixture {
            core,
            engine,
            nft,
            admin,
            owner: addr("owner"),
            verifier: addr("verifier"),
            asset_address: addr("asset"),
            now: 1000,
        }
    }

    fn create_test_rules(&self) -> CommitmentRules {
        CommitmentRules {
            duration_days: 30,
            max_loss_percent: 10,
            commitment_type: String::from("safe"),
            early_exit_penalty: 5,
            min_fee_threshold: 100_0000000,
        }
    }

    /// Creates a commitment, mints its receipt and reports the mint back.
    fn create_commitment(&mut self, amount: i128, rules: CommitmentRules) -> u64 {
        let id = self
            .core
            .create_commitment(self.owner.clone(), amount, self.asset_address.clone(), rules, self.now)
            .unwrap();
        let c = self.core.get_commitment(id).unwrap();
        let token = self
            .nft
            .mint(
                c.owner.clone(),
                format!("{id}"),
                c.rules.duration_days,
                c.rules.max_loss_percent,
                c.rules.commitment_type.clone(),
                c.amount,
                c.asset_address.clone(),
                c.rules.early_exit_penalty,
                self.now,
            )
            .unwrap();
        assert_eq!(self.core.complete_create(token), Ok(id));
        id
    }
}

#[test]
fn test_create_commitment_with_attestation_flow() {
    let mut fixture = IntegrationTestFixture::setup();
    let rules = fixture.create_test_rules();
    let commitment_id = fixture.create_commitment(1000_0000000, rules);

    let commitment = fixture.core.get_commitment(commitment_id).unwrap();
    assert_eq!(commitment.owner, fixture.owner);
    assert_eq!(commitment.amount, 1000_0000000);
    assert_eq!(commitment.status, CommitmentStatus::Active);
    assert_eq!(fixture.nft.owner_of(commitment.nft_token_id), Ok(fixture.owner.clone()));

    let data = vec![(String::from("initial_value"), String::from("1000"))];
    fixture.engine.attest(commitment_id, String::from("health_check"), data, fixture.verifier.clone(), fixture.now);

    let attestations = fixture.engine.get_attestations(commitment_id);
    assert_eq!(attestations.len(), 1);
}

#[test]
fn test_commitment_value_update_with_health_tracking() {
    let mut fixture = IntegrationTestFixture::setup();
    let rules = CommitmentRules {
        duration_days: 30,
        max_loss_percent: 10,
        commitment_type: String::from("balanced"),
        early_exit_penalty: 5,
        min_fee_threshold: 100_0000000,
    };
    let commitment_id = fixture.create_commitment(1000_0000000, rules);

    fixture.core.update_value(commitment_id, 1050_0000000, fixture.now).unwrap();

    let commitment = fixture.core.get_commitment(commitment_id).unwrap();
    fixture.engine.record_fees(&fixture.admin, &commitment, 50_0000000, fixture.now).unwrap();
    fixture.engine.record_drawdown(&fixture.admin, &commitment, 1050_0000000, fixture.now).unwrap();

    let metrics = fixture.engine.get_health_metrics(&commitment, fixture.now).unwrap();
    assert_eq!(metrics.fees_generated, 50_0000000);
    assert!(metrics.drawdown_percent <= 0);
    assert_eq!(metrics.drawdown_percent, -5);

    let commitment = fixture.core.get_commitment(commitment_id).unwrap();
    assert_eq!(commitment.current_value, 1050_0000000);
    assert_eq!(commitment.status, CommitmentStatus::Active);
}

#[test]
fn test_settlement_flow_end_to_end() {
    let mut fixture = IntegrationTestFixture::setup();
    let rules = fixture.create_test_rules();
    let commitment_id = fixture.create_commitment(1000_0000000, rules);

    let commitment = fixture.core.get_commitment(commitment_id).unwrap();
    fixture.engine.record_fees(&fixture.admin, &commitment, 100_0000000, fixture.now).unwrap();

    let now = commitment.expires_at + 1;
    assert_eq!(fixture.core.settle(commitment_id, now), Ok(1000_0000000));
    assert_eq!(fixture.nft.settle(commitment.nft_token_id, now), Ok(()));
    fixture.core.complete_interaction().unwrap();

    let settled_commitment = fixture.core.get_commitment(commitment_id).unwrap();
    assert_eq!(settled_commitment.status, CommitmentStatus::Settled);
    assert_eq!(fixture.nft.is_active(commitment.nft_token_id), Ok(false));
    assert_eq!(fixture.core.get_total_value_locked(), 0);
}

#[test]
fn test_early_exit_flow_end_to_end() {
    let mut fixture = IntegrationTestFixture::setup();
    let rules = CommitmentRules {
        duration_days: 30,
        max_loss_percent: 10,
        commitment_type: String::from("aggressive"),
        early_exit_penalty: 10,
        min_fee_threshold: 100_0000000,
    };
    let commitment_id = fixture.create_commitment(1000_0000000, rules);

    fixture.core.update_value(commitment_id, 1100_0000000, fixture.now).unwrap();

    let data = vec![(String::from("reason"), String::from("user_request"))];
    fixture.engine.attest(commitment_id, String::from("early_exit"), data, fixture.verifier.clone(), fixture.now);

    assert_eq!(fixture.core.early_exit(commitment_id, fixture.owner.clone(), fixture.now), Ok(990_0000000));
    fixture.core.complete_interaction().unwrap();

    let commitment = fixture.core.get_commitment(commitment_id).unwrap();
    assert_eq!(commitment.status, CommitmentStatus::EarlyExit);
    assert_eq!(fixture.core.get_total_value_locked(), -100_0000000);
}

#[test]
fn test_compliance_verification_flow() {
    let mut fixture = IntegrationTestFixture::setup();
    let rules = fixture.create_test_rules();
    let commitment_id = fixture.create_commitment(1000_0000000, rules);
    let commitment = fixture.core.get_commitment(commitment_id).unwrap();

    fixture.engine.record_fees(&fixture.admin, &commitment, 100_0000000, fixture.now).unwrap();

    let data = vec![(String::from("status"), String::from("healthy"))];
    fixture.engine.attest(commitment_id, String::from("health_check"), data, fixture.verifier.clone(), fixture.now);

    let is_compliant = fixture.engine.verify_compliance(&commitment, fixture.now).unwrap();
    assert!(is_compliant);

    let score = fixture.engine.calculate_compliance_score(&commitment, fixture.now).unwrap();
    assert!(score > 0);
    assert_eq!(score, 100);
}

#[test]
fn test_gas_single_commitment_creation() {
    let mut fixture = IntegrationTestFixture::setup();
    let rules = fixture.create_test_rules();
    let commitment_id = fixture.create_commitment(1000_0000000, rules);
    assert_eq!(commitment_id, 0);
    assert_eq!(fixture.core.get_total_commitments(), 1);
}

#[test]
fn test_gas_multiple_operations() {
    let mut fixture = IntegrationTestFixture::setup();
    let rules = fixture.create_test_rules();
    let commitment_id = fixture.create_commitment(1000_0000000, rules);

    fixture.core.update_value(commitment_id, 1010_0000000, fixture.now).unwrap();
    fixture.core.update_value(commitment_id, 1020_0000000, fixture.now).unwrap();
    fixture.core.update_value(commitment_id, 1030_0000000, fixture.now).unwrap();

    let commitment = fixture.core.get_commitment(commitment_id).unwrap();
    fixture.engine.record_fees(&fixture.admin, &commitment, 10_0000000, fixture.now).unwrap();
    fixture.engine.record_fees(&fixture.admin, &commitment, 20_0000000, fixture.now).unwrap();
    fixture.engine.record_fees(&fixture.admin, &commitment, 30_0000000, fixture.now).unwrap();

    assert_eq!(commitment.current_value, 1030_0000000);

    let metrics = fixture.engine.get_health_metrics(&commitment, fixture.now).unwrap();
    assert_eq!(metrics.fees_generated, 60_0000000);
}

#[test]
fn test_gas_batch_attestations() {
    let mut fixture = IntegrationTestFixture::setup();
    let rules = fixture.create_test_rules();
    let commitment_id = fixture.create_commitment(1000_0000000, rules);

    let check_numbers = ["1", "2", "3", "4", "5"];
    for check_num in check_numbers.iter() {
        let data = vec![(String::from("check_number"), String::from(*check_num))];
        fixture.engine.attest(commitment_id, String::from("health_check"), data, fixture.verifier.clone(), fixture.now);
    }

    let attestations = fixture.engine.get_attestations(commitment_id);
    assert_eq!(attestations.len(), 5);
}

#[test]
fn drawdown_scenario_across_the_ledgers() {
    // a commitment of 1000 with a limit of 10% and 30 days; a recorded value
    // of 850 breaks compliance and leaves a violation behind
    let mut fixture = IntegrationTestFixture::setup();
    let rules = fixture.create_test_rules();
    let commitment_id = fixture.create_commitment(1000, rules);
    let commitment = fixture.core.get_commitment(commitment_id).unwrap();

    fixture.engine.record_drawdown(&fixture.admin, &commitment, 850, fixture.now).unwrap();

    assert_eq!(fixture.engine.verify_compliance(&commitment, fixture.now), Ok(false));
    let attestations = fixture.engine.get_attestations(commitment_id);
    assert!(attestations.iter().any(|a| a.attestation_type == "violation" && !a.is_compliant));
    // the ledger itself still holds the full value and reports no violation
    assert_eq!(fixture.core.check_violations(commitment_id, fixture.now), Ok(false));
    fixture.core.update_value(commitment_id, 850, fixture.now).unwrap();
    assert_eq!(fixture.core.check_violations(commitment_id, fixture.now), Ok(true));
}
