use race_vault::errors::VaultError;
use race_vault::state::ZERO_ADDRESS;
use race_vault::vault::Vault;

fn addr(n: u8) -> [u8; 32] {
    [n; 32]
}

const AUTHORITY: u8 = 1;

fn new_vault() -> Vault {
    Vault::initialize(addr(AUTHORITY), addr(2), 255, addr(3), 10)
}

#[test]
fn self_referral_rejected_distinct_pair_accepted() {
    let mut v = new_vault();
    let a = addr(9);
    let b = addr(10);
    assert_eq!(
        v.register_referral_bonus(addr(AUTHORITY), b"e1".to_vec(), a, a, 1_000, 11),
        Err(VaultError::SelfReferralNotAllowed)
    );
    let ev = v.register_referral_bonus(addr(AUTHORITY), b"e1".to_vec(), a, b, 1_000, 11).unwrap();
    assert_eq!(ev.race_id, b"e1".to_vec());
    assert_eq!(ev.referrer, a);
    assert_eq!(ev.referee, b);
    assert_eq!(ev.amount, 1_000);
    assert_eq!(ev.timestamp, 11);
}

#[test]
fn bonus_claim_moves_pending_to_claimed() {
    let mut v = new_vault();
    v.deposit(5_000).unwrap();
    let referrer = addr(9);
    v.register_referral_bonus(addr(AUTHORITY), b"e1".to_vec(), referrer, addr(10), 1_000, 11)
        .unwrap();
    v.register_referral_bonus(addr(AUTHORITY), b"e1".to_vec(), referrer, addr(11), 500, 12)
        .unwrap();

    let reg = v.get_pending_bonuses(referrer).unwrap();
    assert_eq!(reg.referrer, referrer);
    assert_eq!(reg.total_pending, 1_500);
    assert_eq!(reg.bonus_count, 2);

    let ev = v.claim_pending_bonuses(referrer, 13).unwrap();
    assert_eq!(ev.referrer, referrer);
    assert_eq!(ev.amount, 1_500);
    assert_eq!(ev.bonus_count, 2);

    let reg = v.get_pending_bonuses(referrer).unwrap();
    assert_eq!(reg.total_pending, 0);
    assert_eq!(reg.total_claimed, 1_500);
    assert_eq!(v.vault_balance, 3_500);
}

#[test]
fn duplicate_triple_fails_other_referee_succeeds() {
    let mut v = new_vault();
    let referrer = addr(9);
    v.register_referral_bonus(addr(AUTHORITY), b"e1".to_vec(), referrer, addr(10), 1_000, 11)
        .unwrap();
    assert_eq!(
        v.register_referral_bonus(addr(AUTHORITY), b"e1".to_vec(), referrer, addr(10), 1_000, 12),
        Err(VaultError::BonusAlreadyExists)
    );
    assert!(
        v.register_referral_bonus(addr(AUTHORITY), b"e1".to_vec(), referrer, addr(11), 1_000, 12)
            .is_ok()
    );
    let reg = v.get_pending_bonuses(referrer).unwrap();
    assert_eq!(reg.total_pending, 2_000);
    assert_eq!(reg.bonus_count, 2);
}

#[test]
fn race_id_longer_than_32_bytes_rejected() {
    let mut v = new_vault();
    let long_id = vec![b'x'; 33];
    assert_eq!(
        v.register_referral_bonus(addr(AUTHORITY), long_id, addr(9), addr(10), 1_000, 11),
        Err(VaultError::RaceIdTooLong)
    );
    let max_id = vec![b'x'; 32];
    assert!(
        v.register_referral_bonus(addr(AUTHORITY), max_id, addr(9), addr(10), 1_000, 11).is_ok()
    );
}

#[test]
fn bonus_registration_validates_caller_and_amount() {
    let mut v = new_vault();
    assert_eq!(
        v.register_referral_bonus(addr(50), b"e1".to_vec(), addr(9), addr(10), 1_000, 11),
        Err(VaultError::Unauthorized)
    );
    assert_eq!(
        v.register_referral_bonus(addr(AUTHORITY), b"e1".to_vec(), addr(9), addr(10), 0, 11),
        Err(VaultError::ZeroAmount)
    );
}

#[test]
fn bonus_claim_without_pending_fails() {
    let mut v = new_vault();
    v.deposit(1_000).unwrap();
    assert_eq!(v.claim_pending_bonuses(addr(9), 11), Err(VaultError::NoPendingBonuses));
}

#[test]
fn bonus_claim_fails_atomically_when_liquidity_is_short() {
    let mut v = new_vault();
    v.deposit(100).unwrap();
    let referrer = addr(9);
    v.register_referral_bonus(addr(AUTHORITY), b"e1".to_vec(), referrer, addr(10), 1_000, 11)
        .unwrap();
    assert_eq!(v.claim_pending_bonuses(referrer, 12), Err(VaultError::InsufficientBalance));
    let reg = v.get_pending_bonuses(referrer).unwrap();
    assert_eq!(reg.total_pending, 1_000);
    assert_eq!(reg.total_claimed, 0);
    assert_eq!(v.vault_balance, 100);
}

#[test]
fn pause_gates_bonus_registration_and_claim() {
    let mut v = new_vault();
    v.deposit(5_000).unwrap();
    let referrer = addr(9);
    v.register_referral_bonus(addr(AUTHORITY), b"e1".to_vec(), referrer, addr(10), 1_000, 11)
        .unwrap();
    v.update_config(addr(AUTHORITY), Some(true), 12).unwrap();
    assert_eq!(
        v.register_referral_bonus(addr(AUTHORITY), b"e2".to_vec(), referrer, addr(10), 1_000, 13),
        Err(VaultError::ProgramPaused)
    );
    assert_eq!(v.claim_pending_bonuses(referrer, 13), Err(VaultError::ProgramPaused));
    let reg = v.get_pending_bonuses(referrer).unwrap();
    assert_eq!(reg.total_pending, 1_000);
}

#[test]
fn both_bonus_reads_project_the_same_snapshot() {
    let mut v = new_vault();
    let referrer = addr(9);
    v.register_referral_bonus(addr(AUTHORITY), b"e1".to_vec(), referrer, addr(10), 750, 11)
        .unwrap();
    let pending = v.get_pending_bonuses(referrer).unwrap();
    let all = v.get_all_bonuses(referrer).unwrap();
    assert_eq!(pending, all);

    let absent = v.get_all_bonuses(addr(77)).unwrap();
    assert_eq!(absent.referrer, ZERO_ADDRESS);
    assert_eq!(absent.total_pending, 0);
    assert_eq!(absent.bonus_count, 0);
}
