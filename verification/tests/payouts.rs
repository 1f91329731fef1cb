use race_vault::errors::VaultError;
use race_vault::state::ZERO_ADDRESS;
use race_vault::vault::Vault;

fn addr(n: u8) -> [u8; 32] {
    [n; 32]
}

fn digest(race_id: &[u8]) -> [u8; 32] {
    anchor_lang::solana_program::hash::hash(race_id).to_bytes()
}

const AUTHORITY: u8 = 1;
const MINT: u8 = 2;
const VAULT_TOKEN: u8 = 3;

fn new_vault() -> Vault {
    Vault::initialize(addr(AUTHORITY), addr(MINT), 255, addr(VAULT_TOKEN), 10)
}

#[test]
fn register_then_claim_moves_pending_to_claimed() {
    let mut v = new_vault();
    v.deposit(10_000).unwrap();
    let recipient = addr(9);
    let ev = v
        .register_payout(
            addr(AUTHORITY),
            b"race-42".to_vec(),
            digest(b"race-42"),
            recipient,
            100,
            5_000,
            11,
        )
        .unwrap();
    assert_eq!(ev.race_id, b"race-42".to_vec());
    assert_eq!(ev.recipient, recipient);
    assert_eq!(ev.points, 100);
    assert_eq!(ev.amount, 5_000);
    assert_eq!(ev.timestamp, 11);

    let reg = v.get_pending_payouts(recipient).unwrap();
    assert_eq!(reg.recipient, recipient);
    assert_eq!(reg.total_pending, 5_000);
    assert_eq!(reg.total_claimed, 0);
    assert_eq!(reg.payout_count, 1);

    let claim = v.claim_pending_payouts(recipient, recipient, 12).unwrap();
    assert_eq!(claim.recipient, recipient);
    assert_eq!(claim.total_amount, 5_000);
    assert_eq!(claim.payout_count, 1);

    let reg = v.get_pending_payouts(recipient).unwrap();
    assert_eq!(reg.total_pending, 0);
    assert_eq!(reg.total_claimed, 5_000);
    assert_eq!(v.vault_balance, 5_000);
}

#[test]
fn duplicate_registration_fails_and_totals_show_one_accrual() {
    let mut v = new_vault();
    let recipient = addr(9);
    let h = digest(b"race-1");
    v.register_payout(addr(AUTHORITY), b"race-1".to_vec(), h, recipient, 7, 1_000, 11).unwrap();
    let second =
        v.register_payout(addr(AUTHORITY), b"race-1".to_vec(), h, recipient, 7, 1_000, 12);
    assert_eq!(second, Err(VaultError::PayoutAlreadyExists));

    let reg = v.get_pending_payouts(recipient).unwrap();
    assert_eq!(reg.total_pending, 1_000);
    assert_eq!(reg.payout_count, 1);
    let global = v.get_global_payout_stats().unwrap();
    assert_eq!(global.total_pending, 1_000);
    assert_eq!(global.total_payout_count, 1);
    assert_eq!(global.total_recipient_count, 1);
}

#[test]
fn hash_must_match_race_id() {
    let mut v = new_vault();
    let recipient = addr(9);
    let wrong = v.register_payout(
        addr(AUTHORITY),
        b"race-42".to_vec(),
        digest(b"other"),
        recipient,
        100,
        5_000,
        11,
    );
    assert_eq!(wrong, Err(VaultError::InvalidRaceIdHash));
    let right = v.register_payout(
        addr(AUTHORITY),
        b"race-42".to_vec(),
        digest(b"race-42"),
        recipient,
        100,
        5_000,
        11,
    );
    assert!(right.is_ok());
}

#[test]
fn zero_amount_registration_rejected() {
    let mut v = new_vault();
    let r = v.register_payout(
        addr(AUTHORITY),
        b"race-42".to_vec(),
        digest(b"race-42"),
        addr(9),
        100,
        0,
        11,
    );
    assert_eq!(r, Err(VaultError::ZeroAmount));
}

#[test]
fn only_authority_may_register() {
    let mut v = new_vault();
    let r = v.register_payout(
        addr(50),
        b"race-42".to_vec(),
        digest(b"race-42"),
        addr(9),
        100,
        5_000,
        11,
    );
    assert_eq!(r, Err(VaultError::Unauthorized));
}

#[test]
fn pause_gates_registration_and_claim_but_not_reads() {
    let mut v = new_vault();
    v.deposit(10_000).unwrap();
    let recipient = addr(9);
    v.register_payout(
        addr(AUTHORITY),
        b"race-1".to_vec(),
        digest(b"race-1"),
        recipient,
        1,
        5_000,
        11,
    )
    .unwrap();
    v.update_config(addr(AUTHORITY), Some(true), 12).unwrap();

    let r = v.register_payout(
        addr(AUTHORITY),
        b"race-2".to_vec(),
        digest(b"race-2"),
        recipient,
        1,
        5_000,
        13,
    );
    assert_eq!(r, Err(VaultError::ProgramPaused));
    let c = v.claim_pending_payouts(recipient, recipient, 13);
    assert_eq!(c, Err(VaultError::ProgramPaused));

    let reg = v.get_pending_payouts(recipient).unwrap();
    assert_eq!(reg.total_pending, 5_000);
    let global = v.get_global_payout_stats().unwrap();
    assert_eq!(global.total_pending, 5_000);

    v.update_config(addr(AUTHORITY), Some(false), 14).unwrap();
    assert!(v.claim_pending_payouts(recipient, recipient, 15).is_ok());
}

#[test]
fn claim_with_no_pending_balance_fails() {
    let mut v = new_vault();
    v.deposit(10_000).unwrap();
    let recipient = addr(9);
    assert_eq!(
        v.claim_pending_payouts(recipient, recipient, 11),
        Err(VaultError::NoPendingPayouts)
    );
    v.register_payout(
        addr(AUTHORITY),
        b"race-1".to_vec(),
        digest(b"race-1"),
        recipient,
        1,
        500,
        11,
    )
    .unwrap();
    v.claim_pending_payouts(recipient, recipient, 12).unwrap();
    assert_eq!(
        v.claim_pending_payouts(recipient, recipient, 13),
        Err(VaultError::NoPendingPayouts)
    );
}

#[test]
fn claim_fails_atomically_when_liquidity_is_short() {
    let mut v = new_vault();
    v.deposit(1_000).unwrap();
    let recipient = addr(9);
    v.register_payout(
        addr(AUTHORITY),
        b"race-1".to_vec(),
        digest(b"race-1"),
        recipient,
        1,
        5_000,
        11,
    )
    .unwrap();
    assert_eq!(
        v.claim_pending_payouts(recipient, recipient, 12),
        Err(VaultError::InsufficientBalance)
    );
    let reg = v.get_pending_payouts(recipient).unwrap();
    assert_eq!(reg.total_pending, 5_000);
    assert_eq!(reg.total_claimed, 0);
    assert_eq!(v.vault_balance, 1_000);
}

#[test]
fn claim_recipient_argument_must_match_account() {
    let mut v = new_vault();
    v.deposit(10_000).unwrap();
    let recipient = addr(9);
    v.register_payout(
        addr(AUTHORITY),
        b"race-1".to_vec(),
        digest(b"race-1"),
        recipient,
        1,
        5_000,
        11,
    )
    .unwrap();
    assert_eq!(
        v.claim_pending_payouts(addr(8), recipient, 12),
        Err(VaultError::InvalidRecipient)
    );
}

#[test]
fn global_registry_mirrors_per_recipient_totals() {
    let mut v = new_vault();
    v.deposit(10_000).unwrap();
    let a = addr(9);
    let b = addr(10);
    v.register_payout(addr(AUTHORITY), b"race-1".to_vec(), digest(b"race-1"), a, 1, 1_000, 11)
        .unwrap();
    v.register_payout(addr(AUTHORITY), b"race-2".to_vec(), digest(b"race-2"), a, 2, 2_000, 12)
        .unwrap();
    v.register_payout(addr(AUTHORITY), b"race-1".to_vec(), digest(b"race-1"), b, 3, 4_000, 13)
        .unwrap();
    v.claim_pending_payouts(a, a, 14).unwrap();

    let reg_a = v.get_pending_payouts(a).unwrap();
    let reg_b = v.get_pending_payouts(b).unwrap();
    assert_eq!(reg_a.total_pending, 0);
    assert_eq!(reg_a.total_claimed, 3_000);
    assert_eq!(reg_b.total_pending, 4_000);
    assert_eq!(reg_b.total_claimed, 0);

    let global = v.get_global_payout_stats().unwrap();
    assert_eq!(global.total_pending, reg_a.total_pending + reg_b.total_pending);
    assert_eq!(global.total_claimed, reg_a.total_claimed + reg_b.total_claimed);
    assert_eq!(global.total_payout_count, reg_a.payout_count + reg_b.payout_count);
    assert_eq!(global.total_recipient_count, 2);
}

#[test]
fn pending_plus_claimed_equals_sum_of_registrations() {
    let mut v = new_vault();
    v.deposit(100_000).unwrap();
    let recipient = addr(9);
    v.register_payout(
        addr(AUTHORITY),
        b"race-1".to_vec(),
        digest(b"race-1"),
        recipient,
        1,
        1_000,
        11,
    )
    .unwrap();
    v.register_payout(
        addr(AUTHORITY),
        b"race-2".to_vec(),
        digest(b"race-2"),
        recipient,
        2,
        2_000,
        12,
    )
    .unwrap();
    v.claim_pending_payouts(recipient, recipient, 13).unwrap();
    v.register_payout(
        addr(AUTHORITY),
        b"race-3".to_vec(),
        digest(b"race-3"),
        recipient,
        3,
        500,
        14,
    )
    .unwrap();

    let reg = v.get_pending_payouts(recipient).unwrap();
    assert_eq!(reg.total_pending, 500);
    assert_eq!(reg.total_claimed, 3_000);
    assert_eq!(reg.total_pending + reg.total_claimed, 1_000 + 2_000 + 500);
    assert_eq!(reg.payout_count, 3);
}

#[test]
fn registration_overflow_fails_atomically() {
    let mut v = new_vault();
    let recipient = addr(9);
    v.register_payout(
        addr(AUTHORITY),
        b"race-1".to_vec(),
        digest(b"race-1"),
        recipient,
        1,
        u64::MAX,
        11,
    )
    .unwrap();
    let r = v.register_payout(
        addr(AUTHORITY),
        b"race-2".to_vec(),
        digest(b"race-2"),
        recipient,
        1,
        1,
        12,
    );
    assert_eq!(r, Err(VaultError::Overflow));
    let reg = v.get_pending_payouts(recipient).unwrap();
    assert_eq!(reg.total_pending, u64::MAX);
    assert_eq!(reg.payout_count, 1);
    let global = v.get_global_payout_stats().unwrap();
    assert_eq!(global.total_payout_count, 1);
}

#[test]
fn deposit_validates_amount_and_balance() {
    let mut v = new_vault();
    assert_eq!(v.deposit(0), Err(VaultError::ZeroAmount));
    v.deposit(u64::MAX).unwrap();
    assert_eq!(v.deposit(1), Err(VaultError::Overflow));
    assert_eq!(v.vault_balance, u64::MAX);
}

#[test]
fn authority_transfer_hands_over_control() {
    let mut v = new_vault();
    let new_admin = addr(42);
    assert_eq!(
        v.transfer_authority(addr(50), new_admin, 11),
        Err(VaultError::Unauthorized)
    );
    let ev = v.transfer_authority(addr(AUTHORITY), new_admin, 12).unwrap();
    assert_eq!(ev.old_authority, addr(AUTHORITY));
    assert_eq!(ev.new_authority, new_admin);
    assert_eq!(
        v.update_config(addr(AUTHORITY), Some(true), 13),
        Err(VaultError::Unauthorized)
    );
    let ev = v.update_config(new_admin, Some(true), 14).unwrap();
    assert!(ev.paused);
}

#[test]
fn update_config_without_flag_changes_nothing() {
    let mut v = new_vault();
    let ev = v.update_config(addr(AUTHORITY), None, 11).unwrap();
    assert!(!ev.paused);
    v.update_config(addr(AUTHORITY), Some(true), 12).unwrap();
    let ev = v.update_config(addr(AUTHORITY), None, 13).unwrap();
    assert!(ev.paused);
}

#[test]
fn reconcile_reports_custody_balance_to_authority_only() {
    let mut v = new_vault();
    v.deposit(7_500).unwrap();
    assert_eq!(v.reconcile(addr(50), 11), Err(VaultError::Unauthorized));
    let ev = v.reconcile(addr(AUTHORITY), 11).unwrap();
    assert_eq!(ev.vault_token, addr(VAULT_TOKEN));
    assert_eq!(ev.balance, 7_500);
    assert_eq!(ev.timestamp, 11);
}

#[test]
fn close_requires_authority_and_touches_no_ledger_state() {
    let mut v = new_vault();
    v.deposit(1_000).unwrap();
    let recipient = addr(9);
    v.register_payout(
        addr(AUTHORITY),
        b"race-1".to_vec(),
        digest(b"race-1"),
        recipient,
        1,
        500,
        11,
    )
    .unwrap();
    assert_eq!(v.close(addr(50), 12), Err(VaultError::Unauthorized));
    let ev = v.close(addr(AUTHORITY), 12).unwrap();
    assert_eq!(ev.authority, addr(AUTHORITY));
    let reg = v.get_pending_payouts(recipient).unwrap();
    assert_eq!(reg.total_pending, 500);
    assert_eq!(v.vault_balance, 1_000);
}

#[test]
fn unknown_recipient_reads_as_unwritten_record() {
    let v = new_vault();
    let reg = v.get_pending_payouts(addr(77)).unwrap();
    assert_eq!(reg.recipient, ZERO_ADDRESS);
    assert_eq!(reg.total_pending, 0);
    assert_eq!(reg.total_claimed, 0);
    assert_eq!(reg.payout_count, 0);
}
