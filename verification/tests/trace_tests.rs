use zkbpf::{AccountState, AccountStateChange, ExecutionTrace, Pubkey};

fn key_from_byte(tag: u8) -> Pubkey {
    let mut bytes = [0u8; 32];
    bytes[0] = tag;
    Pubkey::from_array(bytes)
}

#[test]
fn test_account_state_new() {
    let pubkey = key_from_byte(1);
    let owner = key_from_byte(2);
    let data = vec![1, 2, 3, 4];

    let account = AccountState::new(pubkey, 1000, data.clone(), owner, false, 42);

    assert_eq!(account.pubkey, pubkey);
    assert_eq!(account.lamports, 1000);
    assert_eq!(account.data, data);
    assert_eq!(account.owner, owner);
    assert_eq!(account.executable, false);
    assert_eq!(account.rent_epoch, 42);
}

#[test]
fn test_account_state_empty() {
    let pubkey = key_from_byte(3);
    let account = AccountState::empty(pubkey);

    assert_eq!(account.pubkey, pubkey);
    assert_eq!(account.lamports, 0);
    assert_eq!(account.data.len(), 0);
    assert_eq!(account.owner, Pubkey::default());
    assert_eq!(account.executable, false);
    assert_eq!(account.rent_epoch, 0);
}

#[test]
fn test_account_state_change() {
    let pubkey = key_from_byte(4);
    let owner = key_from_byte(5);

    let before = AccountState::new(pubkey, 1000, vec![0, 0, 0, 0], owner, false, 0);
    let after = AccountState::new(pubkey, 1000, vec![1, 0, 0, 0], owner, false, 0);

    let change = AccountStateChange::new(pubkey, before.clone(), after.clone());

    assert_eq!(change.pubkey, pubkey);
    assert_eq!(change.before, before);
    assert_eq!(change.after, after);
    assert!(change.data_changed());
    assert!(!change.lamports_changed());
}

#[test]
fn test_account_state_change_lamports() {
    let pubkey = key_from_byte(6);
    let owner = key_from_byte(7);

    let before = AccountState::new(pubkey, 1000, vec![0, 0, 0, 0], owner, false, 0);
    let after = AccountState::new(pubkey, 2000, vec![0, 0, 0, 0], owner, false, 0);

    let change = AccountStateChange::new(pubkey, before, after);

    assert!(!change.data_changed());
    assert!(change.lamports_changed());
}

#[test]
fn test_execution_trace_new() {
    let trace = ExecutionTrace::new();

    assert_eq!(trace.instruction_count(), 0);
    assert_eq!(trace.account_change_count(), 0);
}

#[test]
fn test_execution_trace_with_accounts() {
    let mut trace = ExecutionTrace::new();

    let pubkey = key_from_byte(8);
    let owner = key_from_byte(9);

    let before = AccountState::new(pubkey, 1000, vec![0], owner, false, 0);
    let after = AccountState::new(pubkey, 1000, vec![1], owner, false, 0);

    trace.account_states.push(AccountStateChange::new(pubkey, before, after));

    assert_eq!(trace.account_change_count(), 1);
}
