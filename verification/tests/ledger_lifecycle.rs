use authlink::ledger::CloseAuthlink;
use authlink::ledger::InitializeAuthlink;
use authlink::ledger::Instruction;
use authlink::ledger::Ledger;
use authlink::ledger::Update;
use authlink::record::AuthlinkError;

const ADDR: u64 = 7;

#[test]
fn initialize_creates_record_at_zero() {
    let mut l = Ledger::new(10);
    let mut payer: u64 = 100;
    assert_eq!(l.initialize(&mut payer, InitializeAuthlink { authlink: ADDR }), Ok(()));
    assert_eq!(l.get(ADDR), Some(0));
    assert_eq!(payer, 90);
}

#[test]
fn initialize_existing_address_fails_atomically() {
    let mut l = Ledger::new(10);
    let mut payer: u64 = 100;
    assert_eq!(l.initialize(&mut payer, InitializeAuthlink { authlink: ADDR }), Ok(()));
    assert_eq!(l.set(Update { authlink: ADDR }, 9), Ok(()));
    assert_eq!(
        l.initialize(&mut payer, InitializeAuthlink { authlink: ADDR }),
        Err(AuthlinkError::AlreadyExists)
    );
    assert_eq!(l.get(ADDR), Some(9));
    assert_eq!(payer, 90);
}

#[test]
fn initialize_insufficient_funds_fails_atomically() {
    let mut l = Ledger::new(50);
    let mut payer: u64 = 49;
    assert_eq!(
        l.initialize(&mut payer, InitializeAuthlink { authlink: ADDR }),
        Err(AuthlinkError::InsufficientFunds)
    );
    assert_eq!(l.get(ADDR), None);
    assert_eq!(payer, 49);
}

#[test]
fn initialize_with_zero_deposit_needs_no_funds() {
    let mut l = Ledger::new(0);
    let mut payer: u64 = 0;
    assert_eq!(l.initialize(&mut payer, InitializeAuthlink { authlink: ADDR }), Ok(()));
    assert_eq!(l.get(ADDR), Some(0));
    assert_eq!(payer, 0);
}

#[test]
fn set_succeeds_regardless_of_prior_value() {
    let mut l = Ledger::new(10);
    let mut payer: u64 = 100;
    assert_eq!(l.initialize(&mut payer, InitializeAuthlink { authlink: ADDR }), Ok(()));
    for v in [200u8, 0, 255, 1, 254] {
        assert_eq!(l.set(Update { authlink: ADDR }, v), Ok(()));
        assert_eq!(l.get(ADDR), Some(v));
    }
}

#[test]
fn operations_on_missing_record_fail_not_found() {
    let mut l = Ledger::new(10);
    assert_eq!(l.increment(Update { authlink: ADDR }), Err(AuthlinkError::NotFound));
    assert_eq!(l.decrement(Update { authlink: ADDR }), Err(AuthlinkError::NotFound));
    assert_eq!(l.set(Update { authlink: ADDR }, 3), Err(AuthlinkError::NotFound));
    let mut recipient: u64 = 0;
    assert_eq!(
        l.close(&mut recipient, CloseAuthlink { authlink: ADDR }),
        Err(AuthlinkError::NotFound)
    );
    assert_eq!(recipient, 0);
    assert_eq!(l.get(ADDR), None);
}

#[test]
fn increment_then_decrement_restores_count() {
    let mut l = Ledger::new(10);
    let mut payer: u64 = 100;
    assert_eq!(l.initialize(&mut payer, InitializeAuthlink { authlink: ADDR }), Ok(()));
    assert_eq!(l.set(Update { authlink: ADDR }, 41), Ok(()));
    assert_eq!(l.increment(Update { authlink: ADDR }), Ok(()));
    assert_eq!(l.get(ADDR), Some(42));
    assert_eq!(l.decrement(Update { authlink: ADDR }), Ok(()));
    assert_eq!(l.get(ADDR), Some(41));
}

#[test]
fn increment_at_max_fails_and_count_stays() {
    let mut l = Ledger::new(10);
    let mut payer: u64 = 100;
    assert_eq!(l.initialize(&mut payer, InitializeAuthlink { authlink: ADDR }), Ok(()));
    assert_eq!(l.set(Update { authlink: ADDR }, 255), Ok(()));
    assert_eq!(l.increment(Update { authlink: ADDR }), Err(AuthlinkError::Overflow));
    assert_eq!(l.get(ADDR), Some(255));
}

#[test]
fn decrement_at_zero_fails_and_count_stays() {
    let mut l = Ledger::new(10);
    let mut payer: u64 = 100;
    assert_eq!(l.initialize(&mut payer, InitializeAuthlink { authlink: ADDR }), Ok(()));
    assert_eq!(l.decrement(Update { authlink: ADDR }), Err(AuthlinkError::Underflow));
    assert_eq!(l.get(ADDR), Some(0));
}

#[test]
fn close_refunds_deposit_and_removes_record() {
    let mut l = Ledger::new(30);
    let mut payer: u64 = 100;
    assert_eq!(l.initialize(&mut payer, InitializeAuthlink { authlink: ADDR }), Ok(()));
    assert_eq!(payer, 70);
    let mut recipient: u64 = 5;
    assert_eq!(l.close(&mut recipient, CloseAuthlink { authlink: ADDR }), Ok(()));
    assert_eq!(recipient, 35);
    assert_eq!(l.get(ADDR), None);
}

#[test]
fn closed_address_fails_until_reinitialized() {
    let mut l = Ledger::new(10);
    let mut payer: u64 = 100;
    assert_eq!(l.initialize(&mut payer, InitializeAuthlink { authlink: ADDR }), Ok(()));
    let mut recipient: u64 = 0;
    assert_eq!(l.close(&mut recipient, CloseAuthlink { authlink: ADDR }), Ok(()));
    assert_eq!(
        l.close(&mut recipient, CloseAuthlink { authlink: ADDR }),
        Err(AuthlinkError::NotFound)
    );
    assert_eq!(l.increment(Update { authlink: ADDR }), Err(AuthlinkError::NotFound));
    assert_eq!(l.set(Update { authlink: ADDR }, 1), Err(AuthlinkError::NotFound));
    assert_eq!(l.initialize(&mut payer, InitializeAuthlink { authlink: ADDR }), Ok(()));
    assert_eq!(l.get(ADDR), Some(0));
}

#[test]
fn untouched_records_survive_neighbours() {
    let mut l = Ledger::new(10);
    let mut payer: u64 = 100;
    assert_eq!(l.initialize(&mut payer, InitializeAuthlink { authlink: 1 }), Ok(()));
    assert_eq!(l.initialize(&mut payer, InitializeAuthlink { authlink: 2 }), Ok(()));
    assert_eq!(l.set(Update { authlink: 1 }, 11), Ok(()));
    let mut recipient: u64 = 0;
    assert_eq!(l.close(&mut recipient, CloseAuthlink { authlink: 2 }), Ok(()));
    assert_eq!(l.get(1), Some(11));
    assert_eq!(l.get(2), None);
}

#[test]
fn execute_dispatches_each_variant() {
    let mut l = Ledger::new(10);
    let mut wallet: u64 = 100;
    assert_eq!(
        l.execute(&mut wallet, Instruction::Initialize(InitializeAuthlink { authlink: ADDR })),
        Ok(())
    );
    assert_eq!(wallet, 90);
    assert_eq!(
        l.execute(&mut wallet, Instruction::SetCount(Update { authlink: ADDR }, 200)),
        Ok(())
    );
    assert_eq!(l.get(ADDR), Some(200));
    assert_eq!(l.execute(&mut wallet, Instruction::Increment(Update { authlink: ADDR })), Ok(()));
    assert_eq!(l.get(ADDR), Some(201));
    assert_eq!(l.execute(&mut wallet, Instruction::Decrement(Update { authlink: ADDR })), Ok(()));
    assert_eq!(l.get(ADDR), Some(200));
    assert_eq!(wallet, 90);
    assert_eq!(
        l.execute(&mut wallet, Instruction::Close(CloseAuthlink { authlink: ADDR })),
        Ok(())
    );
    assert_eq!(wallet, 100);
    assert_eq!(l.get(ADDR), None);
}

#[test]
fn full_lifecycle_scenario() {
    let mut l = Ledger::new(10);
    let mut payer: u64 = 100;
    assert_eq!(l.initialize(&mut payer, InitializeAuthlink { authlink: ADDR }), Ok(()));
    assert_eq!(l.set(Update { authlink: ADDR }, 200), Ok(()));
    for _ in 0..55 {
        assert_eq!(l.increment(Update { authlink: ADDR }), Ok(()));
    }
    assert_eq!(l.get(ADDR), Some(255));
    assert_eq!(l.increment(Update { authlink: ADDR }), Err(AuthlinkError::Overflow));
    assert_eq!(l.get(ADDR), Some(255));
    for _ in 0..10 {
        assert_eq!(l.decrement(Update { authlink: ADDR }), Ok(()));
    }
    assert_eq!(l.get(ADDR), Some(245));
    let mut recipient: u64 = 0;
    assert_eq!(l.close(&mut recipient, CloseAuthlink { authlink: ADDR }), Ok(()));
    assert_eq!(recipient, 10);
    assert_eq!(l.get(ADDR), None);
}
