use redis_store::entity::{decode_wallet, encode_wallet, CreditWallet};
use redis_store::error::StoreError;
use redis_store::transfer::{
    apply_transfer, transfer_transition, Transfer, TransferAction, TransferEvent, TransferPhase,
};

fn wallet(coins: i32, credits: i32) -> CreditWallet {
    CreditWallet { coin_balance: coins, credit_balance: credits }
}

/// A single watched key with a version that every write bumps.
struct VersionedCell {
    value: Option<Vec<u8>>,
    version: u64,
}

/// Runs one machine to its end against the cell, with no other writer.
fn run_alone(cell: &mut VersionedCell, user: &str, amount: i32) -> Result<CreditWallet, StoreError> {
    let (mut t, mut act) = Transfer::start(user, amount, 5);
    loop {
        act = match act {
            TransferAction::WatchAndRead(_) => t.step(TransferEvent::Read(cell.value.clone())),
            TransferAction::Commit(_, bytes) => {
                cell.value = Some(bytes);
                cell.version += 1;
                t.step(TransferEvent::Committed)
            }
            TransferAction::Done(w) => return Ok(w),
            TransferAction::Fail(e) => return Err(e),
        }
    }
}

#[test]
fn transfer_moves_coins_to_credits() {
    let mut cell = VersionedCell { value: Some(encode_wallet(&wallet(100, 50))), version: 0 };
    let w = run_alone(&mut cell, "1234", 30).unwrap();
    assert_eq!(w, wallet(70, 80));
    assert_eq!(w.coin_balance + w.credit_balance, 150);
    assert_eq!(decode_wallet(cell.value.as_ref().unwrap()), Ok(wallet(70, 80)));
}

#[test]
fn transfer_actions_in_order() {
    let (mut t, act) = Transfer::start("1234", 30, 3);
    match act {
        TransferAction::WatchAndRead(k) => assert_eq!(k, "user:1234:wallet"),
        _ => panic!("expected a watch"),
    }
    let act = t.step(TransferEvent::Read(Some(encode_wallet(&wallet(100, 50)))));
    match act {
        TransferAction::Commit(k, b) => {
            assert_eq!(k, "user:1234:wallet");
            assert_eq!(b, encode_wallet(&wallet(70, 80)));
        }
        _ => panic!("expected a commit"),
    }
    assert!(matches!(t.phase, TransferPhase::Committing(_)));
    let act = t.step(TransferEvent::Committed);
    assert!(matches!(act, TransferAction::Done(w) if w == wallet(70, 80)));
    assert!(matches!(t.phase, TransferPhase::Finished));
}

#[test]
fn insufficient_funds_writes_nothing() {
    let before = encode_wallet(&wallet(100, 50));
    let mut cell = VersionedCell { value: Some(before.clone()), version: 0 };
    assert_eq!(run_alone(&mut cell, "1234", 1000), Err(StoreError::InsufficientFunds));
    assert_eq!(cell.value, Some(before));
    assert_eq!(cell.version, 0);
}

#[test]
fn non_positive_amount_is_invalid_without_store_access() {
    for amount in [0, -5] {
        let (t, act) = Transfer::start("1234", amount, 5);
        assert!(matches!(act, TransferAction::Fail(StoreError::InvalidArgument)));
        assert!(matches!(t.phase, TransferPhase::Finished));
    }
    assert_eq!(apply_transfer(wallet(100, 50), 0), Err(StoreError::InvalidArgument));
}

#[test]
fn missing_wallet_in_transfer_is_not_found() {
    assert_eq!(transfer_transition(&None, 10).err(), Some(StoreError::NotFound));
    assert_eq!(transfer_transition(&Some(vec![0xFF]), 10).err(), Some(StoreError::Decode));
}

#[test]
fn credit_overflow_is_refused() {
    assert_eq!(apply_transfer(wallet(100, i32::MAX - 10), 20), Err(StoreError::InvalidArgument));
    assert_eq!(apply_transfer(wallet(100, i32::MAX - 20), 20), Ok(wallet(80, i32::MAX)));
}

#[test]
fn exact_balance_can_be_moved() {
    assert_eq!(apply_transfer(wallet(100, 0), 100), Ok(wallet(0, 100)));
    assert_eq!(apply_transfer(wallet(100, 0), 101), Err(StoreError::InsufficientFunds));
}

#[test]
fn repeated_conflicts_time_out() {
    let (mut t, _) = Transfer::start("1234", 10, 2);
    let stored = Some(encode_wallet(&wallet(100, 0)));
    assert!(matches!(t.step(TransferEvent::Read(stored.clone())), TransferAction::Commit(_, _)));
    assert!(matches!(t.step(TransferEvent::Conflict), TransferAction::WatchAndRead(_)));
    assert_eq!(t.attempts, 1);
    assert!(matches!(t.step(TransferEvent::Read(stored)), TransferAction::Commit(_, _)));
    assert!(matches!(t.step(TransferEvent::Conflict), TransferAction::Fail(StoreError::Timeout)));
}

#[test]
fn unexpected_event_is_store_error() {
    let (mut t, _) = Transfer::start("1234", 10, 2);
    assert!(matches!(t.step(TransferEvent::Committed), TransferAction::Fail(StoreError::Store)));
    let (mut t, _) = Transfer::start("1234", 10, 2);
    assert!(matches!(t.step(TransferEvent::StoreFailed), TransferAction::Fail(StoreError::Store)));
}

/// Interleaves several transfers on one wallet: each watches, reads, and
/// commits only if the version it watched is still current.
#[test]
fn racing_transfers_serialize() {
    let mut cell = VersionedCell { value: Some(encode_wallet(&wallet(100, 0))), version: 0 };
    let amounts = [40, 40, 40, 40];
    let mut machines: Vec<(Transfer, TransferAction, u64)> = amounts
        .iter()
        .map(|a| {
            let (t, act) = Transfer::start("1234", *a, 50);
            (t, act, 0)
        })
        .collect();
    let mut results: Vec<Option<Result<CreditWallet, StoreError>>> = vec![None; amounts.len()];
    while results.iter().any(|r| r.is_none()) {
        // one action of each live machine per round, so that reads race
        for (i, m) in machines.iter_mut().enumerate() {
            if results[i].is_some() {
                continue;
            }
            let act = std::mem::replace(&mut m.1, TransferAction::Fail(StoreError::Store));
            m.1 = match act {
                TransferAction::WatchAndRead(_) => {
                    m.2 = cell.version;
                    m.0.step(TransferEvent::Read(cell.value.clone()))
                }
                TransferAction::Commit(_, bytes) => {
                    if cell.version == m.2 {
                        cell.value = Some(bytes);
                        cell.version += 1;
                        m.0.step(TransferEvent::Committed)
                    } else {
                        m.0.step(TransferEvent::Conflict)
                    }
                }
                TransferAction::Done(w) => {
                    results[i] = Some(Ok(w));
                    TransferAction::Done(w)
                }
                TransferAction::Fail(e) => {
                    results[i] = Some(Err(e));
                    TransferAction::Fail(e)
                }
            };
        }
    }
    let ok = results.iter().filter(|r| matches!(r, Some(Ok(_)))).count();
    let poor = results
        .iter()
        .filter(|r| matches!(r, Some(Err(StoreError::InsufficientFunds))))
        .count();
    assert_eq!(ok, 2);
    assert_eq!(poor, 2);
    assert_eq!(decode_wallet(cell.value.as_ref().unwrap()), Ok(wallet(20, 80)));
}
