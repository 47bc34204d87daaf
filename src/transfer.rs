//! Coin-to-credit transfer on a wallet, as an optimistic-concurrency state
//! machine: watch the wallet key and read it, compute the new wallet, commit
//! it only if the key did not change since the watch, and start over on a
//! conflict, up to a retry budget.
//!
//! The machine performs no I/O. Its driver carries out each action against
//! the store and hands the outcome back as an event.
use vstd::prelude::*;
use crate::entity::{decode_wallet, encode_wallet, parse_wallet, wallet_bytes, CreditWallet};
use crate::error::StoreError;
use crate::keys::{user_wallet_key, wallet_key_of};

verus! {

/// What a transfer of `amount` makes of wallet `w`.
pub open spec fn transfer_of(w: CreditWallet, amount: int) -> Result<CreditWallet, StoreError> {
    if amount <= 0 {
        Err(StoreError::InvalidArgument)
    } else if (w.coin_balance as int) < amount {
        Err(StoreError::InsufficientFunds)
    } else if w.credit_balance + amount > i32::MAX {
        Err(StoreError::InvalidArgument)
    } else {
        Ok(
            CreditWallet {
                coin_balance: (w.coin_balance - amount) as i32,
                credit_balance: (w.credit_balance + amount) as i32,
            },
        )
    }
}

/// The bytes of a value read from the store, if there was one.
pub open spec fn stored_bytes(stored: Option<Vec<u8>>) -> Option<Seq<u8>> {
    match stored {
        Some(v) => Some(v@),
        None => None,
    }
}

/// What a transfer makes of the stored value read at the wallet key.
pub open spec fn transition_of(stored: Option<Seq<u8>>, amount: int) -> Result<
    CreditWallet,
    StoreError,
> {
    match stored {
        None => Err(StoreError::NotFound),
        Some(b) => match parse_wallet(b) {
            None => Err(StoreError::Decode),
            Some(w) => transfer_of(w, amount),
        },
    }
}

/// Moves `amount` from the coin balance to the credit balance. A
/// non-positive amount is `InvalidArgument`, as is a credit balance that
/// would pass `i32::MAX`; fewer coins than `amount` is `InsufficientFunds`.
pub fn apply_transfer(w: CreditWallet, amount: i32) -> (r: Result<CreditWallet, StoreError>)
    ensures
        r == transfer_of(w, amount as int),
{
    if amount <= 0 {
        Err(StoreError::InvalidArgument)
    } else if w.coin_balance < amount {
        Err(StoreError::InsufficientFunds)
    } else if w.credit_balance > i32::MAX - amount {
        Err(StoreError::InvalidArgument)
    } else {
        Ok(
            CreditWallet {
                coin_balance: w.coin_balance - amount,
                credit_balance: w.credit_balance + amount,
            },
        )
    }
}

/// The transition of one attempt: decode the stored wallet (`NotFound` when
/// the key holds nothing), apply the transfer, and encode the result for
/// the commit.
pub fn transfer_transition(stored: &Option<Vec<u8>>, amount: i32) -> (r: Result<
    (CreditWallet, Vec<u8>),
    StoreError,
>)
    ensures
        match r {
            Ok((w, b)) => transition_of(stored_bytes(*stored), amount as int) == Ok::<
                CreditWallet,
                StoreError,
            >(w) && b@ == wallet_bytes(w),
            Err(e) => transition_of(stored_bytes(*stored), amount as int) == Err::<
                CreditWallet,
                StoreError,
            >(e),
        },
{
    let s = match stored {
        None => return Err(StoreError::NotFound),
        Some(s) => s,
    };
    let current = decode_wallet(s.as_slice())?;
    let next = apply_transfer(current, amount)?;
    let bytes = encode_wallet(&next);
    Ok((next, bytes))
}

/// Where a transfer stands.
pub enum TransferPhase {
    /// The wallet key is watched and its value is awaited.
    Reading,
    /// The new wallet was handed out for a conditional commit.
    Committing(CreditWallet),
    /// The transfer ended; the last action said how.
    Finished,
}

/// What the driver must do next.
pub enum TransferAction {
    /// Watch the key, then read it and report `Read`.
    WatchAndRead(String),
    /// Write the bytes at the key in a transaction that fails if the key
    /// changed since the watch; report `Committed` or `Conflict`.
    Commit(String, Vec<u8>),
    /// The transfer committed this wallet.
    Done(CreditWallet),
    /// The transfer failed; nothing of it was committed.
    Fail(StoreError),
}

/// What the driver observed.
pub enum TransferEvent {
    /// The value at the watched key (`None`: no value).
    Read(Option<Vec<u8>>),
    /// The conditional write went through.
    Committed,
    /// The watched key changed; nothing was written.
    Conflict,
    /// The store failed.
    StoreFailed,
}

/// A transfer in progress.
pub struct Transfer {
    pub key: String,
    pub amount: i32,
    pub attempts: u32,
    pub max_attempts: u32,
    pub phase: TransferPhase,
}

impl Transfer {
    pub open spec fn wf(&self) -> bool {
        &&& 1 <= self.max_attempts
        &&& self.attempts < self.max_attempts
        &&& self.amount > 0
    }

    /// Starts a transfer of `amount` from the wallet of `user_id`, allowing
    /// `max_attempts` commit attempts. A non-positive amount fails at once,
    /// before any store access.
    pub fn start(user_id: &str, amount: i32, max_attempts: u32) -> (r: (Transfer, TransferAction))
        requires
            max_attempts >= 1,
        ensures
            r.0.key@ == wallet_key_of(user_id@),
            r.0.amount == amount,
            r.0.attempts == 0,
            r.0.max_attempts == max_attempts,
            amount <= 0 ==> r.0.phase is Finished && r.1 == TransferAction::Fail(
                StoreError::InvalidArgument,
            ),
            amount > 0 ==> r.0.wf() && r.0.phase is Reading && (match r.1 {
                TransferAction::WatchAndRead(k) => k@ == r.0.key@,
                _ => false,
            }),
    {
        let key = user_wallet_key(user_id);
        if amount <= 0 {
            let t = Transfer {
                key,
                amount,
                attempts: 0,
                max_attempts,
                phase: TransferPhase::Finished,
            };
            return (t, TransferAction::Fail(StoreError::InvalidArgument));
        }
        let k2 = key.clone();
        let t = Transfer { key, amount, attempts: 0, max_attempts, phase: TransferPhase::Reading };
        (t, TransferAction::WatchAndRead(k2))
    }

    /// Takes the driver's event and says what to do next.
    ///
    /// A read leads to a commit of the transferred wallet, or to the
    /// transition's error with no write. A commit that went through ends the
    /// transfer with the committed wallet. A conflict starts over from the
    /// watch, until `max_attempts` attempts have conflicted (`Timeout`). A
    /// store failure, or an event that the phase does not await, is `Store`.
    pub fn step(&mut self, ev: TransferEvent) -> (act: TransferAction)
        requires
            old(self).wf() || old(self).phase is Finished,
        ensures
            final(self).key == old(self).key,
            final(self).amount == old(self).amount,
            final(self).max_attempts == old(self).max_attempts,
            final(self).wf() || final(self).phase is Finished,
            match (old(self).phase, ev) {
                (TransferPhase::Reading, TransferEvent::Read(stored)) => match transition_of(
                    stored_bytes(stored),
                    old(self).amount as int,
                ) {
                    Ok(w) => final(self).phase == TransferPhase::Committing(w)
                        && final(self).attempts == old(self).attempts && (match act {
                        TransferAction::Commit(k, b) => k@ == old(self).key@ && b@ == wallet_bytes(
                            w,
                        ),
                        _ => false,
                    }),
                    Err(e) => final(self).phase is Finished && act == TransferAction::Fail(e),
                },
                (TransferPhase::Committing(w), TransferEvent::Committed) => final(self).phase is Finished
                    && act == TransferAction::Done(w),
                (TransferPhase::Committing(_), TransferEvent::Conflict) => if old(self).attempts + 1
                    >= old(self).max_attempts {
                    final(self).phase is Finished && act == TransferAction::Fail(
                        StoreError::Timeout,
                    )
                } else {
                    final(self).phase is Reading && final(self).attempts == old(self).attempts + 1
                        && (match act {
                        TransferAction::WatchAndRead(k) => k@ == old(self).key@,
                        _ => false,
                    })
                },
                _ => final(self).phase is Finished && act == TransferAction::Fail(
                    StoreError::Store,
                ),
            },
    {
        match (&self.phase, ev) {
            (TransferPhase::Reading, TransferEvent::Read(stored)) => {
                match transfer_transition(&stored, self.amount) {
                    Ok((w, b)) => {
                        self.phase = TransferPhase::Committing(w);
                        TransferAction::Commit(self.key.clone(), b)
                    },
                    Err(e) => {
                        self.phase = TransferPhase::Finished;
                        TransferAction::Fail(e)
                    },
                }
            },
            (TransferPhase::Committing(w), TransferEvent::Committed) => {
                let w = *w;
                self.phase = TransferPhase::Finished;
                TransferAction::Done(w)
            },
            (TransferPhase::Committing(_), TransferEvent::Conflict) => {
                if self.attempts + 1 >= self.max_attempts {
                    self.phase = TransferPhase::Finished;
                    TransferAction::Fail(StoreError::Timeout)
                } else {
                    self.attempts = self.attempts + 1;
                    self.phase = TransferPhase::Reading;
                    TransferAction::WatchAndRead(self.key.clone())
                }
            },
            _ => {
                self.phase = TransferPhase::Finished;
                TransferAction::Fail(StoreError::Store)
            },
        }
    }
}

/// A transfer keeps both balances within range, moves exactly `amount`, and
/// leaves the total of the two balances unchanged.
pub proof fn lemma_transfer_conserves(w: CreditWallet, amount: int)
    requires
        w.wf(),
    ensures
        match transfer_of(w, amount) {
            Ok(n) => n.wf() && n.coin_balance == w.coin_balance - amount && n.credit_balance
                == w.credit_balance + amount && n.coin_balance + n.credit_balance
                == w.coin_balance + w.credit_balance,
            Err(e) => e == StoreError::InvalidArgument || e == StoreError::InsufficientFunds,
        },
{
}

/// The wallet after the transfers of `amounts`, committed one after the
/// other; a transfer that fails changes nothing.
pub open spec fn run_transfers(w: CreditWallet, amounts: Seq<int>) -> CreditWallet
    decreases amounts.len(),
{
    if amounts.len() == 0 {
        w
    } else {
        let before = run_transfers(w, amounts.drop_last());
        match transfer_of(before, amounts.last()) {
            Ok(n) => n,
            Err(_) => before,
        }
    }
}

/// The sum of the amounts of `amounts` whose transfer went through.
pub open spec fn moved_total(w: CreditWallet, amounts: Seq<int>) -> int
    decreases amounts.len(),
{
    if amounts.len() == 0 {
        0
    } else {
        let before = run_transfers(w, amounts.drop_last());
        let done = moved_total(w, amounts.drop_last());
        match transfer_of(before, amounts.last()) {
            Ok(_) => done + amounts.last(),
            Err(_) => done,
        }
    }
}

/// Transfers committed one after another lose no update: the coins drop by
/// exactly the amounts that went through, the credits rise by the same, and
/// no balance goes negative. A transfer fails for want of coins exactly when
/// the coins left by those before it are fewer than its amount.
pub proof fn lemma_serial_transfers(w: CreditWallet, amounts: Seq<int>)
    requires
        w.wf(),
    ensures
        run_transfers(w, amounts).wf(),
        run_transfers(w, amounts).coin_balance == w.coin_balance - moved_total(w, amounts),
        run_transfers(w, amounts).credit_balance == w.credit_balance + moved_total(w, amounts),
        amounts.len() > 0 ==> (transfer_of(run_transfers(w, amounts.drop_last()), amounts.last())
            == Err::<CreditWallet, StoreError>(StoreError::InsufficientFunds) <==> (amounts.last()
            > 0 && run_transfers(w, amounts.drop_last()).coin_balance < amounts.last())),
    decreases amounts.len(),
{
    if amounts.len() > 0 {
        lemma_serial_transfers(w, amounts.drop_last());
        lemma_transfer_conserves(run_transfers(w, amounts.drop_last()), amounts.last());
    }
}

} // verus!
