use vstd::prelude::*;
use crate::party::Party;

verus! {

/// Why a transfer operation was rejected.
#[derive(Clone, Copy, Debug, PartialEq, Eq, Structural)]
pub enum Error {
    AlreadyInitialized,
    NotInitialized,
    InvalidAmount,
    Unauthorized,
    TransactionNotPending,
    TransactionAlreadyCompleted,
    TransactionAlreadyCancelled,
}

/// Where an escrowed transfer stands.
#[derive(Clone, Copy, Debug, PartialEq, Eq, Structural)]
pub enum TransactionStatus {
    Pending,
    Completed,
    Cancelled,
}

/// What a transfer instance holds, as mathematical values.
pub struct TransferState {
    pub initialized: bool,
    pub sender: Seq<char>,
    pub receiver: Seq<char>,
    pub amount: i128,
    pub use_escrow: bool,
    pub status: TransactionStatus,
    pub created_at: u64,
}

impl TransferState {
    pub open spec fn send_with_escrow_spec(
        self,
        sender: Seq<char>,
        receiver: Seq<char>,
        amount: i128,
        now: u64,
    ) -> (Result<(), Error>, TransferState) {
        if self.initialized {
            (Err(Error::AlreadyInitialized), self)
        } else if amount <= 0 {
            (Err(Error::InvalidAmount), self)
        } else {
            (
                Ok(()),
                TransferState {
                    initialized: true,
                    sender,
                    receiver,
                    amount,
                    use_escrow: true,
                    status: TransactionStatus::Pending,
                    created_at: now,
                },
            )
        }
    }

    pub open spec fn confirm_receipt_spec(self, caller: Seq<char>) -> (
        Result<(), Error>,
        TransferState,
    ) {
        if !self.initialized {
            (Err(Error::NotInitialized), self)
        } else if caller != self.receiver {
            (Err(Error::Unauthorized), self)
        } else if self.status != TransactionStatus::Pending {
            (Err(Error::TransactionNotPending), self)
        } else {
            (Ok(()), TransferState { status: TransactionStatus::Completed, ..self })
        }
    }

    pub open spec fn cancel_spec(self, caller: Seq<char>) -> (Result<(), Error>, TransferState) {
        if !self.initialized {
            (Err(Error::NotInitialized), self)
        } else if caller != self.sender {
            (Err(Error::Unauthorized), self)
        } else if self.status != TransactionStatus::Pending {
            (Err(Error::TransactionNotPending), self)
        } else {
            (Ok(()), TransferState { status: TransactionStatus::Cancelled, ..self })
        }
    }
}

/// What a direct transfer of `amount` returns: it is refused unless the
/// amount is positive.
pub open spec fn send_direct_spec(amount: i128) -> Result<(), Error> {
    if amount <= 0 {
        Err(Error::InvalidAmount)
    } else {
        Ok(())
    }
}

/// A transfer that is already opened refuses a second escrowed send,
/// whatever its arguments, and keeps its state.
pub proof fn transfer_initialize_once(
    s: TransferState,
    sender: Seq<char>,
    receiver: Seq<char>,
    amount: i128,
    now: u64,
)
    requires
        s.initialized,
    ensures
        s.send_with_escrow_spec(sender, receiver, amount, now) == (
            Err::<(), Error>(Error::AlreadyInitialized),
            s,
        ),
{
}

/// A transfer of zero or a negative amount is refused with `InvalidAmount`,
/// directly or through escrow, and changes nothing.
pub proof fn transfer_rejects_nonpositive_amounts(
    s: TransferState,
    sender: Seq<char>,
    receiver: Seq<char>,
    amount: i128,
    now: u64,
)
    requires
        amount <= 0,
    ensures
        send_direct_spec(amount) == Err::<(), Error>(Error::InvalidAmount),
        !s.initialized ==> s.send_with_escrow_spec(sender, receiver, amount, now) == (
            Err::<(), Error>(Error::InvalidAmount),
            s,
        ),
{
}

/// Only the receiver may confirm and only the sender may cancel: anyone
/// else is refused with `Unauthorized` and nothing changes.
pub proof fn transfer_authorization_boundary(s: TransferState, caller: Seq<char>)
    requires
        s.initialized,
    ensures
        caller != s.receiver ==> s.confirm_receipt_spec(caller) == (
            Err::<(), Error>(Error::Unauthorized),
            s,
        ),
        caller != s.sender ==> s.cancel_spec(caller) == (Err::<(), Error>(Error::Unauthorized), s),
{
}

/// A transfer from a sender to a receiver, either direct or held in escrow
/// until the receiver confirms it or the sender cancels it.
#[derive(Debug)]
pub struct P2PContract {
    initialized: bool,
    sender: Party,
    receiver: Party,
    amount: i128,
    use_escrow: bool,
    status: TransactionStatus,
    created_at: u64,
}

impl View for P2PContract {
    type V = TransferState;

    closed spec fn view(&self) -> TransferState {
        TransferState {
            initialized: self.initialized,
            sender: self.sender@,
            receiver: self.receiver@,
            amount: self.amount,
            use_escrow: self.use_escrow,
            status: self.status,
            created_at: self.created_at,
        }
    }
}

impl P2PContract {
    /// An instance that holds no transfer yet.
    pub fn new() -> (r: P2PContract)
        ensures
            !r@.initialized,
    {
        P2PContract {
            initialized: false,
            sender: Party::new(String::new()),
            receiver: Party::new(String::new()),
            amount: 0,
            use_escrow: false,
            status: TransactionStatus::Pending,
            created_at: 0,
        }
    }

    /// Accepts a direct transfer of a positive amount; nothing is held.
    pub fn send_direct(sender: &Party, receiver: &Party, amount: i128) -> (r: Result<(), Error>)
        ensures
            r == send_direct_spec(amount),
    {
        if amount <= 0 {
            return Err(Error::InvalidAmount);
        }
        Ok(())
    }

    /// Opens an escrowed transfer of a positive amount, pending until the
    /// receiver confirms or the sender cancels.
    pub fn send_with_escrow(&mut self, sender: Party, receiver: Party, amount: i128, now: u64) -> (r:
        Result<(), Error>)
        ensures
            (r, final(self)@) == old(self)@.send_with_escrow_spec(sender@, receiver@, amount, now),
    {
        if self.initialized {
            return Err(Error::AlreadyInitialized);
        }
        if amount <= 0 {
            return Err(Error::InvalidAmount);
        }
        self.sender = sender;
        self.receiver = receiver;
        self.amount = amount;
        self.use_escrow = true;
        self.status = TransactionStatus::Pending;
        self.created_at = now;
        self.initialized = true;
        Ok(())
    }

    /// Completes a pending transfer; only the receiver may.
    pub fn confirm_receipt(&mut self, caller: &Party) -> (r: Result<(), Error>)
        ensures
            (r, final(self)@) == old(self)@.confirm_receipt_spec(caller@),
    {
        if !self.initialized {
            return Err(Error::NotInitialized);
        }
        if !caller.same(&self.receiver) {
            return Err(Error::Unauthorized);
        }
        if self.status != TransactionStatus::Pending {
            return Err(Error::TransactionNotPending);
        }
        self.status = TransactionStatus::Completed;
        Ok(())
    }

    /// Voids a pending transfer; only the sender may.
    pub fn cancel(&mut self, caller: &Party) -> (r: Result<(), Error>)
        ensures
            (r, final(self)@) == old(self)@.cancel_spec(caller@),
    {
        if !self.initialized {
            return Err(Error::NotInitialized);
        }
        if !caller.same(&self.sender) {
            return Err(Error::Unauthorized);
        }
        if self.status != TransactionStatus::Pending {
            return Err(Error::TransactionNotPending);
        }
        self.status = TransactionStatus::Cancelled;
        Ok(())
    }

    pub fn get_status(&self) -> (r: Result<TransactionStatus, Error>)
        ensures
            r == (if self@.initialized {
                Ok(self@.status)
            } else {
                Err(Error::NotInitialized)
            }),
    {
        if self.initialized {
            Ok(self.status)
        } else {
            Err(Error::NotInitialized)
        }
    }

    pub fn get_amount(&self) -> (r: Result<i128, Error>)
        ensures
            r == (if self@.initialized {
                Ok(self@.amount)
            } else {
                Err(Error::NotInitialized)
            }),
    {
        if self.initialized {
            Ok(self.amount)
        } else {
            Err(Error::NotInitialized)
        }
    }

    pub fn get_sender(&self) -> (r: Result<Party, Error>)
        ensures
            match r {
                Ok(p) => self@.initialized && p@ == self@.sender,
                Err(e) => !self@.initialized && e == Error::NotInitialized,
            },
    {
        if self.initialized {
            Ok(self.sender.clone())
        } else {
            Err(Error::NotInitialized)
        }
    }

    pub fn get_receiver(&self) -> (r: Result<Party, Error>)
        ensures
            match r {
                Ok(p) => self@.initialized && p@ == self@.receiver,
                Err(e) => !self@.initialized && e == Error::NotInitialized,
            },
    {
        if self.initialized {
            Ok(self.receiver.clone())
        } else {
            Err(Error::NotInitialized)
        }
    }

    pub fn uses_escrow(&self) -> (r: Result<bool, Error>)
        ensures
            r == (if self@.initialized {
                Ok(self@.use_escrow)
            } else {
                Err(Error::NotInitialized)
            }),
    {
        if self.initialized {
            Ok(self.use_escrow)
        } else {
            Err(Error::NotInitialized)
        }
    }
    /// Rebuilds an opened transfer from its persisted fields.
    pub fn restore(
        sender: Party,
        receiver: Party,
        amount: i128,
        use_escrow: bool,
        status: TransactionStatus,
        created_at: u64,
    ) -> (r: P2PContract)
        ensures
            r@ == (TransferState {
                initialized: true,
                sender: sender@,
                receiver: receiver@,
                amount,
                use_escrow,
                status,
                created_at,
            }),
    {
        P2PContract { initialized: true, sender, receiver, amount, use_escrow, status, created_at }
    }
}

} // verus!
