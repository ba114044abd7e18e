//! The course of a withdrawal.
//!
//! A withdrawal goes from one question to the outside to the next. Each stage is a
//! value that holds what is known so far; the answer to its question takes it to
//! the next stage or ends the withdrawal.
//!
//! [`begin`] is followed by [`KeyPending`] (the minter's main address),
//! [`GuardPending`] (the guard and the state of the minter), [`BalancePending`]
//! (the ledger), [`CheckPending`] (the KYT canister) and [`BurnPending`] (the
//! ledger again).
use super::blocklist::Blocklist;
use super::kyt::{judged, kyt_check_address, kyt_refusal, KytReply};
use super::ledger::{balance_of, balance_refusal, burn_ckbtcs, burn_stop, TransferError};
use super::types::{
    guard_refusal, BtcAddressCheckStatus, CallError, ErrorCode, GuardError, ParseAddressError,
    RetrieveBtcArgs, RetrieveBtcError, RetrieveBtcErrorView, RetrieveBtcOk, Stop, StopView,
};
use crate::principal::Principal;
use crate::text::trimmed;
use vstd::prelude::*;
use vstd::string::*;

verus! {

/// The number of unfinished withdrawals at which no new one is taken.
pub const MAX_CONCURRENT_PENDING_REQUESTS: usize = 1000;

/// Whether the burn belongs to an accepted or to a rejected withdrawal.
#[derive(Clone, Copy, Debug, PartialEq, Eq)]
pub enum MemoStatus {
    Accepted,
    Rejected,
}

/// What the memo of a burn says.
#[derive(Clone, Debug, PartialEq, Eq)]
pub struct BurnMemo {
    pub address: Option<String>,
    pub kyt_fee: Option<u64>,
    pub status: Option<MemoStatus>,
}

/// A burn on the ledger.
#[derive(Clone, Debug, PartialEq, Eq)]
pub struct BurnOrder {
    pub amount: u64,
    pub memo: BurnMemo,
}

/// A question to the KYT canister.
#[derive(Clone, Debug, PartialEq, Eq)]
pub struct CheckOrder {
    pub caller: Principal,
    pub address: String,
    pub amount: u64,
}

/// An accepted withdrawal, to a destination of type `A`.
#[derive(Clone, Debug, PartialEq, Eq)]
pub struct RetrieveBtcRequest<A> {
    /// The amount to send, after the KYT fee.
    pub amount: u64,
    /// Where to send it.
    pub address: A,
    /// The index of the burn block.
    pub block_index: u64,
    /// When the request was accepted.
    pub received_at: u64,
    /// The provider of the KYT check.
    pub kyt_provider: Option<Principal>,
}

/// The record of a withdrawal to a tainted address.
#[derive(Clone, Debug, PartialEq, Eq)]
pub struct KytFailure {
    pub owner: Principal,
    pub address: String,
    pub amount: u64,
    pub kyt_provider: Principal,
    pub uuid: String,
    pub block_index: u64,
}

/// How a withdrawal ends once ckBTC were burnt for it.
#[derive(Clone, Debug, PartialEq, Eq)]
pub enum Settled<A> {
    /// The failure is recorded and the caller gets the error.
    Rejected { failure: KytFailure, error: RetrieveBtcError },
    /// The request is put into the queue and the caller gets the answer.
    Accepted { request: RetrieveBtcRequest<A>, ok: RetrieveBtcOk },
}

// ---- the checks, in the order in which they are made ----

/// Ends a withdrawal before anything is asked: the minter does not serve the
/// caller, or the address is on the blocklist.
pub open spec fn begin_stop(
    args: RetrieveBtcArgs,
    availability: Result<(), String>,
    blocked: Seq<Seq<char>>,
) -> Option<StopView> {
    match availability {
        Err(reason) => Some(
            StopView::Refused(RetrieveBtcErrorView::TemporarilyUnavailable(reason@)),
        ),
        Ok(_) => if blocked.contains(trimmed(args.address@)) {
            Some(StopView::Trapped("attempted to retrieve BTC to a blocked address"@))
        } else {
            None
        },
    }
}

/// Ends a withdrawal to the minter's own address.
pub open spec fn key_stop(args: RetrieveBtcArgs, main_address: Option<String>) -> Option<StopView> {
    match main_address {
        None => Some(
            StopView::Trapped(
                "unreachable: have retrieve BTC requests but the ECDSA key is not initialized"@,
            ),
        ),
        Some(own) => if args.address@ == own@ {
            Some(StopView::Trapped("illegal retrieve_btc target"@))
        } else {
            None
        },
    }
}

/// Ends a withdrawal that the minter does not take on.
pub open spec fn admission_stop<A>(
    args: RetrieveBtcArgs,
    guard: Result<(), GuardError>,
    min_amount: u64,
    parsed: Result<A, ParseAddressError>,
    pending_requests: usize,
) -> Option<StopView> {
    match guard {
        Err(e) => Some(StopView::Refused(guard_refusal(e))),
        Ok(_) => if args.amount < min_amount {
            Some(StopView::Refused(RetrieveBtcErrorView::AmountTooLow(min_amount)))
        } else {
            match parsed {
                Err(e) => Some(
                    StopView::Refused(RetrieveBtcErrorView::MalformedAddress(e.message@)),
                ),
                Ok(_) => if pending_requests >= MAX_CONCURRENT_PENDING_REQUESTS {
                    Some(
                        StopView::Refused(
                            RetrieveBtcErrorView::TemporarilyUnavailable(
                                "too many pending retrieve_btc requests"@,
                            ),
                        ),
                    )
                } else {
                    None
                },
            }
        },
    }
}

/// Ends a withdrawal that the caller's account does not cover.
pub open spec fn funds_stop(
    args: RetrieveBtcArgs,
    balance: Result<u64, CallError>,
) -> Option<StopView> {
    match balance {
        Err(e) => Some(StopView::Refused(balance_refusal(e))),
        Ok(balance) => if args.amount > balance {
            Some(StopView::Refused(RetrieveBtcErrorView::InsufficientFunds { balance }))
        } else {
            None
        },
    }
}

/// Ends a withdrawal whose address was not checked.
pub open spec fn check_stop(reply: KytReply) -> Option<StopView> {
    match kyt_refusal(reply) {
        Some(error) => Some(StopView::Refused(error)),
        None => None,
    }
}

/// What is burnt: the whole amount for a clean address, only the fee for a
/// tainted one.
pub open spec fn burnt_amount(amount: u64, status: BtcAddressCheckStatus, kyt_fee: u64) -> u64 {
    match status {
        BtcAddressCheckStatus::Clean => amount,
        BtcAddressCheckStatus::Tainted => kyt_fee,
    }
}

/// How the memo of the burn marks it.
pub open spec fn memo_status(status: BtcAddressCheckStatus) -> MemoStatus {
    match status {
        BtcAddressCheckStatus::Clean => MemoStatus::Accepted,
        BtcAddressCheckStatus::Tainted => MemoStatus::Rejected,
    }
}

/// What the caller is told of a tainted address.
pub open spec fn tainted_refusal(kyt_fee_text: Seq<char>) -> RetrieveBtcErrorView {
    RetrieveBtcErrorView::GenericError {
        error_message: "Destination address is tainted, KYT check fee deducted: "@ + kyt_fee_text,
        error_code: ErrorCode::TaintedAddress.number(),
    }
}

// ---- the stages ----

/// A withdrawal that waits for the minter's public key.
pub struct KeyPending {
    caller: Principal,
    args: RetrieveBtcArgs,
}

/// A withdrawal that waits for its guard.
pub struct GuardPending {
    caller: Principal,
    args: RetrieveBtcArgs,
}

/// A withdrawal that waits for the balance of the caller's account.
pub struct BalancePending<A> {
    caller: Principal,
    args: RetrieveBtcArgs,
    address: A,
}

/// A withdrawal that waits for the KYT check.
pub struct CheckPending<A> {
    caller: Principal,
    args: RetrieveBtcArgs,
    address: A,
}

/// A withdrawal that waits for the burn.
pub struct BurnPending<A> {
    caller: Principal,
    args: RetrieveBtcArgs,
    address: A,
    uuid: String,
    status: BtcAddressCheckStatus,
    kyt_provider: Principal,
    kyt_fee: u64,
}

/// Takes up a withdrawal of `caller`. `availability` says whether the minter
/// serves the caller.
pub fn begin(
    caller: Principal,
    args: RetrieveBtcArgs,
    availability: Result<(), String>,
    blocklist: &Blocklist,
) -> (r: Result<KeyPending, Stop>)
    ensures
        match r {
            Ok(next) => {
                &&& begin_stop(args, availability, blocklist@) is None
                &&& next.caller() == caller
                &&& next.args() == args
            },
            Err(stop) => begin_stop(args, availability, blocklist@) == Some(stop@),
        },
{
    match availability {
        Err(reason) => Err(Stop::Refused(RetrieveBtcError::TemporarilyUnavailable(reason))),
        Ok(_) => {
            if blocklist.blocks(args.address.as_str()) {
                Err(Stop::Trapped("attempted to retrieve BTC to a blocked address".to_owned()))
            } else {
                Ok(KeyPending { caller, args })
            }
        },
    }
}

impl KeyPending {
    /// Who withdraws.
    pub closed spec fn caller(self) -> Principal {
        self.caller
    }

    /// What is asked for.
    pub closed spec fn args(self) -> RetrieveBtcArgs {
        self.args
    }

    /// Goes on once the public key was fetched. `main_address` is the address of
    /// the minter itself, if it has a key.
    pub fn key_ready(self, main_address: Option<String>) -> (r: Result<GuardPending, Stop>)
        ensures
            match r {
                Ok(next) => {
                    &&& key_stop(self.args(), main_address) is None
                    &&& next.caller() == self.caller()
                    &&& next.args() == self.args()
                },
                Err(stop) => key_stop(self.args(), main_address) == Some(stop@),
            },
    {
        match main_address {
            None => Err(
                Stop::Trapped(
                    "unreachable: have retrieve BTC requests but the ECDSA key is not initialized".to_owned(),
                ),
            ),
            Some(own) => {
                if self.args.address == own {
                    Err(Stop::Trapped("illegal retrieve_btc target".to_owned()))
                } else {
                    Ok(GuardPending { caller: self.caller, args: self.args })
                }
            },
        }
    }
}

impl GuardPending {
    /// Who withdraws.
    pub closed spec fn caller(self) -> Principal {
        self.caller
    }

    /// What is asked for.
    pub closed spec fn args(self) -> RetrieveBtcArgs {
        self.args
    }

    /// Goes on once the guard was asked for. `parsed` is the destination that the
    /// address stands for, and `pending_requests` the number of withdrawals that
    /// are not finished.
    pub fn guarded<A>(
        self,
        guard: Result<(), GuardError>,
        min_amount: u64,
        parsed: Result<A, ParseAddressError>,
        pending_requests: usize,
    ) -> (r: Result<BalancePending<A>, Stop>)
        ensures
            match r {
                Ok(next) => {
                    &&& admission_stop(self.args(), guard, min_amount, parsed, pending_requests) is None
                    &&& next.caller() == self.caller()
                    &&& next.args() == self.args()
                    &&& parsed == Ok::<A, ParseAddressError>(next.address())
                },
                Err(stop) => admission_stop(
                    self.args(),
                    guard,
                    min_amount,
                    parsed,
                    pending_requests,
                ) == Some(stop@),
            },
    {
        match guard {
            Err(e) => Err(Stop::Refused(RetrieveBtcError::from(e))),
            Ok(_) => {
                if self.args.amount < min_amount {
                    return Err(Stop::Refused(RetrieveBtcError::AmountTooLow(min_amount)));
                }
                match parsed {
                    Err(e) => Err(Stop::Refused(RetrieveBtcError::from(e))),
                    Ok(address) => {
                        if pending_requests >= MAX_CONCURRENT_PENDING_REQUESTS {
                            Err(
                                Stop::Refused(
                                    RetrieveBtcError::TemporarilyUnavailable(
                                        "too many pending retrieve_btc requests".to_owned(),
                                    ),
                                ),
                            )
                        } else {
                            Ok(BalancePending { caller: self.caller, args: self.args, address })
                        }
                    },
                }
            },
        }
    }
}

impl<A> BalancePending<A> {
    /// Who withdraws.
    pub closed spec fn caller(self) -> Principal {
        self.caller
    }

    /// What is asked for.
    pub closed spec fn args(self) -> RetrieveBtcArgs {
        self.args
    }

    /// The destination.
    pub closed spec fn address(self) -> A {
        self.address
    }

    /// Goes on once the ledger told the balance of the caller's account.
    pub fn balance_told(self, reply: Result<u64, CallError>) -> (r: Result<CheckPending<A>, Stop>)
        ensures
            match r {
                Ok(next) => {
                    &&& funds_stop(self.args(), reply) is None
                    &&& next.caller() == self.caller()
                    &&& next.args() == self.args()
                    &&& next.address() == self.address()
                },
                Err(stop) => funds_stop(self.args(), reply) == Some(stop@),
            },
            r is Ok <==> (reply matches Ok(balance) && self.args().amount <= balance),
    {
        match balance_of(reply) {
            Err(error) => Err(Stop::Refused(error)),
            Ok(balance) => {
                if self.args.amount > balance {
                    Err(Stop::Refused(RetrieveBtcError::InsufficientFunds { balance }))
                } else {
                    Ok(
                        CheckPending {
                            caller: self.caller,
                            args: self.args,
                            address: self.address,
                        },
                    )
                }
            },
        }
    }
}

impl<A> CheckPending<A> {
    /// Who withdraws.
    pub closed spec fn caller(self) -> Principal {
        self.caller
    }

    /// What is asked for.
    pub closed spec fn args(self) -> RetrieveBtcArgs {
        self.args
    }

    /// The destination.
    pub closed spec fn address(self) -> A {
        self.address
    }

    /// What the KYT canister is asked.
    pub fn order(&self) -> (order: CheckOrder)
        ensures
            order.caller == self.caller(),
            order.address == self.args().address,
            order.amount == self.args().amount,
    {
        CheckOrder {
            caller: self.caller,
            address: self.args.address.clone(),
            amount: self.args.amount,
        }
    }

    /// Goes on once the KYT canister answered. `kyt_fee` is the fee of the check.
    pub fn checked(self, reply: KytReply, kyt_fee: u64) -> (r: Result<BurnPending<A>, Stop>)
        ensures
            match r {
                Ok(next) => {
                    &&& check_stop(reply) is None
                    &&& reply matches Ok(Ok(response)) && next.uuid() == response.external_id
                        && next.status() == judged(response) && next.kyt_provider()
                        == response.provider
                    &&& next.caller() == self.caller()
                    &&& next.args() == self.args()
                    &&& next.address() == self.address()
                    &&& next.kyt_fee() == kyt_fee
                },
                Err(stop) => check_stop(reply) == Some(stop@),
            },
    {
        match kyt_check_address(reply) {
            Err(error) => Err(Stop::Refused(error)),
            Ok((uuid, status, kyt_provider)) => Ok(
                BurnPending {
                    caller: self.caller,
                    args: self.args,
                    address: self.address,
                    uuid,
                    status,
                    kyt_provider,
                    kyt_fee,
                },
            ),
        }
    }
}

impl<A> BurnPending<A> {
    /// Who withdraws.
    pub closed spec fn caller(self) -> Principal {
        self.caller
    }

    /// What is asked for.
    pub closed spec fn args(self) -> RetrieveBtcArgs {
        self.args
    }

    /// The destination.
    pub closed spec fn address(self) -> A {
        self.address
    }

    /// The identifier of the KYT check.
    pub closed spec fn uuid(self) -> String {
        self.uuid
    }

    /// The outcome of the KYT check.
    pub closed spec fn status(self) -> BtcAddressCheckStatus {
        self.status
    }

    /// The provider of the KYT check.
    pub closed spec fn kyt_provider(self) -> Principal {
        self.kyt_provider
    }

    /// The fee of the KYT check.
    pub closed spec fn kyt_fee(self) -> u64 {
        self.kyt_fee
    }

    /// What the ledger is asked to burn.
    pub fn order(&self) -> (order: BurnOrder)
        ensures
            order.amount == burnt_amount(self.args().amount, self.status(), self.kyt_fee()),
            order.memo.address == Some(self.args().address),
            order.memo.kyt_fee == Some(self.kyt_fee()),
            order.memo.status == Some(memo_status(self.status())),
    {
        let (amount, status) = match self.status {
            BtcAddressCheckStatus::Clean => (self.args.amount, MemoStatus::Accepted),
            BtcAddressCheckStatus::Tainted => (self.kyt_fee, MemoStatus::Rejected),
        };
        BurnOrder {
            amount,
            memo: BurnMemo {
                address: Some(self.args.address.clone()),
                kyt_fee: Some(self.kyt_fee),
                status: Some(status),
            },
        }
    }

    /// What the fee of the check leaves of the amount can be counted. A fee above
    /// the amount of a clean withdrawal leaves nothing that could be sent.
    pub fn fee_is_covered(&self) -> (r: bool)
        ensures
            r == (self.status() is Clean ==> self.kyt_fee() <= self.args().amount),
    {
        match self.status {
            BtcAddressCheckStatus::Clean => self.kyt_fee <= self.args.amount,
            BtcAddressCheckStatus::Tainted => true,
        }
    }

    /// Ends the withdrawal once the ledger answered. `min_amount` is the least
    /// amount of a withdrawal and `now` the time, both at the moment of the
    /// answer; `kyt_fee_text` is the fee as callers read it.
    pub fn burnt(
        self,
        reply: Result<Result<u64, TransferError>, CallError>,
        min_amount: u64,
        now: u64,
        kyt_fee_text: String,
    ) -> (r: Result<Settled<A>, Stop>)
        requires
            self.status() is Clean && (reply matches Ok(Ok(_))) ==> self.kyt_fee()
                <= self.args().amount,
        ensures
            match r {
                Ok(settled) => {
                    &&& reply matches Ok(Ok(block_index)) && self.settles(
                        settled,
                        block_index,
                        now,
                        kyt_fee_text@,
                    )
                },
                Err(stop) => burn_stop(reply, min_amount) == Some(stop@),
            },
    {
        match burn_ckbtcs(reply, min_amount) {
            Err(stop) => Err(stop),
            Ok(block_index) => match self.status {
                BtcAddressCheckStatus::Tainted => {
                    let mut message =
                        "Destination address is tainted, KYT check fee deducted: ".to_owned();
                    message.append(kyt_fee_text.as_str());
                    Ok(
                        Settled::Rejected {
                            failure: KytFailure {
                                owner: self.caller,
                                address: self.args.address,
                                amount: self.args.amount,
                                kyt_provider: self.kyt_provider,
                                uuid: self.uuid,
                                block_index,
                            },
                            error: RetrieveBtcError::GenericError {
                                error_message: message,
                                error_code: ErrorCode::TaintedAddress.code(),
                            },
                        },
                    )
                },
                BtcAddressCheckStatus::Clean => Ok(
                    Settled::Accepted {
                        request: RetrieveBtcRequest {
                            amount: self.args.amount - self.kyt_fee,
                            address: self.address,
                            block_index,
                            received_at: now,
                            kyt_provider: Some(self.kyt_provider),
                        },
                        ok: RetrieveBtcOk { block_index },
                    },
                ),
            },
        }
    }

    /// Whether `settled` is how this withdrawal ends after the burn in block
    /// `block_index`.
    pub open spec fn settles(
        self,
        settled: Settled<A>,
        block_index: u64,
        now: u64,
        kyt_fee_text: Seq<char>,
    ) -> bool {
        match self.status() {
            BtcAddressCheckStatus::Tainted => settled matches Settled::Rejected { failure, error }
                && failure == (KytFailure {
                owner: self.caller(),
                address: self.args().address,
                amount: self.args().amount,
                kyt_provider: self.kyt_provider(),
                uuid: self.uuid(),
                block_index,
            }) && error@ == tainted_refusal(kyt_fee_text),
            BtcAddressCheckStatus::Clean => settled matches Settled::Accepted { request, ok }
                && request == (RetrieveBtcRequest {
                amount: (self.args().amount - self.kyt_fee()) as u64,
                address: self.address(),
                block_index,
                received_at: now,
                kyt_provider: Some(self.kyt_provider()),
            }) && ok == (RetrieveBtcOk { block_index }),
        }
    }
}

} // verus!
