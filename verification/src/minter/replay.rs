//! A withdrawal from its first check to its end, given every answer it gets.
use super::blocklist::Blocklist;
use super::kyt::{judged, KytReply};
use super::ledger::{burn_stop, TransferError};
use super::retrieve_btc::{
    admission_stop, begin, begin_stop, burnt_amount, check_stop, funds_stop, key_stop, memo_status,
    tainted_refusal, BurnOrder, BurnPending, KytFailure, MemoStatus, RetrieveBtcRequest, Settled,
    MAX_CONCURRENT_PENDING_REQUESTS,
};
use super::types::{
    BtcAddressCheckStatus, CallError, ErrorCode, GuardError, ParseAddressError, RetrieveBtcArgs,
    RetrieveBtcErrorView, RetrieveBtcOk, Stop, StopView,
};
use crate::principal::Principal;
use crate::text::trimmed;
use vstd::prelude::*;

verus! {

/// The answers that a withdrawal to a destination of type `A` gets from outside.
/// Those after the one that ends it are not looked at.
pub struct Answers<A> {
    /// Whether the minter serves the caller.
    pub availability: Result<(), String>,
    /// The address of the minter itself.
    pub main_address: Option<String>,
    /// Whether the guard was given.
    pub guard: Result<(), GuardError>,
    /// The least amount of a withdrawal.
    pub min_amount: u64,
    /// The destination that the address stands for.
    pub parsed: Result<A, ParseAddressError>,
    /// The number of unfinished withdrawals.
    pub pending_requests: usize,
    /// The balance of the caller's account.
    pub balance: Result<u64, CallError>,
    /// The answer of the KYT canister.
    pub kyt: KytReply,
    /// The fee of the KYT check.
    pub kyt_fee: u64,
    /// The fee as callers read it.
    pub kyt_fee_text: String,
    /// The answer of the ledger to the burn.
    pub burn: Result<Result<u64, TransferError>, CallError>,
    /// The least amount of a withdrawal when the burn was answered.
    pub min_amount_after_burn: u64,
    /// The time when the burn was answered.
    pub now: u64,
}

/// How a withdrawal ends before anything is burnt for it, if it does: the first
/// check that fails decides.
pub open spec fn stop_before_burn<A>(
    args: RetrieveBtcArgs,
    blocked: Seq<Seq<char>>,
    a: Answers<A>,
) -> Option<StopView> {
    if begin_stop(args, a.availability, blocked) is Some {
        begin_stop(args, a.availability, blocked)
    } else if key_stop(args, a.main_address) is Some {
        key_stop(args, a.main_address)
    } else if admission_stop(args, a.guard, a.min_amount, a.parsed, a.pending_requests) is Some {
        admission_stop(args, a.guard, a.min_amount, a.parsed, a.pending_requests)
    } else if funds_stop(args, a.balance) is Some {
        funds_stop(args, a.balance)
    } else {
        check_stop(a.kyt)
    }
}

/// How the KYT canister judged the address.
pub open spec fn judgement<A>(a: Answers<A>) -> BtcAddressCheckStatus
    recommends
        check_stop(a.kyt) is None,
{
    judged(a.kyt->Ok_0->Ok_0)
}

/// What the ledger is asked to burn in the course of a withdrawal, if anything.
pub open spec fn ordered_burn<A>(
    args: RetrieveBtcArgs,
    blocked: Seq<Seq<char>>,
    a: Answers<A>,
) -> Option<(u64, MemoStatus)> {
    if stop_before_burn(args, blocked, a) is Some {
        None
    } else {
        Some((burnt_amount(args.amount, judgement(a), a.kyt_fee), memo_status(judgement(a))))
    }
}

/// How a withdrawal ends early, if it does.
pub open spec fn early_stop<A>(
    args: RetrieveBtcArgs,
    blocked: Seq<Seq<char>>,
    a: Answers<A>,
) -> Option<StopView> {
    if stop_before_burn(args, blocked, a) is Some {
        stop_before_burn(args, blocked, a)
    } else {
        burn_stop(a.burn, a.min_amount_after_burn)
    }
}

/// Whether `settled` is how a withdrawal that does not end early is settled.
pub open spec fn settled_as<A>(
    caller: Principal,
    args: RetrieveBtcArgs,
    a: Answers<A>,
    settled: Settled<A>,
) -> bool {
    let response = a.kyt->Ok_0->Ok_0;
    let block_index = a.burn->Ok_0->Ok_0;
    match judgement(a) {
        BtcAddressCheckStatus::Tainted => settled matches Settled::Rejected { failure, error }
            && failure == (KytFailure {
            owner: caller,
            address: args.address,
            amount: args.amount,
            kyt_provider: response.provider,
            uuid: response.external_id,
            block_index,
        }) && error@ == tainted_refusal(a.kyt_fee_text@),
        BtcAddressCheckStatus::Clean => settled matches Settled::Accepted { request, ok } && request
            == (RetrieveBtcRequest {
            amount: (args.amount - a.kyt_fee) as u64,
            address: a.parsed->Ok_0,
            block_index,
            received_at: a.now,
            kyt_provider: Some(response.provider),
        }) && ok == (RetrieveBtcOk { block_index }),
    }
}

/// Whether the withdrawal is accepted.
pub open spec fn accepted<A>(
    args: RetrieveBtcArgs,
    blocked: Seq<Seq<char>>,
    a: Answers<A>,
) -> bool {
    early_stop(args, blocked, a) is None && judgement(a) is Clean
}

/// Whether `order` is what the ledger is asked to burn in the course of a withdrawal: the
/// amount and the mark of `ordered_burn`, with the address that was asked for and the fee
/// of the check.
pub open spec fn orders<A>(
    order: BurnOrder,
    args: RetrieveBtcArgs,
    blocked: Seq<Seq<char>>,
    a: Answers<A>,
) -> bool {
    &&& ordered_burn(args, blocked, a) matches Some((amount, status))
    &&& order.amount == amount
    &&& order.memo.status == Some(status)
    &&& order.memo.address == Some(args.address)
    &&& order.memo.kyt_fee == Some(a.kyt_fee)
}

/// What is left of the answers when the burn is ordered.
struct LastAnswers {
    burn: Result<Result<u64, TransferError>, CallError>,
    min_amount_after_burn: u64,
    now: u64,
    kyt_fee_text: String,
}

/// The withdrawal that `caller` asks for with `args`, up to the burn.
fn up_to_burn<A>(
    caller: Principal,
    args: RetrieveBtcArgs,
    blocklist: &Blocklist,
    answers: Answers<A>,
) -> (r: Result<(BurnPending<A>, LastAnswers), Stop>)
    ensures
        match r {
            Ok((pending, last)) => {
                &&& stop_before_burn(args, blocklist@, answers) is None
                &&& pending.caller() == caller
                &&& pending.args() == args
                &&& pending.address() == answers.parsed->Ok_0
                &&& pending.uuid() == (answers.kyt->Ok_0->Ok_0).external_id
                &&& pending.status() == judgement(answers)
                &&& pending.kyt_provider() == (answers.kyt->Ok_0->Ok_0).provider
                &&& pending.kyt_fee() == answers.kyt_fee
                &&& last == (LastAnswers {
                    burn: answers.burn,
                    min_amount_after_burn: answers.min_amount_after_burn,
                    now: answers.now,
                    kyt_fee_text: answers.kyt_fee_text,
                })
            },
            Err(stop) => stop_before_burn(args, blocklist@, answers) == Some(stop@),
        },
{
    let key_pending = match begin(caller, args, answers.availability, blocklist) {
        Ok(next) => next,
        Err(stop) => return Err(stop),
    };
    let guard_pending = match key_pending.key_ready(answers.main_address) {
        Ok(next) => next,
        Err(stop) => return Err(stop),
    };
    let balance_pending = match guard_pending.guarded(
        answers.guard,
        answers.min_amount,
        answers.parsed,
        answers.pending_requests,
    ) {
        Ok(next) => next,
        Err(stop) => return Err(stop),
    };
    let check_pending = match balance_pending.balance_told(answers.balance) {
        Ok(next) => next,
        Err(stop) => return Err(stop),
    };
    let pending = match check_pending.checked(answers.kyt, answers.kyt_fee) {
        Ok(next) => next,
        Err(stop) => return Err(stop),
    };
    let last = LastAnswers {
        burn: answers.burn,
        min_amount_after_burn: answers.min_amount_after_burn,
        now: answers.now,
        kyt_fee_text: answers.kyt_fee_text,
    };
    Ok((pending, last))
}

/// What the ledger is asked to burn in the course of the withdrawal that `caller` asks for
/// with `args` and that gets the given answers; nothing if the withdrawal ends before.
pub fn burn_order<A>(
    caller: Principal,
    args: RetrieveBtcArgs,
    blocklist: &Blocklist,
    answers: Answers<A>,
) -> (r: Option<BurnOrder>)
    ensures
        match r {
            Some(order) => orders(order, args, blocklist@, answers),
            None => ordered_burn(args, blocklist@, answers) is None,
        },
{
    match up_to_burn(caller, args, blocklist, answers) {
        Ok((pending, _)) => Some(pending.order()),
        Err(_) => None,
    }
}

/// The end of the withdrawal that `caller` asks for with `args` and that gets the
/// given answers. An accepted withdrawal must cover the fee of its KYT check.
pub fn retrieve_btc<A>(
    caller: Principal,
    args: RetrieveBtcArgs,
    blocklist: &Blocklist,
    answers: Answers<A>,
) -> (r: Result<Settled<A>, Stop>)
    requires
        accepted(args, blocklist@, answers) ==> answers.kyt_fee <= args.amount,
    ensures
        match r {
            Ok(settled) => {
                &&& early_stop(args, blocklist@, answers) is None
                &&& settled_as(caller, args, answers, settled)
            },
            Err(stop) => early_stop(args, blocklist@, answers) == Some(stop@),
        },
{
    match up_to_burn(caller, args, blocklist, answers) {
        Ok((pending, last)) => pending.burnt(
            last.burn,
            last.min_amount_after_burn,
            last.now,
            last.kyt_fee_text,
        ),
        Err(stop) => Err(stop),
    }
}

/// Nothing is burnt unless the minter serves the caller, the destination is
/// neither blocked nor the minter itself, the guard was given, the amount reaches
/// the minimum, the address could be read, the queue has room, the caller's
/// account covers the amount, and the address was checked.
pub proof fn law_burn_follows_every_check<A>(
    args: RetrieveBtcArgs,
    blocked: Seq<Seq<char>>,
    a: Answers<A>,
)
    requires
        ordered_burn(args, blocked, a) is Some,
    ensures
        a.availability is Ok,
        !blocked.contains(trimmed(args.address@)),
        a.main_address matches Some(own) && own@ != args.address@,
        a.guard is Ok,
        a.min_amount <= args.amount,
        a.parsed is Ok,
        a.pending_requests < MAX_CONCURRENT_PENDING_REQUESTS,
        a.balance matches Ok(balance) && args.amount <= balance,
        a.kyt matches Ok(Ok(_)),
{
}

/// What is burnt never exceeds the balance that the ledger told, as long as the
/// fee of the check does not exceed the amount.
pub proof fn law_burn_is_covered<A>(args: RetrieveBtcArgs, blocked: Seq<Seq<char>>, a: Answers<A>)
    requires
        ordered_burn(args, blocked, a) is Some,
        a.kyt_fee <= args.amount,
    ensures
        ordered_burn(args, blocked, a) matches Some((amount, status)) && a.balance matches Ok(balance)
            && amount <= balance,
{
}

/// A withdrawal that ends with an error before the burn burns nothing.
pub proof fn law_refusal_before_burn_is_free<A>(
    args: RetrieveBtcArgs,
    blocked: Seq<Seq<char>>,
    a: Answers<A>,
)
    requires
        stop_before_burn(args, blocked, a) is Some,
    ensures
        ordered_burn(args, blocked, a) is None,
        early_stop(args, blocked, a) == stop_before_burn(args, blocked, a),
{
}

/// An accepted withdrawal burns the whole amount, marked as accepted; the amount
/// is what is sent plus the fee of the check.
pub proof fn law_accepted_withdrawal_adds_up<A>(
    caller: Principal,
    args: RetrieveBtcArgs,
    blocked: Seq<Seq<char>>,
    a: Answers<A>,
    settled: Settled<A>,
)
    requires
        accepted(args, blocked, a),
        a.kyt_fee <= args.amount,
        settled_as(caller, args, a, settled),
    ensures
        settled is Accepted,
        ordered_burn(args, blocked, a) == Some((args.amount, MemoStatus::Accepted)),
        settled->request.amount + a.kyt_fee == args.amount,
        settled->request.block_index == settled->ok.block_index,
{
}

/// A withdrawal to a tainted address burns the fee of the check and no more,
/// marked as rejected, and the caller gets a generic error with the code for
/// tainted addresses.
pub proof fn law_tainted_withdrawal_costs_the_fee<A>(
    caller: Principal,
    args: RetrieveBtcArgs,
    blocked: Seq<Seq<char>>,
    a: Answers<A>,
    settled: Settled<A>,
)
    requires
        early_stop(args, blocked, a) is None,
        judgement(a) is Tainted,
        settled_as(caller, args, a, settled),
    ensures
        settled is Rejected,
        ordered_burn(args, blocked, a) == Some((a.kyt_fee, MemoStatus::Rejected)),
        settled->error@ matches RetrieveBtcErrorView::GenericError { error_message, error_code }
            && error_code == ErrorCode::TaintedAddress.number(),
{
}

} // verus!
