//! What a withdrawal owes to its caller and to the minter, from what was asked for and what
//! was answered.
use super::kyt::{judged, kyt_refusal, KytError, KytReply, KytResponse};
use super::ledger::{balance_refusal, burn_stop, grouped_decimal, transfer_stop, TransferError};
use super::replay::{
    accepted, early_stop, ordered_burn, orders, settled_as, stop_before_burn, Answers,
};
use super::retrieve_btc::{funds_stop, BurnOrder, MemoStatus, Settled};
use super::types::{
    guard_refusal, BtcAddressCheckStatus, CallError, GuardError, RetrieveBtcArgs,
    RetrieveBtcError, RetrieveBtcErrorView, Stop, StopView,
};
use crate::principal::Principal;
use crate::text::{decimal, signed_decimal, trimmed};
use vstd::prelude::*;

verus! {

/// Whether the minter serves the caller, and the destination is neither blocked nor the
/// minter itself.
pub open spec fn is_welcome<A>(
    args: RetrieveBtcArgs,
    blocked: Seq<Seq<char>>,
    a: Answers<A>,
) -> bool {
    &&& a.availability is Ok
    &&& forall|i: int| 0 <= i < blocked.len() ==> #[trigger] blocked[i] != trimmed(args.address@)
    &&& a.main_address matches Some(own) && own@ != args.address@
}

/// Whether the guard was given, the amount reaches the minimum, the address could be read, and
/// the queue has room.
pub open spec fn is_admitted<A>(args: RetrieveBtcArgs, a: Answers<A>) -> bool {
    &&& a.guard is Ok
    &&& a.min_amount <= args.amount
    &&& a.parsed is Ok
    &&& a.pending_requests < 1000
}

/// Whether the ledger told a balance that covers the amount.
pub open spec fn is_funded<A>(args: RetrieveBtcArgs, a: Answers<A>) -> bool {
    a.balance matches Ok(balance) && args.amount <= balance
}

/// A burn is ordered exactly if every check passes: the caller is served, the destination is
/// neither blocked nor the minter itself, the guard was given, the amount reaches the minimum,
/// the address could be read, the queue has room, the balance covers the amount, and the
/// address was checked.
pub proof fn law_burn_is_ordered_iff_every_check_passes<A>(
    args: RetrieveBtcArgs,
    blocked: Seq<Seq<char>>,
    a: Answers<A>,
)
    ensures
        ordered_burn(args, blocked, a) is Some <==> {
            &&& a.availability is Ok
            &&& forall|i: int|
                0 <= i < blocked.len() ==> #[trigger] blocked[i] != trimmed(args.address@)
            &&& a.main_address matches Some(own) && own@ != args.address@
            &&& a.guard is Ok
            &&& a.min_amount <= args.amount
            &&& a.parsed is Ok
            &&& a.pending_requests < 1000
            &&& a.balance matches Ok(balance) && args.amount <= balance
            &&& a.kyt matches Ok(Ok(_))
        },
{
}

/// The balance check ends a withdrawal exactly if no balance was told or the amount is above
/// it; then the caller learns the balance.
pub proof fn law_balance_check(args: RetrieveBtcArgs, balance: Result<u64, CallError>)
    ensures
        funds_stop(args, balance) is None <==> (balance matches Ok(b) && args.amount <= b),
        (balance matches Ok(b) && args.amount > b) ==> funds_stop(args, balance) == Some(
            StopView::Refused(
                RetrieveBtcErrorView::InsufficientFunds { balance: balance->Ok_0 },
            ),
        ),
{
}

/// Once a withdrawal passes, it still does with a higher balance, a lower minimum, or a shorter
/// queue.
pub proof fn law_better_answers_do_not_stop<A>(
    args: RetrieveBtcArgs,
    blocked: Seq<Seq<char>>,
    a: Answers<A>,
    b: Answers<A>,
)
    requires
        ordered_burn(args, blocked, a) is Some,
        b.availability == a.availability,
        b.main_address == a.main_address,
        b.guard == a.guard,
        b.parsed == a.parsed,
        b.kyt == a.kyt,
        b.min_amount <= a.min_amount,
        b.pending_requests <= a.pending_requests,
        a.balance matches Ok(x) ==> (b.balance matches Ok(y) && x <= y),
    ensures
        ordered_burn(args, blocked, b) is Some,
{
}

/// The first checks refuse a caller that is not served, with the reason that was given, and
/// trap on a blocked address or the address of the minter.
pub proof fn law_unwelcome_withdrawals_end_first<A>(
    args: RetrieveBtcArgs,
    blocked: Seq<Seq<char>>,
    a: Answers<A>,
)
    ensures
        a.availability matches Err(reason) ==> stop_before_burn(args, blocked, a) == Some(
            StopView::Refused(RetrieveBtcErrorView::TemporarilyUnavailable(a.availability->Err_0@)),
        ),
        a.availability is Ok && !is_welcome(args, blocked, a) ==> (stop_before_burn(
            args,
            blocked,
            a,
        ) matches Some(stop) && stop is Trapped),
        a.availability is Ok && (exists|i: int|
            0 <= i < blocked.len() && #[trigger] blocked[i] == trimmed(args.address@))
            ==> stop_before_burn(args, blocked, a) == Some(
            StopView::Trapped("attempted to retrieve BTC to a blocked address"@),
        ),
{
}

/// A welcome withdrawal that is not admitted is refused for the first of: the guard, the
/// amount, the address, the queue.
pub proof fn law_admission_is_refused_in_order<A>(
    args: RetrieveBtcArgs,
    blocked: Seq<Seq<char>>,
    a: Answers<A>,
)
    requires
        is_welcome(args, blocked, a),
    ensures
        a.guard == Err::<(), GuardError>(GuardError::AlreadyProcessing) ==> stop_before_burn(
            args,
            blocked,
            a,
        ) == Some(StopView::Refused(RetrieveBtcErrorView::AlreadyProcessing)),
        a.guard is Ok && args.amount < a.min_amount ==> stop_before_burn(args, blocked, a) == Some(
            StopView::Refused(RetrieveBtcErrorView::AmountTooLow(a.min_amount)),
        ),
        a.guard is Ok && a.min_amount <= args.amount && (a.parsed matches Err(e))
            ==> stop_before_burn(args, blocked, a) == Some(
            StopView::Refused(
                RetrieveBtcErrorView::MalformedAddress((a.parsed->Err_0).message@),
            ),
        ),
        a.guard == Err::<(), GuardError>(GuardError::TooManyConcurrentRequests) || (a.guard is Ok
            && a.min_amount <= args.amount && a.parsed is Ok && a.pending_requests >= 1000) ==> (
        stop_before_burn(args, blocked, a) matches Some(StopView::Refused(error))
            && error is TemporarilyUnavailable),
{
}

/// An admitted withdrawal is refused for its balance before its address is checked, and goes
/// on to the burn otherwise.
pub proof fn law_funds_are_checked_before_the_address<A>(
    args: RetrieveBtcArgs,
    blocked: Seq<Seq<char>>,
    a: Answers<A>,
)
    requires
        is_welcome(args, blocked, a),
        is_admitted(args, a),
    ensures
        (a.balance matches Ok(balance) && balance < args.amount) ==> stop_before_burn(
            args,
            blocked,
            a,
        ) == Some(
            StopView::Refused(
                RetrieveBtcErrorView::InsufficientFunds { balance: a.balance->Ok_0 },
            ),
        ),
        a.balance matches Err(e) ==> (stop_before_burn(args, blocked, a) matches Some(
            StopView::Refused(error),
        ) && error is TemporarilyUnavailable),
        is_funded(args, a) && (a.kyt matches Ok(Ok(_))) ==> stop_before_burn(args, blocked, a)
            is None,
        is_funded(args, a) && !(a.kyt matches Ok(Ok(_))) ==> (stop_before_burn(args, blocked, a)
            matches Some(StopView::Refused(error)) && error is TemporarilyUnavailable),
{
}

/// Each refusal that names a number names the right one, whatever else was answered: the
/// minimum that the amount is below, or the balance that the amount is above.
pub proof fn law_refusals_name_the_right_number<A>(
    args: RetrieveBtcArgs,
    blocked: Seq<Seq<char>>,
    a: Answers<A>,
)
    ensures
        stop_before_burn(args, blocked, a) matches Some(
            StopView::Refused(RetrieveBtcErrorView::AmountTooLow(min)),
        ) ==> min == a.min_amount && args.amount < min,
        stop_before_burn(args, blocked, a) matches Some(
            StopView::Refused(RetrieveBtcErrorView::InsufficientFunds { balance }),
        ) ==> (a.balance matches Ok(told) && told == balance) && balance < args.amount,
        stop_before_burn(args, blocked, a) matches Some(
            StopView::Refused(RetrieveBtcErrorView::GenericError { error_message, error_code }),
        ) ==> false,
{
}

/// What is burnt depends on the alerts alone: without one the whole amount, marked as
/// accepted; with one the fee of the check, marked as rejected.
pub proof fn law_alerts_decide_the_burn<A>(
    args: RetrieveBtcArgs,
    blocked: Seq<Seq<char>>,
    a: Answers<A>,
    order: BurnOrder,
)
    requires
        orders(order, args, blocked, a),
    ensures
        a.kyt matches Ok(Ok(response)) && (response.alert_count == 0 ==> order.amount
            == args.amount && order.memo.status == Some(MemoStatus::Accepted)) && (
        response.alert_count > 0 ==> order.amount == a.kyt_fee && order.memo.status == Some(
            MemoStatus::Rejected,
        )),
        order.memo.address == Some(args.address),
        order.memo.kyt_fee == Some(a.kyt_fee),
{
}

/// A response taints the address exactly if it has an alert.
pub proof fn law_any_alert_taints(response: KytResponse)
    ensures
        judged(response) == BtcAddressCheckStatus::Tainted <==> response.alert_count > 0,
        judged(response) == BtcAddressCheckStatus::Clean <==> response.alert_count == 0,
{
}

/// A withdrawal is settled exactly if every check passes and the ledger told the block of the
/// burn; it is accepted exactly if there was no alert besides.
pub proof fn law_settled_iff_checked_and_burnt<A>(
    args: RetrieveBtcArgs,
    blocked: Seq<Seq<char>>,
    a: Answers<A>,
)
    ensures
        early_stop(args, blocked, a) is None <==> {
            &&& is_welcome(args, blocked, a)
            &&& is_admitted(args, a)
            &&& is_funded(args, a)
            &&& a.kyt matches Ok(Ok(_))
            &&& a.burn matches Ok(Ok(_))
        },
        accepted(args, blocked, a) <==> {
            &&& is_welcome(args, blocked, a)
            &&& is_admitted(args, a)
            &&& is_funded(args, a)
            &&& a.kyt matches Ok(Ok(response)) && response.alert_count == 0
            &&& a.burn matches Ok(Ok(_))
        },
{
}

/// A settled withdrawal carries what was asked for and answered, in every part: an accepted
/// one the amount without the fee, the destination, the block, the time and the provider; a
/// rejected one the caller, the address and the amount that were asked for, the provider and
/// the identifier of the check, and the block.
pub proof fn law_settlement_carries_the_withdrawal<A>(
    caller: Principal,
    args: RetrieveBtcArgs,
    blocked: Seq<Seq<char>>,
    a: Answers<A>,
    settled: Settled<A>,
)
    requires
        early_stop(args, blocked, a) is None,
        settled_as(caller, args, a, settled),
        accepted(args, blocked, a) ==> a.kyt_fee <= args.amount,
    ensures
        a.kyt matches Ok(Ok(response)) && (settled is Accepted <==> response.alert_count == 0),
        settled matches Settled::Accepted { request, ok } ==> {
            &&& request.amount == args.amount - a.kyt_fee
            &&& a.parsed matches Ok(destination) && request.address == destination
            &&& a.burn matches Ok(Ok(index)) && request.block_index == index && ok.block_index
                == index
            &&& request.received_at == a.now
            &&& a.kyt matches Ok(Ok(response)) && request.kyt_provider == Some(response.provider)
        },
        settled matches Settled::Rejected { failure, error } ==> {
            &&& failure.owner == caller
            &&& failure.address == args.address
            &&& failure.amount == args.amount
            &&& a.kyt matches Ok(Ok(response)) && failure.kyt_provider == response.provider
                && failure.uuid == response.external_id
            &&& a.burn matches Ok(Ok(index)) && failure.block_index == index
            &&& error@ matches RetrieveBtcErrorView::GenericError { error_message, error_code }
                && error_code == 1 && a.kyt_fee_text@.is_suffix_of(error_message)
        },
{
    lemma_suffix("Destination address is tainted, KYT check fee deducted: "@, a.kyt_fee_text@);
}

/// What is put behind a text is a suffix of the whole.
proof fn lemma_suffix(first: Seq<char>, last: Seq<char>)
    ensures
        last.is_suffix_of(first + last),
{
    assert((first + last).subrange(first.len() as int, (first + last).len() as int) =~= last);
}

/// A burn without a block never settles a withdrawal. The caller is refused if the ledger says
/// that the funds do not suffice, with the balance that it tells if that fits into 64 bits; if
/// the ledger is busy or fails for a reason of its own; or if it could not be asked. Every other
/// answer is a fault of the minter, and traps.
pub proof fn law_burn_without_block_ends(
    reply: Result<Result<u64, TransferError>, CallError>,
    min_amount: u64,
)
    ensures
        burn_stop(reply, min_amount) is None <==> (reply matches Ok(Ok(_))),
        reply matches Ok(Err(TransferError::InsufficientFunds { balance })) ==> (if balance@
            <= u64::MAX {
            burn_stop(reply, min_amount) matches Some(
                StopView::Refused(RetrieveBtcErrorView::InsufficientFunds { balance: told }),
            ) && told == balance@
        } else {
            burn_stop(reply, min_amount) matches Some(stop) && stop is Trapped
        }),
        reply is Err || (reply matches Ok(Err(e)) && (e is TemporarilyUnavailable
            || e is GenericError)) ==> (burn_stop(reply, min_amount) matches Some(
            StopView::Refused(error),
        ) && error is TemporarilyUnavailable),
        (reply matches Ok(Err(e)) && (e is BadFee || e is BadBurn || e is TooOld
            || e is CreatedInFuture || e is Duplicate)) ==> (burn_stop(reply, min_amount)
            matches Some(stop) && stop is Trapped),
{
}

/// The messages that carry a reason from outside are different for different reasons, so that
/// no part of a reason is lost.
pub proof fn law_reasons_are_not_lost(
    x: String,
    y: String,
    code: i32,
)
    ensures
        kyt_refusal(Err(x)) == kyt_refusal(Err(y)) ==> x@ == y@,
        kyt_refusal(Ok(Err(KytError::TemporarilyUnavailable(x)))) == kyt_refusal(
            Ok(Err(KytError::TemporarilyUnavailable(y))),
        ) ==> x@ == y@,
        balance_refusal(CallError { code, message: x }) == balance_refusal(
            CallError { code, message: y },
        ) ==> x@ == y@,
{
    lemma_same_start("Failed to call KYT canister: "@, x@, y@);
    lemma_same_start("The KYT provider is temporarily unavailable: "@, x@, y@);
    let start = "cannot enqueue a balance_of request: "@;
    let end = " (reject_code = "@ + signed_decimal(code as int) + ")"@;
    assert(start + x@ + " (reject_code = "@ + signed_decimal(code as int) + ")"@ =~= start + (x@
        + end));
    assert(start + y@ + " (reject_code = "@ + signed_decimal(code as int) + ")"@ =~= start + (y@
        + end));
    lemma_same_start(start, x@ + end, y@ + end);
    lemma_same_end(x@, y@, end);
}

/// Texts that are the same behind the same start are the same.
proof fn lemma_same_start(start: Seq<char>, a: Seq<char>, b: Seq<char>)
    ensures
        start + a == start + b ==> a == b,
{
    if start + a == start + b {
        let n = start.len() as int;
        assert((start + a).skip(n) =~= a);
        assert((start + b).skip(n) =~= b);
    }
}

/// Texts that are the same before the same end are the same.
proof fn lemma_same_end(a: Seq<char>, b: Seq<char>, end: Seq<char>)
    ensures
        a + end == b + end ==> a == b,
{
    if a + end == b + end {
        assert((a + end).len() == (b + end).len());
        assert((a + end).take(a.len() as int) =~= a);
        assert((b + end).take(b.len() as int) =~= b);
    }
}

/// A failed check of the address is never taken for a clean one: no check is made exactly if
/// the caller is refused.
pub proof fn law_no_check_is_a_refusal(reply: KytReply)
    ensures
        kyt_refusal(reply) is None <==> (reply matches Ok(Ok(_))),
        kyt_refusal(reply) matches Some(error) ==> error is TemporarilyUnavailable,
{
}

/// What is told of a burn that the ledger refused carries the numbers of the ledger: the fee
/// that it demands, the block that it takes for a duplicate, the least amount that it burns.
pub proof fn law_traps_carry_the_number(e: TransferError, min_amount: u64)
    ensures
        e matches TransferError::BadFee { expected_fee } ==> (transfer_stop(e, min_amount)
            matches StopView::Trapped(text) && holds_text(text, grouped_decimal(expected_fee@))),
        e matches TransferError::Duplicate { duplicate_of } ==> (transfer_stop(e, min_amount)
            matches StopView::Trapped(text) && holds_text(text, grouped_decimal(duplicate_of@))),
        e matches TransferError::BadBurn { min_burn_amount } ==> (transfer_stop(e, min_amount)
            matches StopView::Trapped(text) && grouped_decimal(min_burn_amount@).is_suffix_of(
            text,
        ) && holds_text(text, decimal(min_amount as nat))),
        e matches TransferError::GenericError { error_code, message } ==> (transfer_stop(
            e,
            min_amount,
        ) matches StopView::Refused(RetrieveBtcErrorView::TemporarilyUnavailable(text))
            && holds_text(text, message@) && holds_text(text, grouped_decimal(error_code@))),
{
    match e {
        TransferError::BadFee { expected_fee } => {
            lemma_holds(
                "unreachable: the ledger demands the fee of "@,
                grouped_decimal(expected_fee@),
                " even though the fee field is unset"@,
            );
        },
        TransferError::Duplicate { duplicate_of } => {
            lemma_holds(
                "unreachable: the ledger reports duplicate ("@,
                grouped_decimal(duplicate_of@),
                ") even though the create_at_time field is unset"@,
            );
        },
        TransferError::BadBurn { min_burn_amount } => {
            let start = "the minter is misconfigured: retrieve_btc_min_amount "@;
            let middle = " is less than ledger's min_burn_amount "@;
            let least = decimal(min_amount as nat);
            let end = grouped_decimal(min_burn_amount@);
            lemma_suffix(start + least + middle, end);
            lemma_holds(start, least, middle + end);
            assert(start + least + (middle + end) =~= start + least + middle + end);
        },
        TransferError::GenericError { error_code, message } => {
            let start = "cannot burn ckBTC: the ledger fails with: "@;
            let middle = " (error code "@;
            let code = grouped_decimal(error_code@);
            let text = start + message@ + middle + code + ")"@;
            lemma_holds(start + message@ + middle, code, ")"@);
            lemma_holds(start, message@, middle + code + ")"@);
            assert(start + message@ + (middle + code + ")"@) =~= text);
        },
        _ => {},
    }
}

/// Whether `text` holds `part` somewhere.
pub open spec fn holds_text(text: Seq<char>, part: Seq<char>) -> bool {
    exists|i: int|
        0 <= i <= text.len() - part.len() && #[trigger] text.subrange(i, i + part.len()) == part
}

/// A text that was put between two others is held by the whole.
proof fn lemma_holds(first: Seq<char>, part: Seq<char>, last: Seq<char>)
    ensures
        holds_text(first + part + last, part),
{
    let i = first.len() as int;
    assert((first + part + last).subrange(i, i + part.len()) =~= part);
}

/// A guard that is held back for another withdrawal of the same caller is told as such, and
/// one that is held back for many callers as something that passes.
pub proof fn law_guard_refusals(e: GuardError)
    ensures
        guard_refusal(e) is AlreadyProcessing <==> e == GuardError::AlreadyProcessing,
        guard_refusal(e) is TemporarilyUnavailable <==> e == GuardError::TooManyConcurrentRequests,
{
}

/// The view of an error or of a stop tells its kind and everything in it.
pub proof fn law_errors_are_seen_whole(error: RetrieveBtcError, stop: Stop)
    ensures
        match error {
            RetrieveBtcError::AlreadyProcessing => error@ is AlreadyProcessing,
            RetrieveBtcError::AmountTooLow(min) => error@ == RetrieveBtcErrorView::AmountTooLow(
                min,
            ),
            RetrieveBtcError::MalformedAddress(x) => error@
                == RetrieveBtcErrorView::MalformedAddress(x@),
            RetrieveBtcError::InsufficientFunds { balance } => error@ == (
            RetrieveBtcErrorView::InsufficientFunds { balance }),
            RetrieveBtcError::TemporarilyUnavailable(x) => error@
                == RetrieveBtcErrorView::TemporarilyUnavailable(x@),
            RetrieveBtcError::GenericError { error_message, error_code } => error@ == (
            RetrieveBtcErrorView::GenericError { error_message: error_message@, error_code }),
        },
        stop matches Stop::Refused(e) ==> stop@ == StopView::Refused(e@),
        stop matches Stop::Trapped(message) ==> stop@ == StopView::Trapped(message@),
{
}

/// A call that failed is told with its message and its code, whether it was to ask for the balance
/// or to burn; and a check that failed with the reason at the end.
pub proof fn law_failed_calls_are_told(e: CallError, reason: String, min_amount: u64)
    ensures
        balance_refusal(e) matches RetrieveBtcErrorView::TemporarilyUnavailable(text) && holds_text(
            text,
            e.message@,
        ) && holds_text(text, signed_decimal(e.code as int)),
        burn_stop(Err(e), min_amount) matches Some(
            StopView::Refused(RetrieveBtcErrorView::TemporarilyUnavailable(text)),
        ) && holds_text(text, e.message@) && holds_text(text, signed_decimal(e.code as int)),
        kyt_refusal(Err(reason)) matches Some(
            RetrieveBtcErrorView::TemporarilyUnavailable(text),
        ) && reason@.is_suffix_of(text),
        kyt_refusal(Ok(Err(KytError::TemporarilyUnavailable(reason)))) matches Some(
            RetrieveBtcErrorView::TemporarilyUnavailable(text),
        ) && reason@.is_suffix_of(text),
{
    lemma_call_text("cannot enqueue a balance_of request: "@, e);
    lemma_call_text("cannot enqueue a burn transaction: "@, e);
    lemma_suffix("Failed to call KYT canister: "@, reason@);
    lemma_suffix("The KYT provider is temporarily unavailable: "@, reason@);
}

/// The text of a failed call holds its message and its code.
proof fn lemma_call_text(start: Seq<char>, e: CallError)
    ensures
        ({
            let text = start + e.message@ + " (reject_code = "@ + signed_decimal(e.code as int)
                + ")"@;
            holds_text(text, e.message@) && holds_text(text, signed_decimal(e.code as int))
        }),
{
    let middle = " (reject_code = "@;
    let code = signed_decimal(e.code as int);
    let text = start + e.message@ + middle + code + ")"@;
    lemma_holds(start + e.message@ + middle, code, ")"@);
    lemma_holds(start, e.message@, middle + code + ")"@);
    assert(start + e.message@ + (middle + code + ")"@) =~= text);
}

} // verus!
