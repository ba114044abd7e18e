//! Tests of the withdrawal flow.
use ic_nodes::minter::blocklist::Blocklist;
use ic_nodes::minter::kyt::{kyt_check_address, KytError, KytResponse};
use ic_nodes::minter::ledger::{
    balance_of, burn_ckbtcs, burn_transfer, withdrawal_account, Account, LedgerNat, TransferError,
};
use ic_nodes::minter::replay::{burn_order, retrieve_btc, Answers};
use ic_nodes::minter::retrieve_btc::{
    begin, BurnMemo, BurnOrder, BurnPending, CheckOrder, KytFailure, MemoStatus,
    RetrieveBtcRequest, Settled, MAX_CONCURRENT_PENDING_REQUESTS,
};
use ic_nodes::minter::types::{
    BtcAddressCheckStatus, CallError, ErrorCode, GuardError, ParseAddressError, RetrieveBtcArgs,
    RetrieveBtcError, RetrieveBtcOk, Stop,
};
use ic_nodes::principal::Principal;

const ADDRESS: &str = "bc1q34aq5drpuwy3wgl9lhup9892qp6svr8ldzyy7c";
const BLOCKED: &str = "1295rkVyNfFpqZpXvKGhDqwhP1jZcNNDMV";
const AMOUNT: u64 = 50_000_000;
const MIN_AMOUNT: u64 = 100_000;
const KYT_FEE: u64 = 2_000;

fn id(n: u8) -> Principal {
    Principal::try_from_slice(&[n]).unwrap()
}

fn args(amount: u64, address: &str) -> RetrieveBtcArgs {
    RetrieveBtcArgs { amount, address: address.to_string() }
}

fn blocklist() -> Blocklist {
    Blocklist::new(vec![BLOCKED.to_string(), "3".to_string(), "bc1qblocked".to_string()]).unwrap()
}

fn ledger_nat(n: u128) -> LedgerNat {
    LedgerNat { le_bytes: n.to_le_bytes().to_vec() }
}

fn call_error() -> CallError {
    CallError { code: -5, message: "no route".to_string() }
}

fn response(alert_count: usize) -> KytResponse {
    KytResponse { external_id: "uuid".to_string(), provider: id(8), alert_count }
}

/// Answers that a withdrawal passes with.
fn answers(alert_count: usize) -> Answers<&'static str> {
    Answers {
        availability: Ok(()),
        main_address: Some("bc1qminter".to_string()),
        guard: Ok(()),
        min_amount: MIN_AMOUNT,
        parsed: Ok("destination"),
        pending_requests: 0,
        balance: Ok(AMOUNT),
        kyt: Ok(Ok(response(alert_count))),
        kyt_fee: KYT_FEE,
        kyt_fee_text: "0.00002".to_string(),
        burn: Ok(Ok(17)),
        min_amount_after_burn: MIN_AMOUNT,
        now: 123,
    }
}

fn end(answers: Answers<&'static str>) -> Result<Settled<&'static str>, Stop> {
    retrieve_btc(id(1), args(AMOUNT, ADDRESS), &blocklist(), answers)
}

fn refused(error: RetrieveBtcError) -> Result<Settled<&'static str>, Stop> {
    Err(Stop::Refused(error))
}

fn unavailable(reason: &str) -> Result<Settled<&'static str>, Stop> {
    refused(RetrieveBtcError::TemporarilyUnavailable(reason.to_string()))
}

fn trapped(message: &str) -> Result<Settled<&'static str>, Stop> {
    Err(Stop::Trapped(message.to_string()))
}

fn burn_pending(alert_count: usize) -> BurnPending<&'static str> {
    let a = answers(alert_count);
    let key_pending = match begin(id(1), args(AMOUNT, ADDRESS), a.availability, &blocklist()) {
        Ok(next) => next,
        Err(_) => panic!("stopped"),
    };
    let guard_pending = match key_pending.key_ready(a.main_address) {
        Ok(next) => next,
        Err(_) => panic!("stopped"),
    };
    let balance_pending =
        match guard_pending.guarded(a.guard, a.min_amount, a.parsed, a.pending_requests) {
            Ok(next) => next,
            Err(_) => panic!("stopped"),
        };
    let check_pending = match balance_pending.balance_told(a.balance) {
        Ok(next) => next,
        Err(_) => panic!("stopped"),
    };
    assert_eq!(
        check_pending.order(),
        CheckOrder { caller: id(1), address: ADDRESS.to_string(), amount: AMOUNT }
    );
    match check_pending.checked(a.kyt, a.kyt_fee) {
        Ok(next) => next,
        Err(_) => panic!("stopped"),
    }
}

#[test]
fn clean_withdrawal_is_accepted() {
    assert_eq!(
        end(answers(0)),
        Ok(Settled::Accepted {
            request: RetrieveBtcRequest {
                amount: 49_998_000,
                address: "destination",
                block_index: 17,
                received_at: 123,
                kyt_provider: Some(id(8)),
            },
            ok: RetrieveBtcOk { block_index: 17 },
        })
    );
}

#[test]
fn clean_withdrawal_burns_the_amount() {
    let pending = burn_pending(0);
    assert!(pending.fee_is_covered());
    assert_eq!(
        pending.order(),
        BurnOrder {
            amount: AMOUNT,
            memo: BurnMemo {
                address: Some(ADDRESS.to_string()),
                kyt_fee: Some(KYT_FEE),
                status: Some(MemoStatus::Accepted),
            },
        }
    );
}

#[test]
fn tainted_withdrawal_costs_the_fee() {
    assert_eq!(
        burn_pending(2).order(),
        BurnOrder {
            amount: KYT_FEE,
            memo: BurnMemo {
                address: Some(ADDRESS.to_string()),
                kyt_fee: Some(KYT_FEE),
                status: Some(MemoStatus::Rejected),
            },
        }
    );
    assert_eq!(
        end(answers(2)),
        Ok(Settled::Rejected {
            failure: KytFailure {
                owner: id(1),
                address: ADDRESS.to_string(),
                amount: AMOUNT,
                kyt_provider: id(8),
                uuid: "uuid".to_string(),
                block_index: 17,
            },
            error: RetrieveBtcError::GenericError {
                error_message:
                    "Destination address is tainted, KYT check fee deducted: 0.00002".to_string(),
                error_code: 1,
            },
        })
    );
    assert_eq!(ErrorCode::TaintedAddress.code(), 1);
}

#[test]
fn burn_is_ordered_after_every_check() {
    let order = |a| burn_order(id(1), args(AMOUNT, ADDRESS), &blocklist(), a);
    assert_eq!(order(answers(0)), Some(burn_pending(0).order()));
    assert_eq!(
        order(answers(3)),
        Some(BurnOrder {
            amount: KYT_FEE,
            memo: BurnMemo {
                address: Some(ADDRESS.to_string()),
                kyt_fee: Some(KYT_FEE),
                status: Some(MemoStatus::Rejected),
            },
        })
    );
    // The answer to the burn does not matter to what is ordered.
    let mut a = answers(0);
    a.burn = Err(call_error());
    assert_eq!(order(a), Some(burn_pending(0).order()));
    let mut a = answers(0);
    a.balance = Ok(AMOUNT - 1);
    assert_eq!(order(a), None);
    let mut a = answers(0);
    a.kyt = Err("no route".to_string());
    assert_eq!(order(a), None);
}

#[test]
fn unavailable_minter_refuses() {
    let mut a = answers(0);
    a.availability = Err("the minter is in read-only mode".to_string());
    assert_eq!(end(a), unavailable("the minter is in read-only mode"));
}

#[test]
fn blocked_address_traps() {
    for address in [BLOCKED.to_string(), format!(" {}\n", BLOCKED)] {
        assert_eq!(
            retrieve_btc(id(1), args(AMOUNT, &address), &blocklist(), answers(0)),
            trapped("attempted to retrieve BTC to a blocked address")
        );
    }
}

#[test]
fn own_address_traps() {
    let mut a = answers(0);
    a.main_address = Some(ADDRESS.to_string());
    assert_eq!(end(a), trapped("illegal retrieve_btc target"));
    let mut a = answers(0);
    a.main_address = None;
    assert_eq!(
        end(a),
        trapped("unreachable: have retrieve BTC requests but the ECDSA key is not initialized")
    );
}

#[test]
fn missing_guard_refuses() {
    let mut a = answers(0);
    a.guard = Err(GuardError::AlreadyProcessing);
    assert_eq!(end(a), refused(RetrieveBtcError::AlreadyProcessing));
    let mut a = answers(0);
    a.guard = Err(GuardError::TooManyConcurrentRequests);
    assert_eq!(end(a), unavailable("too many concurrent requests"));
}

#[test]
fn amount_has_to_reach_the_minimum() {
    let mut a = answers(0);
    a.min_amount = AMOUNT + 1;
    assert_eq!(end(a), refused(RetrieveBtcError::AmountTooLow(AMOUNT + 1)));
    let mut a = answers(0);
    a.min_amount = AMOUNT;
    assert!(end(a).is_ok());
}

#[test]
fn malformed_address_refuses() {
    let mut a = answers(0);
    a.parsed = Err(ParseAddressError { message: "invalid bitcoin address".to_string() });
    assert_eq!(
        end(a),
        refused(RetrieveBtcError::MalformedAddress("invalid bitcoin address".to_string()))
    );
}

#[test]
fn full_queue_refuses() {
    let mut a = answers(0);
    a.pending_requests = MAX_CONCURRENT_PENDING_REQUESTS;
    assert_eq!(end(a), unavailable("too many pending retrieve_btc requests"));
    let mut a = answers(0);
    a.pending_requests = 999;
    assert!(end(a).is_ok());
}

#[test]
fn balance_has_to_cover_the_amount() {
    let mut a = answers(0);
    a.balance = Ok(AMOUNT - 1);
    assert_eq!(end(a), refused(RetrieveBtcError::InsufficientFunds { balance: AMOUNT - 1 }));
    let mut a = answers(0);
    a.balance = Err(call_error());
    assert_eq!(
        end(a),
        unavailable("cannot enqueue a balance_of request: no route (reject_code = -5)")
    );
    assert_eq!(balance_of(Ok(3)), Ok(3));
}

#[test]
fn failed_check_refuses() {
    let mut a = answers(0);
    a.kyt = Ok(Err(KytError::TemporarilyUnavailable("maintenance".to_string())));
    assert_eq!(
        end(a),
        unavailable("The KYT provider is temporarily unavailable: maintenance")
    );
    let mut a = answers(0);
    a.kyt = Err("no route".to_string());
    assert_eq!(end(a), unavailable("Failed to call KYT canister: no route"));
}

#[test]
fn any_alert_taints() {
    assert_eq!(
        kyt_check_address(Ok(Ok(response(0)))),
        Ok(("uuid".to_string(), BtcAddressCheckStatus::Clean, id(8)))
    );
    assert_eq!(
        kyt_check_address(Ok(Ok(response(1)))),
        Ok(("uuid".to_string(), BtcAddressCheckStatus::Tainted, id(8)))
    );
}

#[test]
fn failed_burn_is_told() {
    let mut a = answers(0);
    a.burn = Err(call_error());
    assert_eq!(
        end(a),
        unavailable("cannot enqueue a burn transaction: no route (reject_code = -5)")
    );
    let stop = |e: TransferError| burn_ckbtcs(Ok(Err(e)), MIN_AMOUNT).unwrap_err();
    assert_eq!(
        stop(TransferError::InsufficientFunds { balance: ledger_nat(u64::MAX as u128) }),
        Stop::Refused(RetrieveBtcError::InsufficientFunds { balance: u64::MAX })
    );
    assert_eq!(
        stop(TransferError::InsufficientFunds { balance: ledger_nat(u64::MAX as u128 + 1) }),
        Stop::Trapped("unreachable: ledger balance does not fit into u64".to_string())
    );
    assert_eq!(
        stop(TransferError::TemporarilyUnavailable),
        Stop::Refused(RetrieveBtcError::TemporarilyUnavailable(
            "cannot burn ckBTC: the ledger is busy".to_string()
        ))
    );
    assert_eq!(
        stop(TransferError::GenericError { error_code: ledger_nat(1_234), message: "why".to_string() }),
        Stop::Refused(RetrieveBtcError::TemporarilyUnavailable(
            "cannot burn ckBTC: the ledger fails with: why (error code 1_234)".to_string()
        ))
    );
    assert_eq!(burn_ckbtcs(Ok(Ok(9)), MIN_AMOUNT), Ok(9));
}

#[test]
fn impossible_burn_traps() {
    let trap = |e: TransferError| match burn_ckbtcs(Ok(Err(e)), MIN_AMOUNT) {
        Err(Stop::Trapped(message)) => message,
        _ => panic!("not trapped"),
    };
    assert_eq!(
        trap(TransferError::BadFee { expected_fee: ledger_nat(1_000_000) }),
        "unreachable: the ledger demands the fee of 1_000_000 even though the fee field is unset"
    );
    assert_eq!(
        trap(TransferError::Duplicate { duplicate_of: ledger_nat(12) }),
        "unreachable: the ledger reports duplicate (12) even though the create_at_time field is unset"
    );
    assert_eq!(
        trap(TransferError::CreatedInFuture { ledger_time: 1 }),
        "unreachable: the ledger reports CreatedInFuture even though the create_at_time field is unset"
    );
    assert_eq!(
        trap(TransferError::TooOld),
        "unreachable: the ledger reports TooOld even though the create_at_time field is unset"
    );
    assert_eq!(
        trap(TransferError::BadBurn { min_burn_amount: ledger_nat(200_000) }),
        "the minter is misconfigured: retrieve_btc_min_amount 100000 is less than ledger's min_burn_amount 200_000"
    );
}

#[test]
fn ledger_numbers_are_grouped() {
    for (n, text) in [
        (0u128, "0"),
        (7, "7"),
        (999, "999"),
        (1_000, "1_000"),
        (1_000_001, "1_000_001"),
        (18_446_744_073_709_551_616, "18_446_744_073_709_551_616"),
    ] {
        assert_eq!(ledger_nat(n).to_text(), text);
        assert_eq!(ledger_nat(n).to_u64(), u64::try_from(n).ok());
    }
    assert_eq!(LedgerNat { le_bytes: vec![] }.to_text(), "0");
    assert_eq!(LedgerNat { le_bytes: vec![1, 2] }.to_u64(), Some(513));
}

#[test]
fn burn_goes_to_the_main_account() {
    let transfer = burn_transfer(id(9), [3; 32], 500, vec![1, 2]);
    assert_eq!(transfer.from_subaccount, Some([3; 32]));
    assert_eq!(transfer.to, Account { owner: id(9), subaccount: None });
    assert_eq!(transfer.fee, None);
    assert_eq!(transfer.created_at_time, None);
    assert_eq!(transfer.memo, Some(vec![1, 2]));
    assert_eq!(transfer.amount, 500);
    assert_eq!(
        withdrawal_account(id(9), [3; 32]),
        Account { owner: id(9), subaccount: Some([3; 32]) }
    );
}

#[test]
fn blocklist_has_to_be_in_order() {
    assert!(Blocklist::new(vec![]).is_some());
    assert!(Blocklist::new(vec!["b".to_string(), "a".to_string()]).is_none());
    let list = blocklist();
    assert!(list.blocks("bc1qblocked"));
    assert!(list.blocks(" 3 "));
    assert!(!list.blocks(ADDRESS));
    assert!(!list.blocks(""));
    let one = Blocklist::new(vec!["a".to_string()]).unwrap();
    assert!(one.blocks("a"));
    assert!(!one.blocks("b"));
}

#[test]
fn first_failed_check_decides() {
    let mut a = answers(1);
    a.burn = Err(call_error());
    a.kyt = Err("no route".to_string());
    a.balance = Ok(0);
    a.pending_requests = 1000;
    assert_eq!(end(a), unavailable("too many pending retrieve_btc requests"));
}

/// A withdrawal of `caller` that the mode of the minter does not allow, with an amount
/// below the minimum and an address that is none.
fn withdrawal_in_mode(caller: Principal, mode: &str) -> Result<Settled<&'static str>, Stop> {
    let retrieve_btc_args = args(10, "");
    let mut a = answers(0);
    a.availability = Err(mode.to_string());
    a.min_amount = 100;
    a.parsed = Err(ParseAddressError { message: "malformed address".to_string() });
    retrieve_btc(caller, retrieve_btc_args, &blocklist(), a)
}

#[test]
fn test_upgrade_read_only() {
    let authorized_principal =
        Principal::from_text("k2t6j-2nvnp-4zjm3-25dtz-6xhaa-c7boj-5gayf-oj3xs-i43lp-teztq-6ae")
            .unwrap();

    // when the mode is ReadOnly then the minter should reject all update calls.
    let res = withdrawal_in_mode(authorized_principal, "the minter is in read-only mode");
    assert!(
        matches!(res, Err(Stop::Refused(RetrieveBtcError::TemporarilyUnavailable(_)))),
        "unexpected result: {:?}",
        res
    );
    assert_eq!(res, unavailable("the minter is in read-only mode"));
}

#[test]
fn test_upgrade_restricted() {
    let unauthorized_principal =
        Principal::from_text("gjfkw-yiolw-ncij7-yzhg2-gq6ec-xi6jy-feyni-g26f4-x7afk-thx6z-6ae")
            .unwrap();

    // Check that the unauthorized user cannot modify the state.
    let res = withdrawal_in_mode(unauthorized_principal, "access is restricted");
    assert!(
        matches!(res, Err(Stop::Refused(RetrieveBtcError::TemporarilyUnavailable(_)))),
        "unexpected result: {:?}",
        res
    );
    assert_eq!(res, unavailable("access is restricted"));
}

#[test]
fn test_transaction_finalization() {
    let user = id(1);
    let withdrawal_amount = 50_000_000;
    let mut a = answers(0);
    a.balance = Ok(withdrawal_amount);
    let settled = retrieve_btc(
        user,
        args(withdrawal_amount, "bc1q34aq5drpuwy3wgl9lhup9892qp6svr8ldzyy7c"),
        &blocklist(),
        a,
    )
    .expect("retrieve_btc failed");
    match settled {
        Settled::Accepted { request, ok: RetrieveBtcOk { block_index } } => {
            assert_eq!(block_index, 17);
            assert_eq!(request.block_index, block_index);
            // What is sent is the amount without the fee of the minter.
            assert_eq!(request.amount, withdrawal_amount - KYT_FEE);
        }
        Settled::Rejected { .. } => panic!("retrieve_btc failed"),
    }
}
