//! Balances and burns on the ckBTC ledger.
use super::types::{CallError, RetrieveBtcError, RetrieveBtcErrorView, Stop, StopView};
use crate::principal::Principal;
use crate::text::{decimal, decimal_text, digit, signed_decimal, signed_decimal_text};
use num_traits::cast::ToPrimitive;
use vstd::prelude::*;
use vstd::string::*;

verus! {

/// An account on the ledger.
#[derive(Clone, Copy, Debug, PartialEq, Eq)]
pub struct Account {
    pub owner: Principal,
    pub subaccount: Option<[u8; 32]>,
}

/// A transfer on the ledger.
#[derive(Clone, Debug, PartialEq, Eq)]
pub struct TransferArg {
    pub from_subaccount: Option<[u8; 32]>,
    pub to: Account,
    pub fee: Option<u64>,
    pub created_at_time: Option<u64>,
    pub memo: Option<Vec<u8>>,
    pub amount: u64,
}

/// A natural number of any size, as the ledger reports them.
#[derive(Clone, Debug, PartialEq, Eq)]
pub struct LedgerNat {
    /// The bytes of the number, the least significant one first.
    pub le_bytes: Vec<u8>,
}

/// The number with the given bytes, the least significant one first.
pub open spec fn le_value(le_bytes: Seq<u8>) -> nat
    decreases le_bytes.len(),
{
    if le_bytes.len() == 0 {
        0
    } else {
        le_bytes[0] as nat + 256 * le_value(le_bytes.drop_first())
    }
}

impl View for LedgerNat {
    type V = nat;

    open spec fn view(&self) -> nat {
        le_value(self.le_bytes@)
    }
}

/// `n` in decimal, with an underscore before every three digits from the right.
pub open spec fn grouped_decimal(n: nat) -> Seq<char>
    decreases n,
{
    if n < 1000 {
        decimal(n)
    } else {
        grouped_decimal(n / 1000) + seq![
            '_',
            digit(n / 100 % 10),
            digit(n / 10 % 10),
            digit(n % 10),
        ]
    }
}

/// Calls `num_traits::ToPrimitive::to_u64` on the `num_bigint::BigUint` with the
/// given bytes. Claimed of it: it gives the number if it fits into 64 bits, and
/// nothing otherwise.
#[verifier::external_body]
fn big_to_u64(le_bytes: &[u8]) -> (r: Option<u64>)
    ensures
        r is Some <==> le_value(le_bytes@) <= u64::MAX,
        r matches Some(n) ==> n == le_value(le_bytes@),
{
    num_bigint::BigUint::from_bytes_le(le_bytes).to_u64()
}

/// Formats the `candid::Nat` with the given bytes. Claimed of it: the text is the
/// number in decimal, in groups of three digits.
#[verifier::external_body]
fn nat_to_string(le_bytes: &[u8]) -> (text: String)
    ensures
        text@ == grouped_decimal(le_value(le_bytes@)),
{
    candid::Nat(num_bigint::BigUint::from_bytes_le(le_bytes)).to_string()
}

impl LedgerNat {
    /// The number, if it fits into 64 bits.
    pub fn to_u64(&self) -> (r: Option<u64>)
        ensures
            r is Some <==> self@ <= u64::MAX,
            r matches Some(n) ==> n == self@,
    {
        big_to_u64(self.le_bytes.as_slice())
    }

    /// The number in decimal, in groups of three digits.
    pub fn to_text(&self) -> (text: String)
        ensures
            text@ == grouped_decimal(self@),
    {
        nat_to_string(self.le_bytes.as_slice())
    }
}

/// Why the ledger refused a transfer.
#[derive(Clone, Debug, PartialEq, Eq)]
pub enum TransferError {
    BadFee { expected_fee: LedgerNat },
    BadBurn { min_burn_amount: LedgerNat },
    InsufficientFunds { balance: LedgerNat },
    TooOld,
    CreatedInFuture { ledger_time: u64 },
    TemporarilyUnavailable,
    Duplicate { duplicate_of: LedgerNat },
    GenericError { error_code: LedgerNat, message: String },
}

/// The account whose balance a withdrawal is paid from: a subaccount of the
/// minter that stands for the caller.
pub fn withdrawal_account(minter: Principal, subaccount: [u8; 32]) -> (account: Account)
    ensures
        account == (Account { owner: minter, subaccount: Some(subaccount) }),
{
    Account { owner: minter, subaccount: Some(subaccount) }
}

/// The transfer that burns `amount`: from the caller's withdrawal account to the
/// main account of the minter, with neither a fee nor a creation time.
pub fn burn_transfer(
    minter: Principal,
    from_subaccount: [u8; 32],
    amount: u64,
    memo: Vec<u8>,
) -> (arg: TransferArg)
    ensures
        arg.from_subaccount == Some(from_subaccount),
        arg.to == (Account { owner: minter, subaccount: None }),
        arg.fee is None,
        arg.created_at_time is None,
        arg.memo == Some(memo),
        arg.amount == amount,
{
    TransferArg {
        from_subaccount: Some(from_subaccount),
        to: Account { owner: minter, subaccount: None },
        fee: None,
        created_at_time: None,
        memo: Some(memo),
        amount,
    }
}

/// What a caller is told when the balance could not be asked for.
pub open spec fn balance_refusal(e: CallError) -> RetrieveBtcErrorView {
    RetrieveBtcErrorView::TemporarilyUnavailable(
        "cannot enqueue a balance_of request: "@ + e.message@ + " (reject_code = "@
            + signed_decimal(e.code as int) + ")"@,
    )
}

/// The balance that the ledger reports, or what the caller is told without one.
pub fn balance_of(reply: Result<u64, CallError>) -> (r: Result<u64, RetrieveBtcError>)
    ensures
        match reply {
            Ok(balance) => r == Ok::<u64, RetrieveBtcError>(balance),
            Err(e) => r matches Err(error) && error@ == balance_refusal(e),
        },
{
    match reply {
        Ok(balance) => Ok(balance),
        Err(e) => {
            let mut message = "cannot enqueue a balance_of request: ".to_owned();
            message.append(e.message.as_str());
            message.append(" (reject_code = ");
            message.append(signed_decimal_text(e.code).as_str());
            message.append(")");
            Err(RetrieveBtcError::TemporarilyUnavailable(message))
        },
    }
}

/// How a burn that the ledger refused ends the withdrawal. `min_amount` is the
/// least amount that the minter lets callers withdraw.
pub open spec fn transfer_stop(e: TransferError, min_amount: u64) -> StopView {
    match e {
        TransferError::InsufficientFunds { balance } => if balance@ <= u64::MAX {
            StopView::Refused(
                RetrieveBtcErrorView::InsufficientFunds { balance: balance@ as u64 },
            )
        } else {
            StopView::Trapped("unreachable: ledger balance does not fit into u64"@)
        },
        TransferError::TemporarilyUnavailable => StopView::Refused(
            RetrieveBtcErrorView::TemporarilyUnavailable("cannot burn ckBTC: the ledger is busy"@),
        ),
        TransferError::GenericError { error_code, message } => StopView::Refused(
            RetrieveBtcErrorView::TemporarilyUnavailable(
                "cannot burn ckBTC: the ledger fails with: "@ + message@ + " (error code "@
                    + grouped_decimal(error_code@) + ")"@,
            ),
        ),
        TransferError::BadFee { expected_fee } => StopView::Trapped(
            "unreachable: the ledger demands the fee of "@ + grouped_decimal(expected_fee@)
                + " even though the fee field is unset"@,
        ),
        TransferError::Duplicate { duplicate_of } => StopView::Trapped(
            "unreachable: the ledger reports duplicate ("@ + grouped_decimal(duplicate_of@)
                + ") even though the create_at_time field is unset"@,
        ),
        TransferError::CreatedInFuture { ledger_time } => StopView::Trapped(
            "unreachable: the ledger reports CreatedInFuture even though the create_at_time field is unset"@,
        ),
        TransferError::TooOld => StopView::Trapped(
            "unreachable: the ledger reports TooOld even though the create_at_time field is unset"@,
        ),
        TransferError::BadBurn { min_burn_amount } => StopView::Trapped(
            "the minter is misconfigured: retrieve_btc_min_amount "@ + decimal(min_amount as nat)
                + " is less than ledger's min_burn_amount "@ + grouped_decimal(min_burn_amount@),
        ),
    }
}

/// How a burn without an index of a block ends the withdrawal.
pub open spec fn burn_stop(
    reply: Result<Result<u64, TransferError>, CallError>,
    min_amount: u64,
) -> Option<StopView> {
    match reply {
        Ok(Ok(block_index)) => None,
        Ok(Err(e)) => Some(transfer_stop(e, min_amount)),
        Err(e) => Some(
            StopView::Refused(
                RetrieveBtcErrorView::TemporarilyUnavailable(
                    "cannot enqueue a burn transaction: "@ + e.message@ + " (reject_code = "@
                        + signed_decimal(e.code as int) + ")"@,
                ),
            ),
        ),
    }
}

fn refused_transfer(e: TransferError, min_amount: u64) -> (stop: Stop)
    ensures
        stop@ == transfer_stop(e, min_amount),
{
    match e {
        TransferError::InsufficientFunds { balance } => match balance.to_u64() {
            Some(balance) => Stop::Refused(RetrieveBtcError::InsufficientFunds { balance }),
            None => Stop::Trapped("unreachable: ledger balance does not fit into u64".to_owned()),
        },
        TransferError::TemporarilyUnavailable => Stop::Refused(
            RetrieveBtcError::TemporarilyUnavailable(
                "cannot burn ckBTC: the ledger is busy".to_owned(),
            ),
        ),
        TransferError::GenericError { error_code, message } => {
            let mut text = "cannot burn ckBTC: the ledger fails with: ".to_owned();
            text.append(message.as_str());
            text.append(" (error code ");
            text.append(error_code.to_text().as_str());
            text.append(")");
            Stop::Refused(RetrieveBtcError::TemporarilyUnavailable(text))
        },
        TransferError::BadFee { expected_fee } => {
            let mut text = "unreachable: the ledger demands the fee of ".to_owned();
            text.append(expected_fee.to_text().as_str());
            text.append(" even though the fee field is unset");
            Stop::Trapped(text)
        },
        TransferError::Duplicate { duplicate_of } => {
            let mut text = "unreachable: the ledger reports duplicate (".to_owned();
            text.append(duplicate_of.to_text().as_str());
            text.append(") even though the create_at_time field is unset");
            Stop::Trapped(text)
        },
        TransferError::CreatedInFuture { ledger_time } => Stop::Trapped(
            "unreachable: the ledger reports CreatedInFuture even though the create_at_time field is unset".to_owned(),
        ),
        TransferError::TooOld => Stop::Trapped(
            "unreachable: the ledger reports TooOld even though the create_at_time field is unset".to_owned(),
        ),
        TransferError::BadBurn { min_burn_amount } => {
            let mut text = "the minter is misconfigured: retrieve_btc_min_amount ".to_owned();
            text.append(decimal_text(min_amount).as_str());
            text.append(" is less than ledger's min_burn_amount ");
            text.append(min_burn_amount.to_text().as_str());
            Stop::Trapped(text)
        },
    }
}

/// The index of the block that burnt the ckBTC, or how the withdrawal ends
/// without one.
pub fn burn_ckbtcs(
    reply: Result<Result<u64, TransferError>, CallError>,
    min_amount: u64,
) -> (r: Result<u64, Stop>)
    ensures
        match r {
            Ok(block_index) => reply matches Ok(Ok(index)) && index == block_index,
            Err(stop) => burn_stop(reply, min_amount) == Some(stop@),
        },
{
    match reply {
        Ok(Ok(block_index)) => Ok(block_index),
        Ok(Err(e)) => Err(refused_transfer(e, min_amount)),
        Err(e) => {
            let mut message = "cannot enqueue a burn transaction: ".to_owned();
            message.append(e.message.as_str());
            message.append(" (reject_code = ");
            message.append(signed_decimal_text(e.code).as_str());
            message.append(")");
            Err(Stop::Refused(RetrieveBtcError::TemporarilyUnavailable(message)))
        },
    }
}

} // verus!
