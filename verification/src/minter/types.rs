//! What a caller of the withdrawal endpoint sends, and what comes back.
use vstd::prelude::*;
use vstd::string::*;

verus! {

/// The arguments of a withdrawal.
#[derive(Clone, Debug, PartialEq, Eq)]
pub struct RetrieveBtcArgs {
    /// The amount to retrieve, in satoshi.
    pub amount: u64,
    /// The address where to send the bitcoins.
    pub address: String,
}

/// The answer to an accepted withdrawal.
#[derive(Clone, Debug, PartialEq, Eq)]
pub struct RetrieveBtcOk {
    /// The index of the burn block on the ckBTC ledger.
    pub block_index: u64,
}

/// The reasons behind a generic error.
#[derive(Clone, Copy, Debug, PartialEq, Eq)]
pub enum ErrorCode {
    /// The retrieval address didn't pass the KYT check.
    TaintedAddress,
}

impl ErrorCode {
    /// The number that stands for the reason in an answer.
    pub open spec fn number(self) -> u64 {
        match self {
            ErrorCode::TaintedAddress => 1,
        }
    }

    /// The number that stands for the reason in an answer.
    pub fn code(&self) -> (code: u64)
        ensures
            code == self.number(),
    {
        match self {
            ErrorCode::TaintedAddress => 1,
        }
    }
}

/// The answer to a refused withdrawal.
#[derive(Clone, Debug, PartialEq, Eq)]
pub enum RetrieveBtcError {
    /// There is another request for this principal.
    AlreadyProcessing,
    /// The withdrawal amount is too low.
    AmountTooLow(u64),
    /// The bitcoin address is not valid.
    MalformedAddress(String),
    /// The withdrawal account does not hold the requested ckBTC amount.
    InsufficientFunds { balance: u64 },
    /// There are too many concurrent requests, retry later.
    TemporarilyUnavailable(String),
    /// A generic error reserved for future extensions.
    GenericError {
        error_message: String,
        /// See [`ErrorCode`] for the list of possible values.
        error_code: u64,
    },
}

/// What a [`RetrieveBtcError`] says.
pub enum RetrieveBtcErrorView {
    AlreadyProcessing,
    AmountTooLow(u64),
    MalformedAddress(Seq<char>),
    InsufficientFunds { balance: u64 },
    TemporarilyUnavailable(Seq<char>),
    GenericError { error_message: Seq<char>, error_code: u64 },
}

impl View for RetrieveBtcError {
    type V = RetrieveBtcErrorView;

    open spec fn view(&self) -> RetrieveBtcErrorView {
        match *self {
            RetrieveBtcError::AlreadyProcessing => RetrieveBtcErrorView::AlreadyProcessing,
            RetrieveBtcError::AmountTooLow(min) => RetrieveBtcErrorView::AmountTooLow(min),
            RetrieveBtcError::MalformedAddress(reason) => RetrieveBtcErrorView::MalformedAddress(
                reason@,
            ),
            RetrieveBtcError::InsufficientFunds { balance } =>
                RetrieveBtcErrorView::InsufficientFunds { balance },
            RetrieveBtcError::TemporarilyUnavailable(reason) =>
                RetrieveBtcErrorView::TemporarilyUnavailable(reason@),
            RetrieveBtcError::GenericError { error_message, error_code } =>
                RetrieveBtcErrorView::GenericError { error_message: error_message@, error_code },
        }
    }
}

/// Why a withdrawal could not be guarded against other ones.
#[derive(Clone, Copy, Debug, PartialEq, Eq)]
pub enum GuardError {
    /// Another withdrawal of the same caller is under way.
    AlreadyProcessing,
    /// Too many callers are withdrawing.
    TooManyConcurrentRequests,
}

/// What a caller is told when a withdrawal could not be guarded.
pub open spec fn guard_refusal(e: GuardError) -> RetrieveBtcErrorView {
    match e {
        GuardError::AlreadyProcessing => RetrieveBtcErrorView::AlreadyProcessing,
        GuardError::TooManyConcurrentRequests => RetrieveBtcErrorView::TemporarilyUnavailable(
            "too many concurrent requests"@,
        ),
    }
}

impl From<GuardError> for RetrieveBtcError {
    fn from(e: GuardError) -> (r: RetrieveBtcError)
        ensures
            r@ == guard_refusal(e),
    {
        match e {
            GuardError::AlreadyProcessing => RetrieveBtcError::AlreadyProcessing,
            GuardError::TooManyConcurrentRequests => RetrieveBtcError::TemporarilyUnavailable(
                "too many concurrent requests".to_owned(),
            ),
        }
    }
}

impl vstd::std_specs::convert::FromSpecImpl<GuardError> for RetrieveBtcError {
    open spec fn obeys_from_spec() -> bool {
        false
    }

    open spec fn from_spec(e: GuardError) -> RetrieveBtcError {
        choose|r: RetrieveBtcError| r@ == guard_refusal(e)
    }
}

/// Why an address could not be read.
#[derive(Clone, Debug, PartialEq, Eq)]
pub struct ParseAddressError {
    pub message: String,
}

impl From<ParseAddressError> for RetrieveBtcError {
    fn from(e: ParseAddressError) -> (r: RetrieveBtcError)
        ensures
            r@ == RetrieveBtcErrorView::MalformedAddress(e.message@),
    {
        RetrieveBtcError::MalformedAddress(e.message)
    }
}

impl vstd::std_specs::convert::FromSpecImpl<ParseAddressError> for RetrieveBtcError {
    open spec fn obeys_from_spec() -> bool {
        true
    }

    open spec fn from_spec(e: ParseAddressError) -> RetrieveBtcError {
        RetrieveBtcError::MalformedAddress(e.message)
    }
}

/// The outcome of an address KYT check.
#[derive(Clone, Copy, Debug, PartialEq, Eq)]
pub enum BtcAddressCheckStatus {
    /// The KYT check did not find any issues with the address.
    Clean,
    /// The KYT check found issues with the address in question.
    Tainted,
}

/// Why a withdrawal ends early.
#[derive(Clone, Debug, PartialEq, Eq)]
pub enum Stop {
    /// The caller is answered with an error.
    Refused(RetrieveBtcError),
    /// The call is abandoned with a message, and what it changed since the last
    /// answer from outside is undone.
    Trapped(String),
}

/// What a [`Stop`] says.
pub enum StopView {
    Refused(RetrieveBtcErrorView),
    Trapped(Seq<char>),
}

impl View for Stop {
    type V = StopView;

    open spec fn view(&self) -> StopView {
        match *self {
            Stop::Refused(error) => StopView::Refused(error@),
            Stop::Trapped(message) => StopView::Trapped(message@),
        }
    }
}

/// How a call to another canister failed before it was answered.
#[derive(Clone, Debug, PartialEq, Eq)]
pub struct CallError {
    pub code: i32,
    pub message: String,
}

} // verus!
