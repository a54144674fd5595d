//! The errors of the contract.
use vstd::prelude::*;

verus! {

/// The standard errors that the contract's own logic raises.
#[derive(Clone, Debug, PartialEq, Eq)]
pub enum StdError {
    /// A failure described by a message.
    GenericErr { msg: String },
    /// A lookup found no entry of the named kind.
    NotFound { kind: String },
}

/// What the contract answers when it refuses a request.
#[derive(Clone, Debug, PartialEq, Eq)]
pub enum ContractError {
    Std(StdError),
    SemVer(String),
    InvalidOrderData(),
    InvalidSettlement(String),
    InsufficientFund(),
}

/// The mathematical value of a `StdError`.
pub enum StdErrorView {
    GenericErr(Seq<char>),
    NotFound(Seq<char>),
}

/// The mathematical value of a `ContractError`.
pub enum ContractErrorView {
    Std(StdErrorView),
    SemVer(Seq<char>),
    InvalidOrderData,
    InvalidSettlement(Seq<char>),
    InsufficientFund,
}

impl View for StdError {
    type V = StdErrorView;

    open spec fn view(&self) -> StdErrorView {
        match self {
            StdError::GenericErr { msg } => StdErrorView::GenericErr(msg@),
            StdError::NotFound { kind } => StdErrorView::NotFound(kind@),
        }
    }
}

impl View for ContractError {
    type V = ContractErrorView;

    open spec fn view(&self) -> ContractErrorView {
        match self {
            ContractError::Std(e) => ContractErrorView::Std(e@),
            ContractError::SemVer(s) => ContractErrorView::SemVer(s@),
            ContractError::InvalidOrderData() => ContractErrorView::InvalidOrderData,
            ContractError::InvalidSettlement(s) => ContractErrorView::InvalidSettlement(s@),
            ContractError::InsufficientFund() => ContractErrorView::InsufficientFund,
        }
    }
}

impl StdError {
    /// A `GenericErr` carrying `msg`.
    pub fn generic_err(msg: &str) -> (r: StdError)
        ensures
            r@ == StdErrorView::GenericErr(msg@),
    {
        StdError::GenericErr { msg: String::from_str(msg) }
    }

    /// A `NotFound` error for entries of the given kind.
    pub fn not_found(kind: &str) -> (r: StdError)
        ensures
            r@ == StdErrorView::NotFound(kind@),
    {
        StdError::NotFound { kind: String::from_str(kind) }
    }
}

} // verus!
