//! Errors that the exchange reports.
use vstd::prelude::*;
use vstd::string::StringExecFns;
use crate::instrument::Token;
use crate::order::{clone_cid, ClientOrderId, OrderId};

verus! {

/// Why a request to the exchange failed.
#[derive(Debug, PartialEq, Eq)]
pub enum ExchangeError {
    /// A builder was asked to build with the named field missing.
    BuilderIncomplete(String),
    /// The instrument is not one this account trades, or cannot be parsed.
    InvalidInstrument,
    /// The instrument's kind has no position handling.
    UnsupportedInstrumentKind,
    /// The named feature is declared but not implemented.
    NotImplemented(String),
    /// A request to open an order is malformed, for the stated reason.
    InvalidRequestOpen(String),
    /// A request to cancel an order is malformed, for the stated reason.
    InvalidRequestCancel(String),
    /// The order's side conflicts with the position held under the direction mode.
    InvalidDirection,
    /// A post-only order would have matched at once.
    PostOnlyViolation,
    /// The available balance of the token does not cover the order.
    InsufficientBalance(Token),
    /// The account holds no balance entry for the token.
    UnknownToken(Token),
    /// No resting order matches the cancel request.
    OrderNotFound { client_order_id: Option<ClientOrderId>, order_id: Option<OrderId> },
    /// The leverage exceeds what the account allows.
    InvalidLeverage,
    /// A quantity left the representable range, or another internal limit was hit.
    InternalError(String),
}

/// `e` reports a quantity that is negative where it must not be, or beyond
/// what can be represented.
pub open spec fn is_out_of_range(e: ExchangeError) -> bool {
    e matches ExchangeError::InternalError(message) && message@ == "quantity out of range"@
}

/// `e` reports that a book has given out its last order id.
pub open spec fn is_ids_exhausted(e: ExchangeError) -> bool {
    e matches ExchangeError::InternalError(message) && message@ == "order ids are used up"@
}

/// The error for a quantity out of range.
pub fn out_of_range() -> (e: ExchangeError)
    ensures
        is_out_of_range(e),
{
    ExchangeError::InternalError(String::from_str("quantity out of range"))
}

/// The error for a book without order ids left.
pub fn ids_exhausted() -> (e: ExchangeError)
    ensures
        is_ids_exhausted(e),
{
    ExchangeError::InternalError(String::from_str("order ids are used up"))
}

impl Clone for ExchangeError {
    fn clone(&self) -> (r: Self)
        ensures
            r == *self,
    {
        match self {
            ExchangeError::BuilderIncomplete(s) => ExchangeError::BuilderIncomplete(s.clone()),
            ExchangeError::InvalidInstrument => ExchangeError::InvalidInstrument,
            ExchangeError::UnsupportedInstrumentKind => ExchangeError::UnsupportedInstrumentKind,
            ExchangeError::NotImplemented(s) => ExchangeError::NotImplemented(s.clone()),
            ExchangeError::InvalidRequestOpen(s) => ExchangeError::InvalidRequestOpen(s.clone()),
            ExchangeError::InvalidRequestCancel(s) => ExchangeError::InvalidRequestCancel(s.clone()),
            ExchangeError::InvalidDirection => ExchangeError::InvalidDirection,
            ExchangeError::PostOnlyViolation => ExchangeError::PostOnlyViolation,
            ExchangeError::InsufficientBalance(t) => ExchangeError::InsufficientBalance(t.clone()),
            ExchangeError::UnknownToken(t) => ExchangeError::UnknownToken(t.clone()),
            ExchangeError::OrderNotFound { client_order_id, order_id } => ExchangeError::OrderNotFound {
                client_order_id: clone_cid(client_order_id),
                order_id: *order_id,
            },
            ExchangeError::InvalidLeverage => ExchangeError::InvalidLeverage,
            ExchangeError::InternalError(s) => ExchangeError::InternalError(s.clone()),
        }
    }
}

} // verus!
