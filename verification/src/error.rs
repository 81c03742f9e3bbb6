//! The reasons for which a handler refuses a request.

use vstd::prelude::*;

verus! {

/// Why a handler aborted. An aborted handler leaves its ledger as it found it.
#[derive(Clone, Copy, Debug, PartialEq, Eq, Structural)]
pub enum Error {
    /// No product has the given id.
    ProductNotFound,
    /// No purchase has the given id: it never existed or was removed.
    PurchaseNotFound,
    /// No group has the given id.
    GroupNotFound,
    /// The fees do not cover price times quantity.
    InsufficientFees,
    /// The product has fewer items in stock than were asked for.
    InsufficientStock,
    /// The group has shipped: it takes no change any more.
    GroupAlreadyShipped,
    /// Only the owner of a group may ship it.
    NotGroupOwner,
    /// The purchase is not in the group that is pending for its product.
    NotInPendingGroup,
    /// The purchase is attached to a group already.
    AlreadyInGroup,
    /// The channel that the handler must send on has not been connected.
    ChannelNotConnected,
    /// A counter, a stock or a decimal left its range.
    Overflow,
    /// A refund does not fit in 128 bits.
    AmountOutOfRange,
    /// No coin of the payment denomination came with the request.
    MissingPayment,
    /// No token has the given id.
    TokenNotFound,
    /// The sender is neither the owner nor approved.
    Unauthorized,
    /// The approval or operator grant that would authorise the sender has
    /// expired, or a grant was asked for that is already expired.
    Expired,
    /// No approval for the given spender is on the token.
    ApprovalNotFound,
    /// The token's metadata holds no readable purchase id.
    MissingPurchaseId,
    /// The event is of another kind than the one asked for.
    UnexpectedEventType,
    /// The event lacks an attribute.
    MissingAttribute,
    /// An attribute of the event does not spell what it should.
    MalformedAttribute,
    /// The channel is not an ordered one.
    InvalidChannelOrder,
    /// The channel's version is not one that this ledger speaks.
    InvalidChannelVersion,
    /// The counterparty proposes another version than the channel's.
    InvalidCounterpartyVersion,
}

} // verus!
