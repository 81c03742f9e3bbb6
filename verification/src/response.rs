//! What a handler hands back besides its result: the events it reports and
//! the messages it wants sent.

use crate::ibc::IbcChannel;
use crate::msg::contract::nft::{
    ApprovalEvent, ApproveAllEvent, BurnEvent, Cw721ReceiveMsg, MintEvent, RevokeAllEvent,
    RevokeEvent, TransferEvent,
};
use crate::msg::contract::warehouse::{AddProductEvent, PurchaseEvent};
use vstd::prelude::*;

verus! {

/// A report for indexers; each carries the whole entity it speaks of.
#[derive(Clone, Debug, PartialEq, Eq)]
pub enum Event {
    AddProduct(AddProductEvent),
    Purchase(PurchaseEvent),
    Mint(MintEvent),
    Burn(BurnEvent),
    Approval(ApprovalEvent),
    Revoke(RevokeEvent),
    ApproveAll(ApproveAllEvent),
    RevokeAll(RevokeAllEvent),
    Transfer(TransferEvent),
    IbcChannelConnect(IbcChannel),
    IbcChannelClose(IbcChannel),
}

/// The payload of a packet, by the ledger it is for.
#[derive(Clone, Debug, PartialEq, Eq)]
pub enum Packet {
    Warehouse(crate::msg::contract::warehouse::IbcExecuteMsg),
    Payment(crate::msg::contract::payment::IbcExecuteMsg),
    Nft(crate::msg::contract::nft::IbcExecuteMsg),
}

/// A message that the host is to deliver once the handler has succeeded.
#[derive(Clone, Debug, PartialEq, Eq)]
pub enum OutMsg {
    /// Send a packet on the channel; it times out at `timeout_nanos`,
    /// nanoseconds since the epoch.
    SendPacket { channel_id: String, data: Packet, timeout_nanos: u64 },
    /// Pay `amount` of `denom` to an address of this ledger.
    BankSend { to_address: String, amount: u128, denom: String },
    /// Hand a token that was sent to a contract over to it.
    Receive { contract: String, msg: Cw721ReceiveMsg },
}

/// Whether `msg` is a packet for the payment ledger that asks for exactly the
/// given refunds, sent on the given channel with the given timeout.
pub open spec fn is_refund_packet(
    msg: OutMsg,
    channel: Seq<char>,
    refunds: Seq<crate::msg::contract::payment::Refund>,
    timeout: int,
) -> bool {
    msg matches OutMsg::SendPacket {
        channel_id,
        data: Packet::Payment(crate::msg::contract::payment::IbcExecuteMsg::Refund { refunds: r }),
        timeout_nanos,
    } && channel_id@ == channel && r@ == refunds && timeout_nanos == timeout
}

/// The events and messages that a handler has gathered, in order.
#[derive(Clone, Debug, PartialEq, Eq)]
pub struct Response {
    pub events: Vec<Event>,
    pub messages: Vec<OutMsg>,
}

impl Response {
    /// A response without events and messages.
    pub fn new() -> (r: Response)
        ensures
            r.events@ == Seq::<Event>::empty(),
            r.messages@ == Seq::<OutMsg>::empty(),
    {
        Response { events: Vec::new(), messages: Vec::new() }
    }

    /// Appends an event.
    pub fn add_event(&mut self, event: Event)
        ensures
            final(self).events@ == old(self).events@.push(event),
            final(self).messages == old(self).messages,
    {
        self.events.push(event);
    }

    /// Appends a message.
    pub fn add_message(&mut self, msg: OutMsg)
        ensures
            final(self).messages@ == old(self).messages@.push(msg),
            final(self).events == old(self).events,
    {
        self.messages.push(msg);
    }
}

} // verus!
