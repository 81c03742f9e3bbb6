//! The payment ledger: it forwards the funds of a purchase to the warehouse
//! as a packet and pays the refunds that the warehouse asks for. It keeps no
//! balances of its own.

use crate::error::Error;
use crate::ibc::{
    copy_channel, packet_timeout, spec_packet_timeout, spec_validate_for,
    validate_ibc_channel_for, IbcChannel, PAYMENT_CHANNEL_VERSION,
};
use crate::msg::contract::payment::{ExecuteMsg, IbcExecuteMsg, InfoResp, QueryMsg, Refund};
use crate::msg::product::ProductId;
use crate::response::{Event, OutMsg, Packet, Response};
use vstd::prelude::*;
use vstd::string::*;

verus! {

/// The denomination in which purchases are paid and refunded.
pub const PURCHASE_DENOM: &'static str = "ukuji";

/// An amount of one denomination.
#[derive(Clone, Debug, PartialEq, Eq)]
pub struct Coin {
    pub denom: String,
    pub amount: u128,
}

/// Who sent a transaction, and the funds attached to it.
#[derive(Clone, Debug, PartialEq, Eq)]
pub struct MessageInfo {
    pub sender: String,
    pub funds: Vec<Coin>,
}

/// What the payment ledger keeps: its channel to the warehouse.
#[derive(Clone, Debug, PartialEq, Eq)]
pub struct Store {
    pub ibc_channel: Option<IbcChannel>,
}

/// The store of a handler's run and the response that it fills.
#[derive(Clone, Debug, PartialEq, Eq)]
pub struct StateContext {
    pub store: Store,
    pub response: Response,
}

impl StateContext {
    /// A context over a store, with an empty response.
    pub fn new(store: Store) -> (r: StateContext)
        ensures
            r.store == store,
            r.response.events@ == Seq::<Event>::empty(),
            r.response.messages@ == Seq::<OutMsg>::empty(),
    {
        StateContext { store, response: Response::new() }
    }
}

/// The handlers of the payment ledger, with the time of the block they run
/// in.
#[derive(Clone, Copy, Debug, PartialEq, Eq)]
pub struct State {
    /// The block's time, in nanoseconds since the epoch.
    pub block_time_nanos: u64,
}

/// The amount of the first coin of the payment denomination among the
/// funds, if there is one.
pub open spec fn first_payment(funds: Seq<Coin>) -> Option<u128>
    decreases funds.len(),
{
    if funds.len() == 0 {
        None
    } else {
        match first_payment(funds.drop_last()) {
            Some(amount) => Some(amount),
            None => if funds.last().denom@ == PURCHASE_DENOM@ {
                Some(funds.last().amount)
            } else {
                None
            },
        }
    }
}

/// The first coin of the payment denomination among the first `n` coins is
/// the first among all.
pub proof fn lemma_first_payment_stays(funds: Seq<Coin>, n: int)
    requires
        0 <= n <= funds.len(),
        first_payment(funds.take(n)) is Some,
    ensures
        first_payment(funds) == first_payment(funds.take(n)),
    decreases funds.len() - n,
{
    if n < funds.len() {
        assert(funds.take(n + 1).drop_last() =~= funds.take(n));
        lemma_first_payment_stays(funds, n + 1);
    } else {
        assert(funds.take(n) =~= funds);
    }
}

/// Whether `msg` is a packet for the warehouse that asks for the given
/// purchase, sent on the given channel with the given timeout.
pub open spec fn is_purchase_packet(
    msg: OutMsg,
    channel: Seq<char>,
    owner: String,
    spender: String,
    product_id: ProductId,
    quantity: u32,
    fees: u128,
    timeout: int,
) -> bool {
    msg matches OutMsg::SendPacket {
        channel_id,
        data: Packet::Warehouse(
            crate::msg::contract::warehouse::IbcExecuteMsg::Purchase {
                owner: o,
                spender: s,
                product_id: p,
                quantity: q,
                fees: f,
            },
        ),
        timeout_nanos,
    } && channel_id@ == channel && o == owner && s == spender && p == product_id && q == quantity
        && f == fees && timeout_nanos == timeout
}

/// Whether `msg` pays the refund, in the payment denomination.
pub open spec fn is_refund_payment(msg: OutMsg, refund: Refund) -> bool {
    msg matches OutMsg::BankSend { to_address, amount, denom } && to_address == refund.recipient
        && amount == refund.amount && denom@ == PURCHASE_DENOM@
}

impl State {
    /// Why a purchase with the given funds cannot be sent at this time, if
    /// it cannot.
    pub open spec fn send_error(self, store: Store, funds: Seq<Coin>) -> Option<Error> {
        if first_payment(funds).is_none() {
            Some(Error::MissingPayment)
        } else if store.ibc_channel.is_none() {
            Some(Error::ChannelNotConnected)
        } else if spec_packet_timeout(self.block_time_nanos) > u64::MAX {
            Some(Error::Overflow)
        } else {
            None
        }
    }

    /// The channel to the warehouse. Fails until it is connected.
    pub fn get_ibc_channel(&self, store: &Store) -> (r: Result<IbcChannel, Error>)
        ensures
            r == (match store.ibc_channel {
                Some(c) => Ok::<IbcChannel, Error>(c),
                None => Err(Error::ChannelNotConnected),
            }),
    {
        match &store.ibc_channel {
            Some(c) => Ok(copy_channel(c)),
            None => Err(Error::ChannelNotConnected),
        }
    }

    /// The first steps of the handshake: accepts the channel or rejects it.
    pub fn handle_ibc_channel_open(
        &self,
        channel: &IbcChannel,
        counterparty_version: &Option<String>,
    ) -> (r: Result<(), Error>)
        ensures
            r == (match spec_validate_for(*channel, *counterparty_version, PAYMENT_CHANNEL_VERSION@) {
                Some(e) => Err::<(), Error>(e),
                None => Ok(()),
            }),
    {
        validate_ibc_channel_for(channel, counterparty_version, PAYMENT_CHANNEL_VERSION)
    }

    /// The last step of the handshake: an acceptable channel becomes the
    /// ledger's channel, in place of what was there, and the connection is
    /// reported.
    pub fn handle_ibc_channel_connect(
        &self,
        ctx: &mut StateContext,
        channel: IbcChannel,
        counterparty_version: &Option<String>,
    ) -> (r: Result<(), Error>)
        ensures
            final(ctx).response.messages == old(ctx).response.messages,
            match r {
                Ok(()) => {
                    &&& spec_validate_for(channel, *counterparty_version, PAYMENT_CHANNEL_VERSION@).is_none()
                    &&& final(ctx).store.ibc_channel == Some(channel)
                    &&& final(ctx).response.events@ == old(ctx).response.events@.push(
                        Event::IbcChannelConnect(channel),
                    )
                },
                Err(e) => {
                    &&& spec_validate_for(channel, *counterparty_version, PAYMENT_CHANNEL_VERSION@) == Some(e)
                    &&& *final(ctx) == *old(ctx)
                },
            },
    {
        validate_ibc_channel_for(&channel, counterparty_version, PAYMENT_CHANNEL_VERSION)?;
        let reported = copy_channel(&channel);
        ctx.store.ibc_channel = Some(channel);
        ctx.response.add_event(Event::IbcChannelConnect(reported));
        Ok(())
    }

    /// The close of a channel is reported; nothing else follows from it.
    pub fn handle_ibc_channel_close(&self, ctx: &mut StateContext, channel: IbcChannel) -> (r:
        Result<(), Error>)
        ensures
            r.is_ok(),
            final(ctx).store == old(ctx).store,
            final(ctx).response.messages == old(ctx).response.messages,
            final(ctx).response.events@ == old(ctx).response.events@.push(
                Event::IbcChannelClose(channel),
            ),
    {
        ctx.response.add_event(Event::IbcChannelClose(channel));
        Ok(())
    }

    /// Handles a packet of the warehouse: pays each refund to its recipient,
    /// in the payment denomination and in the order of the packet. The
    /// ledger does not ask whether it holds as much.
    pub fn handle_ibc_packet_receive(&self, ctx: &mut StateContext, msg: IbcExecuteMsg) -> (r:
        Result<(), Error>)
        ensures
            r.is_ok(),
            final(ctx).store == old(ctx).store,
            final(ctx).response.events == old(ctx).response.events,
            match msg {
                IbcExecuteMsg::Refund { refunds } => {
                    &&& final(ctx).response.messages@.len() == old(ctx).response.messages@.len()
                        + refunds@.len()
                    &&& final(ctx).response.messages@.take(
                        old(ctx).response.messages@.len() as int,
                    ) == old(ctx).response.messages@
                    &&& forall|k: int|
                        0 <= k < refunds@.len() ==> is_refund_payment(
                            #[trigger] final(ctx).response.messages@[old(
                                ctx,
                            ).response.messages@.len() + k],
                            refunds@[k],
                        )
                },
            },
    {
        match msg {
            IbcExecuteMsg::Refund { refunds } => {
                let ghost start = ctx.response.messages@;
                let mut k: usize = 0;
                while k < refunds.len()
                    invariant
                        k <= refunds@.len(),
                        ctx.store == old(ctx).store,
                        ctx.response.events == old(ctx).response.events,
                        start == old(ctx).response.messages@,
                        ctx.response.messages@.len() == start.len() + k,
                        ctx.response.messages@.take(start.len() as int) == start,
                        forall|m: int|
                            0 <= m < k ==> is_refund_payment(
                                #[trigger] ctx.response.messages@[start.len() + m],
                                refunds@[m],
                            ),
                    decreases refunds@.len() - k,
                {
                    let ghost sent = ctx.response.messages@;
                    ctx.response.add_message(
                        OutMsg::BankSend {
                            to_address: refunds[k].recipient.clone(),
                            amount: refunds[k].amount,
                            denom: String::from_str(PURCHASE_DENOM),
                        },
                    );
                    proof {
                        assert(ctx.response.messages@.take(start.len() as int) =~= sent.take(
                            start.len() as int,
                        ));
                        assert forall|m: int| 0 <= m < k + 1 implies is_refund_payment(
                            #[trigger] ctx.response.messages@[start.len() + m],
                            refunds@[m],
                        ) by {
                            if m < k {
                                assert(ctx.response.messages@[start.len() + m] == sent[start.len()
                                    + m]);
                            }
                        }
                    }
                    k += 1;
                }
                Ok(())
            },
        }
    }

    /// An acknowledgement changes nothing.
    pub fn handle_ibc_packet_ack(&self) -> (r: Result<(), Error>)
        ensures
            r.is_ok(),
    {
        Ok(())
    }

    /// A timeout changes nothing.
    pub fn handle_ibc_packet_timeout(&self) -> (r: Result<(), Error>)
        ensures
            r.is_ok(),
    {
        Ok(())
    }

    /// Forwards a purchase to the warehouse. The fees are the amount of the
    /// first coin of the payment denomination that came with the request;
    /// the spender is who sent it.
    pub fn purchase_send(
        &self,
        ctx: &mut StateContext,
        owner: String,
        info: MessageInfo,
        product_id: ProductId,
        quantity: u32,
    ) -> (r: Result<(), Error>)
        ensures
            final(ctx).store == old(ctx).store,
            final(ctx).response.events == old(ctx).response.events,
            match r {
                Ok(()) => {
                    &&& self.send_error(old(ctx).store, info.funds@).is_none()
                    &&& final(ctx).response.messages@.len() == old(ctx).response.messages@.len()
                        + 1
                    &&& final(ctx).response.messages@.drop_last() == old(ctx).response.messages@
                    &&& is_purchase_packet(
                        final(ctx).response.messages@.last(),
                        old(ctx).store.ibc_channel.unwrap().endpoint.channel_id@,
                        owner,
                        info.sender,
                        product_id,
                        quantity,
                        first_payment(info.funds@).unwrap(),
                        spec_packet_timeout(self.block_time_nanos),
                    )
                },
                Err(e) => {
                    &&& self.send_error(old(ctx).store, info.funds@) == Some(e)
                    &&& *final(ctx) == *old(ctx)
                },
            },
    {
        let payment = String::from_str(PURCHASE_DENOM);
        let mut found: Option<u128> = None;
        let mut k: usize = 0;
        while k < info.funds.len() && found.is_none()
            invariant
                k <= info.funds@.len(),
                payment@ == PURCHASE_DENOM@,
                found == first_payment(info.funds@.take(k as int)),
            decreases info.funds@.len() - k,
        {
            proof {
                assert(info.funds@.take(k + 1).drop_last() =~= info.funds@.take(k as int));
            }
            if info.funds[k].denom == payment {
                found = Some(info.funds[k].amount);
            }
            k += 1;
        }
        proof {
            if found.is_some() {
                lemma_first_payment_stays(info.funds@, k as int);
            } else {
                assert(info.funds@.take(k as int) =~= info.funds@);
            }
        }
        let fees = match found {
            Some(fees) => fees,
            None => {
                return Err(Error::MissingPayment);
            },
        };
        let channel_id = match &ctx.store.ibc_channel {
            Some(channel) => channel.endpoint.channel_id.clone(),
            None => {
                return Err(Error::ChannelNotConnected);
            },
        };
        let timeout_nanos = packet_timeout(self.block_time_nanos)?;
        ctx.response.add_message(
            OutMsg::SendPacket {
                channel_id,
                data: Packet::Warehouse(
                    crate::msg::contract::warehouse::IbcExecuteMsg::Purchase {
                        owner,
                        spender: info.sender,
                        product_id,
                        quantity,
                        fees,
                    },
                ),
                timeout_nanos,
            },
        );
        proof {
            assert(ctx.response.messages@.drop_last() =~= old(ctx).response.messages@);
        }
        Ok(())
    }

    /// Carries out a transaction: forwards the purchase it asks for.
    pub fn execute(&self, ctx: &mut StateContext, info: MessageInfo, msg: ExecuteMsg) -> (r:
        Result<(), Error>)
        ensures
            final(ctx).store == old(ctx).store,
            final(ctx).response.events == old(ctx).response.events,
            match msg {
                ExecuteMsg::Purchase { owner, product_id, quantity } => match r {
                    Ok(()) => {
                        &&& self.send_error(old(ctx).store, info.funds@).is_none()
                        &&& final(ctx).response.messages@.len() == old(
                            ctx,
                        ).response.messages@.len() + 1
                        &&& final(ctx).response.messages@.drop_last() == old(
                            ctx,
                        ).response.messages@
                        &&& is_purchase_packet(
                            final(ctx).response.messages@.last(),
                            old(ctx).store.ibc_channel.unwrap().endpoint.channel_id@,
                            owner,
                            info.sender,
                            product_id,
                            quantity,
                            first_payment(info.funds@).unwrap(),
                            spec_packet_timeout(self.block_time_nanos),
                        )
                    },
                    Err(e) => {
                        &&& self.send_error(old(ctx).store, info.funds@) == Some(e)
                        &&& *final(ctx) == *old(ctx)
                    },
                },
            },
    {
        match msg {
            ExecuteMsg::Purchase { owner, product_id, quantity } => self.purchase_send(
                ctx,
                owner,
                info,
                product_id,
                quantity,
            ),
        }
    }

    /// Answers a query: the channel to the warehouse, if it is connected.
    pub fn query(&self, store: &Store, msg: QueryMsg) -> (r: Result<InfoResp, Error>)
        ensures
            r matches Ok(info) && info.ibc_channel == store.ibc_channel,
    {
        let ibc_channel = match &store.ibc_channel {
            Some(c) => Some(copy_channel(c)),
            None => None,
        };
        Ok(InfoResp { ibc_channel })
    }
}

} // verus!
