//! The warehouse's two channels and the packets that arrive on them.

use crate::error::Error;
use crate::ibc::{
    packet_timeout, spec_packet_timeout, spec_validate, validate_ibc_channel_order_and_version,
    IbcChannel, PAYMENT_CHANNEL_VERSION,
};
use crate::msg::contract::nft::{Metadata, Trait};
use crate::msg::contract::warehouse::{IbcExecuteMsg, PurchaseError, PurchaseEvent};
use crate::msg::product::ProductId;
use crate::msg::purchase::PurchaseId;
use crate::response::{Event, OutMsg, Packet};
use crate::text::{digits, number_text};
use crate::warehouse::{State, StateContext, Store, StoreView};
use vstd::prelude::*;
use vstd::string::*;

verus! {

/// The two channels of the warehouse.
#[derive(Clone, Copy, Debug, PartialEq, Eq, Structural)]
pub enum IbcChannelKind {
    Payment,
    Nft,
}

/// Why a packet was refused.
#[derive(Clone, Debug, PartialEq, Eq)]
pub enum PacketError {
    /// The purchase that the packet asked for was refused.
    Purchase(PurchaseError),
    /// The packet could not be handled for another reason.
    Failed(Error),
}

/// Whether `t` is the attribute `name` with the number `n` as its value.
pub open spec fn is_number_trait(t: Trait, name: Seq<char>, n: nat) -> bool {
    t.display_type.is_none() && t.trait_type@ == name && t.value@ == digits(n)
}

/// Whether `m` is the metadata of the receipt for a purchase: name and
/// description name the purchase and the product, and the attributes hold
/// the product's id, the purchase's id and the quantity, in this order.
pub open spec fn is_receipt_metadata(
    m: Metadata,
    product_id: ProductId,
    purchase_id: PurchaseId,
    quantity: u32,
) -> bool {
    &&& m.image.is_none()
    &&& m.image_data.is_none()
    &&& m.external_url.is_none()
    &&& m.background_color.is_none()
    &&& m.animation_url.is_none()
    &&& m.youtube_url.is_none()
    &&& m.name matches Some(name) && name@ == "Purchase #"@ + digits(purchase_id as nat)
    &&& m.description matches Some(d) && d@ == "Product #"@ + digits(product_id as nat)
    &&& m.attributes matches Some(a) && a@.len() == 3 && is_number_trait(
        a@[0],
        "product-id"@,
        product_id as nat,
    ) && is_number_trait(a@[1], "purchase-id"@, purchase_id as nat) && is_number_trait(
        a@[2],
        "quantity"@,
        quantity as nat,
    )
}

/// Whether `msg` is a packet for the receipt ledger that asks for a receipt
/// for the given purchase, to be issued to `owner`.
pub open spec fn is_mint_packet(
    msg: OutMsg,
    channel: Seq<char>,
    owner: String,
    product_id: ProductId,
    purchase_id: PurchaseId,
    quantity: u32,
    timeout: int,
) -> bool {
    msg matches OutMsg::SendPacket {
        channel_id,
        data: Packet::Nft(crate::msg::contract::nft::IbcExecuteMsg::Mint { owner: o, metadata }),
        timeout_nanos,
    } && channel_id@ == channel && o == owner && is_receipt_metadata(
        metadata,
        product_id,
        purchase_id,
        quantity,
    ) && timeout_nanos == timeout
}

/// The attribute `name` with the number `n` as its value.
fn number_trait(name: &str, n: u64) -> (r: Trait)
    ensures
        is_number_trait(r, name@, n as nat),
{
    Trait { display_type: None, trait_type: String::from_str(name), value: number_text(n) }
}

/// The metadata of the receipt for a purchase.
pub fn receipt_metadata(product_id: ProductId, purchase_id: PurchaseId, quantity: u32) -> (r:
    Metadata)
    ensures
        is_receipt_metadata(r, product_id, purchase_id, quantity),
{
    let mut metadata = Metadata::default();
    let number = number_text(purchase_id);
    metadata.name = Some(String::from_str("Purchase #").concat(number.as_str()));
    let number = number_text(product_id as u64);
    metadata.description = Some(String::from_str("Product #").concat(number.as_str()));
    let mut attributes: Vec<Trait> = Vec::new();
    attributes.push(number_trait("product-id", product_id as u64));
    attributes.push(number_trait("purchase-id", purchase_id));
    attributes.push(number_trait("quantity", quantity as u64));
    metadata.attributes = Some(attributes);
    metadata
}

impl StoreView {
    /// The channel of the given kind, once connected.
    pub open spec fn channel(self, kind: IbcChannelKind) -> Option<IbcChannel> {
        match kind {
            IbcChannelKind::Payment => self.payment_channel,
            IbcChannelKind::Nft => self.nft_channel,
        }
    }

    /// Why a packet that asks for a purchase at time `now` is refused, if it
    /// is.
    pub open spec fn purchase_packet_error(
        self,
        product_id: ProductId,
        quantity: u32,
        fees: u128,
        now: u64,
    ) -> Option<Error> {
        if self.purchase_error(product_id, quantity, fees).is_some() {
            self.purchase_error(product_id, quantity, fees)
        } else if self.nft_channel.is_none() {
            Some(Error::ChannelNotConnected)
        } else if spec_packet_timeout(now) > u64::MAX {
            Some(Error::Overflow)
        } else {
            None
        }
    }
}

impl State {
    /// The channel of the given kind. Fails until it is connected.
    pub fn get_ibc_channel(&self, store: &Store, kind: IbcChannelKind) -> (r: Result<
        IbcChannel,
        Error,
    >)
        ensures
            r == (match store@.channel(kind) {
                Some(c) => Ok::<IbcChannel, Error>(c),
                None => Err(Error::ChannelNotConnected),
            }),
    {
        let slot = match kind {
            IbcChannelKind::Payment => &store.payment_channel,
            IbcChannelKind::Nft => &store.nft_channel,
        };
        match slot {
            Some(c) => Ok(crate::ibc::copy_channel(c)),
            None => Err(Error::ChannelNotConnected),
        }
    }

    /// The first steps of the handshake: accepts the channel or rejects it.
    pub fn handle_ibc_channel_open(
        &self,
        channel: &IbcChannel,
        counterparty_version: &Option<String>,
    ) -> (r: Result<(), Error>)
        ensures
            r == (match spec_validate(*channel, *counterparty_version) {
                Some(e) => Err::<(), Error>(e),
                None => Ok(()),
            }),
    {
        validate_ibc_channel_order_and_version(channel, counterparty_version)
    }

    /// The last step of the handshake: an acceptable channel takes the slot
    /// that its version names, in place of what was there, and the
    /// connection is reported.
    pub fn handle_ibc_channel_connect(
        &self,
        ctx: &mut StateContext,
        channel: IbcChannel,
        counterparty_version: &Option<String>,
    ) -> (r: Result<(), Error>)
        requires
            old(ctx).store@.wf(),
        ensures
            final(ctx).store@.wf(),
            final(ctx).response.messages == old(ctx).response.messages,
            match r {
                Ok(()) => {
                    &&& spec_validate(channel, *counterparty_version).is_none()
                    &&& final(ctx).store@ == (if channel.version@ == PAYMENT_CHANNEL_VERSION@ {
                        StoreView { payment_channel: Some(channel), ..old(ctx).store@ }
                    } else {
                        StoreView { nft_channel: Some(channel), ..old(ctx).store@ }
                    })
                    &&& final(ctx).response.events@ == old(ctx).response.events@.push(
                        Event::IbcChannelConnect(channel),
                    )
                },
                Err(e) => {
                    &&& spec_validate(channel, *counterparty_version) == Some(e)
                    &&& *final(ctx) == *old(ctx)
                },
            },
    {
        validate_ibc_channel_order_and_version(&channel, counterparty_version)?;
        let reported = crate::ibc::copy_channel(&channel);
        let ghost before = ctx.store@;
        let payment = String::from_str(PAYMENT_CHANNEL_VERSION);
        if channel.version == payment {
            ctx.store.payment_channel = Some(channel);
        } else {
            ctx.store.nft_channel = Some(channel);
        }
        proof {
            crate::warehouse::product::lemma_same_ids_keep_wf(before, ctx.store@);
            crate::warehouse::links::lemma_links_kept(before, ctx.store@);
        }
        ctx.response.add_event(Event::IbcChannelConnect(reported));
        Ok(())
    }

    /// The close of a channel is reported; nothing else follows from it.
    pub fn handle_ibc_channel_close(&self, ctx: &mut StateContext, channel: IbcChannel) -> (r:
        Result<(), Error>)
        ensures
            r.is_ok(),
            final(ctx).store == old(ctx).store,
            final(ctx).response.messages == old(ctx).response.messages,
            final(ctx).response.events@ == old(ctx).response.events@.push(
                Event::IbcChannelClose(channel),
            ),
    {
        ctx.response.add_event(Event::IbcChannelClose(channel));
        Ok(())
    }

    /// Handles a packet. A purchase that is accepted is followed by a packet
    /// to the receipt ledger, which issues the receipt; a purchase that is
    /// refused is answered with the request and the reason. A removal is
    /// followed by a refund.
    pub fn handle_ibc_packet_receive(&self, ctx: &mut StateContext, msg: IbcExecuteMsg) -> (r:
        Result<(), PacketError>)
        requires
            old(ctx).store@.wf(),
        ensures
            final(ctx).store@.wf(),
            r is Err ==> *final(ctx) == *old(ctx),
            match msg {
                IbcExecuteMsg::Purchase { owner, spender, product_id, quantity, fees } => {
                    let before = old(ctx).store@;
                    match r {
                        Ok(()) => {
                            &&& before.purchase_packet_error(
                                product_id,
                                quantity,
                                fees,
                                self.block_time_nanos,
                            ).is_none()
                            &&& final(ctx).store@ == before.purchased(spender, product_id, quantity)
                            &&& final(ctx).response.events@ == old(ctx).response.events@.push(
                                Event::Purchase(
                                    PurchaseEvent {
                                        purchase: before.new_purchase(
                                            spender,
                                            product_id,
                                            quantity,
                                        ),
                                    },
                                ),
                            )
                            &&& final(ctx).response.messages@.len() == old(
                                ctx,
                            ).response.messages@.len() + 1
                            &&& final(ctx).response.messages@.drop_last() == old(
                                ctx,
                            ).response.messages@
                            &&& is_mint_packet(
                                final(ctx).response.messages@.last(),
                                before.nft_channel.unwrap().endpoint.channel_id@,
                                owner,
                                product_id,
                                before.next_purchase_id,
                                quantity,
                                spec_packet_timeout(self.block_time_nanos),
                            )
                        },
                        Err(PacketError::Purchase(e)) => {
                            &&& before.purchase_error(product_id, quantity, fees) == Some(e.reason)
                            &&& e.owner == owner
                            &&& e.spender == spender
                            &&& e.product_id == product_id
                            &&& e.quantity == quantity
                            &&& e.fees == fees
                        },
                        Err(PacketError::Failed(e)) => {
                            &&& before.purchase_error(product_id, quantity, fees).is_none()
                            &&& before.purchase_packet_error(
                                product_id,
                                quantity,
                                fees,
                                self.block_time_nanos,
                            ) == Some(e)
                        },
                    }
                },
                IbcExecuteMsg::RemovePurchase { id } => match r {
                    Ok(()) => self.removal_post(*old(ctx), *final(ctx), id, Ok(())),
                    Err(PacketError::Failed(e)) => self.removal_post(
                        *old(ctx),
                        *final(ctx),
                        id,
                        Err(e),
                    ),
                    Err(PacketError::Purchase(_)) => false,
                },
            },
    {
        match msg {
            IbcExecuteMsg::Purchase { owner, spender, product_id, quantity, fees } => {
                match self.check_purchase(&ctx.store, product_id, quantity, fees) {
                    Ok(()) => {},
                    Err(reason) => {
                        return Err(
                            PacketError::Purchase(
                                PurchaseError { owner, spender, product_id, quantity, fees, reason },
                            ),
                        );
                    },
                }
                let channel_id = match &ctx.store.nft_channel {
                    Some(channel) => channel.endpoint.channel_id.clone(),
                    None => {
                        return Err(PacketError::Failed(Error::ChannelNotConnected));
                    },
                };
                let timeout_nanos = match packet_timeout(self.block_time_nanos) {
                    Ok(t) => t,
                    Err(e) => {
                        return Err(PacketError::Failed(e));
                    },
                };
                let purchase_id = match self.make_purchase(
                    ctx,
                    spender,
                    product_id,
                    quantity,
                    fees,
                ) {
                    Ok(id) => id,
                    Err(_) => vstd::pervasive::unreached(),
                };
                let metadata = receipt_metadata(product_id, purchase_id, quantity);
                ctx.response.add_message(
                    OutMsg::SendPacket {
                        channel_id,
                        data: Packet::Nft(
                            crate::msg::contract::nft::IbcExecuteMsg::Mint { owner, metadata },
                        ),
                        timeout_nanos,
                    },
                );
                proof {
                    assert(ctx.response.messages@.drop_last() =~= old(ctx).response.messages@);
                }
                Ok(())
            },
            IbcExecuteMsg::RemovePurchase { id } => {
                match self.remove_purchase(ctx, id) {
                    Ok(()) => Ok(()),
                    Err(e) => Err(PacketError::Failed(e)),
                }
            },
        }
    }

    /// An acknowledgement changes nothing: the warehouse keeps no record of
    /// what it has sent.
    pub fn handle_ibc_packet_ack(&self) -> (r: Result<(), Error>)
        ensures
            r.is_ok(),
    {
        Ok(())
    }

    /// A timeout changes nothing: the warehouse keeps no record of what it
    /// has sent.
    pub fn handle_ibc_packet_timeout(&self) -> (r: Result<(), Error>)
        ensures
            r.is_ok(),
    {
        Ok(())
    }
}

} // verus!
