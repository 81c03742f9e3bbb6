//! The receipt ledger's channel to the warehouse and the packets that
//! arrive on it.

use crate::error::Error;
use crate::ibc::{
    copy_channel, spec_validate_for, validate_ibc_channel_for, IbcChannel, NFT_CHANNEL_VERSION,
};
use crate::msg::contract::nft::IbcExecuteMsg;
use crate::nft::{State, StateContext, Store};
use crate::response::Event;
use vstd::prelude::*;

verus! {

impl State {
    /// The channel to the warehouse. Fails until it is connected.
    pub fn get_ibc_channel(&self, store: &Store) -> (r: Result<IbcChannel, Error>)
        ensures
            r == (match store.ibc_channel {
                Some(c) => Ok::<IbcChannel, Error>(c),
                None => Err(Error::ChannelNotConnected),
            }),
    {
        match &store.ibc_channel {
            Some(c) => Ok(copy_channel(c)),
            None => Err(Error::ChannelNotConnected),
        }
    }

    /// The first steps of the handshake: accepts the channel or rejects it.
    pub fn handle_ibc_channel_open(
        &self,
        channel: &IbcChannel,
        counterparty_version: &Option<String>,
    ) -> (r: Result<(), Error>)
        ensures
            r == (match spec_validate_for(*channel, *counterparty_version, NFT_CHANNEL_VERSION@) {
                Some(e) => Err::<(), Error>(e),
                None => Ok(()),
            }),
    {
        validate_ibc_channel_for(channel, counterparty_version, NFT_CHANNEL_VERSION)
    }

    /// The last step of the handshake: an acceptable channel becomes the
    /// ledger's channel, in place of what was there, and the connection is
    /// reported.
    pub fn handle_ibc_channel_connect(
        &self,
        ctx: &mut StateContext,
        channel: IbcChannel,
        counterparty_version: &Option<String>,
    ) -> (r: Result<(), Error>)
        requires
            old(ctx).store.wf(),
        ensures
            final(ctx).store.wf(),
            final(ctx).response.messages == old(ctx).response.messages,
            match r {
                Ok(()) => {
                    &&& spec_validate_for(channel, *counterparty_version, NFT_CHANNEL_VERSION@).is_none()
                    &&& final(ctx).store == (Store {
                        ibc_channel: Some(channel),
                        ..old(ctx).store
                    })
                    &&& final(ctx).response.events@ == old(ctx).response.events@.push(
                        Event::IbcChannelConnect(channel),
                    )
                },
                Err(e) => {
                    &&& spec_validate_for(channel, *counterparty_version, NFT_CHANNEL_VERSION@) == Some(e)
                    &&& *final(ctx) == *old(ctx)
                },
            },
    {
        validate_ibc_channel_for(&channel, counterparty_version, NFT_CHANNEL_VERSION)?;
        let reported = copy_channel(&channel);
        ctx.store.ibc_channel = Some(channel);
        ctx.response.add_event(Event::IbcChannelConnect(reported));
        Ok(())
    }

    /// The close of a channel is reported; nothing else follows from it.
    pub fn handle_ibc_channel_close(&self, ctx: &mut StateContext, channel: IbcChannel) -> (r:
        Result<(), Error>)
        ensures
            r.is_ok(),
            final(ctx).store == old(ctx).store,
            final(ctx).response.messages == old(ctx).response.messages,
            final(ctx).response.events@ == old(ctx).response.events@.push(
                Event::IbcChannelClose(channel),
            ),
    {
        ctx.response.add_event(Event::IbcChannelClose(channel));
        Ok(())
    }

    /// Handles a packet of the warehouse: issues the receipt that it asks
    /// for to the owner it names, under the next number.
    pub fn handle_ibc_packet_receive(&self, ctx: &mut StateContext, msg: IbcExecuteMsg) -> (r:
        Result<(), Error>)
        requires
            old(ctx).store.wf(),
        ensures
            final(ctx).store.wf(),
            match msg {
                IbcExecuteMsg::Mint { owner, metadata } => self.mint_post(
                    *old(ctx),
                    *final(ctx),
                    owner,
                    metadata,
                    r,
                ),
            },
    {
        match msg {
            IbcExecuteMsg::Mint { owner, metadata } => self.nft_mint(ctx, owner, metadata),
        }
    }

    /// An acknowledgement changes nothing.
    pub fn handle_ibc_packet_ack(&self) -> (r: Result<(), Error>)
        ensures
            r.is_ok(),
    {
        Ok(())
    }

    /// A timeout changes nothing.
    pub fn handle_ibc_packet_timeout(&self) -> (r: Result<(), Error>)
        ensures
            r.is_ok(),
    {
        Ok(())
    }
}

} // verus!
