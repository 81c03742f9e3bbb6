//! Tokens: issuing, moving, approving and burning them.

use crate::error::Error;
use crate::ibc::{packet_timeout, spec_packet_timeout};
use crate::msg::contract::nft::{
    Approval, ApprovalEvent, ApproveAllEvent, BurnEvent, Cw721ReceiveMsg, ExecuteMsg, Expiration,
    Metadata, MintEvent, RevokeAllEvent, RevokeEvent, Trait, TransferEvent,
};
use crate::msg::contract::warehouse::IbcExecuteMsg as WarehouseIbcExecuteMsg;
use crate::msg::purchase::PurchaseId;
use crate::nft::{
    grant, has_token, is_grant_at, is_token_at, token, token_index, OperatorRecord, State,
    StateContext, Store, TokenRecord,
};
use crate::response::{Event, OutMsg, Packet};
use crate::text::{digits, number_text, parse_number, spec_parse_u64};
use vstd::prelude::*;
use vstd::string::*;

verus! {

/// An owned copy of a text.
pub fn text_of(text: &str) -> (r: String)
    ensures
        r@ == text@,
{
    String::from_str(text)
}

/// Whether one of the approvals lets `sender` move the token in a block of
/// the given height and time.
pub open spec fn approved(approvals: Seq<Approval>, sender: Seq<char>, height: u64, time: u64)
    -> bool {
    exists|k: int|
        0 <= k < approvals.len() && (#[trigger] approvals[k]).spender@ == sender
            && !approvals[k].expires.spec_is_expired(height, time)
}

/// The approvals without those of `spender`, in their order.
pub open spec fn without_spender(approvals: Seq<Approval>, spender: Seq<char>) -> Seq<Approval>
    decreases approvals.len(),
{
    if approvals.len() == 0 {
        Seq::empty()
    } else if approvals.last().spender@ == spender {
        without_spender(approvals.drop_last(), spender)
    } else {
        without_spender(approvals.drop_last(), spender).push(approvals.last())
    }
}

/// The purchase that a receipt's attributes name: the number in the first
/// attribute called `purchase-id` whose value is a number.
pub open spec fn purchase_id_of(attributes: Seq<Trait>) -> Option<PurchaseId>
    decreases attributes.len(),
{
    if attributes.len() == 0 {
        None
    } else {
        match purchase_id_of(attributes.drop_last()) {
            Some(id) => Some(id),
            None => if attributes.last().trait_type@ == "purchase-id"@ {
                spec_parse_u64(attributes.last().value@)
            } else {
                None
            },
        }
    }
}

/// The purchase that a receipt's metadata names.
pub open spec fn metadata_purchase_id(metadata: Metadata) -> Option<PurchaseId> {
    match metadata.attributes {
        Some(attributes) => purchase_id_of(attributes@),
        None => None,
    }
}

/// The purchase that the first `n` attributes name is the one that all of
/// them name.
pub proof fn lemma_purchase_id_stays(attributes: Seq<Trait>, n: int)
    requires
        0 <= n <= attributes.len(),
        purchase_id_of(attributes.take(n)) is Some,
    ensures
        purchase_id_of(attributes) == purchase_id_of(attributes.take(n)),
    decreases attributes.len() - n,
{
    if n < attributes.len() {
        assert(attributes.take(n + 1).drop_last() =~= attributes.take(n));
        lemma_purchase_id_stays(attributes, n + 1);
    } else {
        assert(attributes.take(n) =~= attributes);
    }
}

/// The purchase that a receipt's metadata names, if it names one.
pub fn read_purchase_id(metadata: &Metadata) -> (r: Option<PurchaseId>)
    ensures
        r == metadata_purchase_id(*metadata),
{
    let attributes = match &metadata.attributes {
        Some(attributes) => attributes,
        None => {
            return None;
        },
    };
    let name = String::from_str("purchase-id");
    let mut found: Option<PurchaseId> = None;
    let mut k: usize = 0;
    while k < attributes.len() && found.is_none()
        invariant
            k <= attributes@.len(),
            name@ == "purchase-id"@,
            found == purchase_id_of(attributes@.take(k as int)),
        decreases attributes@.len() - k,
    {
        proof {
            assert(attributes@.take(k + 1).drop_last() =~= attributes@.take(k as int));
        }
        if attributes[k].trait_type == name {
            found = parse_number(attributes[k].value.as_str());
        }
        k += 1;
    }
    proof {
        if found.is_some() {
            lemma_purchase_id_stays(attributes@, k as int);
        } else {
            assert(attributes@.take(k as int) =~= attributes@);
        }
    }
    found
}

/// Whether `msg` is a packet for the warehouse that asks it to remove the
/// purchase, sent on the given channel with the given timeout.
pub open spec fn is_remove_packet(msg: OutMsg, channel: Seq<char>, id: PurchaseId, timeout: int)
    -> bool {
    msg matches OutMsg::SendPacket {
        channel_id,
        data: Packet::Warehouse(WarehouseIbcExecuteMsg::RemovePurchase { id: i }),
        timeout_nanos,
    } && channel_id@ == channel && i == id && timeout_nanos == timeout
}

/// Whether `t` is the token `id` as it is issued to `owner`: without
/// approvals, with the given metadata.
pub open spec fn is_issued_token(t: TokenRecord, id: Seq<char>, owner: String, meta: Metadata)
    -> bool {
    t.token_id@ == id && t.owner == owner && t.approvals@.len() == 0 && t.metadata == meta
}

impl State {
    /// Why `sender` may not move the token, if they may not: the owner may,
    /// whoever holds an approval that has not expired may, and an operator
    /// of the owner may until the grant expires.
    pub open spec fn send_error(self, store: Store, sender: Seq<char>, token_id: Seq<char>)
        -> Option<Error> {
        if !has_token(store.tokens@, token_id) {
            Some(Error::TokenNotFound)
        } else {
            let t = token(store.tokens@, token_id);
            if t.owner@ == sender {
                None
            } else if approved(t.approvals@, sender, self.block.height, self.block.time_nanos) {
                None
            } else {
                match grant(store.operators@, t.owner@, sender) {
                    Some(expires) => if expires.spec_is_expired(
                        self.block.height,
                        self.block.time_nanos,
                    ) {
                        Some(Error::Expired)
                    } else {
                        None
                    },
                    None => Some(Error::Unauthorized),
                }
            }
        }
    }

    /// Why `sender` may not approve others for the token, if they may not:
    /// the owner may, and an operator of the owner may until the grant
    /// expires.
    pub open spec fn approve_error(self, store: Store, sender: Seq<char>, token_id: Seq<char>)
        -> Option<Error> {
        if !has_token(store.tokens@, token_id) {
            Some(Error::TokenNotFound)
        } else {
            let t = token(store.tokens@, token_id);
            if t.owner@ == sender {
                None
            } else {
                match grant(store.operators@, t.owner@, sender) {
                    Some(expires) => if expires.spec_is_expired(
                        self.block.height,
                        self.block.time_nanos,
                    ) {
                        Some(Error::Expired)
                    } else {
                        None
                    },
                    None => Some(Error::Unauthorized),
                }
            }
        }
    }

    /// Why `sender` cannot burn the token, if they cannot.
    pub open spec fn burn_error(self, store: Store, sender: Seq<char>, token_id: Seq<char>)
        -> Option<Error> {
        if self.send_error(store, sender, token_id).is_some() {
            self.send_error(store, sender, token_id)
        } else if metadata_purchase_id(token(store.tokens@, token_id).metadata).is_none() {
            Some(Error::MissingPurchaseId)
        } else if store.ibc_channel.is_none() {
            Some(Error::ChannelNotConnected)
        } else if spec_packet_timeout(self.block.time_nanos) > u64::MAX {
            Some(Error::Overflow)
        } else {
            None
        }
    }

    /// What issuing a token does: see `nft_mint`.
    pub open spec fn mint_post(
        self,
        old_ctx: StateContext,
        new_ctx: StateContext,
        owner: String,
        meta: Metadata,
        r: Result<(), Error>,
    ) -> bool {
        let before = old_ctx.store;
        match r {
            Ok(()) => {
                let id = digits(before.token_id_cursor as nat);
                &&& before.token_id_cursor < u64::MAX
                &&& has_token(before.tokens@, id) || before.token_count < u64::MAX
                &&& new_ctx.store.token_id_cursor == before.token_id_cursor + 1
                &&& new_ctx.store.token_count == before.token_count + (if has_token(
                    before.tokens@,
                    id,
                ) {
                    0int
                } else {
                    1
                })
                &&& new_ctx.store.operators == before.operators
                &&& new_ctx.store.ibc_channel == before.ibc_channel
                &&& has_token(new_ctx.store.tokens@, id)
                &&& is_issued_token(token(new_ctx.store.tokens@, id), id, owner, meta)
                &&& if has_token(before.tokens@, id) {
                    new_ctx.store.tokens@ == before.tokens@.update(
                        token_index(before.tokens@, id),
                        token(new_ctx.store.tokens@, id),
                    )
                } else {
                    new_ctx.store.tokens@ == before.tokens@.push(token(new_ctx.store.tokens@, id))
                }
                &&& new_ctx.response.messages == old_ctx.response.messages
                &&& new_ctx.response.events@.len() == old_ctx.response.events@.len() + 1
                &&& new_ctx.response.events@.drop_last() == old_ctx.response.events@
                &&& new_ctx.response.events@.last() matches Event::Mint(e) && e.owner == owner
                    && e.token_id@ == id
            },
            Err(e) => {
                &&& e == Error::Overflow
                &&& before.token_id_cursor == u64::MAX || (before.token_count == u64::MAX
                    && !has_token(before.tokens@, digits(before.token_id_cursor as nat)))
                &&& new_ctx == old_ctx
            },
        }
    }

    /// What a burn does: see `nft_burn`.
    pub open spec fn burn_post(
        self,
        old_ctx: StateContext,
        new_ctx: StateContext,
        msg_sender: String,
        token_id: String,
        r: Result<(), Error>,
    ) -> bool {
        match r {
            Ok(()) => {
                let before = old_ctx.store;
                &&& self.burn_error(before, msg_sender@, token_id@).is_none()
                &&& new_ctx.store.tokens@ == before.tokens@.remove(
                    token_index(before.tokens@, token_id@),
                )
                &&& new_ctx.store.token_count == before.token_count - 1
                &&& new_ctx.store.token_id_cursor == before.token_id_cursor
                &&& new_ctx.store.operators == before.operators
                &&& new_ctx.store.ibc_channel == before.ibc_channel
                &&& !has_token(new_ctx.store.tokens@, token_id@)
                &&& new_ctx.response.events@ == old_ctx.response.events@.push(
                    Event::Burn(BurnEvent { token_id }),
                )
                &&& new_ctx.response.messages@.len() == old_ctx.response.messages@.len() + 1
                &&& new_ctx.response.messages@.drop_last() == old_ctx.response.messages@
                &&& is_remove_packet(
                    new_ctx.response.messages@.last(),
                    before.ibc_channel.unwrap().endpoint.channel_id@,
                    metadata_purchase_id(token(before.tokens@, token_id@).metadata).unwrap(),
                    spec_packet_timeout(self.block.time_nanos),
                )
            },
            Err(e) => {
                &&& self.burn_error(old_ctx.store, msg_sender@, token_id@) == Some(e)
                &&& new_ctx == old_ctx
            },
        }
    }

    /// What a transfer does: see `nft_transfer`.
    pub open spec fn transfer_post(
        self,
        old_ctx: StateContext,
        new_ctx: StateContext,
        msg_sender: Seq<char>,
        recipient: String,
        token_id: Seq<char>,
        r: Result<(), Error>,
    ) -> bool {
        match r {
            Ok(()) => {
                let before = old_ctx.store;
                let i = token_index(before.tokens@, token_id);
                &&& self.send_error(before, msg_sender, token_id).is_none()
                &&& new_ctx.store.tokens@.len() == before.tokens@.len()
                &&& forall|k: int|
                    0 <= k < before.tokens@.len() && k != i ==> new_ctx.store.tokens@[k]
                        == before.tokens@[k]
                &&& new_ctx.store.tokens@[i].token_id == before.tokens@[i].token_id
                &&& new_ctx.store.tokens@[i].metadata == before.tokens@[i].metadata
                &&& new_ctx.store.tokens@[i].owner == recipient
                &&& new_ctx.store.tokens@[i].approvals@.len() == 0
                &&& new_ctx.store.token_count == before.token_count
                &&& new_ctx.store.token_id_cursor == before.token_id_cursor
                &&& new_ctx.store.operators == before.operators
                &&& new_ctx.store.ibc_channel == before.ibc_channel
                &&& new_ctx.response.events@.len() == old_ctx.response.events@.len() + 1
                &&& new_ctx.response.events@.drop_last() == old_ctx.response.events@
                &&& new_ctx.response.events@.last() matches Event::Transfer(e) && e.recipient
                    == recipient && e.token_id@ == token_id
            },
            Err(e) => {
                &&& self.send_error(old_ctx.store, msg_sender, token_id) == Some(e)
                &&& new_ctx == old_ctx
            },
        }
    }

    /// Whether the sender may move the token.
    pub fn nft_check_can_send(&self, store: &Store, msg_sender: &String, token_id: &str) -> (r:
        Result<(), Error>)
        requires
            store.wf(),
        ensures
            r == (match self.send_error(*store, msg_sender@, token_id@) {
                Some(e) => Err::<(), Error>(e),
                None => Ok(()),
            }),
    {
        let i = match store.find_token(token_id) {
            Some(i) => i,
            None => {
                return Err(Error::TokenNotFound);
            },
        };
        let t = &store.tokens[i];
        if t.owner == *msg_sender {
            return Ok(());
        }
        let mut k: usize = 0;
        while k < t.approvals.len()
            invariant
                k <= t.approvals@.len(),
                has_token(store.tokens@, token_id@),
                token_index(store.tokens@, token_id@) == i,
                i < store.tokens@.len(),
                *t == store.tokens@[i as int],
                t.owner@ != msg_sender@,
                forall|m: int|
                    0 <= m < k ==> !((#[trigger] t.approvals@[m]).spender@ == msg_sender@
                        && !t.approvals@[m].expires.spec_is_expired(
                        self.block.height,
                        self.block.time_nanos,
                    )),
            decreases t.approvals@.len() - k,
        {
            if t.approvals[k].spender == *msg_sender && !t.approvals[k].is_expired(&self.block) {
                return Ok(());
            }
            k += 1;
        }
        match store.find_grant(&t.owner, msg_sender) {
            Some(g) => {
                if store.operators[g].expires.is_expired(&self.block) {
                    Err(Error::Expired)
                } else {
                    Ok(())
                }
            },
            None => Err(Error::Unauthorized),
        }
    }

    /// Whether the sender may approve others for the token.
    pub fn nft_check_can_approve(&self, store: &Store, msg_sender: &String, token_id: &str) -> (r:
        Result<(), Error>)
        requires
            store.wf(),
        ensures
            r == (match self.approve_error(*store, msg_sender@, token_id@) {
                Some(e) => Err::<(), Error>(e),
                None => Ok(()),
            }),
    {
        let i = match store.find_token(token_id) {
            Some(i) => i,
            None => {
                return Err(Error::TokenNotFound);
            },
        };
        let t = &store.tokens[i];
        if t.owner == *msg_sender {
            return Ok(());
        }
        match store.find_grant(&t.owner, msg_sender) {
            Some(g) => {
                if store.operators[g].expires.is_expired(&self.block) {
                    Err(Error::Expired)
                } else {
                    Ok(())
                }
            },
            None => Err(Error::Unauthorized),
        }
    }

    /// Issues a token to `owner` under the next number. Fails only where
    /// the numbers or the count are used up.
    pub fn nft_mint(&self, ctx: &mut StateContext, owner: String, meta: Metadata) -> (r: Result<
        (),
        Error,
    >)
        requires
            old(ctx).store.wf(),
        ensures
            final(ctx).store.wf(),
            self.mint_post(*old(ctx), *final(ctx), owner, meta, r),
    {
        let cursor = ctx.store.token_id_cursor;
        if cursor == u64::MAX {
            return Err(Error::Overflow);
        }
        let token_id = number_text(cursor);
        self.nft_mint_inner(ctx, owner, token_id, meta)?;
        ctx.store.token_id_cursor = cursor + 1;
        Ok(())
    }

    /// Issues the token `token_id` to `owner`, in place of a token of that
    /// id where there is one, and counts it where it is new.
    pub fn nft_mint_inner(
        &self,
        ctx: &mut StateContext,
        owner: String,
        token_id: String,
        meta: Metadata,
    ) -> (r: Result<(), Error>)
        requires
            old(ctx).store.wf(),
        ensures
            final(ctx).store.wf(),
            final(ctx).response.messages == old(ctx).response.messages,
            match r {
                Ok(()) => {
                    let id = token_id@;
                    &&& has_token(old(ctx).store.tokens@, id) || old(ctx).store.token_count
                        < u64::MAX
                    &&& final(ctx).store.token_id_cursor == old(ctx).store.token_id_cursor
                    &&& final(ctx).store.token_count == old(ctx).store.token_count + (
                    if has_token(old(ctx).store.tokens@, id) {
                        0int
                    } else {
                        1
                    })
                    &&& final(ctx).store.operators == old(ctx).store.operators
                    &&& final(ctx).store.ibc_channel == old(ctx).store.ibc_channel
                    &&& has_token(final(ctx).store.tokens@, id)
                    &&& is_issued_token(token(final(ctx).store.tokens@, id), id, owner, meta)
                    &&& if has_token(old(ctx).store.tokens@, id) {
                        final(ctx).store.tokens@ == old(ctx).store.tokens@.update(
                            token_index(old(ctx).store.tokens@, id),
                            token(final(ctx).store.tokens@, id),
                        )
                    } else {
                        final(ctx).store.tokens@ == old(ctx).store.tokens@.push(
                            token(final(ctx).store.tokens@, id),
                        )
                    }
                    &&& final(ctx).response.events@.len() == old(ctx).response.events@.len() + 1
                    &&& final(ctx).response.events@.drop_last() == old(ctx).response.events@
                    &&& final(ctx).response.events@.last() matches Event::Mint(e) && e.owner
                        == owner && e.token_id@ == id
                },
                Err(e) => {
                    &&& e == Error::Overflow
                    &&& old(ctx).store.token_count == u64::MAX
                    &&& !has_token(old(ctx).store.tokens@, token_id@)
                    &&& *final(ctx) == *old(ctx)
                },
            },
    {
        let ghost before = ctx.store;
        let ghost id = token_id@;
        let found = ctx.store.find_token(token_id.as_str());
        if found.is_none() && ctx.store.token_count == u64::MAX {
            return Err(Error::Overflow);
        }
        let event = MintEvent { token_id: token_id.clone(), owner: owner.clone() };
        let record = TokenRecord { token_id, owner, approvals: Vec::new(), metadata: meta };
        match found {
            Some(i) => {
                ctx.store.tokens.set(i, record);
                proof {
                    assert(is_token_at(ctx.store.tokens@, id, i as int));
                    assert(ctx.store.distinct()) by {
                        assert forall|a: int, b: int|
                            0 <= a < b < ctx.store.tokens@.len() implies ctx.store.tokens@[a].token_id@
                            != ctx.store.tokens@[b].token_id@ by {
                            assert(before.tokens@[a].token_id@ != before.tokens@[b].token_id@);
                        }
                    }
                    ctx.store.lemma_token_place(id, i as int);
                }
            },
            None => {
                ctx.store.tokens.push(record);
                proof {
                    let n = before.tokens@.len() as int;
                    assert(is_token_at(ctx.store.tokens@, id, n));
                    assert(ctx.store.distinct()) by {
                        assert forall|a: int, b: int|
                            0 <= a < b < ctx.store.tokens@.len() implies ctx.store.tokens@[a].token_id@
                            != ctx.store.tokens@[b].token_id@ by {
                            if b == n {
                                assert(!is_token_at(before.tokens@, id, a));
                            } else {
                                assert(before.tokens@[a].token_id@ != before.tokens@[b].token_id@);
                            }
                        }
                    }
                    ctx.store.lemma_token_place(id, n);
                }
                match self.nft_increment_tokens(ctx) {
                    Ok(_) => {},
                    Err(_) => vstd::pervasive::unreached(),
                }
            },
        }
        ctx.response.add_event(Event::Mint(event));
        proof {
            assert(ctx.response.events@.drop_last() =~= old(ctx).response.events@);
        }
        Ok(())
    }

    /// Burns a token: the token is deleted, and the warehouse is asked to
    /// remove the purchase that the token's metadata names. Only who may
    /// move the token may burn it, and a token whose metadata names no
    /// purchase cannot be burnt.
    pub fn nft_burn(&self, ctx: &mut StateContext, msg_sender: String, token_id: String) -> (r:
        Result<(), Error>)
        requires
            old(ctx).store.wf(),
        ensures
            final(ctx).store.wf(),
            self.burn_post(*old(ctx), *final(ctx), msg_sender, token_id, r),
    {
        let ghost before = ctx.store;
        self.nft_check_can_send(&ctx.store, &msg_sender, token_id.as_str())?;
        let i = ctx.store.find_token(token_id.as_str()).unwrap();
        let purchase_id = match read_purchase_id(&ctx.store.tokens[i].metadata) {
            Some(id) => id,
            None => {
                return Err(Error::MissingPurchaseId);
            },
        };
        let channel_id = match &ctx.store.ibc_channel {
            Some(channel) => channel.endpoint.channel_id.clone(),
            None => {
                return Err(Error::ChannelNotConnected);
            },
        };
        let timeout_nanos = packet_timeout(self.block.time_nanos)?;
        ctx.store.tokens.remove(i);
        match self._nft_decrement_tokens(ctx) {
            Ok(_) => {},
            Err(_) => vstd::pervasive::unreached(),
        }
        proof {
            assert forall|a: int, b: int|
                0 <= a < b < ctx.store.tokens@.len() implies ctx.store.tokens@[a].token_id@
                != ctx.store.tokens@[b].token_id@ by {
                let a0 = if a < i {
                    a
                } else {
                    a + 1
                };
                let b0 = if b < i {
                    b
                } else {
                    b + 1
                };
                assert(before.tokens@[a0].token_id@ != before.tokens@[b0].token_id@);
            }
            if has_token(ctx.store.tokens@, token_id@) {
                let k = token_index(ctx.store.tokens@, token_id@);
                assert(is_token_at(ctx.store.tokens@, token_id@, k));
                let k0 = if k < i {
                    k
                } else {
                    k + 1
                };
                assert(is_token_at(before.tokens@, token_id@, k0));
                before.lemma_token_place(token_id@, k0);
            }
        }
        ctx.response.add_event(Event::Burn(BurnEvent { token_id }));
        ctx.response.add_message(
            OutMsg::SendPacket {
                channel_id,
                data: Packet::Warehouse(WarehouseIbcExecuteMsg::RemovePurchase { id: purchase_id }),
                timeout_nanos,
            },
        );
        proof {
            assert(ctx.response.messages@.drop_last() =~= old(ctx).response.messages@);
        }
        Ok(())
    }

    /// Moves a token to `recipient`. Only who may move the token may do so.
    /// The approvals on the token end with the move.
    pub fn nft_transfer(
        &self,
        ctx: &mut StateContext,
        msg_sender: &String,
        recipient: &String,
        token_id: &str,
    ) -> (r: Result<(), Error>)
        requires
            old(ctx).store.wf(),
        ensures
            final(ctx).store.wf(),
            final(ctx).response.messages == old(ctx).response.messages,
            self.transfer_post(*old(ctx), *final(ctx), msg_sender@, *recipient, token_id@, r),
    {
        self.nft_transfer_inner(ctx, msg_sender, recipient, token_id)
    }

    /// Moves a token to `recipient`, as `nft_transfer` does.
    pub fn nft_transfer_inner(
        &self,
        ctx: &mut StateContext,
        msg_sender: &String,
        recipient: &String,
        token_id: &str,
    ) -> (r: Result<(), Error>)
        requires
            old(ctx).store.wf(),
        ensures
            final(ctx).store.wf(),
            final(ctx).response.messages == old(ctx).response.messages,
            self.transfer_post(*old(ctx), *final(ctx), msg_sender@, *recipient, token_id@, r),
    {
        let ghost before = ctx.store;
        self.nft_check_can_send(&ctx.store, msg_sender, token_id)?;
        let i = ctx.store.find_token(token_id).unwrap();
        let mut record = ctx.store.tokens.remove(i);
        record.owner = recipient.clone();
        record.approvals = Vec::new();
        ctx.store.tokens.insert(i, record);
        proof {
            lemma_same_token_ids(before, ctx.store);
        }
        ctx.response.add_event(
            Event::Transfer(
                TransferEvent { recipient: recipient.clone(), token_id: text_of(token_id) },
            ),
        );
        proof {
            assert(ctx.response.events@.drop_last() =~= old(ctx).response.events@);
        }
        Ok(())
    }

    /// What sending a token to a contract does: see `nft_send`.
    pub open spec fn send_post(
        self,
        old_ctx: StateContext,
        new_ctx: StateContext,
        msg_sender: String,
        contract: String,
        token_id: Seq<char>,
        msg: Vec<u8>,
        r: Result<(), Error>,
    ) -> bool {
        &&& self.transfer_post(old_ctx, new_ctx, msg_sender@, contract, token_id, r)
        &&& r is Ok ==> {
            &&& new_ctx.response.messages@.len() == old_ctx.response.messages@.len() + 1
            &&& new_ctx.response.messages@.drop_last() == old_ctx.response.messages@
            &&& new_ctx.response.messages@.last() matches OutMsg::Receive { contract: c, msg: m }
                && c == contract && m.sender == msg_sender && m.token_id@ == token_id && m.msg
                == msg
        }
    }

    /// Moves a token to a contract, as `nft_transfer` does, and hands the
    /// contract `msg` with it.
    pub fn nft_send(
        &self,
        ctx: &mut StateContext,
        msg_sender: &String,
        contract: &String,
        token_id: &str,
        msg: Vec<u8>,
    ) -> (r: Result<(), Error>)
        requires
            old(ctx).store.wf(),
        ensures
            final(ctx).store.wf(),
            self.send_post(*old(ctx), *final(ctx), *msg_sender, *contract, token_id@, msg, r),
    {
        self.nft_transfer_inner(ctx, msg_sender, contract, token_id)?;
        let receive = Cw721ReceiveMsg {
            sender: msg_sender.clone(),
            token_id: text_of(token_id),
            msg,
        };
        ctx.response.add_message(OutMsg::Receive { contract: contract.clone(), msg: receive });
        proof {
            assert(ctx.response.messages@.drop_last() =~= old(ctx).response.messages@);
        }
        Ok(())
    }

    /// Why the approvals on the token cannot be changed as asked, if they
    /// cannot.
    pub open spec fn approval_error(
        self,
        store: Store,
        sender: Seq<char>,
        token_id: Seq<char>,
        add: bool,
        expires: Option<Expiration>,
    ) -> Option<Error> {
        if self.approve_error(store, sender, token_id).is_some() {
            self.approve_error(store, sender, token_id)
        } else if add && spec_expiry(expires).spec_is_expired(
            self.block.height,
            self.block.time_nanos,
        ) {
            Some(Error::Expired)
        } else {
            None
        }
    }

    /// What a change of the approvals does: see `nft_update_approvals`.
    pub open spec fn approvals_post(
        self,
        old_ctx: StateContext,
        new_ctx: StateContext,
        msg_sender: Seq<char>,
        spender: String,
        token_id: Seq<char>,
        add: bool,
        expires: Option<Expiration>,
        r: Result<(), Error>,
    ) -> bool {
        match r {
            Ok(()) => {
                let before = old_ctx.store;
                let i = token_index(before.tokens@, token_id);
                &&& self.approval_error(before, msg_sender, token_id, add, expires).is_none()
                &&& new_ctx.store.tokens@.len() == before.tokens@.len()
                &&& forall|k: int|
                    0 <= k < before.tokens@.len() && k != i ==> new_ctx.store.tokens@[k]
                        == before.tokens@[k]
                &&& new_ctx.store.tokens@[i].token_id == before.tokens@[i].token_id
                &&& new_ctx.store.tokens@[i].metadata == before.tokens@[i].metadata
                &&& new_ctx.store.tokens@[i].owner == before.tokens@[i].owner
                &&& new_ctx.store.tokens@[i].approvals@ == updated_approvals(
                    before.tokens@[i].approvals@,
                    spender,
                    add,
                    spec_expiry(expires),
                )
                &&& new_ctx.store.token_count == before.token_count
                &&& new_ctx.store.token_id_cursor == before.token_id_cursor
                &&& new_ctx.store.operators == before.operators
                &&& new_ctx.store.ibc_channel == before.ibc_channel
                &&& new_ctx.response.messages == old_ctx.response.messages
                &&& new_ctx.response.events@.len() == old_ctx.response.events@.len() + 1
                &&& new_ctx.response.events@.drop_last() == old_ctx.response.events@
                &&& if add {
                    new_ctx.response.events@.last() matches Event::Approval(e) && e.spender
                        == spender && e.token_id@ == token_id && e.expires == spec_expiry(
                        expires,
                    )
                } else {
                    new_ctx.response.events@.last() matches Event::Revoke(e) && e.spender
                        == spender && e.token_id@ == token_id
                }
            },
            Err(e) => {
                &&& self.approval_error(old_ctx.store, msg_sender, token_id, add, expires)
                    == Some(e)
                &&& new_ctx == old_ctx
            },
        }
    }

    /// Lets `spender` move the token until `expires`, or for good where no
    /// end is given. Only the owner and the owner's operators may approve.
    pub fn nft_approve(
        &self,
        ctx: &mut StateContext,
        msg_sender: &String,
        spender: &String,
        token_id: &str,
        expires: Option<Expiration>,
    ) -> (r: Result<(), Error>)
        requires
            old(ctx).store.wf(),
        ensures
            final(ctx).store.wf(),
            self.approvals_post(
                *old(ctx),
                *final(ctx),
                msg_sender@,
                *spender,
                token_id@,
                true,
                expires,
                r,
            ),
    {
        match self.nft_update_approvals(ctx, msg_sender, spender, token_id, true, expires) {
            Ok(_) => Ok(()),
            Err(e) => Err(e),
        }
    }

    /// Takes back what approvals `spender` has on the token.
    pub fn nft_revoke(
        &self,
        ctx: &mut StateContext,
        msg_sender: &String,
        spender: &String,
        token_id: &str,
    ) -> (r: Result<(), Error>)
        requires
            old(ctx).store.wf(),
        ensures
            final(ctx).store.wf(),
            self.approvals_post(
                *old(ctx),
                *final(ctx),
                msg_sender@,
                *spender,
                token_id@,
                false,
                None,
                r,
            ),
    {
        match self.nft_update_approvals(ctx, msg_sender, spender, token_id, false, None) {
            Ok(_) => Ok(()),
            Err(e) => Err(e),
        }
    }

    /// Takes the approvals of `spender` off the token and, where `add` is
    /// set, puts one on that ends at `expires`. Returns the token's
    /// approvals as they are afterwards.
    pub fn nft_update_approvals(
        &self,
        ctx: &mut StateContext,
        msg_sender: &String,
        spender: &String,
        token_id: &str,
        add: bool,
        expires: Option<Expiration>,
    ) -> (r: Result<Vec<Approval>, Error>)
        requires
            old(ctx).store.wf(),
        ensures
            final(ctx).store.wf(),
            self.approvals_post(
                *old(ctx),
                *final(ctx),
                msg_sender@,
                *spender,
                token_id@,
                add,
                expires,
                outcome(r),
            ),
            r matches Ok(approvals) ==> approvals@ == token(
                final(ctx).store.tokens@,
                token_id@,
            ).approvals@,
    {
        let ghost before = ctx.store;
        self.nft_check_can_approve(&ctx.store, msg_sender, token_id)?;
        let i = ctx.store.find_token(token_id).unwrap();
        let expires = match expires {
            Some(e) => e,
            None => Expiration::Never {  },
        };
        if add && expires.is_expired(&self.block) {
            return Err(Error::Expired);
        }
        let mut kept: Vec<Approval> = Vec::new();
        let mut copy: Vec<Approval> = Vec::new();
        let mut k: usize = 0;
        while k < ctx.store.tokens[i].approvals.len()
            invariant
                ctx.store == before,
                i < before.tokens@.len(),
                k <= before.tokens@[i as int].approvals@.len(),
                kept@ == without_spender(
                    before.tokens@[i as int].approvals@.take(k as int),
                    spender@,
                ),
                copy@ == kept@,
            decreases before.tokens@[i as int].approvals@.len() - k,
        {
            proof {
                assert(before.tokens@[i as int].approvals@.take(k + 1).drop_last()
                    =~= before.tokens@[i as int].approvals@.take(k as int));
            }
            let approval = &ctx.store.tokens[i].approvals[k];
            if !(approval.spender == *spender) {
                kept.push(Approval { spender: approval.spender.clone(), expires: approval.expires });
                copy.push(Approval { spender: approval.spender.clone(), expires: approval.expires });
            }
            k += 1;
        }
        proof {
            assert(before.tokens@[i as int].approvals@.take(k as int)
                =~= before.tokens@[i as int].approvals@);
        }
        if add {
            kept.push(Approval { spender: spender.clone(), expires });
            copy.push(Approval { spender: spender.clone(), expires });
            ctx.response.add_event(
                Event::Approval(
                    ApprovalEvent {
                        token_id: text_of(token_id),
                        spender: spender.clone(),
                        expires,
                    },
                ),
            );
        } else {
            ctx.response.add_event(
                Event::Revoke(RevokeEvent { token_id: text_of(token_id), spender: spender.clone() }),
            );
        }
        let mut record = ctx.store.tokens.remove(i);
        record.approvals = kept;
        ctx.store.tokens.insert(i, record);
        proof {
            lemma_same_token_ids(before, ctx.store);
            assert(ctx.response.events@.drop_last() =~= old(ctx).response.events@);
        }
        Ok(copy)
    }

    /// What a grant to an operator does: see `nft_approve_all`.
    pub open spec fn approve_all_post(
        self,
        old_ctx: StateContext,
        new_ctx: StateContext,
        msg_sender: String,
        operator: String,
        expires: Option<Expiration>,
        r: Result<(), Error>,
    ) -> bool {
        if spec_expiry(expires).spec_is_expired(self.block.height, self.block.time_nanos) {
            r == Err::<(), Error>(Error::Expired) && new_ctx == old_ctx
        } else {
            let before = old_ctx.store;
            let record = OperatorRecord {
                owner: msg_sender,
                operator,
                expires: spec_expiry(expires),
            };
            &&& r is Ok
            &&& new_ctx.store.tokens == before.tokens
            &&& new_ctx.store.token_count == before.token_count
            &&& new_ctx.store.token_id_cursor == before.token_id_cursor
            &&& new_ctx.store.ibc_channel == before.ibc_channel
            &&& grant(new_ctx.store.operators@, msg_sender@, operator@) == Some(
                spec_expiry(expires),
            )
            &&& if grant(before.operators@, msg_sender@, operator@).is_some() {
                new_ctx.store.operators@ == before.operators@.update(
                    choose|i: int| is_grant_at(before.operators@, msg_sender@, operator@, i),
                    record,
                )
            } else {
                new_ctx.store.operators@ == before.operators@.push(record)
            }
            &&& new_ctx.response.messages == old_ctx.response.messages
            &&& new_ctx.response.events@ == old_ctx.response.events@.push(
                Event::ApproveAll(ApproveAllEvent { operator, expires: spec_expiry(expires) }),
            )
        }
    }

    /// Lets `operator` move every token of the sender until `expires`, or
    /// for good where no end is given. A grant that has expired already is
    /// refused.
    pub fn nft_approve_all(
        &self,
        ctx: &mut StateContext,
        msg_sender: &String,
        operator: &String,
        expires: Option<Expiration>,
    ) -> (r: Result<(), Error>)
        requires
            old(ctx).store.wf(),
        ensures
            final(ctx).store.wf(),
            self.approve_all_post(*old(ctx), *final(ctx), *msg_sender, *operator, expires, r),
    {
        let ghost before = ctx.store;
        let expires = match expires {
            Some(e) => e,
            None => Expiration::Never {  },
        };
        if expires.is_expired(&self.block) {
            return Err(Error::Expired);
        }
        let record = OperatorRecord {
            owner: msg_sender.clone(),
            operator: operator.clone(),
            expires,
        };
        match ctx.store.find_grant(msg_sender, operator) {
            Some(g) => {
                ctx.store.operators.set(g, record);
                proof {
                    assert forall|a: int, b: int|
                        0 <= a < b < ctx.store.operators@.len() implies !(
                    ctx.store.operators@[a].owner@ == ctx.store.operators@[b].owner@
                        && ctx.store.operators@[a].operator@
                        == ctx.store.operators@[b].operator@) by {
                        assert(!(before.operators@[a].owner@ == before.operators@[b].owner@
                            && before.operators@[a].operator@ == before.operators@[b].operator@));
                    }
                    assert(is_grant_at(ctx.store.operators@, msg_sender@, operator@, g as int));
                    ctx.store.lemma_grant_place(msg_sender@, operator@, g as int);
                    before.lemma_grant_place(msg_sender@, operator@, g as int);
                }
            },
            None => {
                ctx.store.operators.push(record);
                proof {
                    let n = before.operators@.len() as int;
                    assert forall|a: int, b: int|
                        0 <= a < b < ctx.store.operators@.len() implies !(
                    ctx.store.operators@[a].owner@ == ctx.store.operators@[b].owner@
                        && ctx.store.operators@[a].operator@
                        == ctx.store.operators@[b].operator@) by {
                        if b == n {
                            assert(!is_grant_at(before.operators@, msg_sender@, operator@, a));
                        } else {
                            assert(!(before.operators@[a].owner@ == before.operators@[b].owner@
                                && before.operators@[a].operator@
                                == before.operators@[b].operator@));
                        }
                    }
                    assert(is_grant_at(ctx.store.operators@, msg_sender@, operator@, n));
                    ctx.store.lemma_grant_place(msg_sender@, operator@, n);
                }
            },
        }
        ctx.response.add_event(
            Event::ApproveAll(ApproveAllEvent { operator: operator.clone(), expires }),
        );
        Ok(())
    }

    /// What taking back a grant does: see `nft_revoke_all`.
    pub open spec fn revoke_all_post(
        self,
        old_ctx: StateContext,
        new_ctx: StateContext,
        msg_sender: String,
        operator: String,
        r: Result<(), Error>,
    ) -> bool {
        let before = old_ctx.store;
        &&& r is Ok
        &&& new_ctx.store.tokens == before.tokens
        &&& new_ctx.store.token_count == before.token_count
        &&& new_ctx.store.token_id_cursor == before.token_id_cursor
        &&& new_ctx.store.ibc_channel == before.ibc_channel
        &&& grant(new_ctx.store.operators@, msg_sender@, operator@).is_none()
        &&& if grant(before.operators@, msg_sender@, operator@).is_some() {
            new_ctx.store.operators@ == before.operators@.remove(
                choose|i: int| is_grant_at(before.operators@, msg_sender@, operator@, i),
            )
        } else {
            new_ctx.store.operators@ == before.operators@
        }
        &&& new_ctx.response.messages == old_ctx.response.messages
        &&& new_ctx.response.events@ == old_ctx.response.events@.push(
            Event::RevokeAll(RevokeAllEvent { operator }),
        )
    }

    /// Takes back the sender's grant to `operator`, if there is one.
    pub fn nft_revoke_all(&self, ctx: &mut StateContext, msg_sender: &String, operator: &String)
        -> (r: Result<(), Error>)
        requires
            old(ctx).store.wf(),
        ensures
            final(ctx).store.wf(),
            self.revoke_all_post(*old(ctx), *final(ctx), *msg_sender, *operator, r),
    {
        let ghost before = ctx.store;
        match ctx.store.find_grant(msg_sender, operator) {
            Some(g) => {
                proof {
                    before.lemma_grant_place(msg_sender@, operator@, g as int);
                }
                ctx.store.operators.remove(g);
                proof {
                    assert forall|a: int, b: int|
                        0 <= a < b < ctx.store.operators@.len() implies !(
                    ctx.store.operators@[a].owner@ == ctx.store.operators@[b].owner@
                        && ctx.store.operators@[a].operator@
                        == ctx.store.operators@[b].operator@) by {
                        let a0 = if a < g {
                            a
                        } else {
                            a + 1
                        };
                        let b0 = if b < g {
                            b
                        } else {
                            b + 1
                        };
                        assert(!(before.operators@[a0].owner@ == before.operators@[b0].owner@
                            && before.operators@[a0].operator@
                            == before.operators@[b0].operator@));
                    }
                    if exists|k: int| is_grant_at(ctx.store.operators@, msg_sender@, operator@, k) {
                        let k = choose|k: int|
                            is_grant_at(ctx.store.operators@, msg_sender@, operator@, k);
                        let k0 = if k < g {
                            k
                        } else {
                            k + 1
                        };
                        assert(is_grant_at(before.operators@, msg_sender@, operator@, k0));
                        before.lemma_grant_place(msg_sender@, operator@, k0);
                    }
                }
            },
            None => {},
        }
        ctx.response.add_event(Event::RevokeAll(RevokeAllEvent { operator: operator.clone() }));
        Ok(())
    }

    /// Counts one token more.
    pub fn nft_increment_tokens(&self, ctx: &mut StateContext) -> (r: Result<u64, Error>)
        ensures
            match r {
                Ok(n) => n == old(ctx).store.token_count + 1 && *final(ctx) == (StateContext {
                    store: Store { token_count: n, ..old(ctx).store },
                    ..*old(ctx)
                }),
                Err(e) => e == Error::Overflow && old(ctx).store.token_count == u64::MAX
                    && *final(ctx) == *old(ctx),
            },
    {
        match ctx.store.token_count.checked_add(1) {
            Some(n) => {
                ctx.store.token_count = n;
                Ok(n)
            },
            None => Err(Error::Overflow),
        }
    }

    /// Counts one token less.
    pub fn _nft_decrement_tokens(&self, ctx: &mut StateContext) -> (r: Result<u64, Error>)
        ensures
            match r {
                Ok(n) => n == old(ctx).store.token_count - 1 && *final(ctx) == (StateContext {
                    store: Store { token_count: n, ..old(ctx).store },
                    ..*old(ctx)
                }),
                Err(e) => e == Error::Overflow && old(ctx).store.token_count == 0 && *final(ctx)
                    == *old(ctx),
            },
    {
        match ctx.store.token_count.checked_sub(1) {
            Some(n) => {
                ctx.store.token_count = n;
                Ok(n)
            },
            None => Err(Error::Overflow),
        }
    }

    /// Carries out a transaction of `msg_sender`.
    pub fn nft_handle_exec(&self, ctx: &mut StateContext, msg_sender: String, msg: ExecuteMsg) -> (r:
        Result<(), Error>)
        requires
            old(ctx).store.wf(),
        ensures
            final(ctx).store.wf(),
            r is Err ==> *final(ctx) == *old(ctx),
            match msg {
                ExecuteMsg::Burn { token_id } => self.burn_post(
                    *old(ctx),
                    *final(ctx),
                    msg_sender,
                    token_id,
                    r,
                ),
                ExecuteMsg::Approve { spender, token_id, expires } => self.approvals_post(
                    *old(ctx),
                    *final(ctx),
                    msg_sender@,
                    spender,
                    token_id@,
                    true,
                    expires,
                    r,
                ),
                ExecuteMsg::Revoke { spender, token_id } => self.approvals_post(
                    *old(ctx),
                    *final(ctx),
                    msg_sender@,
                    spender,
                    token_id@,
                    false,
                    None,
                    r,
                ),
                ExecuteMsg::ApproveAll { operator, expires } => self.approve_all_post(
                    *old(ctx),
                    *final(ctx),
                    msg_sender,
                    operator,
                    expires,
                    r,
                ),
                ExecuteMsg::RevokeAll { operator } => self.revoke_all_post(
                    *old(ctx),
                    *final(ctx),
                    msg_sender,
                    operator,
                    r,
                ),
                ExecuteMsg::TransferNft { recipient, token_id } => self.transfer_post(
                    *old(ctx),
                    *final(ctx),
                    msg_sender@,
                    recipient,
                    token_id@,
                    r,
                ),
                ExecuteMsg::SendNft { contract, token_id, msg } => self.send_post(
                    *old(ctx),
                    *final(ctx),
                    msg_sender,
                    contract,
                    token_id@,
                    msg,
                    r,
                ),
            },
    {
        match msg {
            ExecuteMsg::Burn { token_id } => self.nft_burn(ctx, msg_sender, token_id),
            ExecuteMsg::Approve { spender, token_id, expires } => self.nft_approve(
                ctx,
                &msg_sender,
                &spender,
                token_id.as_str(),
                expires,
            ),
            ExecuteMsg::Revoke { spender, token_id } => self.nft_revoke(
                ctx,
                &msg_sender,
                &spender,
                token_id.as_str(),
            ),
            ExecuteMsg::ApproveAll { operator, expires } => self.nft_approve_all(
                ctx,
                &msg_sender,
                &operator,
                expires,
            ),
            ExecuteMsg::RevokeAll { operator } => self.nft_revoke_all(ctx, &msg_sender, &operator),
            ExecuteMsg::TransferNft { recipient, token_id } => self.nft_transfer(
                ctx,
                &msg_sender,
                &recipient,
                token_id.as_str(),
            ),
            ExecuteMsg::SendNft { contract, token_id, msg } => self.nft_send(
                ctx,
                &msg_sender,
                &contract,
                token_id.as_str(),
                msg,
            ),
        }
    }
}

/// The receipt that the warehouse asks for names the purchase it was issued
/// for: burning it removes that purchase and no other.
pub proof fn law_receipt_names_its_purchase(
    metadata: Metadata,
    product_id: crate::msg::product::ProductId,
    purchase_id: PurchaseId,
    quantity: u32,
)
    requires
        crate::warehouse::ibc::is_receipt_metadata(metadata, product_id, purchase_id, quantity),
    ensures
        metadata_purchase_id(metadata) == Some(purchase_id),
{
    let a = metadata.attributes->Some_0@;
    reveal_strlit("product-id");
    reveal_strlit("purchase-id");
    assert("product-id"@.len() != "purchase-id"@.len());
    crate::text::law_parse_reads_digits(purchase_id);
    assert(a.take(1).drop_last() =~= a.take(0));
    assert(a.take(2).drop_last() =~= a.take(1));
    assert(purchase_id_of(a.take(0)).is_none());
    assert(purchase_id_of(a.take(1)).is_none());
    assert(purchase_id_of(a.take(2)) == Some(purchase_id));
    lemma_purchase_id_stays(a, 2);
}

/// The end of a grant: the one given, or never.
pub open spec fn spec_expiry(expires: Option<Expiration>) -> Expiration {
    match expires {
        Some(e) => e,
        None => Expiration::Never {  },
    }
}

/// The approvals of a token after those of `spender` are taken off and,
/// where `add` is set, one that ends at `expires` is put on.
pub open spec fn updated_approvals(
    approvals: Seq<Approval>,
    spender: String,
    add: bool,
    expires: Expiration,
) -> Seq<Approval> {
    if add {
        without_spender(approvals, spender@).push(Approval { spender, expires })
    } else {
        without_spender(approvals, spender@)
    }
}

/// Whether a change of approvals succeeded, and if not, why not.
pub open spec fn outcome(r: Result<Vec<Approval>, Error>) -> Result<(), Error> {
    match r {
        Ok(_) => Ok(()),
        Err(e) => Err(e),
    }
}

/// A change of the tokens in place that keeps each token's id, and leaves
/// the operators alone, keeps the store's invariant and each token's place.
pub proof fn lemma_same_token_ids(before: Store, after: Store)
    requires
        before.wf(),
        after.tokens@.len() == before.tokens@.len(),
        forall|i: int|
            0 <= i < before.tokens@.len() ==> (#[trigger] after.tokens@[i]).token_id@
                == before.tokens@[i].token_id@,
        after.operators == before.operators,
        after.token_count == before.token_count,
    ensures
        after.wf(),
        forall|id: Seq<char>| #[trigger]
            has_token(before.tokens@, id) ==> has_token(after.tokens@, id) && token_index(
                after.tokens@,
                id,
            ) == token_index(before.tokens@, id),
{
    assert forall|a: int, b: int| 0 <= a < b < after.tokens@.len() implies after.tokens@[a].token_id@
        != after.tokens@[b].token_id@ by {
        assert(before.tokens@[a].token_id@ != before.tokens@[b].token_id@);
    }
    assert forall|id: Seq<char>| #[trigger]
        has_token(before.tokens@, id) implies has_token(after.tokens@, id) && token_index(
        after.tokens@,
        id,
    ) == token_index(before.tokens@, id) by {
        let i = token_index(before.tokens@, id);
        assert(is_token_at(before.tokens@, id, i));
        assert(is_token_at(after.tokens@, id, i));
        after.lemma_token_place(id, i);
    }
}

} // verus!
