//! The receipt ledger: a token for every purchase, issued when the warehouse
//! asks for it, and burnt by its holder to undo the purchase.

pub mod audit;
pub mod cw721;
pub mod ibc;
pub mod query;

use crate::ibc::IbcChannel;
use crate::msg::contract::nft::{Approval, BlockInfo, Expiration, Metadata};
use crate::response::{Event, OutMsg, Response};
use vstd::prelude::*;

verus! {

/// A token with its owner, the approvals on it and its metadata.
#[derive(Clone, Debug, PartialEq, Eq)]
pub struct TokenRecord {
    pub token_id: String,
    pub owner: String,
    pub approvals: Vec<Approval>,
    pub metadata: Metadata,
}

/// The right of `operator` to move every token of `owner`, until `expires`.
#[derive(Clone, Debug, PartialEq, Eq)]
pub struct OperatorRecord {
    pub owner: String,
    pub operator: String,
    pub expires: Expiration,
}

/// The tables of the receipt ledger.
#[derive(Clone, Debug, PartialEq, Eq)]
pub struct Store {
    pub tokens: Vec<TokenRecord>,
    pub operators: Vec<OperatorRecord>,
    /// The number of tokens.
    pub token_count: u64,
    /// The number that names the next token.
    pub token_id_cursor: u64,
    /// The channel to the warehouse, once connected.
    pub ibc_channel: Option<IbcChannel>,
}

/// Whether `i` is the place of the token `id`.
pub open spec fn is_token_at(tokens: Seq<TokenRecord>, id: Seq<char>, i: int) -> bool {
    0 <= i < tokens.len() && tokens[i].token_id@ == id
}

/// Whether there is a token `id`.
pub open spec fn has_token(tokens: Seq<TokenRecord>, id: Seq<char>) -> bool {
    exists|i: int| is_token_at(tokens, id, i)
}

/// The place of the token `id`.
pub open spec fn token_index(tokens: Seq<TokenRecord>, id: Seq<char>) -> int {
    choose|i: int| is_token_at(tokens, id, i)
}

/// The token `id`.
pub open spec fn token(tokens: Seq<TokenRecord>, id: Seq<char>) -> TokenRecord {
    tokens[token_index(tokens, id)]
}

/// Whether `i` is the place of the grant of `owner` to `operator`.
pub open spec fn is_grant_at(
    operators: Seq<OperatorRecord>,
    owner: Seq<char>,
    operator: Seq<char>,
    i: int,
) -> bool {
    0 <= i < operators.len() && operators[i].owner@ == owner && operators[i].operator@ == operator
}

/// Until when `operator` may move the tokens of `owner`, if at all.
pub open spec fn grant(operators: Seq<OperatorRecord>, owner: Seq<char>, operator: Seq<char>)
    -> Option<Expiration> {
    if exists|i: int| is_grant_at(operators, owner, operator, i) {
        Some(operators[choose|i: int| is_grant_at(operators, owner, operator, i)].expires)
    } else {
        None
    }
}

impl Store {
    /// The store's invariant: no two tokens share an id, no two grants share
    /// owner and operator, and the count of tokens is their number.
    pub open spec fn wf(self) -> bool {
        &&& self.distinct()
        &&& self.token_count == self.tokens@.len()
    }

    /// No two tokens share an id, and no two grants share owner and
    /// operator.
    pub open spec fn distinct(self) -> bool {
        &&& forall|i: int, j: int|
            0 <= i < j < self.tokens@.len() ==> self.tokens@[i].token_id@
                != self.tokens@[j].token_id@
        &&& forall|i: int, j: int|
            0 <= i < j < self.operators@.len() ==> !(self.operators@[i].owner@
                == self.operators@[j].owner@ && self.operators@[i].operator@
                == self.operators@[j].operator@)
    }

    /// In a well-formed store a token's id decides its place.
    pub proof fn lemma_token_place(self, id: Seq<char>, i: int)
        requires
            self.distinct(),
            is_token_at(self.tokens@, id, i),
        ensures
            has_token(self.tokens@, id),
            token_index(self.tokens@, id) == i,
    {
        let j = token_index(self.tokens@, id);
        assert(is_token_at(self.tokens@, id, j));
        if i < j {
            assert(self.tokens@[i].token_id@ != self.tokens@[j].token_id@);
        } else if j < i {
            assert(self.tokens@[j].token_id@ != self.tokens@[i].token_id@);
        }
    }

    /// In a well-formed store owner and operator decide a grant's place.
    pub proof fn lemma_grant_place(self, owner: Seq<char>, operator: Seq<char>, i: int)
        requires
            self.distinct(),
            is_grant_at(self.operators@, owner, operator, i),
        ensures
            grant(self.operators@, owner, operator) == Some(self.operators@[i].expires),
            (choose|k: int| is_grant_at(self.operators@, owner, operator, k)) == i,
    {
        let j = choose|k: int| is_grant_at(self.operators@, owner, operator, k);
        assert(is_grant_at(self.operators@, owner, operator, j));
        if i < j {
            assert(!(self.operators@[i].owner@ == self.operators@[j].owner@
                && self.operators@[i].operator@ == self.operators@[j].operator@));
        } else if j < i {
            assert(!(self.operators@[j].owner@ == self.operators@[i].owner@
                && self.operators@[j].operator@ == self.operators@[i].operator@));
        }
    }

    /// An empty store.
    pub fn new() -> (r: Store)
        ensures
            r.wf(),
            r.tokens@.len() == 0,
            r.operators@.len() == 0,
            r.token_count == 0,
            r.token_id_cursor == 0,
            r.ibc_channel.is_none(),
    {
        Store {
            tokens: Vec::new(),
            operators: Vec::new(),
            token_count: 0,
            token_id_cursor: 0,
            ibc_channel: None,
        }
    }

    /// The place of the token `token_id`, if there is one.
    pub fn find_token(&self, token_id: &str) -> (r: Option<usize>)
        requires
            self.distinct(),
        ensures
            r.is_some() == has_token(self.tokens@, token_id@),
            r matches Some(i) ==> is_token_at(self.tokens@, token_id@, i as int) && token_index(
                self.tokens@,
                token_id@,
            ) == i,
    {
        let wanted = crate::nft::cw721::text_of(token_id);
        let mut i: usize = 0;
        while i < self.tokens.len()
            invariant
                self.distinct(),
                wanted@ == token_id@,
                i <= self.tokens.len(),
                forall|k: int| 0 <= k < i ==> !is_token_at(self.tokens@, token_id@, k),
            decreases self.tokens.len() - i,
        {
            if self.tokens[i].token_id == wanted {
                proof {
                    self.lemma_token_place(token_id@, i as int);
                }
                return Some(i);
            }
            i += 1;
        }
        None
    }

    /// The place of the grant of `owner` to `operator`, if there is one.
    pub fn find_grant(&self, owner: &String, operator: &String) -> (r: Option<usize>)
        requires
            self.distinct(),
        ensures
            r.is_some() == grant(self.operators@, owner@, operator@).is_some(),
            r matches Some(i) ==> is_grant_at(self.operators@, owner@, operator@, i as int)
                && grant(self.operators@, owner@, operator@) == Some(
                self.operators@[i as int].expires,
            ),
    {
        let mut i: usize = 0;
        while i < self.operators.len()
            invariant
                self.distinct(),
                i <= self.operators.len(),
                forall|k: int| 0 <= k < i ==> !is_grant_at(self.operators@, owner@, operator@, k),
            decreases self.operators.len() - i,
        {
            if self.operators[i].owner == *owner && self.operators[i].operator == *operator {
                proof {
                    self.lemma_grant_place(owner@, operator@, i as int);
                }
                return Some(i);
            }
            i += 1;
        }
        None
    }
}

/// The store of a handler's run and the response that it fills.
#[derive(Clone, Debug, PartialEq, Eq)]
pub struct StateContext {
    pub store: Store,
    pub response: Response,
}

impl StateContext {
    /// A context over a store, with an empty response.
    pub fn new(store: Store) -> (r: StateContext)
        ensures
            r.store == store,
            r.response.events@ == Seq::<Event>::empty(),
            r.response.messages@ == Seq::<OutMsg>::empty(),
    {
        StateContext { store, response: Response::new() }
    }
}

/// The handlers of the receipt ledger, with the block they run in.
#[derive(Clone, Debug, PartialEq, Eq)]
pub struct State {
    pub block: BlockInfo,
}

} // verus!
