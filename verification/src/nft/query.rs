//! The read-only side of the receipt ledger.

use crate::error::Error;
use crate::ibc::copy_channel;
use crate::msg::contract::nft::{
    AllNftInfoResponse, Approval, ApprovalResponse, ApprovalsResponse, Expiration, FullTokenInfo,
    InfoResp, Metadata, NftContractInfo, NftInfoAndIdResponse, NftInfoResponse, NumTokensResponse,
    OwnerOfResponse, QueryMsg, Trait,
};
use crate::msg::contract::nft::{OperatorsResponse, TokensResponse};
use crate::nft::{has_token, token, OperatorRecord, State, Store, TokenRecord};
use crate::page::{is_page, page_limit, page_of, spec_page_limit};
use vstd::prelude::*;
use vstd::string::*;

verus! {

/// The approvals that a query shows: all of them where the expired ones are
/// asked for, else those that have not expired in a block of the given
/// height and time, in their order.
pub open spec fn shown_approvals(
    approvals: Seq<Approval>,
    include_expired: bool,
    height: u64,
    time: u64,
) -> Seq<Approval>
    decreases approvals.len(),
{
    if approvals.len() == 0 {
        Seq::empty()
    } else {
        let before = shown_approvals(approvals.drop_last(), include_expired, height, time);
        if include_expired || !approvals.last().expires.spec_is_expired(height, time) {
            before.push(approvals.last())
        } else {
            before
        }
    }
}

/// The first approval of `spender` among those that a query shows.
pub open spec fn shown_approval_of(
    approvals: Seq<Approval>,
    spender: Seq<char>,
    include_expired: bool,
    height: u64,
    time: u64,
) -> Option<Approval>
    decreases approvals.len(),
{
    if approvals.len() == 0 {
        None
    } else {
        match shown_approval_of(approvals.drop_last(), spender, include_expired, height, time) {
            Some(a) => Some(a),
            None => if approvals.last().spender@ == spender && (include_expired
                || !approvals.last().expires.spec_is_expired(height, time)) {
                Some(approvals.last())
            } else {
                None
            },
        }
    }
}

/// The first approval of `spender` among the first `n` is the first among
/// all.
pub proof fn lemma_shown_approval_stays(
    approvals: Seq<Approval>,
    n: int,
    spender: Seq<char>,
    include_expired: bool,
    height: u64,
    time: u64,
)
    requires
        0 <= n <= approvals.len(),
        shown_approval_of(approvals.take(n), spender, include_expired, height, time) is Some,
    ensures
        shown_approval_of(approvals, spender, include_expired, height, time) == shown_approval_of(
            approvals.take(n),
            spender,
            include_expired,
            height,
            time,
        ),
    decreases approvals.len() - n,
{
    if n < approvals.len() {
        assert(approvals.take(n + 1).drop_last() =~= approvals.take(n));
        lemma_shown_approval_stays(approvals, n + 1, spender, include_expired, height, time);
    } else {
        assert(approvals.take(n) =~= approvals);
    }
}

/// A copy of an optional text.
fn copy_text(text: &Option<String>) -> (r: Option<String>)
    ensures
        r == *text,
{
    match text {
        Some(t) => Some(t.clone()),
        None => None,
    }
}

/// Whether two pieces of metadata say the same.
pub open spec fn same_metadata(a: Metadata, b: Metadata) -> bool {
    &&& a.image == b.image
    &&& a.image_data == b.image_data
    &&& a.external_url == b.external_url
    &&& a.description == b.description
    &&& a.name == b.name
    &&& a.background_color == b.background_color
    &&& a.animation_url == b.animation_url
    &&& a.youtube_url == b.youtube_url
    &&& match (a.attributes, b.attributes) {
        (Some(x), Some(y)) => x@ == y@,
        (None, None) => true,
        _ => false,
    }
}

/// A copy of a token's metadata.
pub fn copy_metadata(m: &Metadata) -> (r: Metadata)
    ensures
        same_metadata(r, *m),
{
    let attributes = match &m.attributes {
        Some(traits) => {
            let mut out: Vec<Trait> = Vec::new();
            let mut k: usize = 0;
            while k < traits.len()
                invariant
                    k <= traits@.len(),
                    out@ == traits@.take(k as int),
                decreases traits@.len() - k,
            {
                out.push(
                    Trait {
                        display_type: copy_text(&traits[k].display_type),
                        trait_type: traits[k].trait_type.clone(),
                        value: traits[k].value.clone(),
                    },
                );
                proof {
                    assert(out@ =~= traits@.take(k + 1));
                }
                k += 1;
            }
            proof {
                assert(traits@.take(k as int) =~= traits@);
            }
            Some(out)
        },
        None => None,
    };
    Metadata {
        image: copy_text(&m.image),
        image_data: copy_text(&m.image_data),
        external_url: copy_text(&m.external_url),
        description: copy_text(&m.description),
        name: copy_text(&m.name),
        attributes,
        background_color: copy_text(&m.background_color),
        animation_url: copy_text(&m.animation_url),
        youtube_url: copy_text(&m.youtube_url),
    }
}

/// The approvals that a query shows.
pub fn filter_approvals(
    block: &crate::msg::contract::nft::BlockInfo,
    approvals: &Vec<Approval>,
    include_expired: bool,
) -> (r: Vec<Approval>)
    ensures
        r@ == shown_approvals(approvals@, include_expired, block.height, block.time_nanos),
{
    let mut out: Vec<Approval> = Vec::new();
    let mut k: usize = 0;
    while k < approvals.len()
        invariant
            k <= approvals@.len(),
            out@ == shown_approvals(
                approvals@.take(k as int),
                include_expired,
                block.height,
                block.time_nanos,
            ),
        decreases approvals@.len() - k,
    {
        proof {
            assert(approvals@.take(k + 1).drop_last() =~= approvals@.take(k as int));
        }
        if include_expired || !approvals[k].is_expired(block) {
            out.push(Approval { spender: approvals[k].spender.clone(), expires: approvals[k].expires });
        }
        k += 1;
    }
    proof {
        assert(approvals@.take(k as int) =~= approvals@);
    }
    out
}

impl State {
    /// The number of tokens.
    pub fn nft_num_tokens(&self, store: &Store) -> (r: Result<NumTokensResponse, Error>)
        ensures
            r == Ok::<NumTokensResponse, Error>(NumTokensResponse { count: store.token_count }),
    {
        Ok(NumTokensResponse { count: store.token_count })
    }

    /// Name and symbol of the collection.
    pub fn nft_contract_info(&self, store: &Store) -> (r: Result<NftContractInfo, Error>)
        ensures
            r matches Ok(info) && info.name@ == "demo"@ && info.symbol@ == "demo"@,
    {
        Ok(NftContractInfo { name: String::from_str("demo"), symbol: String::from_str("demo") })
    }

    /// The approvals on a token.
    pub fn nft_token_approvals(&self, store: &Store, token_id: &str) -> (r: Result<
        Vec<Approval>,
        Error,
    >)
        requires
            store.wf(),
        ensures
            match r {
                Ok(approvals) => has_token(store.tokens@, token_id@) && approvals@ == token(
                    store.tokens@,
                    token_id@,
                ).approvals@,
                Err(e) => e == Error::TokenNotFound && !has_token(store.tokens@, token_id@),
            },
    {
        match store.find_token(token_id) {
            Some(i) => {
                let all = filter_approvals(&self.block, &store.tokens[i].approvals, true);
                proof {
                    lemma_all_shown(
                        store.tokens@[i as int].approvals@,
                        self.block.height,
                        self.block.time_nanos,
                    );
                }
                Ok(all)
            },
            None => Err(Error::TokenNotFound),
        }
    }

    /// All that the ledger keeps of a token.
    pub fn nft_token_full(&self, store: &Store, token_id: &str) -> (r: Result<FullTokenInfo, Error>)
        requires
            store.wf(),
        ensures
            match r {
                Ok(full) => {
                    let t = token(store.tokens@, token_id@);
                    &&& has_token(store.tokens@, token_id@)
                    &&& full.owner == t.owner
                    &&& full.approvals@ == t.approvals@
                    &&& same_metadata(full.extension, t.metadata)
                },
                Err(e) => e == Error::TokenNotFound && !has_token(store.tokens@, token_id@),
            },
    {
        let approvals = self.nft_token_approvals(store, token_id)?;
        let i = store.find_token(token_id).unwrap();
        Ok(
            FullTokenInfo {
                owner: store.tokens[i].owner.clone(),
                approvals,
                extension: copy_metadata(&store.tokens[i].metadata),
            },
        )
    }

    /// The metadata of a token.
    pub fn nft_info(&self, store: &Store, token_id: &str) -> (r: Result<NftInfoResponse, Error>)
        requires
            store.wf(),
        ensures
            match r {
                Ok(info) => has_token(store.tokens@, token_id@) && same_metadata(
                    info.extension,
                    token(store.tokens@, token_id@).metadata,
                ),
                Err(e) => e == Error::TokenNotFound && !has_token(store.tokens@, token_id@),
            },
    {
        let full = self.nft_token_full(store, token_id)?;
        Ok(NftInfoResponse { extension: full.extension })
    }

    /// The owner of a token and the approvals on it that the query shows.
    pub fn nft_owner_of(&self, store: &Store, token_id: &str, include_expired: bool) -> (r: Result<
        OwnerOfResponse,
        Error,
    >)
        requires
            store.wf(),
        ensures
            match r {
                Ok(resp) => {
                    let t = token(store.tokens@, token_id@);
                    &&& has_token(store.tokens@, token_id@)
                    &&& resp.owner == t.owner
                    &&& resp.approvals@ == shown_approvals(
                        t.approvals@,
                        include_expired,
                        self.block.height,
                        self.block.time_nanos,
                    )
                },
                Err(e) => e == Error::TokenNotFound && !has_token(store.tokens@, token_id@),
            },
    {
        let i = match store.find_token(token_id) {
            Some(i) => i,
            None => {
                return Err(Error::TokenNotFound);
            },
        };
        Ok(
            OwnerOfResponse {
                owner: store.tokens[i].owner.clone(),
                approvals: filter_approvals(
                    &self.block,
                    &store.tokens[i].approvals,
                    include_expired,
                ),
            },
        )
    }

    /// Owner, approvals and metadata of a token.
    pub fn nft_all_info(&self, store: &Store, token_id: &str, include_expired: bool) -> (r: Result<
        AllNftInfoResponse,
        Error,
    >)
        requires
            store.wf(),
        ensures
            match r {
                Ok(resp) => {
                    let t = token(store.tokens@, token_id@);
                    &&& has_token(store.tokens@, token_id@)
                    &&& resp.access.owner == t.owner
                    &&& resp.access.approvals@ == shown_approvals(
                        t.approvals@,
                        include_expired,
                        self.block.height,
                        self.block.time_nanos,
                    )
                    &&& same_metadata(resp.info.extension, t.metadata)
                },
                Err(e) => e == Error::TokenNotFound && !has_token(store.tokens@, token_id@),
            },
    {
        let access = self.nft_owner_of(store, token_id, include_expired)?;
        let info = self.nft_info(store, token_id)?;
        Ok(AllNftInfoResponse { access, info })
    }

    /// The approval of `spender` on a token. The owner is approved for
    /// good; for anyone else it is the first approval that the query shows.
    pub fn nft_approval(
        &self,
        store: &Store,
        token_id: &str,
        spender: String,
        include_expired: bool,
    ) -> (r: Result<ApprovalResponse, Error>)
        requires
            store.wf(),
        ensures
            match r {
                Ok(resp) => {
                    let t = token(store.tokens@, token_id@);
                    &&& has_token(store.tokens@, token_id@)
                    &&& if t.owner@ == spender@ {
                        resp.approval.spender == t.owner && resp.approval.expires
                            == (Expiration::Never {  })
                    } else {
                        Some(resp.approval) == shown_approval_of(
                            t.approvals@,
                            spender@,
                            include_expired,
                            self.block.height,
                            self.block.time_nanos,
                        )
                    }
                },
                Err(e) => if !has_token(store.tokens@, token_id@) {
                    e == Error::TokenNotFound
                } else {
                    let t = token(store.tokens@, token_id@);
                    &&& e == Error::ApprovalNotFound
                    &&& t.owner@ != spender@
                    &&& shown_approval_of(
                        t.approvals@,
                        spender@,
                        include_expired,
                        self.block.height,
                        self.block.time_nanos,
                    ).is_none()
                },
            },
    {
        let i = match store.find_token(token_id) {
            Some(i) => i,
            None => {
                return Err(Error::TokenNotFound);
            },
        };
        let t = &store.tokens[i];
        if t.owner == spender {
            return Ok(
                ApprovalResponse {
                    approval: Approval { spender: t.owner.clone(), expires: Expiration::Never {  } },
                },
            );
        }
        let mut found: Option<Approval> = None;
        let mut k: usize = 0;
        while k < t.approvals.len() && found.is_none()
            invariant
                k <= t.approvals@.len(),
                found == shown_approval_of(
                    t.approvals@.take(k as int),
                    spender@,
                    include_expired,
                    self.block.height,
                    self.block.time_nanos,
                ),
            decreases t.approvals@.len() - k,
        {
            proof {
                assert(t.approvals@.take(k + 1).drop_last() =~= t.approvals@.take(k as int));
            }
            if t.approvals[k].spender == spender && (include_expired || !t.approvals[k].is_expired(
                &self.block,
            )) {
                found = Some(
                    Approval {
                        spender: t.approvals[k].spender.clone(),
                        expires: t.approvals[k].expires,
                    },
                );
            }
            k += 1;
        }
        proof {
            if found.is_some() {
                lemma_shown_approval_stays(
                    t.approvals@,
                    k as int,
                    spender@,
                    include_expired,
                    self.block.height,
                    self.block.time_nanos,
                );
            } else {
                assert(t.approvals@.take(k as int) =~= t.approvals@);
            }
        }
        match found {
            Some(approval) => Ok(ApprovalResponse { approval }),
            None => Err(Error::ApprovalNotFound),
        }
    }

    /// The approvals on a token that the query shows.
    pub fn nft_approvals(&self, store: &Store, token_id: &str, include_expired: bool) -> (r:
        Result<ApprovalsResponse, Error>)
        requires
            store.wf(),
        ensures
            match r {
                Ok(resp) => has_token(store.tokens@, token_id@) && resp.approvals@
                    == shown_approvals(
                    token(store.tokens@, token_id@).approvals@,
                    include_expired,
                    self.block.height,
                    self.block.time_nanos,
                ),
                Err(e) => e == Error::TokenNotFound && !has_token(store.tokens@, token_id@),
            },
    {
        let i = match store.find_token(token_id) {
            Some(i) => i,
            None => {
                return Err(Error::TokenNotFound);
            },
        };
        Ok(
            ApprovalsResponse {
                approvals: filter_approvals(
                    &self.block,
                    &store.tokens[i].approvals,
                    include_expired,
                ),
            },
        )
    }
}

/// The ids of the tokens, in the order of the table.
pub open spec fn token_keys(tokens: Seq<TokenRecord>) -> Seq<String> {
    Seq::new(tokens.len(), |i: int| tokens[i].token_id)
}

/// For each token, whether a listing of the tokens of `owner`, or of all
/// where no owner is given, holds it.
pub open spec fn token_chosen(tokens: Seq<TokenRecord>, owner: Option<String>) -> Seq<bool> {
    Seq::new(tokens.len(), |i: int| owner matches Some(o) ==> tokens[i].owner@ == o@)
}

/// Whether `ids` is the page of token ids that a listing asks for: the ids
/// of the first `limit` tokens of `owner`, or of all, beyond `start_after`,
/// in ascending order.
pub open spec fn is_token_page(
    tokens: Seq<TokenRecord>,
    owner: Option<String>,
    start_after: Option<String>,
    limit: nat,
    ids: Seq<String>,
) -> bool {
    exists|page: Seq<usize>|
        {
            &&& #[trigger] is_page(
                token_keys(tokens),
                token_chosen(tokens, owner),
                start_after,
                limit,
                page,
            )
            &&& ids.len() == page.len()
            &&& forall|m: int|
                0 <= m < page.len() ==> (#[trigger] ids[m]) == tokens[page[m] as int].token_id
        }
}

/// The operators, in the order of the table.
pub open spec fn operator_keys(operators: Seq<OperatorRecord>) -> Seq<String> {
    Seq::new(operators.len(), |i: int| operators[i].operator)
}

/// For each grant, whether a listing of the operators of `owner` holds it:
/// it is a grant of that owner, and it has not expired in a block of the
/// given height and time unless the expired ones are asked for.
pub open spec fn operator_chosen(
    operators: Seq<OperatorRecord>,
    owner: Seq<char>,
    include_expired: bool,
    height: u64,
    time: u64,
) -> Seq<bool> {
    Seq::new(
        operators.len(),
        |i: int|
            operators[i].owner@ == owner && (include_expired
                || !operators[i].expires.spec_is_expired(height, time)),
    )
}

/// Whether `shown` is the page of operators that a listing asks for: the
/// first `limit` grants of `owner` beyond `start_after`, in ascending order
/// of operator.
pub open spec fn is_operator_page(
    operators: Seq<OperatorRecord>,
    owner: Seq<char>,
    include_expired: bool,
    height: u64,
    time: u64,
    start_after: Option<String>,
    limit: nat,
    shown: Seq<Approval>,
) -> bool {
    exists|page: Seq<usize>|
        {
            &&& #[trigger] is_page(
                operator_keys(operators),
                operator_chosen(operators, owner, include_expired, height, time),
                start_after,
                limit,
                page,
            )
            &&& shown.len() == page.len()
            &&& forall|m: int|
                0 <= m < page.len() ==> (#[trigger] shown[m]) == (Approval {
                    spender: operators[page[m] as int].operator,
                    expires: operators[page[m] as int].expires,
                })
        }
}

/// The answer to a query, by the kind of what was asked for.
#[derive(Clone, Debug, PartialEq, Eq)]
pub enum QueryResponse {
    Tokens(TokensResponse),
    Operators(OperatorsResponse),
    ContractInfo(NftContractInfo),
    NftInfo(NftInfoResponse),
    NftInfos(Vec<NftInfoAndIdResponse>),
    OwnerOf(OwnerOfResponse),
    AllNftInfo(AllNftInfoResponse),
    NumTokens(NumTokensResponse),
    Approval(ApprovalResponse),
    Approvals(ApprovalsResponse),
    Info(InfoResp),
}

/// Whether `include_expired` asks for the expired approvals too.
pub open spec fn wants_expired(include_expired: Option<bool>) -> bool {
    include_expired == Some(true)
}

impl State {
    /// A page of token ids: those of the tokens of `owner`, or of all,
    /// beyond `start_after`, in ascending order, at most as many as the
    /// page is long.
    pub fn nft_map_token_ids(
        &self,
        store: &Store,
        owner: Option<String>,
        start_after: Option<String>,
        limit: Option<u32>,
    ) -> (r: Result<Vec<String>, Error>)
        ensures
            r matches Ok(ids) && is_token_page(
                store.tokens@,
                owner,
                start_after,
                spec_page_limit(limit),
                ids@,
            ),
    {
        let limit = page_limit(limit);
        let mut keys: Vec<String> = Vec::new();
        let mut chosen: Vec<bool> = Vec::new();
        let mut k: usize = 0;
        while k < store.tokens.len()
            invariant
                k <= store.tokens@.len(),
                keys@.len() == k,
                chosen@.len() == k,
                forall|i: int| 0 <= i < k ==> (#[trigger] keys@[i]) == store.tokens@[i].token_id,
                forall|i: int|
                    0 <= i < k ==> (#[trigger] chosen@[i]) == (owner matches Some(o)
                        ==> store.tokens@[i].owner@ == o@),
            decreases store.tokens@.len() - k,
        {
            keys.push(store.tokens[k].token_id.clone());
            chosen.push(
                match &owner {
                    Some(o) => store.tokens[k].owner == *o,
                    None => true,
                },
            );
            k += 1;
        }
        proof {
            assert(keys@ =~= token_keys(store.tokens@));
            assert(chosen@ =~= token_chosen(store.tokens@, owner));
        }
        let page = page_of(&keys, &chosen, &start_after, limit);
        let mut ids: Vec<String> = Vec::new();
        let mut m: usize = 0;
        while m < page.len()
            invariant
                m <= page@.len(),
                ids@.len() == m,
                keys@ == token_keys(store.tokens@),
                is_page(keys@, chosen@, start_after, limit as nat, page@),
                forall|i: int|
                    0 <= i < m ==> (#[trigger] ids@[i]) == store.tokens@[page@[i] as int].token_id,
            decreases page@.len() - m,
        {
            ids.push(keys[page[m]].clone());
            m += 1;
        }
        Ok(ids)
    }

    /// A page of the operators of `owner`: the grants beyond `start_addr`,
    /// in ascending order of operator, at most as many as the page is long.
    /// Grants that have expired are left out unless they are asked for.
    pub fn nft_operators(
        &self,
        store: &Store,
        owner: String,
        include_expired: bool,
        start_addr: Option<String>,
        limit: Option<u32>,
    ) -> (r: Result<OperatorsResponse, Error>)
        ensures
            r matches Ok(resp) && is_operator_page(
                store.operators@,
                owner@,
                include_expired,
                self.block.height,
                self.block.time_nanos,
                start_addr,
                spec_page_limit(limit),
                resp.operators@,
            ),
    {
        let limit = page_limit(limit);
        let mut keys: Vec<String> = Vec::new();
        let mut chosen: Vec<bool> = Vec::new();
        let mut k: usize = 0;
        while k < store.operators.len()
            invariant
                k <= store.operators@.len(),
                keys@.len() == k,
                chosen@.len() == k,
                forall|i: int| 0 <= i < k ==> (#[trigger] keys@[i]) == store.operators@[i].operator,
                forall|i: int|
                    0 <= i < k ==> (#[trigger] chosen@[i]) == (store.operators@[i].owner@ == owner@
                        && (include_expired || !store.operators@[i].expires.spec_is_expired(
                        self.block.height,
                        self.block.time_nanos,
                    ))),
            decreases store.operators@.len() - k,
        {
            keys.push(store.operators[k].operator.clone());
            chosen.push(
                store.operators[k].owner == owner && (include_expired
                    || !store.operators[k].expires.is_expired(&self.block)),
            );
            k += 1;
        }
        proof {
            assert(keys@ =~= operator_keys(store.operators@));
            assert(chosen@ =~= operator_chosen(
                store.operators@,
                owner@,
                include_expired,
                self.block.height,
                self.block.time_nanos,
            ));
        }
        let page = page_of(&keys, &chosen, &start_addr, limit);
        let mut operators: Vec<Approval> = Vec::new();
        let mut m: usize = 0;
        while m < page.len()
            invariant
                m <= page@.len(),
                operators@.len() == m,
                keys@ == operator_keys(store.operators@),
                is_page(keys@, chosen@, start_addr, limit as nat, page@),
                forall|i: int|
                    0 <= i < m ==> (#[trigger] operators@[i]) == (Approval {
                        spender: store.operators@[page@[i] as int].operator,
                        expires: store.operators@[page@[i] as int].expires,
                    }),
            decreases page@.len() - m,
        {
            let record = &store.operators[page[m]];
            operators.push(Approval { spender: record.operator.clone(), expires: record.expires });
            m += 1;
        }
        Ok(OperatorsResponse { operators })
    }

    /// Answers a query. Where a token that is asked for does not exist the
    /// query fails.
    pub fn nft_handle_query(&self, store: &Store, msg: QueryMsg) -> (r: Result<
        QueryResponse,
        Error,
    >)
        requires
            store.wf(),
        ensures
            match msg {
                QueryMsg::Tokens { owner, start_after, limit } => r matches Ok(
                    QueryResponse::Tokens(resp),
                ) && is_token_page(
                    store.tokens@,
                    Some(owner),
                    start_after,
                    spec_page_limit(limit),
                    resp.tokens@,
                ),
                QueryMsg::AllTokens { start_after, limit } => r matches Ok(
                    QueryResponse::Tokens(resp),
                ) && is_token_page(
                    store.tokens@,
                    None,
                    start_after,
                    spec_page_limit(limit),
                    resp.tokens@,
                ),
                QueryMsg::AllOperators { owner, include_expired, start_after, limit } => r matches Ok(
                    QueryResponse::Operators(resp),
                ) && is_operator_page(
                    store.operators@,
                    owner@,
                    wants_expired(include_expired),
                    self.block.height,
                    self.block.time_nanos,
                    start_after,
                    spec_page_limit(limit),
                    resp.operators@,
                ),
                QueryMsg::ContractInfo {  } => r matches Ok(QueryResponse::ContractInfo(info))
                    && info.name@ == "demo"@ && info.symbol@ == "demo"@,
                QueryMsg::NumTokens {  } => r == Ok::<QueryResponse, Error>(
                    QueryResponse::NumTokens(NumTokensResponse { count: store.token_count }),
                ),
                QueryMsg::NftInfo { token_id } => match r {
                    Ok(QueryResponse::NftInfo(info)) => has_token(store.tokens@, token_id@)
                        && same_metadata(info.extension, token(store.tokens@, token_id@).metadata),
                    Ok(_) => false,
                    Err(e) => e == Error::TokenNotFound && !has_token(store.tokens@, token_id@),
                },
                QueryMsg::NftInfos { token_ids } => match r {
                    Ok(QueryResponse::NftInfos(infos)) => {
                        &&& infos@.len() == token_ids@.len()
                        &&& forall|k: int|
                            0 <= k < infos@.len() ==> has_token(
                                store.tokens@,
                                (#[trigger] token_ids@[k])@,
                            ) && infos@[k].token_id == token_ids@[k] && same_metadata(
                                infos@[k].extension,
                                token(store.tokens@, token_ids@[k]@).metadata,
                            )
                    },
                    Ok(_) => false,
                    Err(e) => e == Error::TokenNotFound && exists|k: int|
                        0 <= k < token_ids@.len() && !has_token(
                            store.tokens@,
                            (#[trigger] token_ids@[k])@,
                        ),
                },
                QueryMsg::OwnerOf { token_id, include_expired } => match r {
                    Ok(QueryResponse::OwnerOf(resp)) => {
                        let t = token(store.tokens@, token_id@);
                        &&& has_token(store.tokens@, token_id@)
                        &&& resp.owner == t.owner
                        &&& resp.approvals@ == shown_approvals(
                            t.approvals@,
                            wants_expired(include_expired),
                            self.block.height,
                            self.block.time_nanos,
                        )
                    },
                    Ok(_) => false,
                    Err(e) => e == Error::TokenNotFound && !has_token(store.tokens@, token_id@),
                },
                QueryMsg::AllNftInfo { token_id, include_expired } => match r {
                    Ok(QueryResponse::AllNftInfo(resp)) => {
                        let t = token(store.tokens@, token_id@);
                        &&& has_token(store.tokens@, token_id@)
                        &&& resp.access.owner == t.owner
                        &&& resp.access.approvals@ == shown_approvals(
                            t.approvals@,
                            wants_expired(include_expired),
                            self.block.height,
                            self.block.time_nanos,
                        )
                        &&& same_metadata(resp.info.extension, t.metadata)
                    },
                    Ok(_) => false,
                    Err(e) => e == Error::TokenNotFound && !has_token(store.tokens@, token_id@),
                },
                QueryMsg::Approvals { token_id, include_expired } => match r {
                    Ok(QueryResponse::Approvals(resp)) => has_token(store.tokens@, token_id@)
                        && resp.approvals@ == shown_approvals(
                        token(store.tokens@, token_id@).approvals@,
                        wants_expired(include_expired),
                        self.block.height,
                        self.block.time_nanos,
                    ),
                    Ok(_) => false,
                    Err(e) => e == Error::TokenNotFound && !has_token(store.tokens@, token_id@),
                },
                QueryMsg::Approval { token_id, spender, include_expired } => match r {
                    Ok(QueryResponse::Approval(resp)) => {
                        let t = token(store.tokens@, token_id@);
                        &&& has_token(store.tokens@, token_id@)
                        &&& if t.owner@ == spender@ {
                            resp.approval.spender == t.owner && resp.approval.expires
                                == (Expiration::Never {  })
                        } else {
                            Some(resp.approval) == shown_approval_of(
                                t.approvals@,
                                spender@,
                                wants_expired(include_expired),
                                self.block.height,
                                self.block.time_nanos,
                            )
                        }
                    },
                    Ok(_) => false,
                    Err(e) => if !has_token(store.tokens@, token_id@) {
                        e == Error::TokenNotFound
                    } else {
                        let t = token(store.tokens@, token_id@);
                        &&& e == Error::ApprovalNotFound
                        &&& t.owner@ != spender@
                        &&& shown_approval_of(
                            t.approvals@,
                            spender@,
                            wants_expired(include_expired),
                            self.block.height,
                            self.block.time_nanos,
                        ).is_none()
                    },
                },
                _ => r matches Ok(QueryResponse::Info(info)) && info.ibc_channel
                    == store.ibc_channel,
            },
    {
        match msg {
            QueryMsg::Tokens { owner, start_after, limit } => {
                match self.nft_map_token_ids(store, Some(owner), start_after, limit) {
                    Ok(tokens) => Ok(QueryResponse::Tokens(TokensResponse { tokens })),
                    Err(e) => Err(e),
                }
            },
            QueryMsg::AllTokens { start_after, limit } => {
                match self.nft_map_token_ids(store, None, start_after, limit) {
                    Ok(tokens) => Ok(QueryResponse::Tokens(TokensResponse { tokens })),
                    Err(e) => Err(e),
                }
            },
            QueryMsg::AllOperators { owner, include_expired, start_after, limit } => {
                match self.nft_operators(store, owner, flag(include_expired), start_after, limit) {
                    Ok(resp) => Ok(QueryResponse::Operators(resp)),
                    Err(e) => Err(e),
                }
            },
            QueryMsg::ContractInfo {  } => {
                match self.nft_contract_info(store) {
                    Ok(info) => Ok(QueryResponse::ContractInfo(info)),
                    Err(e) => Err(e),
                }
            },
            QueryMsg::NumTokens {  } => {
                match self.nft_num_tokens(store) {
                    Ok(n) => Ok(QueryResponse::NumTokens(n)),
                    Err(e) => Err(e),
                }
            },
            QueryMsg::NftInfo { token_id } => {
                match self.nft_info(store, token_id.as_str()) {
                    Ok(info) => Ok(QueryResponse::NftInfo(info)),
                    Err(e) => Err(e),
                }
            },
            QueryMsg::NftInfos { token_ids } => {
                let mut nfts: Vec<NftInfoAndIdResponse> = Vec::new();
                let mut k: usize = 0;
                while k < token_ids.len()
                    invariant
                        store.wf(),
                        msg matches QueryMsg::NftInfos { token_ids: ids } && ids == token_ids,
                        k <= token_ids@.len(),
                        nfts@.len() == k,
                        forall|m: int|
                            0 <= m < k ==> has_token(store.tokens@, (#[trigger] token_ids@[m])@)
                                && nfts@[m].token_id == token_ids@[m] && same_metadata(
                                nfts@[m].extension,
                                token(store.tokens@, token_ids@[m]@).metadata,
                            ),
                    decreases token_ids@.len() - k,
                {
                    match self.nft_info(store, token_ids[k].as_str()) {
                        Ok(info) => nfts.push(
                            NftInfoAndIdResponse {
                                token_id: token_ids[k].clone(),
                                extension: info.extension,
                            },
                        ),
                        Err(e) => {
                            proof {
                                let id = token_ids@[k as int];
                                assert(!has_token(store.tokens@, id@));
                            }
                            return Err(e);
                        },
                    }
                    k += 1;
                }
                Ok(QueryResponse::NftInfos(nfts))
            },
            QueryMsg::OwnerOf { token_id, include_expired } => {
                match self.nft_owner_of(store, token_id.as_str(), flag(include_expired)) {
                    Ok(resp) => Ok(QueryResponse::OwnerOf(resp)),
                    Err(e) => Err(e),
                }
            },
            QueryMsg::AllNftInfo { token_id, include_expired } => {
                match self.nft_all_info(store, token_id.as_str(), flag(include_expired)) {
                    Ok(resp) => Ok(QueryResponse::AllNftInfo(resp)),
                    Err(e) => Err(e),
                }
            },
            QueryMsg::Approvals { token_id, include_expired } => {
                match self.nft_approvals(store, token_id.as_str(), flag(include_expired)) {
                    Ok(resp) => Ok(QueryResponse::Approvals(resp)),
                    Err(e) => Err(e),
                }
            },
            QueryMsg::Approval { token_id, spender, include_expired } => {
                match self.nft_approval(store, token_id.as_str(), spender, flag(include_expired)) {
                    Ok(resp) => Ok(QueryResponse::Approval(resp)),
                    Err(e) => Err(e),
                }
            },
            _ => {
                let ibc_channel = match &store.ibc_channel {
                    Some(c) => Some(copy_channel(c)),
                    None => None,
                };
                Ok(QueryResponse::Info(InfoResp { ibc_channel }))
            },
        }
    }
}

/// Whether the expired approvals are asked for; they are not where nothing
/// is said.
fn flag(include_expired: Option<bool>) -> (r: bool)
    ensures
        r == wants_expired(include_expired),
{
    match include_expired {
        Some(b) => b,
        None => false,
    }
}

/// A query that asks for the expired approvals too shows all of them.
pub proof fn lemma_all_shown(approvals: Seq<Approval>, height: u64, time: u64)
    ensures
        shown_approvals(approvals, true, height, time) == approvals,
    decreases approvals.len(),
{
    if approvals.len() > 0 {
        lemma_all_shown(approvals.drop_last(), height, time);
        assert(approvals.drop_last().push(approvals.last()) =~= approvals);
    } else {
        assert(approvals =~= Seq::<Approval>::empty());
    }
}

} // verus!
