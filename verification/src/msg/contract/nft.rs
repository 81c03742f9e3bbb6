//! Messages of the receipt ledger, whose tokens stand for purchases.

use crate::ibc::IbcChannel;
use cosmwasm_std::Timestamp;
use vstd::prelude::*;

verus! {

/// The height and time of the block in which a handler runs.
#[derive(Clone, Debug, PartialEq, Eq)]
pub struct BlockInfo {
    pub height: u64,
    /// Nanoseconds since the epoch.
    pub time_nanos: u64,
    pub chain_id: String,
}

/// The moment at which a grant ends.
#[derive(Clone, Copy, Debug, PartialEq, Eq, Structural)]
pub enum Expiration {
    /// Ends once the block height reaches the given height.
    AtHeight(u64),
    /// Ends once the block time reaches the given time, in nanoseconds.
    AtTime(u64),
    /// Never ends.
    Never {  },
}

impl Expiration {
    /// Whether the grant has ended at the given height and time.
    pub open spec fn spec_is_expired(self, height: u64, time_nanos: u64) -> bool {
        match self {
            Expiration::AtHeight(h) => height >= h,
            Expiration::AtTime(t) => time_nanos >= t,
            Expiration::Never {  } => false,
        }
    }

    /// Whether the grant has ended in the given block.
    pub fn is_expired(&self, block: &BlockInfo) -> (r: bool)
        ensures
            r == self.spec_is_expired(block.height, block.time_nanos),
    {
        cw_utils_is_expired(*self, block.height, block.time_nanos)
    }
}

/// `cw_utils::Expiration::is_expired`: a height or a time has expired once
/// the block has reached it; `Never` does not expire. The block's chain id
/// plays no part, so the call is made with an empty one.
#[verifier::external_body]
fn cw_utils_is_expired(expires: Expiration, height: u64, time_nanos: u64) -> (r: bool)
    ensures
        r == expires.spec_is_expired(height, time_nanos),
{
    let outside = match expires {
        Expiration::AtHeight(h) => cw_utils::Expiration::AtHeight(h),
        Expiration::AtTime(t) => cw_utils::Expiration::AtTime(Timestamp::from_nanos(t)),
        Expiration::Never {  } => cw_utils::Expiration::Never {  },
    };
    let time = Timestamp::from_nanos(time_nanos);
    outside.is_expired(&cosmwasm_std::BlockInfo { height, time, chain_id: String::new() })
}

/// The receipt ledger is set up without parameters.
#[derive(Clone, Copy, Debug, PartialEq, Eq)]
pub struct InstantiateMsg {}

/// What the warehouse can ask of the receipt ledger by packet.
#[derive(Clone, Debug, PartialEq, Eq)]
pub enum IbcExecuteMsg {
    /// Issue a receipt with the given metadata to `owner`.
    Mint { owner: String, metadata: Metadata },
}

/// What a user can ask of the receipt ledger.
#[derive(Clone, Debug, PartialEq, Eq)]
pub enum ExecuteMsg {
    /// Move a token to another account.
    TransferNft { recipient: String, token_id: String },
    /// Move a token to a contract and hand it `msg`.
    SendNft { contract: String, token_id: String, msg: Vec<u8> },
    /// Let `spender` move the token, until `expires`.
    Approve { spender: String, token_id: String, expires: Option<Expiration> },
    /// Take back an approval.
    Revoke { spender: String, token_id: String },
    /// Let `operator` move every token of the sender, until `expires`.
    ApproveAll { operator: String, expires: Option<Expiration> },
    /// Take back an operator's grant.
    RevokeAll { operator: String },
    /// Destroy a token, and with it the purchase that it stands for.
    Burn { token_id: String },
}

/// The queries of the receipt ledger.
#[derive(Clone, Debug, PartialEq, Eq)]
pub enum QueryMsg {
    /// The owner of a token and the approvals on it.
    OwnerOf { token_id: String, include_expired: Option<bool> },
    /// The approval of one spender on a token.
    Approval { token_id: String, spender: String, include_expired: Option<bool> },
    /// All approvals on a token.
    Approvals { token_id: String, include_expired: Option<bool> },
    /// The operators of an owner.
    AllOperators {
        owner: String,
        include_expired: Option<bool>,
        start_after: Option<String>,
        limit: Option<u32>,
    },
    /// The number of tokens.
    NumTokens {  },
    /// Name and symbol of the collection.
    ContractInfo {  },
    /// The metadata of a token.
    NftInfo { token_id: String },
    /// Owner, approvals and metadata of a token.
    AllNftInfo { token_id: String, include_expired: Option<bool> },
    /// The tokens of an owner, in ascending order of id.
    Tokens { owner: String, start_after: Option<String>, limit: Option<u32> },
    /// All tokens, in ascending order of id.
    AllTokens { start_after: Option<String>, limit: Option<u32> },
    /// The channel to the warehouse.
    IbcChannel {  },
    /// The metadata of several tokens.
    NftInfos { token_ids: Vec<String> },
    /// General information about the ledger.
    Info {  },
}

/// The answer to `QueryMsg::Info`.
#[derive(Clone, Debug, PartialEq, Eq)]
pub struct InfoResp {
    pub ibc_channel: Option<IbcChannel>,
}

/// The receipt ledger migrates without parameters.
#[derive(Clone, Copy, Debug, PartialEq, Eq)]
pub struct MigrateMsg {}

/// The answer to `QueryMsg::OwnerOf`.
#[derive(Clone, Debug, PartialEq, Eq)]
pub struct OwnerOfResponse {
    pub owner: String,
    pub approvals: Vec<Approval>,
}

/// The answer to `QueryMsg::Approval`.
#[derive(Clone, Debug, PartialEq, Eq)]
pub struct ApprovalResponse {
    pub approval: Approval,
}

/// The answer to `QueryMsg::Approvals`.
#[derive(Clone, Debug, PartialEq, Eq)]
pub struct ApprovalsResponse {
    pub approvals: Vec<Approval>,
}

/// The answer to `QueryMsg::AllOperators`.
#[derive(Clone, Debug, PartialEq, Eq)]
pub struct OperatorsResponse {
    pub operators: Vec<Approval>,
}

/// The answer to `QueryMsg::NumTokens`.
#[derive(Clone, Copy, Debug, PartialEq, Eq)]
pub struct NumTokensResponse {
    pub count: u64,
}

/// The answer to `QueryMsg::ContractInfo`.
#[derive(Clone, Debug, PartialEq, Eq)]
pub struct NftContractInfo {
    pub name: String,
    pub symbol: String,
}

/// The answer to `QueryMsg::NftInfo`.
#[derive(Clone, Debug, PartialEq, Eq)]
pub struct NftInfoResponse {
    pub extension: Metadata,
}

/// One entry of the answer to `QueryMsg::NftInfos`.
#[derive(Clone, Debug, PartialEq, Eq)]
pub struct NftInfoAndIdResponse {
    pub token_id: String,
    pub extension: Metadata,
}

/// The answer to `QueryMsg::AllNftInfo`.
#[derive(Clone, Debug, PartialEq, Eq)]
pub struct AllNftInfoResponse {
    pub access: OwnerOfResponse,
    pub info: NftInfoResponse,
}

/// The answer to `QueryMsg::Tokens` and `QueryMsg::AllTokens`.
#[derive(Clone, Debug, PartialEq, Eq)]
pub struct TokensResponse {
    pub tokens: Vec<String>,
}

/// The right of `spender` to move a token, until `expires`.
#[derive(Clone, Debug, PartialEq, Eq)]
pub struct Approval {
    pub spender: String,
    pub expires: Expiration,
}

impl Approval {
    /// Whether the approval has ended in the given block.
    pub fn is_expired(&self, block: &BlockInfo) -> (r: bool)
        ensures
            r == self.expires.spec_is_expired(block.height, block.time_nanos),
    {
        self.expires.is_expired(block)
    }
}

/// All that the ledger keeps of a token.
#[derive(Clone, Debug, PartialEq, Eq)]
pub struct FullTokenInfo {
    pub owner: String,
    pub approvals: Vec<Approval>,
    pub extension: Metadata,
}

/// The metadata of a token.
#[derive(Clone, Debug, PartialEq, Eq)]
pub struct Metadata {
    pub image: Option<String>,
    pub image_data: Option<String>,
    pub external_url: Option<String>,
    pub description: Option<String>,
    pub name: Option<String>,
    pub attributes: Option<Vec<Trait>>,
    pub background_color: Option<String>,
    pub animation_url: Option<String>,
    pub youtube_url: Option<String>,
}

impl Default for Metadata {
    fn default() -> (r: Metadata)
        ensures
            r == (Metadata {
                image: None,
                image_data: None,
                external_url: None,
                description: None,
                name: None,
                attributes: None,
                background_color: None,
                animation_url: None,
                youtube_url: None,
            }),
    {
        Metadata {
            image: None,
            image_data: None,
            external_url: None,
            description: None,
            name: None,
            attributes: None,
            background_color: None,
            animation_url: None,
            youtube_url: None,
        }
    }
}

/// One attribute of a token.
#[derive(Clone, Debug, PartialEq, Eq)]
pub struct Trait {
    pub display_type: Option<String>,
    pub trait_type: String,
    pub value: String,
}

/// What a contract is handed with a token that was sent to it.
#[derive(Clone, Debug, PartialEq, Eq)]
pub struct Cw721ReceiveMsg {
    pub sender: String,
    pub token_id: String,
    pub msg: Vec<u8>,
}

/// Report that a token was issued.
#[derive(Clone, Debug, PartialEq, Eq)]
pub struct MintEvent {
    pub token_id: String,
    pub owner: String,
}

/// Report that a token was destroyed.
#[derive(Clone, Debug, PartialEq, Eq)]
pub struct BurnEvent {
    pub token_id: String,
}

/// Report that an approval was granted.
#[derive(Clone, Debug, PartialEq, Eq)]
pub struct ApprovalEvent {
    pub token_id: String,
    pub spender: String,
    pub expires: Expiration,
}

/// Report that an approval was taken back.
#[derive(Clone, Debug, PartialEq, Eq)]
pub struct RevokeEvent {
    pub token_id: String,
    pub spender: String,
}

/// Report that an operator was granted every token of an owner.
#[derive(Clone, Debug, PartialEq, Eq)]
pub struct ApproveAllEvent {
    pub operator: String,
    pub expires: Expiration,
}

/// Report that an operator's grant was taken back.
#[derive(Clone, Debug, PartialEq, Eq)]
pub struct RevokeAllEvent {
    pub operator: String,
}

/// Report that a token has a new owner.
#[derive(Clone, Debug, PartialEq, Eq)]
pub struct TransferEvent {
    pub recipient: String,
    pub token_id: String,
}

} // verus!
