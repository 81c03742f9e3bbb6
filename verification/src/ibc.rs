//! Channels between the ledgers and the handshake that opens them.

use crate::error::Error;
use vstd::prelude::*;
use vstd::string::*;

verus! {

/// Seconds after which a packet that was not delivered times out.
pub const TIMEOUT_SECONDS: u64 = 120;

/// Version of the channel between the warehouse and the payment ledger.
pub const PAYMENT_CHANNEL_VERSION: &'static str = "warehouse-payment-001";

/// Version of the channel between the warehouse and the receipt ledger.
pub const NFT_CHANNEL_VERSION: &'static str = "warehouse-nft-001";

/// One end of a channel.
#[derive(Clone, Debug, PartialEq, Eq)]
pub struct IbcEndpoint {
    pub port_id: String,
    pub channel_id: String,
}

/// Whether a channel delivers packets in the order in which they were sent.
#[derive(Clone, Copy, Debug, PartialEq, Eq, Structural)]
pub enum IbcOrder {
    Unordered,
    Ordered,
}

/// A channel as the handshake describes it.
#[derive(Clone, Debug, PartialEq, Eq)]
pub struct IbcChannel {
    pub endpoint: IbcEndpoint,
    pub counterparty_endpoint: IbcEndpoint,
    pub order: IbcOrder,
    pub version: String,
    pub connection_id: String,
}

/// A copy of a channel.
pub fn copy_channel(c: &IbcChannel) -> (r: IbcChannel)
    ensures
        r == *c,
{
    IbcChannel {
        endpoint: IbcEndpoint {
            port_id: c.endpoint.port_id.clone(),
            channel_id: c.endpoint.channel_id.clone(),
        },
        counterparty_endpoint: IbcEndpoint {
            port_id: c.counterparty_endpoint.port_id.clone(),
            channel_id: c.counterparty_endpoint.channel_id.clone(),
        },
        order: c.order,
        version: c.version.clone(),
        connection_id: c.connection_id.clone(),
    }
}

/// Whether the warehouse speaks the given channel version.
pub open spec fn is_known_version(version: Seq<char>) -> bool {
    version == PAYMENT_CHANNEL_VERSION@ || version == NFT_CHANNEL_VERSION@
}

/// What the handshake says of a channel: nothing where it is acceptable,
/// else the reason to reject it.
pub open spec fn spec_validate(channel: IbcChannel, counterparty_version: Option<String>)
    -> Option<Error> {
    if channel.order != IbcOrder::Ordered {
        Some(Error::InvalidChannelOrder)
    } else if !is_known_version(channel.version@) {
        Some(Error::InvalidChannelVersion)
    } else if counterparty_version is Some && counterparty_version->Some_0@ != channel.version@ {
        Some(Error::InvalidCounterpartyVersion)
    } else {
        None
    }
}

/// Accepts a channel that is ordered and whose version is one that the
/// warehouse speaks; where the counterparty has named a version, it must be
/// the same, letter for letter.
pub fn validate_ibc_channel_order_and_version(
    channel: &IbcChannel,
    counterparty_version: &Option<String>,
) -> (r: Result<(), Error>)
    ensures
        r == (match spec_validate(*channel, *counterparty_version) {
            Some(e) => Err::<(), Error>(e),
            None => Ok(()),
        }),
{
    match channel.order {
        IbcOrder::Ordered => {},
        IbcOrder::Unordered => {
            return Err(Error::InvalidChannelOrder);
        },
    }
    let payment = String::from_str(PAYMENT_CHANNEL_VERSION);
    let nft = String::from_str(NFT_CHANNEL_VERSION);
    if !(channel.version == payment) && !(channel.version == nft) {
        return Err(Error::InvalidChannelVersion);
    }
    match counterparty_version {
        Some(version) => {
            if !(*version == channel.version) {
                return Err(Error::InvalidCounterpartyVersion);
            }
        },
        None => {},
    }
    Ok(())
}

/// What the handshake of a ledger with one channel says of a channel:
/// nothing where it is acceptable and of the version `version`, else the
/// reason to reject it.
pub open spec fn spec_validate_for(
    channel: IbcChannel,
    counterparty_version: Option<String>,
    version: Seq<char>,
) -> Option<Error> {
    if channel.order != IbcOrder::Ordered {
        Some(Error::InvalidChannelOrder)
    } else if channel.version@ != version {
        Some(Error::InvalidChannelVersion)
    } else if counterparty_version is Some && counterparty_version->Some_0@ != channel.version@ {
        Some(Error::InvalidCounterpartyVersion)
    } else {
        None
    }
}

/// Accepts a channel that is ordered and of the version `version`; where the
/// counterparty has named a version, it must be the same, letter for letter.
pub fn validate_ibc_channel_for(
    channel: &IbcChannel,
    counterparty_version: &Option<String>,
    version: &str,
) -> (r: Result<(), Error>)
    ensures
        r == (match spec_validate_for(*channel, *counterparty_version, version@) {
            Some(e) => Err::<(), Error>(e),
            None => Ok(()),
        }),
{
    match channel.order {
        IbcOrder::Ordered => {},
        IbcOrder::Unordered => {
            return Err(Error::InvalidChannelOrder);
        },
    }
    if !(channel.version == String::from_str(version)) {
        return Err(Error::InvalidChannelVersion);
    }
    match counterparty_version {
        Some(proposed) => {
            if !(*proposed == channel.version) {
                return Err(Error::InvalidCounterpartyVersion);
            }
        },
        None => {},
    }
    Ok(())
}

/// The time, in nanoseconds, at which a packet sent at `now_nanos` times out.
pub open spec fn spec_packet_timeout(now_nanos: u64) -> int {
    now_nanos + TIMEOUT_SECONDS * 1_000_000_000
}

/// The time at which a packet sent now times out, where the clock allows it.
pub fn packet_timeout(now_nanos: u64) -> (r: Result<u64, Error>)
    ensures
        r == (if spec_packet_timeout(now_nanos) <= u64::MAX {
            Ok::<u64, Error>(spec_packet_timeout(now_nanos) as u64)
        } else {
            Err(Error::Overflow)
        }),
{
    match now_nanos.checked_add(TIMEOUT_SECONDS * 1_000_000_000) {
        Some(t) => Ok(t),
        None => Err(Error::Overflow),
    }
}

} // verus!
