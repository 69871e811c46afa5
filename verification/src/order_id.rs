//! The EIP-712 domain under which an order's id is derived: which exchange
//! contract and which domain version, by the version of the signed payload.
use vstd::prelude::*;

verus! {

/// The EIP-712 domain name of Polymarket's CTF exchange.
pub const ORDER_DOMAIN_NAME: &'static str = "Polymarket CTF Exchange";

/// The chain orders are signed for: Polygon.
pub const ORDER_CHAIN_ID: u64 = 137;

/// The version of a signed order's payload.
#[derive(Clone, Copy, Debug, PartialEq, Eq, Structural)]
pub enum PayloadVersion {
    V1,
    V2,
    /// A payload version this runner does not know.
    Other,
}

/// The exchange contracts configured for a market.
#[derive(Clone, Copy, Debug, PartialEq, Eq)]
pub struct ExchangeConfig {
    pub exchange: [u8; 20],
    pub exchange_v2: Option<[u8; 20]>,
}

/// The EIP-712 domain an order id is derived under (it has no salt).
#[derive(Clone, Copy, Debug, PartialEq, Eq)]
pub struct OrderDomain {
    pub name: &'static str,
    pub chain_id: u64,
    /// The domain version, `1` or `2`.
    pub version: u8,
    pub verifying_contract: [u8; 20],
}

/// Why no domain could be chosen.
#[derive(Clone, Copy, Debug, PartialEq, Eq, Structural)]
pub enum DomainError {
    /// No contract configuration exists for the chain and market kind.
    NoContractConfig,
    /// The payload is V2 but no V2 exchange is configured.
    NoV2Exchange,
    /// The payload version is not one the order id can be derived for.
    UnsupportedPayload,
}

/// The domain an order's id is derived under: the exchange's name on
/// Polygon, and for a V2 payload version 2 and the V2 exchange, for a V1
/// payload version 1 and the original exchange.
pub fn order_domain(payload: PayloadVersion, config: Option<ExchangeConfig>) -> (r: Result<
    OrderDomain,
    DomainError,
>)
    ensures
        match config {
            None => r == Err::<OrderDomain, DomainError>(DomainError::NoContractConfig),
            Some(c) => match payload {
                PayloadVersion::V2 => match c.exchange_v2 {
                    Some(v2) => r matches Ok(d) && d.name@ == ORDER_DOMAIN_NAME@ && d.chain_id
                        == ORDER_CHAIN_ID && d.version == 2 && d.verifying_contract == v2,
                    None => r == Err::<OrderDomain, DomainError>(DomainError::NoV2Exchange),
                },
                PayloadVersion::V1 => r matches Ok(d) && d.name@ == ORDER_DOMAIN_NAME@ && d.chain_id
                    == ORDER_CHAIN_ID && d.version == 1 && d.verifying_contract == c.exchange,
                PayloadVersion::Other => r == Err::<OrderDomain, DomainError>(
                    DomainError::UnsupportedPayload,
                ),
            },
        },
{
    let config = match config {
        Some(c) => c,
        None => return Err(DomainError::NoContractConfig),
    };
    match payload {
        PayloadVersion::V2 => match config.exchange_v2 {
            Some(v2) => Ok(
                OrderDomain {
                    name: ORDER_DOMAIN_NAME,
                    chain_id: ORDER_CHAIN_ID,
                    version: 2,
                    verifying_contract: v2,
                },
            ),
            None => Err(DomainError::NoV2Exchange),
        },
        PayloadVersion::V1 => Ok(
            OrderDomain {
                name: ORDER_DOMAIN_NAME,
                chain_id: ORDER_CHAIN_ID,
                version: 1,
                verifying_contract: config.exchange,
            },
        ),
        PayloadVersion::Other => Err(DomainError::UnsupportedPayload),
    }
}

} // verus!
