//! The error taxonomy of the proxy: authorization, capacity, validation,
//! unsupported asset kinds, channel state and transport failures. Every
//! fallible function of the library says in its contract exactly which of
//! these it returns, and on which inputs.
use vstd::prelude::*;

verus! {

#[derive(Clone, Debug, PartialEq, Eq)]
pub enum ProxyError {
    /// The caller is not the stored admin.
    NotAdmin,
    /// The caller is not on the module whitelist.
    SenderNotWhitelisted,
    /// The address to add is already whitelisted.
    AlreadyInList,
    /// The address to remove is not whitelisted.
    NotInList,
    /// The whitelist already holds as many modules as the cap allows.
    ModuleLimitReached,
    /// The registry would grow past the asset cap.
    AssetsLimitReached,
    /// Two distinct assets carry no value reference; only the base asset may.
    MultipleBaseAssets,
    /// No asset without a value reference is registered.
    NoBaseAsset,
    /// The named asset is not in the registry.
    MissingAsset,
    /// The oracle cache holds no price for the pool.
    MissingPrice,
    /// No reserves and supply are known for the pool under an LP token.
    MissingPoolInfo,
    /// The address book has no entry for the contract.
    UnknownContract,
    /// The address book has no entry for the asset.
    UnknownAsset,
    /// A contract identifier is not of the form `protocol/contract_name`.
    BadEntryFormat,
    /// A pair name is not of the form `asset1_asset2`.
    BadPairFormat,
    /// The referenced asset is not a single fungible native token.
    Cw1155Unsupported,
    /// An `External` value reference has no valuation protocol yet.
    ExternalNotImplemented,
    /// A decimal numeral could not be parsed.
    DecimalParse,
    /// A value computation left the 128-bit range.
    Overflow,
    /// A value-reference chain does not terminate within the registry size.
    CyclicValueReference,
    /// The mutation would leave assets unresolvable or dependencies missing.
    BadUpdate,
    /// The channel has no remote account bound to it.
    ChannelNotBound,
    /// The remote account has not reported its address yet.
    NoRemoteAddress,
    /// The fee share must stay below one.
    InvalidFee,
    /// The acknowledgement carried an error from the remote side.
    RemoteError { message: String },
}

} // verus!
