//! The utility coin kinds and the on-chain type they denote.
//!
//! A coin kind names the struct type of its on-chain resource: the
//! address that published the defining module, and which module it is.

use vstd::prelude::*;

verus! {

/// An account address, as the plain value the coin logic reads of it.
#[derive(Clone, Copy, PartialEq, Eq, Structural, Debug)]
pub struct AccountAddress {
    /// The address value.
    pub value: u64,
}

/// The modules that define a coin resource.
#[derive(Clone, Copy, PartialEq, Eq, Structural, Debug)]
pub enum CoinModule {
    /// The chain's own utility coin module.
    CreditChainCoin,
    /// The placeholder coin module used by tests and tools.
    DummyCoin,
}

/// The on-chain type of a coin resource.
#[derive(Clone, Copy, PartialEq, Eq, Structural, Debug)]
pub struct TypeTag {
    /// The address that published the defining module.
    pub address: AccountAddress,
    /// The defining module.
    pub module: CoinModule,
}

/// A coin kind: which on-chain type its resource has, and where its
/// metadata lives.
pub trait CoinType {
    /// The on-chain type this kind denotes.
    spec fn type_tag_spec() -> TypeTag;

    /// The address holding this kind's coin metadata.
    spec fn coin_info_address_spec() -> AccountAddress;

    /// Returns the on-chain type of this kind.
    fn type_tag() -> (t: TypeTag)
        ensures
            t == Self::type_tag_spec(),
    ;

    /// Returns the address holding this kind's coin metadata.
    fn coin_info_address() -> (a: AccountAddress)
        ensures
            a == Self::coin_info_address_spec(),
    ;
}

/// The chain's utility coin.
#[derive(Clone, Copy, PartialEq, Eq, Structural, Debug)]
pub struct CreditChainCoinType;

impl CoinType for CreditChainCoinType {
    open spec fn type_tag_spec() -> TypeTag {
        TypeTag { address: AccountAddress { value: 1 }, module: CoinModule::CreditChainCoin }
    }

    open spec fn coin_info_address_spec() -> AccountAddress {
        AccountAddress { value: 1 }
    }

    fn type_tag() -> (t: TypeTag) {
        TypeTag { address: AccountAddress { value: 1 }, module: CoinModule::CreditChainCoin }
    }

    fn coin_info_address() -> (a: AccountAddress) {
        AccountAddress { value: 1 }
    }
}

/// The placeholder coin used by tests and tools.
#[derive(Clone, Copy, PartialEq, Eq, Structural, Debug)]
pub struct DummyCoinType;

impl CoinType for DummyCoinType {
    open spec fn type_tag_spec() -> TypeTag {
        TypeTag { address: AccountAddress { value: 1 }, module: CoinModule::DummyCoin }
    }

    open spec fn coin_info_address_spec() -> AccountAddress {
        AccountAddress { value: 1 }
    }

    fn type_tag() -> (t: TypeTag) {
        TypeTag { address: AccountAddress { value: 1 }, module: CoinModule::DummyCoin }
    }

    fn coin_info_address() -> (a: AccountAddress) {
        AccountAddress { value: 1 }
    }
}

} // verus!
