//! The networks that a node can take part in.

use vstd::prelude::*;

verus! {

/// The version of the peer-to-peer protocol.
pub const P2P_NETWORK_VERSION: i32 = 1;

#[derive(Clone, Copy, Debug, PartialEq, Eq, Structural)]
pub enum BaseCurrencyNetwork {
    Main,
    Test,
    Regtest,
    DaoBeta,
    DaoRegtest,
}

impl BaseCurrencyNetwork {
    /// The number that stands for the network in a message version.
    pub open spec fn spec_id(self) -> i32 {
        match self {
            BaseCurrencyNetwork::Main => 0,
            BaseCurrencyNetwork::Test => 1,
            BaseCurrencyNetwork::Regtest => 2,
            BaseCurrencyNetwork::DaoBeta => 3,
            BaseCurrencyNetwork::DaoRegtest => 4,
        }
    }

    #[verifier::when_used_as_spec(spec_id)]
    pub fn id(self) -> (id: i32)
        ensures
            id == self.spec_id(),
    {
        match self {
            BaseCurrencyNetwork::Main => 0,
            BaseCurrencyNetwork::Test => 1,
            BaseCurrencyNetwork::Regtest => 2,
            BaseCurrencyNetwork::DaoBeta => 3,
            BaseCurrencyNetwork::DaoRegtest => 4,
        }
    }
}

} // verus!
