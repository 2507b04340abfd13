//! The node as a whole.

use crate::bisq::constants::BaseCurrencyNetwork;
use vstd::prelude::*;

pub mod data_router;

verus! {

/// How the node's hidden service is set up.
#[derive(Clone, Debug, PartialEq, Eq)]
pub struct TorConfig {
    pub hidden_service_port: u16,
    pub tc_port: u16,
    pub private_key_path: String,
}

pub struct DaemonConfig {
    pub api_port: u16,
    pub server_port: u16,
    pub network: BaseCurrencyNetwork,
    pub tor_config: Option<TorConfig>,
    pub tor_proxy_port: Option<u16>,
}

} // verus!
