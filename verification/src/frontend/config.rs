//! The storefront's settings and the deployments it can talk to.

use crate::frontend::route::Route;
use vstd::prelude::*;
use vstd::string::*;

verus! {

/// The set of chains that the storefront talks to.
#[derive(Debug, Copy, Clone, PartialEq, Eq, Structural)]
pub enum Environment {
    Local,
    Testnet,
}

impl Environment {
    /// The environment's name.
    pub open spec fn spec_name(self) -> Seq<char> {
        match self {
            Environment::Local => "local"@,
            Environment::Testnet => "testnet"@,
        }
    }

    /// The environment's name.
    pub fn as_str(&self) -> (r: &'static str)
        ensures
            r@ == self.spec_name(),
    {
        match self {
            Environment::Local => "local",
            Environment::Testnet => "testnet",
        }
    }

    /// The environment of the given name, if there is one.
    pub fn from_name(name: &str) -> (r: Option<Environment>)
        ensures
            r == (if name@ == "local"@ {
                Some(Environment::Local)
            } else if name@ == "testnet"@ {
                Some(Environment::Testnet)
            } else {
                None
            }),
    {
        let name = String::from_str(name);
        if name == String::from_str("local") {
            Some(Environment::Local)
        } else if name == String::from_str("testnet") {
            Some(Environment::Testnet)
        } else {
            None
        }
    }
}

/// The settings of the storefront.
#[derive(Debug, Clone, PartialEq)]
pub struct Config {
    /// The part of an address between the domain and the storefront's own
    /// paths; empty where the storefront is at the root.
    pub root_path: &'static str,
    /// Where the images are.
    pub media_root: &'static str,
    pub default_lang: Option<&'static str>,
    /// Whether to connect to the wallet at once.
    pub auto_connect: bool,
    /// The page to open once the wallet is connected.
    pub start_route: Option<Route>,
    pub query_poll_delay_ms: u32,
}

impl Config {
    /// The address of an image: the media root, a slash and the path.
    pub fn app_image_url(&self, path: &str) -> (r: String)
        ensures
            r@ == self.media_root@ + "/"@ + path@,
    {
        String::from_str(self.media_root).concat("/").concat(path)
    }
}

/// The contracts as deployed, by ledger and environment.
#[derive(Debug, Clone, PartialEq, Eq)]
pub struct DeployConfig {
    pub warehouse_testnet: DeployContactConfig,
    pub payment_testnet: DeployContactConfig,
    pub nft_testnet: DeployContactConfig,
    pub warehouse_local: DeployContactConfig,
    pub payment_local: DeployContactConfig,
    pub nft_local: DeployContactConfig,
}

/// One deployed contract.
#[derive(Debug, Clone, PartialEq, Eq)]
pub struct DeployContactConfig {
    pub code_id: u64,
    pub address: String,
    pub hash: String,
    pub ibc_port: String,
}

/// The chains, by ledger and environment.
#[derive(Debug, Clone, PartialEq, Eq)]
pub struct NetworkConfig {
    pub neutron_testnet: NetworkChainConfig,
    pub kujira_testnet: NetworkChainConfig,
    pub stargaze_testnet: NetworkChainConfig,
    pub neutron_local: NetworkChainConfig,
    pub kujira_local: NetworkChainConfig,
    pub stargaze_local: NetworkChainConfig,
}

/// How to reach one chain.
#[derive(Debug, Clone, PartialEq, Eq)]
pub struct NetworkChainConfig {
    pub rpc_url: String,
    pub rest_url: String,
    pub gas_price: String,
    pub full_denom: String,
    pub denom: String,
    pub chain_id: String,
    pub addr_prefix: String,
}

/// The three contracts.
#[derive(Debug, Clone, Copy, PartialEq, Eq, Structural)]
pub enum ContractName {
    Warehouse,
    Payment,
    Nft,
}

impl ContractName {
    /// The deployment of this contract in the given environment.
    pub open spec fn spec_deploy_config(self, env: Environment, config: DeployConfig)
        -> DeployContactConfig {
        match (self, env) {
            (ContractName::Warehouse, Environment::Local) => config.warehouse_local,
            (ContractName::Warehouse, Environment::Testnet) => config.warehouse_testnet,
            (ContractName::Payment, Environment::Local) => config.payment_local,
            (ContractName::Payment, Environment::Testnet) => config.payment_testnet,
            (ContractName::Nft, Environment::Local) => config.nft_local,
            (ContractName::Nft, Environment::Testnet) => config.nft_testnet,
        }
    }

    /// The deployment of this contract in the given environment.
    pub fn deploy_config<'a>(&self, env: Environment, config: &'a DeployConfig) -> (r:
        &'a DeployContactConfig)
        ensures
            *r == self.spec_deploy_config(env, *config),
    {
        match self {
            ContractName::Warehouse => match env {
                Environment::Local => &config.warehouse_local,
                Environment::Testnet => &config.warehouse_testnet,
            },
            ContractName::Payment => match env {
                Environment::Local => &config.payment_local,
                Environment::Testnet => &config.payment_testnet,
            },
            ContractName::Nft => match env {
                Environment::Local => &config.nft_local,
                Environment::Testnet => &config.nft_testnet,
            },
        }
    }

    /// The address of this contract in the given environment.
    pub fn addr(&self, env: Environment, config: &DeployConfig) -> (r: String)
        ensures
            r == self.spec_deploy_config(env, *config).address,
    {
        self.deploy_config(env, config).address.clone()
    }
}

} // verus!
