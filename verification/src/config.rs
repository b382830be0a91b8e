//! Node configuration: the logical networks to participate in and the
//! per-application queue capacities. All of it is external input, validated
//! here before anything is built.

use vstd::prelude::*;
use crate::error::FatalError;
use crate::ids::NetworkId;

verus! {

/// Configuration of one logical network.
#[derive(Clone, Copy, Debug)]
pub struct NetworkConfig {
    pub network_id: NetworkId,
    /// Both ends must authenticate each other. Mandatory on a network of
    /// the permissioned validator class.
    pub mutual_authentication: bool,
    /// Worker threads of the network's execution context; `None` leaves the
    /// choice to the runtime.
    pub runtime_threads: Option<usize>,
}

/// The node's configuration, restricted to what this layer reads.
#[derive(Clone, Debug)]
pub struct NodeConfig {
    /// Networks the node joins as a full node.
    pub full_node_networks: Vec<NetworkConfig>,
    /// The validator network, when the node runs one.
    pub validator_network: Option<NetworkConfig>,
    /// Per-application bounded-queue capacities (positive).
    pub consensus_max_network_channel_size: usize,
    pub mempool_max_network_channel_size: usize,
    pub peer_monitoring_max_network_channel_size: usize,
    pub storage_service_max_network_channel_size: usize,
}

impl NodeConfig {
    /// Queue capacities are positive, as the external configuration
    /// promises.
    pub open spec fn wf(&self) -> bool {
        &&& self.consensus_max_network_channel_size >= 1
        &&& self.mempool_max_network_channel_size >= 1
        &&& self.peer_monitoring_max_network_channel_size >= 1
        &&& self.storage_service_max_network_channel_size >= 1
    }

    /// The node's configuration declares a network of the permissioned
    /// validator class, among the full-node networks or as the dedicated
    /// validator network.
    pub open spec fn spec_has_validator_network(&self) -> bool {
        ||| exists|i: int|
            0 <= i < self.full_node_networks@.len() && (#[trigger] self.full_node_networks@[i]).network_id
                is Validator
        ||| (self.validator_network matches Some(v) && v.network_id is Validator)
    }

    /// The fatal misconfiguration: a validator-class network without mutual
    /// authentication. Running one would be a trust failure, not an
    /// operational one, so construction must abort before any network
    /// starts.
    pub open spec fn spec_validator_auth_violation(&self) -> bool {
        match self.validator_network {
            Some(v) => !v.mutual_authentication,
            None => false,
        }
    }

    /// The network ids of every configured network: the full-node networks
    /// in order, then the validator network if one is configured.
    pub open spec fn spec_network_ids(&self) -> Seq<NetworkId> {
        let base = self.full_node_networks@.map(|_i: int, c: NetworkConfig| c.network_id);
        match self.validator_network {
            Some(v) => base.push(v.network_id),
            None => base,
        }
    }
}

/// Whether the configuration declares any validator-class network, in the
/// full-node list or as the dedicated validator network.
pub fn has_validator_network(node_config: &NodeConfig) -> (r: bool)
    ensures
        r == node_config.spec_has_validator_network(),
{
    let n = node_config.full_node_networks.len();
    let mut i: usize = 0;
    while i < n
        invariant
            n == node_config.full_node_networks@.len(),
            i <= n,
            forall|k: int|
                0 <= k < i ==> !((#[trigger] node_config.full_node_networks@[k]).network_id
                    is Validator),
        decreases n - i,
    {
        if node_config.full_node_networks[i].network_id.is_validator_network() {
            return true;
        }
        i = i + 1;
    }
    match &node_config.validator_network {
        Some(v) => v.network_id.is_validator_network(),
        None => false,
    }
}

/// All network configs to build: the full-node networks followed by the
/// validator network, after checking the configuration invariant. A
/// validator-class network without mutual authentication is fatal, and
/// nothing is built from such a configuration.
pub fn extract_network_configs(node_config: &NodeConfig) -> (r: Result<Vec<NetworkConfig>, FatalError>)
    ensures
        match r {
            Ok(configs) => {
                &&& !node_config.spec_validator_auth_violation()
                &&& configs@.map(|_i: int, c: NetworkConfig| c.network_id)
                    == node_config.spec_network_ids()
                &&& configs@.len() == node_config.full_node_networks@.len() + (
                if node_config.validator_network is Some {
                    1int
                } else {
                    0int
                })
                &&& forall|k: int|
                    0 <= k < node_config.full_node_networks@.len() ==> #[trigger] configs@[k]
                        == node_config.full_node_networks@[k]
                &&& node_config.validator_network matches Some(v) ==> configs@.last() == v
            },
            Err(e) => {
                &&& e == FatalError::ValidatorMutualAuthenticationDisabled
                &&& node_config.spec_validator_auth_violation()
            },
        },
{
    let mut configs: Vec<NetworkConfig> = Vec::new();
    let n = node_config.full_node_networks.len();
    let mut i: usize = 0;
    while i < n
        invariant
            n == node_config.full_node_networks@.len(),
            i <= n,
            configs@.len() == i,
            forall|k: int|
                0 <= k < i ==> #[trigger] configs@[k] == node_config.full_node_networks@[k],
        decreases n - i,
    {
        configs.push(node_config.full_node_networks[i].clone());
        i = i + 1;
    }
    match &node_config.validator_network {
        Some(v) => {
            if !v.mutual_authentication {
                return Err(FatalError::ValidatorMutualAuthenticationDisabled);
            }
            configs.push(v.clone());
        },
        None => {},
    }
    proof {
        assert(configs@.map(|_i: int, c: NetworkConfig| c.network_id)
            =~= node_config.spec_network_ids());
    }
    Ok(configs)
}

/// The network ids of every configured network, full-node first, validator
/// last.
pub fn extract_network_ids(node_config: &NodeConfig) -> (r: Vec<NetworkId>)
    ensures
        r@ == node_config.spec_network_ids(),
{
    let mut out: Vec<NetworkId> = Vec::new();
    let n = node_config.full_node_networks.len();
    let mut i: usize = 0;
    while i < n
        invariant
            n == node_config.full_node_networks@.len(),
            i <= n,
            out@.len() == i,
            forall|k: int|
                0 <= k < i ==> #[trigger] out@[k] == node_config.full_node_networks@[k].network_id,
        decreases n - i,
    {
        out.push(node_config.full_node_networks[i].network_id);
        i = i + 1;
    }
    match &node_config.validator_network {
        Some(v) => {
            out.push(v.network_id);
        },
        None => {},
    }
    proof {
        assert(out@ =~= node_config.spec_network_ids());
    }
    out
}

/// Authentication-gate law: a configuration whose validator network lacks
/// mutual authentication is always rejected before any network is built,
/// and flipping only that flag to true makes the same configuration
/// acceptable.
pub proof fn lemma_validator_auth_gate(bad: NodeConfig, fixed: NodeConfig, v: NetworkConfig)
    requires
        bad.validator_network == Some(v),
        !v.mutual_authentication,
        fixed == (NodeConfig {
            validator_network: Some(NetworkConfig { mutual_authentication: true, ..v }),
            ..bad
        }),
    ensures
        bad.spec_validator_auth_violation(),
        !fixed.spec_validator_auth_violation(),
{
}

} // verus!
