//! Per-network orchestration: for each configured physical network, an
//! isolated execution context is planned, the handshake/transport layer is
//! built, and the network is started — in that order, as a small state
//! machine. The actual thread pool and transport are outside work performed
//! by the embedding program; this layer decides and records the steps, and
//! enforces the configuration invariant first: a validator-class network
//! without mutual authentication aborts setup before any network is built.

use vstd::prelude::*;
use vstd::string::StringExecFns;
use crate::config::NetworkConfig;
use crate::config::NodeConfig;
use crate::config::extract_network_configs;
use crate::error::FatalError;
use crate::ids::ChainId;
use crate::ids::NetworkId;

verus! {

/// Lifecycle of one physical network's orchestration.
#[derive(Clone, Copy, Debug, PartialEq, Eq, Structural)]
pub enum NetworkStage {
    Unconfigured,
    RuntimeCreated,
    HandshakeBuilt,
    Started,
}

/// The planned execution context of one network: an isolated worker pool,
/// named after the network (the name keeps the first three characters of
/// the network id) and sized by its configuration.
pub struct NetworkRuntime {
    pub network_id: NetworkId,
    pub thread_name: String,
    pub runtime_threads: Option<usize>,
}

/// The thread-pool name of a network's execution context.
pub open spec fn spec_runtime_thread_name(n: NetworkId) -> Seq<char> {
    match n {
        NetworkId::Validator => "network-val"@,
        NetworkId::Vfn => "network-vfn"@,
        NetworkId::Public => "network-pub"@,
    }
}

/// Plan the execution context for one network.
pub fn create_network_runtime(network_config: &NetworkConfig) -> (r: NetworkRuntime)
    ensures
        r.network_id == network_config.network_id,
        r.thread_name@ == spec_runtime_thread_name(network_config.network_id),
        r.runtime_threads == network_config.runtime_threads,
{
    let thread_name = match network_config.network_id {
        NetworkId::Validator => String::from_str("network-val"),
        NetworkId::Vfn => String::from_str("network-vfn"),
        NetworkId::Public => String::from_str("network-pub"),
    };
    NetworkRuntime {
        network_id: network_config.network_id,
        thread_name,
        runtime_threads: network_config.runtime_threads,
    }
}

/// Orchestration state of one physical network. Stages advance strictly in
/// order: context first, then the handshake layer, then the start.
pub struct NetworkOrchestrator {
    pub config: NetworkConfig,
    pub chain_id: ChainId,
    pub runtime: Option<NetworkRuntime>,
    pub stage: NetworkStage,
}

impl NetworkOrchestrator {
    /// The runtime exists exactly from the moment its stage was reached.
    pub open spec fn wf(&self) -> bool {
        &&& (self.runtime is Some <==> !(self.stage is Unconfigured))
        &&& self.runtime matches Some(rt) ==> rt.network_id == self.config.network_id
            && rt.runtime_threads == self.config.runtime_threads
    }

    /// A fresh orchestrator for one configured network.
    pub fn new(config: &NetworkConfig, chain_id: ChainId) -> (r: Self)
        ensures
            r.wf(),
            r.stage is Unconfigured,
            r.config == *config,
            r.chain_id == chain_id,
    {
        NetworkOrchestrator {
            config: *config,
            chain_id,
            runtime: None,
            stage: NetworkStage::Unconfigured,
        }
    }

    /// Allocate the isolated execution context.
    pub fn create_runtime(&mut self)
        requires
            old(self).wf(),
            old(self).stage is Unconfigured,
        ensures
            final(self).wf(),
            final(self).stage is RuntimeCreated,
            final(self).config == old(self).config,
            final(self).chain_id == old(self).chain_id,
            final(self).runtime matches Some(rt) && rt.thread_name@ == spec_runtime_thread_name(
                old(self).config.network_id,
            ),
    {
        self.runtime = Some(create_network_runtime(&self.config));
        self.stage = NetworkStage::RuntimeCreated;
    }

    /// Construct the handshake/transport layer inside the context, bound to
    /// the network's shared registries (the construction itself is outside
    /// work of the embedding program).
    pub fn build_handshake(&mut self)
        requires
            old(self).wf(),
            old(self).stage is RuntimeCreated,
        ensures
            final(self).wf(),
            final(self).stage is HandshakeBuilt,
            final(self).config == old(self).config,
            final(self).chain_id == old(self).chain_id,
            final(self).runtime == old(self).runtime,
    {
        self.stage = NetworkStage::HandshakeBuilt;
    }

    /// Start the network on its context's scheduling handle.
    pub fn start(&mut self)
        requires
            old(self).wf(),
            old(self).stage is HandshakeBuilt,
        ensures
            final(self).wf(),
            final(self).stage is Started,
            final(self).config == old(self).config,
            final(self).chain_id == old(self).chain_id,
            final(self).runtime == old(self).runtime,
    {
        self.stage = NetworkStage::Started;
    }
}

/// Orchestrate every configured network: validate the configuration, then
/// for each network plan its execution context, build its handshake layer,
/// and start it. A validator-class network without mutual authentication
/// aborts before any network is built; otherwise one started orchestrator
/// per configured network is returned, full-node networks first, the
/// validator network last.
pub fn setup_networks(node_config: &NodeConfig, chain_id: ChainId) -> (r: Result<
    Vec<NetworkOrchestrator>,
    FatalError,
>)
    ensures
        r is Err <==> node_config.spec_validator_auth_violation(),
        r matches Err(e) ==> e == FatalError::ValidatorMutualAuthenticationDisabled,
        r matches Ok(orchs) ==> {
            &&& orchs@.len() == node_config.spec_network_ids().len()
            &&& forall|i: int|
                0 <= i < orchs@.len() ==> (#[trigger] orchs@[i]).stage is Started && orchs@[i].wf()
                    && orchs@[i].config.network_id == node_config.spec_network_ids()[i]
                    && orchs@[i].runtime is Some && orchs@[i].chain_id == chain_id
            &&& forall|i: int|
                0 <= i < node_config.full_node_networks@.len() ==> (#[trigger] orchs@[i]).config
                    == node_config.full_node_networks@[i]
            &&& node_config.validator_network matches Some(v) ==> orchs@.last().config == v
        },
{
    let network_configs = match extract_network_configs(node_config) {
        Ok(cs) => cs,
        Err(e) => {
            return Err(e);
        },
    };
    let n = network_configs.len();
    let mut networks: Vec<NetworkOrchestrator> = Vec::new();
    let mut i: usize = 0;
    while i < n
        invariant
            n == network_configs@.len(),
            i <= n,
            networks@.len() == i,
            forall|k: int|
                0 <= k < i ==> (#[trigger] networks@[k]).stage is Started && networks@[k].wf()
                    && networks@[k].config == network_configs@[k] && networks@[k].runtime is Some
                    && networks@[k].chain_id == chain_id,
        decreases n - i,
    {
        let mut orchestrator = NetworkOrchestrator::new(&network_configs[i], chain_id);
        orchestrator.create_runtime();
        orchestrator.build_handshake();
        orchestrator.start();
        networks.push(orchestrator);
        i = i + 1;
    }
    proof {
        assert forall|k: int| 0 <= k < networks@.len() implies (#[trigger] networks@[k]).config.network_id
            == node_config.spec_network_ids()[k] by {
            assert(networks@[k].config == network_configs@[k]);
            assert(network_configs@.map(|_i: int, c: NetworkConfig| c.network_id)[k]
                == network_configs@[k].network_id);
        }
    }
    Ok(networks)
}

} // verus!
