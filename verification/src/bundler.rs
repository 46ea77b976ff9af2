//! The pluggable bundling step: an external collaborator of the tracker
//! core. A concrete request wraps a plugin behind the `Request` contract;
//! the tracker itself never calls these hooks.

use vstd::prelude::*;

verus! {

#[verifier::external_type_specification]
#[verifier::external_body]
pub struct ExAnyhowError(anyhow::Error);

/// Configuration available to a plugin while it loads its own settings.
pub struct PluginConfig {
    /// The directory the plugin resolves its configuration from.
    pub project_root: String,
}

/// The work graph a bundler mutates, owned by the bundler's caller: the
/// assets under consideration and the bundles carved out of them so far,
/// both as opaque identities.
pub struct BundleGraph {
    pub assets: Vec<u64>,
    pub bundles: Vec<u64>,
}

/// Converts an asset graph into a BundleGraph.
///
/// Bundlers accept the entire asset graph and modify it to add bundle nodes
/// that group the assets into output bundles. `bundle` and `optimize` run in
/// series and are functionally identical; each is independently fallible.
///
/// Implementations live outside this crate and report failures through
/// anyhow::Error, the plugin ecosystem's opaque error value.
pub trait BundlerPlugin {
    /// A hook designed to load config necessary for the bundler to operate.
    ///
    /// This function will run once, shortly after the plugin is initialised.
    fn load_config(&mut self, config: &PluginConfig) -> Result<(), anyhow::Error>;

    /// Groups the graph's assets into output bundles.
    fn bundle(&self, bundle_graph: &mut BundleGraph) -> Result<(), anyhow::Error>;

    /// The follow-up pass over the bundles that `bundle` produced.
    fn optimize(&self, bundle_graph: &mut BundleGraph) -> Result<(), anyhow::Error>;
}

} // verus!
