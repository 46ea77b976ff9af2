use request_tracker::bundler::BundleGraph;
use request_tracker::bundler::BundlerPlugin;
use request_tracker::bundler::PluginConfig;

#[derive(Debug)]
struct TestBundlerPlugin {}

impl BundlerPlugin for TestBundlerPlugin {
    fn load_config(&mut self, _config: &PluginConfig) -> Result<(), anyhow::Error> {
        unreachable!()
    }

    fn bundle(&self, _bundle_graph: &mut BundleGraph) -> Result<(), anyhow::Error> {
        unreachable!()
    }

    fn optimize(&self, _bundle_graph: &mut BundleGraph) -> Result<(), anyhow::Error> {
        unreachable!()
    }
}

#[test]
fn can_be_dyn() {
    let _bundler: Box<dyn BundlerPlugin> = Box::new(TestBundlerPlugin {});
}
